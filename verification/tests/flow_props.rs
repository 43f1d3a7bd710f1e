use seed_core::config::{HumidityModel, WorldGenConfig};
use seed_core::fixed::FP_ONE;
use seed_core::flow::{downslope_map, flow_counts};
use seed_core::terrain::generate_heightmap_from_config;

fn plain_config(seed: u64) -> WorldGenConfig {
    WorldGenConfig {
        world_seed: seed,
        base_seed: seed,
        continental_scale_km: 400 * FP_ONE,
        mountain_amplitude_m: 3500 * FP_ONE,
        erosion_iterations: 4,
        river_density: FP_ONE,
        sea_level: 19661,
        sea_level_m: 0,
        max_relief_m: 3500 * FP_ONE,
        base_temperature_c: 14 * FP_ONE,
        humidity_global_mean: 32768,
        humidity_model: HumidityModel::Banded,
        lapse_rate_c_per_km: 6 * FP_ONE,
        precipitation_scale: FP_ONE,
        storm_frequency: 19661,
        storm_intensity_mean: 32768,
        biomes: Vec::new(),
    }
}

fn check_conservation(values: &Vec<i64>, width: u32, height: u32, threshold: Option<i64>) {
    let n = values.len();
    let ds = downslope_map(values, width, height, threshold);
    let flow = flow_counts(values, width, height, threshold);
    let mut sink_total: u64 = 0;
    for i in 0..n {
        assert!(flow[i] >= 1);
        assert!(flow[i] <= n as u64);
        if ds[i].is_none() {
            sink_total += flow[i];
        }
    }
    // Conservation: every cell's unit of flow ends at exactly one sink.
    assert_eq!(sink_total, n as u64);
}

#[test]
fn conservation_on_hand_built_grids() {
    // Monotone slope.
    let slope: Vec<i64> = vec![
        60000, 40000, 20000,
        60000, 40000, 20000,
        60000, 40000, 20000,
    ];
    check_conservation(&slope, 3, 3, None);
    // Flat field: every cell is its own sink.
    let flat: Vec<i64> = vec![500; 16];
    check_conservation(&flat, 4, 4, None);
    // A bowl draining to the center.
    let bowl: Vec<i64> = vec![
        9000, 8000, 9000,
        8000, 1000, 8000,
        9000, 8000, 9000,
    ];
    check_conservation(&bowl, 3, 3, None);
    let ds = downslope_map(&bowl, 3, 3, None);
    let flow = flow_counts(&bowl, 3, 3, None);
    assert!(ds[4].is_none());
    assert_eq!(flow[4], 9);
}

#[test]
fn conservation_on_generated_terrain() {
    let cfg = plain_config(31337);
    let hm = generate_heightmap_from_config(&cfg, 32, 32);
    check_conservation(&hm.values, 32, 32, None);
    // With a sea-level threshold, submerged cells become sinks.
    check_conservation(&hm.values, 32, 32, Some(19661));
}

#[test]
fn cells_below_threshold_have_no_downslope_target() {
    let slope: Vec<i64> = vec![
        60000, 40000, 20000,
        60000, 40000, 20000,
        60000, 40000, 20000,
    ];
    let ds = downslope_map(&slope, 3, 3, Some(45000));
    for i in 0..9 {
        if slope[i] <= 45000 {
            assert!(ds[i].is_none());
        }
    }
    // High cells still drain, and strictly downhill.
    for i in 0..9 {
        if let Some(t) = ds[i] {
            assert!(slope[t] < slope[i]);
        }
    }
}
