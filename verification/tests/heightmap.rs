use seed_core::config::{BiomeDefinition, HumidityModel, WorldGenConfig};
use seed_core::fixed::FP_ONE;
use seed_core::terrain::{compute_flow_accumulation, generate_heightmap_from_config, Heightmap};

fn biome(
    id: &str,
    t: (i64, i64),
    h: (i64, i64),
    e: (i64, i64),
    p: (i64, i64),
) -> BiomeDefinition {
    BiomeDefinition {
        id: id.to_string(),
        temperature_min_c: t.0,
        temperature_max_c: t.1,
        humidity_min: h.0,
        humidity_max: h.1,
        elevation_min_m: e.0,
        elevation_max_m: e.1,
        precipitation_min_mm: p.0,
        precipitation_max_mm: p.1,
        vegetation_density: 32768,
        allow_settlements: true,
    }
}

fn base_config(seed: u64) -> WorldGenConfig {
    WorldGenConfig {
        world_seed: seed,
        base_seed: seed,
        continental_scale_km: 400 * FP_ONE,
        mountain_amplitude_m: 3500 * FP_ONE,
        erosion_iterations: 6,
        river_density: FP_ONE,
        sea_level: 19661,
        sea_level_m: 0,
        max_relief_m: 3500 * FP_ONE,
        base_temperature_c: 14 * FP_ONE,
        humidity_global_mean: 32768,
        humidity_model: HumidityModel::Banded,
        lapse_rate_c_per_km: 6 * FP_ONE,
        precipitation_scale: FP_ONE,
        storm_frequency: 19661,
        storm_intensity_mean: 32768,
        biomes: vec![
            biome(
                "temperate_forest",
                (0, 25 * FP_ONE),
                (26214, 58982),
                (0, 1500 * FP_ONE),
                (400 * FP_ONE, 2500 * FP_ONE),
            ),
            biome(
                "hot_desert",
                (15 * FP_ONE, 50 * FP_ONE),
                (0, 22938),
                (0, 1200 * FP_ONE),
                (50 * FP_ONE, 400 * FP_ONE),
            ),
            biome(
                "tundra",
                (-30 * FP_ONE, 5 * FP_ONE),
                (13107, 45875),
                (0, 1800 * FP_ONE),
                (100 * FP_ONE, 800 * FP_ONE),
            ),
            biome(
                "cold_mountains",
                (-40 * FP_ONE, 10 * FP_ONE),
                (6554, 52429),
                (1500 * FP_ONE, 5000 * FP_ONE),
                (200 * FP_ONE, 1500 * FP_ONE),
            ),
        ],
    }
}

#[test]
fn config_validates() {
    assert!(base_config(42).validate().is_ok());
    let mut bad = base_config(42);
    bad.sea_level = -1;
    assert!(bad.validate().is_err());
}

#[test]
fn dual_sea_levels_raise_a_warning() {
    let mut cfg = base_config(42);
    cfg.sea_level_m = 10 * FP_ONE;
    assert!(cfg.sea_level_warning().is_some());
    cfg.sea_level_m = 0;
    assert!(cfg.sea_level_warning().is_none());
}

#[test]
fn heightmap_values_lie_in_unit_interval_and_attain_extremes() {
    let cfg = base_config(42);
    let hm = generate_heightmap_from_config(&cfg, 32, 32);
    assert_eq!(hm.width, 32);
    assert_eq!(hm.height, 32);
    assert_eq!(hm.values.len(), 32 * 32);
    let mut has_zero = false;
    let mut has_one = false;
    for &v in hm.values.iter() {
        assert!(0 <= v && v <= FP_ONE);
        if v == 0 {
            has_zero = true;
        }
        if v == FP_ONE {
            has_one = true;
        }
    }
    // A real noise-driven field is not flat, so both extremes are attained.
    assert!(has_zero);
    assert!(has_one);
}

#[test]
fn generation_is_deterministic() {
    let cfg = base_config(2024);
    let a = generate_heightmap_from_config(&cfg, 24, 24);
    let b = generate_heightmap_from_config(&cfg, 24, 24);
    assert_eq!(a.values, b.values);
    let bm_a = seed_core::biome::generate_biome_map_from_config(&cfg, &a);
    let bm_b = seed_core::biome::generate_biome_map_from_config(&cfg, &b);
    assert_eq!(bm_a.indices, bm_b.indices);
}

#[test]
fn different_seeds_differ_on_64_by_64() {
    let a = generate_heightmap_from_config(&base_config(1), 64, 64);
    let b = generate_heightmap_from_config(&base_config(2), 64, 64);
    assert!(a.values != b.values);
}

#[test]
fn zero_area_grid_is_empty() {
    let cfg = base_config(5);
    let hm = generate_heightmap_from_config(&cfg, 0, 16);
    assert_eq!(hm.values.len(), 0);
    let flow = compute_flow_accumulation(&hm, 19661);
    assert!(flow.is_empty());
}

#[test]
fn one_by_one_grid() {
    let cfg = base_config(5);
    let hm = generate_heightmap_from_config(&cfg, 1, 1);
    assert_eq!(hm.values.len(), 1);
    assert_eq!(hm.get(0, 0), 0);
}

#[test]
fn get_and_index_agree_with_row_major_layout() {
    let cfg = base_config(9);
    let hm = generate_heightmap_from_config(&cfg, 8, 5);
    for y in 0..5u32 {
        for x in 0..8u32 {
            assert_eq!(hm.index(x, y), (y * 8 + x) as usize);
            assert_eq!(hm.get(x, y), hm.values[(y * 8 + x) as usize]);
        }
    }
}

#[test]
fn sample_chunk_copies_the_window() {
    let cfg = base_config(9);
    let hm = generate_heightmap_from_config(&cfg, 16, 16);
    let chunk = hm.sample_chunk(4, 6, 5, 3);
    assert_eq!(chunk.width, 5);
    assert_eq!(chunk.height, 3);
    assert_eq!(chunk.values.len(), 15);
    for j in 0..3u32 {
        for i in 0..5u32 {
            assert_eq!(
                chunk.values[(j * 5 + i) as usize],
                hm.get(4 + i, 6 + j)
            );
        }
    }
}

#[test]
fn sample_chunk_clips_at_the_border() {
    let cfg = base_config(9);
    let hm = generate_heightmap_from_config(&cfg, 10, 10);
    let chunk = hm.sample_chunk(8, 9, 5, 5);
    assert_eq!(chunk.width, 2);
    assert_eq!(chunk.height, 1);
    assert_eq!(chunk.values.len(), 2);
}

#[test]
fn flow_field_is_normalized() {
    let cfg = base_config(77);
    let hm = generate_heightmap_from_config(&cfg, 24, 24);
    let flow = compute_flow_accumulation(&hm, 19661);
    assert_eq!(flow.len(), hm.values.len());
    let mut max_seen = 0;
    for &f in flow.iter() {
        // Rounded up: every cell keeps a strictly positive share.
        assert!(1 <= f && f <= FP_ONE);
        if f > max_seen {
            max_seen = f;
        }
    }
    // The maximum-flow cell normalizes to exactly 1.0.
    assert_eq!(max_seen, FP_ONE);
}

#[test]
fn flow_field_on_a_hand_built_slope() {
    // A 3x3 map sloping down to the right; sea level below everything.
    let values: Vec<i64> = vec![
        60000, 40000, 20000,
        60000, 40000, 20000,
        60000, 40000, 20000,
    ];
    let hm = Heightmap { width: 3, height: 3, values };
    let flow = compute_flow_accumulation(&hm, 0);
    // Every cell drains toward the rightmost column, so the right column
    // carries the most flow and is normalized to 1.0 at its maximum.
    assert_eq!(flow.len(), 9);
    assert!(flow[2] == FP_ONE || flow[5] == FP_ONE || flow[8] == FP_ONE);
    for x in 0..2usize {
        for y in 0..3usize {
            assert!(flow[y * 3 + x] <= flow[y * 3 + x + 1]);
        }
    }
}
