use seed_core::biome::{
    biome_score, choose_biome, generate_biome_map_from_config, smooth_biome_map, BiomeMap,
};
use seed_core::climate::{sample_climate, ClimateSample};
use seed_core::config::{BiomeDefinition, HumidityModel, WorldGenConfig};
use seed_core::canyon::apply_canyon_erosion;
use seed_core::fixed::FP_ONE;
use seed_core::grid::RawElevationField;
use seed_core::hydro::apply_flow_erosion;
use seed_core::lakes::apply_lake_formation;
use seed_core::noise_field::NoiseField;
use seed_core::normalize::normalize_values;
use seed_core::smooth::apply_gaussian_smooth;
use seed_core::terrain::{generate_heightmap_from_config, Heightmap};
use seed_core::thermal::apply_thermal_erosion;

fn biome(
    id: &str,
    t: (i64, i64),
    h: (i64, i64),
    e: (i64, i64),
    p: (i64, i64),
) -> BiomeDefinition {
    BiomeDefinition {
        id: id.to_string(),
        temperature_min_c: t.0,
        temperature_max_c: t.1,
        humidity_min: h.0,
        humidity_max: h.1,
        elevation_min_m: e.0,
        elevation_max_m: e.1,
        precipitation_min_mm: p.0,
        precipitation_max_mm: p.1,
        vegetation_density: 32768,
        allow_settlements: true,
    }
}

fn base_config(seed: u64) -> WorldGenConfig {
    WorldGenConfig {
        world_seed: seed,
        base_seed: seed,
        continental_scale_km: 400 * FP_ONE,
        mountain_amplitude_m: 3500 * FP_ONE,
        erosion_iterations: 4,
        river_density: FP_ONE,
        sea_level: 19661,
        sea_level_m: 0,
        max_relief_m: 3500 * FP_ONE,
        base_temperature_c: 14 * FP_ONE,
        humidity_global_mean: 32768,
        humidity_model: HumidityModel::Banded,
        lapse_rate_c_per_km: 6 * FP_ONE,
        precipitation_scale: FP_ONE,
        storm_frequency: 19661,
        storm_intensity_mean: 32768,
        biomes: vec![
            biome(
                "temperate_forest",
                (0, 25 * FP_ONE),
                (26214, 58982),
                (0, 1500 * FP_ONE),
                (400 * FP_ONE, 2500 * FP_ONE),
            ),
            biome(
                "hot_desert",
                (15 * FP_ONE, 50 * FP_ONE),
                (0, 22938),
                (0, 1200 * FP_ONE),
                (50 * FP_ONE, 400 * FP_ONE),
            ),
            biome(
                "tundra",
                (-30 * FP_ONE, 5 * FP_ONE),
                (13107, 45875),
                (0, 1800 * FP_ONE),
                (100 * FP_ONE, 800 * FP_ONE),
            ),
        ],
    }
}

fn uniform_heightmap(width: u32, height: u32, v: i64) -> Heightmap {
    Heightmap { width, height, values: vec![v; (width * height) as usize] }
}

#[test]
fn climate_sample_exact_values_at_equator_sea_level() {
    let mut cfg = base_config(1);
    cfg.humidity_model = HumidityModel::EquatorFalloff;
    cfg.storm_frequency = 0;
    let s = sample_climate(&cfg, 0, 0);
    // base 14 plus the 8 degree equator boost.
    assert_eq!(s.temperature_c, 1441792);
    assert_eq!(s.humidity, 42598);
    assert_eq!(s.precipitation_mm_per_year, 49479000);
    assert_eq!(s.elevation_m, 0);
}

#[test]
fn climate_poles_are_colder_than_the_equator() {
    let cfg = base_config(1);
    let eq = sample_climate(&cfg, 0, 0);
    let pole = sample_climate(&cfg, FP_ONE, 0);
    assert!(pole.temperature_c < eq.temperature_c);
    let high = sample_climate(&cfg, 0, 3000 * FP_ONE);
    assert!(high.temperature_c < eq.temperature_c);
    assert!(high.humidity < eq.humidity);
}

#[test]
fn exactly_matching_biome_scores_zero_and_wins() {
    // Ranges whose midpoints equal the sample exactly, sample in range.
    let b = biome(
        "calibration",
        (5 * FP_ONE, 15 * FP_ONE),
        (26214, 39322),
        (400 * FP_ONE, 600 * FP_ONE),
        (800 * FP_ONE, 1200 * FP_ONE),
    );
    let s = ClimateSample {
        temperature_c: 10 * FP_ONE,
        humidity: 32768,
        precipitation_mm_per_year: 1000 * FP_ONE,
        elevation_m: 500 * FP_ONE,
    };
    assert_eq!(biome_score(&b, &s), 0);
    let off = biome(
        "off_center",
        (20 * FP_ONE, 30 * FP_ONE),
        (26214, 39322),
        (400 * FP_ONE, 600 * FP_ONE),
        (800 * FP_ONE, 1200 * FP_ONE),
    );
    assert!(biome_score(&off, &s) > 0);
    let biomes = vec![off, b];
    assert_eq!(choose_biome(&biomes, &s, 0), Some(1));
}

#[test]
fn half_range_scoring_prefers_near_center_over_edge() {
    // The sample sits exactly on biome A's temperature edge (one full
    // half-range from the center, squared deviation 1.0) and dead center of
    // biome B in every dimension except precipitation, whose range ends just
    // below the sample: B's small deviation plus the 0.3 out-of-range
    // penalty must still beat A's full edge deviation.
    let s = ClimateSample {
        temperature_c: 20 * FP_ONE,
        humidity: 32768,
        precipitation_mm_per_year: 1000 * FP_ONE,
        elevation_m: 500 * FP_ONE,
    };
    let a = biome(
        "edge_of_range",
        (0, 20 * FP_ONE),
        (26214, 39322),
        (400 * FP_ONE, 600 * FP_ONE),
        (800 * FP_ONE, 1200 * FP_ONE),
    );
    let b = biome(
        "just_outside",
        (15 * FP_ONE, 25 * FP_ONE),
        (26214, 39322),
        (400 * FP_ONE, 600 * FP_ONE),
        (800 * FP_ONE, 1000 * FP_ONE - 66),
    );
    let sa = biome_score(&a, &s);
    let sb = biome_score(&b, &s);
    // A is in range everywhere but a full half-range off in temperature.
    assert_eq!(sa, FP_ONE);
    assert!(sb < sa);
    assert_eq!(choose_biome(&vec![a, b], &s, 0), Some(1));
}

#[test]
fn best_match_prefers_strictly_lower_scores() {
    let cfg = base_config(1);
    let s = ClimateSample {
        temperature_c: 20 * FP_ONE,
        humidity: 13107,
        precipitation_mm_per_year: 200 * FP_ONE,
        elevation_m: 300 * FP_ONE,
    };
    let chosen = choose_biome(&cfg.biomes, &s, 0).unwrap();
    let chosen_score = biome_score(&cfg.biomes[chosen], &s);
    for b in cfg.biomes.iter() {
        assert!(chosen_score <= biome_score(b, &s));
    }
    // This hot dry sample is desert country.
    assert_eq!(chosen, 1);
}

#[test]
fn below_sea_level_means_no_biome() {
    let cfg = base_config(1);
    let s = ClimateSample {
        temperature_c: 10 * FP_ONE,
        humidity: 32768,
        precipitation_mm_per_year: 1000 * FP_ONE,
        elevation_m: 100 * FP_ONE,
    };
    assert_eq!(choose_biome(&cfg.biomes, &s, 200 * FP_ONE), None);
}

#[test]
fn sea_cells_carry_no_biome_in_generated_maps() {
    let cfg = base_config(99);
    let hm = generate_heightmap_from_config(&cfg, 32, 32);
    let bm = generate_biome_map_from_config(&cfg, &hm);
    assert_eq!(bm.width, 32);
    assert_eq!(bm.height, 32);
    for y in 0..32u32 {
        for x in 0..32u32 {
            if hm.get(x, y) <= cfg.sea_level + 131 {
                assert_eq!(bm.get_index(x, y), None);
            }
        }
    }
}

#[test]
fn land_biomes_come_from_the_configured_list() {
    // A west-to-east ramp from deep water to high ground: the eastern half
    // is land and must carry indices from the configured list.
    let cfg = base_config(99);
    let mut values: Vec<i64> = Vec::new();
    for _y in 0..16u32 {
        for x in 0..16u32 {
            values.push((x as i64) * FP_ONE / 15);
        }
    }
    let hm = Heightmap { width: 16, height: 16, values };
    let bm = generate_biome_map_from_config(&cfg, &hm);
    let mut assigned = 0;
    for y in 0..16u32 {
        for x in 0..16u32 {
            if let Some(b) = bm.get_index(x, y) {
                assert!(b < cfg.biomes.len());
                assigned += 1;
            }
        }
    }
    assert!(assigned > 0);
}

#[test]
fn empty_biome_list_degrades_to_no_biome_everywhere() {
    let mut cfg = base_config(7);
    cfg.biomes = Vec::new();
    let hm = generate_heightmap_from_config(&cfg, 16, 16);
    let bm = generate_biome_map_from_config(&cfg, &hm);
    for y in 0..16u32 {
        for x in 0..16u32 {
            assert_eq!(bm.get_index(x, y), None);
        }
    }
}

#[test]
fn uniform_water_world_is_uniformly_unassigned() {
    // A flat raw field normalizes to a uniform all-zero heightmap, which
    // lies below sea level everywhere.
    let cfg = base_config(3);
    let hm = uniform_heightmap(4, 4, 0);
    let bm = generate_biome_map_from_config(&cfg, &hm);
    for y in 0..4u32 {
        for x in 0..4u32 {
            assert_eq!(bm.get_index(x, y), None);
        }
    }
}

#[test]
fn uniform_land_with_single_biome_is_uniformly_that_biome() {
    let mut cfg = base_config(3);
    cfg.biomes = vec![biome(
        "the_only_one",
        (-50 * FP_ONE, 60 * FP_ONE),
        (0, FP_ONE),
        (0, 5000 * FP_ONE),
        (0, 4000 * FP_ONE),
    )];
    let hm = uniform_heightmap(4, 4, 32768);
    let bm = generate_biome_map_from_config(&cfg, &hm);
    for y in 0..4u32 {
        for x in 0..4u32 {
            assert_eq!(bm.get_index(x, y), Some(0));
        }
    }
}

#[test]
fn uniform_raw_field_through_the_pipeline_stays_uniform() {
    // The zero-variance provider and a flat raw field: every erosion stage
    // leaves the field unchanged and normalization gives a uniform map.
    let mut field = RawElevationField { width: 4, height: 4, values: vec![6554; 16] };
    let silent = NoiseField::with_amplitude(12345, 0);
    apply_thermal_erosion(&mut field, 8, 1311, 14418);
    apply_flow_erosion(&mut field, 14418, 120, 655);
    apply_lake_formation(&mut field, &silent, 7864, 786);
    apply_canyon_erosion(&mut field, &silent, 655);
    apply_gaussian_smooth(&mut field, 4);
    assert_eq!(field.values, vec![6554; 16]);
    let normalized = normalize_values(&field.values);
    assert_eq!(normalized, vec![0; 16]);
}

#[test]
fn biome_map_accessors_round_trip() {
    let mut bm = BiomeMap::new(5, 4);
    assert_eq!(bm.get_index(3, 2), None);
    bm.set_index(3, 2, Some(7));
    assert_eq!(bm.get_index(3, 2), Some(7));
    assert_eq!(bm.idx(3, 2), 13);
    bm.set_index(3, 2, None);
    assert_eq!(bm.get_index(3, 2), None);
}

#[test]
fn majority_filter_removes_an_isolated_pixel() {
    // A lone biome-1 pixel in a field of biome-0 flips to the majority.
    let mut bm = BiomeMap::new(5, 5);
    for y in 0..5u32 {
        for x in 0..5u32 {
            bm.set_index(x, y, Some(0));
        }
    }
    bm.set_index(2, 2, Some(1));
    let sm = smooth_biome_map(&bm, 1);
    assert_eq!(sm.get_index(2, 2), Some(0));
}

#[test]
fn majority_filter_ties_favor_the_lowest_index() {
    // Alternating columns of biome 0 and 1 give interior cells a tied or
    // 0-heavy neighborhood; the lowest index must win ties.
    let mut bm = BiomeMap::new(4, 1);
    bm.set_index(0, 0, Some(1));
    bm.set_index(1, 0, Some(0));
    bm.set_index(2, 0, Some(1));
    bm.set_index(3, 0, Some(0));
    let sm = smooth_biome_map(&bm, 1);
    // Cell 1 sees biomes {1, 0, 1}: majority 1. Cell 2 sees {0, 1, 0}:
    // majority 0. Cells 0 and 3 see one of each: the tie goes to 0.
    assert_eq!(sm.get_index(0, 0), Some(0));
    assert_eq!(sm.get_index(1, 0), Some(1));
    assert_eq!(sm.get_index(2, 0), Some(0));
    assert_eq!(sm.get_index(3, 0), Some(0));
}

#[test]
fn majority_filter_fixes_uniform_maps() {
    // A unanimously assigned map is a fixed point of the filter, whether
    // the assignment is a biome or "no biome".
    let mut bm = BiomeMap::new(6, 6);
    let sm = smooth_biome_map(&bm, 3);
    assert_eq!(sm.indices, bm.indices);
    for y in 0..6u32 {
        for x in 0..6u32 {
            bm.set_index(x, y, Some(2));
        }
    }
    let sm = smooth_biome_map(&bm, 3);
    assert_eq!(sm.indices, bm.indices);
}

#[test]
fn majority_filter_settles_into_few_changes() {
    // Re-running the filter after the pipeline's fixed passes changes only
    // a small boundary fraction and the change count keeps shrinking.
    let cfg = base_config(1234);
    let hm = generate_heightmap_from_config(&cfg, 48, 48);
    let bm = generate_biome_map_from_config(&cfg, &hm);
    let total = (bm.width * bm.height) as usize;
    let once = smooth_biome_map(&bm, 1);
    let twice = smooth_biome_map(&bm, 2);
    let thrice = smooth_biome_map(&bm, 3);
    let d1 = diff_count(&bm, &once);
    let d2 = diff_count(&once, &twice);
    let d3 = diff_count(&twice, &thrice);
    assert!(d1 <= total / 5);
    assert!(d2 <= d1 + total / 50);
    assert!(d3 <= d2 + total / 50);
}

fn diff_count(a: &BiomeMap, b: &BiomeMap) -> usize {
    let mut d = 0;
    for i in 0..a.indices.len() {
        if a.indices[i] != b.indices[i] {
            d += 1;
        }
    }
    d
}

#[test]
fn thermal_erosion_exact_small_case() {
    // A unit spike next to two flat cells on a 3x1 strip: with a zero talus
    // and half-strength redistribution, the spike sheds half its height to
    // its single lower neighbor in one iteration.
    let mut field = RawElevationField { width: 3, height: 1, values: vec![0, 0, 65536] };
    apply_thermal_erosion(&mut field, 1, 0, 32768);
    assert_eq!(field.values, vec![0, 32768, 32768]);
}

#[test]
fn thermal_erosion_conserves_material_away_from_saturation() {
    // On heights far from the saturation window no clamp fires, so each
    // pass moves material around without creating or destroying any.
    let mut values: Vec<i64> = Vec::new();
    for i in 0..64i64 {
        values.push((i * 31 * 1009) % 50000);
    }
    let before: i64 = values.iter().sum();
    let mut field = RawElevationField { width: 8, height: 8, values };
    apply_thermal_erosion(&mut field, 3, 1311, 14418);
    let after: i64 = field.values.iter().sum();
    assert_eq!(after, before);
}

#[test]
fn canyon_erosion_exact_small_case() {
    // With the zero-variance provider every cell sits on a fault crossing,
    // so each cell above the shallow-water guard is carved in scan order,
    // with the V-profile spilling onto eligible neighbors.
    let mut field = RawElevationField { width: 3, height: 3, values: vec![20000; 9] };
    let silent = NoiseField::with_amplitude(7, 0);
    apply_canyon_erosion(&mut field, &silent, 655);
    assert_eq!(
        field.values,
        vec![18625, 18625, 18625, 18625, 16885, 17481, 18625, 17481, 17916]
    );
}

#[test]
fn lake_formation_exact_small_case() {
    // A 3x3 bowl with an always-open gate: the center rises to 70% of the
    // depression depth and the eligible bank cells blend toward it.
    let mut field = RawElevationField {
        width: 3,
        height: 3,
        values: vec![5000, 5000, 5000, 5000, 1000, 5000, 5000, 5000, 5000],
    };
    let silent = NoiseField::with_amplitude(7, 0);
    apply_lake_formation(&mut field, &silent, 655, 65536);
    assert_eq!(
        field.values,
        vec![5000, 5000, 5000, 5000, 3800, 4759, 5000, 4759, 4809]
    );
}

#[test]
fn flow_erosion_exact_small_case() {
    // A 1x3 ramp: the lowest cell sits at the water level and is skipped,
    // the middle cell passes the flow threshold and is carved by the square
    // root of its relative flow, the top cell stays below the threshold.
    let mut field = RawElevationField { width: 3, height: 1, values: vec![0, 30000, 60000] };
    apply_flow_erosion(&mut field, 0, 2, 32768);
    assert_eq!(field.values, vec![0, 3246, 60000]);
}

#[test]
fn gaussian_smooth_keeps_borders_and_means_interior() {
    // On a 3x3 grid only the center is interior; one pass replaces it by
    // the kernel-weighted mean of its neighborhood.
    let mut field = RawElevationField {
        width: 3,
        height: 3,
        values: vec![7200, 7200, 7200, 7200, 0, 7200, 7200, 7200, 7200],
    };
    apply_gaussian_smooth(&mut field, 1);
    // (56 * 7200 + 16 * 0) / 72 = 5600.
    assert_eq!(
        field.values,
        vec![7200, 7200, 7200, 7200, 5600, 7200, 7200, 7200, 7200]
    );
}
