use vstd::prelude::*;

verus! {

use crate::fixed::{FP_ONE, clamp_spec, clamp64, fp_mul_spec, fp_mul, mul_div_spec, mul_div,
    abs_spec, abs64};
use crate::curves::{pow07_spec, pow07, pow15_spec, pow15};
use crate::config::{WorldGenConfig, HumidityModel};

/// One synthetic climate reading, derived per cell during classification.
/// All fields are fixed-point: degrees Celsius, unitless humidity in
/// `[0, 1]`, millimeters per year, and meters above sea level.
pub struct ClimateSample {
    pub temperature_c: i64,
    pub humidity: i64,
    pub precipitation_mm_per_year: i64,
    pub elevation_m: i64,
}

/// Temperature: a latitude profile (about +8 degrees at the equator and
/// -25 at the poles around the configured base), cooled by the lapse rate
/// per kilometer of elevation, clamped to plausible extremes.
#[verifier::opaque]
pub open spec fn temperature_spec(cfg: WorldGenConfig, lat_norm: int, elevation_m: int) -> int {
    let la = abs_spec(lat_norm);
    let t_lat = cfg.base_temperature_c + fp_mul_spec(524288, FP_ONE - la) - fp_mul_spec(
        1638400,
        la,
    );
    let t_alt = fp_mul_spec(cfg.lapse_rate_c_per_km as int, elevation_m / 1000);
    clamp_spec(t_lat - t_alt, -3276800, 3932160)
}

/// Humidity: the configured global mean shaped by latitude (either the
/// banded profile with a dry subtropical belt or a simple equator-biased
/// falloff), reduced at high elevation, clamped to `[0.02, 0.98]`.
#[verifier::opaque]
pub open spec fn humidity_spec(cfg: WorldGenConfig, lat_norm: int, elevation_m: int) -> int {
    let la = abs_spec(lat_norm);
    let adjusted = if cfg.humidity_model is Banded {
        let sub_dist = mul_div_spec(abs_spec(la - 22938), FP_ONE as int, 11797);
        let sub_dry = fp_mul_spec(clamp_spec(FP_ONE - sub_dist, 0, FP_ONE as int), 26214);
        let eq_wet = fp_mul_spec(pow07_spec(FP_ONE - la), 19661);
        let polar_wet = fp_mul_spec(pow15_spec(clamp_spec(la - 39322, 0, FP_ONE as int)), 9830);
        cfg.humidity_global_mean + eq_wet + polar_wet - sub_dry
    } else {
        cfg.humidity_global_mean + fp_mul_spec(FP_ONE - la, 9830)
    };
    let dry_alt = clamp_spec(mul_div_spec(elevation_m, FP_ONE as int, 229376000), 0, FP_ONE as int);
    clamp_spec(fp_mul_spec(adjusted, FP_ONE - fp_mul_spec(22938, dry_alt)), 1311, 64225)
}

/// Precipitation: the humidity scaled by the configured base amount of
/// 1000 mm/year times the precipitation scale, boosted by the storm
/// frequency times intensity, clamped to a broad plausible range.
#[verifier::opaque]
pub open spec fn precipitation_spec(cfg: WorldGenConfig, humidity: int) -> int {
    let base_prec = fp_mul_spec(65536000, cfg.precipitation_scale as int);
    let wet = 19661 + fp_mul_spec(45875, humidity);
    let p1 = mul_div_spec(base_prec, wet, FP_ONE as int);
    let storm = clamp_spec(
        fp_mul_spec(cfg.storm_frequency as int, cfg.storm_intensity_mean as int),
        0,
        131072,
    );
    let p2 = mul_div_spec(p1, FP_ONE + storm / 2, FP_ONE as int);
    clamp_spec(p2, 3276800, 262144000)
}

/// Derive the climate at a normalized latitude (`-1` south pole, `0`
/// equator, `1` north pole) and elevation above sea level.
pub fn sample_climate(cfg: &WorldGenConfig, lat_norm: i64, elevation_m: i64) -> (r: ClimateSample)
    requires
        cfg.valid(),
        -FP_ONE <= lat_norm <= FP_ONE,
        0 <= elevation_m <= 0x5000_0000,
    ensures
        r.temperature_c == temperature_spec(*cfg, lat_norm as int, elevation_m as int),
        r.humidity == humidity_spec(*cfg, lat_norm as int, elevation_m as int),
        r.precipitation_mm_per_year == precipitation_spec(
            *cfg,
            humidity_spec(*cfg, lat_norm as int, elevation_m as int),
        ),
        r.elevation_m == elevation_m,
        -3276800 <= r.temperature_c <= 3932160,
        1311 <= r.humidity <= 64225,
        3276800 <= r.precipitation_mm_per_year <= 262144000,
{
    proof {
        reveal(temperature_spec);
        reveal(humidity_spec);
        reveal(precipitation_spec);
    }
    let la = abs64(lat_norm);
    // Temperature.
    let t_lat = cfg.base_temperature_c + fp_mul(524288, FP_ONE - la) - fp_mul(1638400, la);
    let ekm = elevation_m / 1000;
    proof {
        assert(abs_spec(fp_mul_spec(cfg.lapse_rate_c_per_km as int, ekm as int))
            <= 0x4000_0000_0000) by (nonlinear_arith)
            requires
                -0x100_0000 <= cfg.lapse_rate_c_per_km <= 0x100_0000,
                0 <= ekm <= 0x200_0000,
        ;
    }
    let t_alt = fp_mul(cfg.lapse_rate_c_per_km, ekm);
    let temperature_c = clamp64(t_lat - t_alt, -3276800, 3932160);
    // Humidity.
    let adjusted: i64 = if matches!(cfg.humidity_model, HumidityModel::Banded) {
        let sub_dist = mul_div(abs64(la - 22938), FP_ONE, 11797);
        let sub_dry = fp_mul(clamp64(FP_ONE - sub_dist, 0, FP_ONE), 26214);
        let eq_wet = fp_mul(pow07(FP_ONE - la), 19661);
        let polar_wet = fp_mul(pow15(clamp64(la - 39322, 0, FP_ONE)), 9830);
        cfg.humidity_global_mean + eq_wet + polar_wet - sub_dry
    } else {
        cfg.humidity_global_mean + fp_mul(FP_ONE - la, 9830)
    };
    let dry_alt = clamp64(mul_div(elevation_m, FP_ONE, 229376000), 0, FP_ONE);
    let humidity = clamp64(fp_mul(adjusted, FP_ONE - fp_mul(22938, dry_alt)), 1311, 64225);
    // Precipitation.
    let base_prec = fp_mul(65536000, cfg.precipitation_scale);
    let wet = 19661 + fp_mul(45875, humidity);
    proof {
        assert(0 <= fp_mul_spec(65536000, cfg.precipitation_scale as int) <= 16_777_216_000)
            by (nonlinear_arith)
            requires
                0 <= cfg.precipitation_scale <= 0x100_0000,
        ;
        assert(0 <= base_prec * wet <= 0x7fff_ffff_ffff_ffff) by (nonlinear_arith)
            requires
                0 <= base_prec <= 16_777_216_000,
                0 <= wet <= FP_ONE,
        ;
    }
    let p1 = mul_div(base_prec, wet, FP_ONE);
    let storm = clamp64(fp_mul(cfg.storm_frequency, cfg.storm_intensity_mean), 0, 131072);
    proof {
        assert(0 <= p1 * (FP_ONE + storm / 2) <= 0x7fff_ffff_ffff_ffff) by (nonlinear_arith)
            requires
                0 <= p1 <= 16_777_216_000,
                0 <= storm <= 131072,
        ;
    }
    let p2 = mul_div(p1, FP_ONE + storm / 2, FP_ONE);
    let precipitation_mm_per_year = clamp64(p2, 3276800, 262144000);
    ClimateSample { temperature_c, humidity, precipitation_mm_per_year, elevation_m }
}

} // verus!
