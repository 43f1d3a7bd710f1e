use seed_core::curves::{canyon25, gain12, gamma09, pow07, pow15, ridge17, smooth_up};
use seed_core::fixed::{abs64, clamp64, fp_mul, isqrt64, mul_div, mul_div_s, FP_ONE};
use seed_core::noise_field::{corner, lerp, value_noise, NoiseField};
use seed_core::normalize::normalize_values;

#[test]
fn fp_mul_exact_values() {
    assert_eq!(fp_mul(3 * FP_ONE, FP_ONE / 2), 98304);
    assert_eq!(fp_mul(FP_ONE, FP_ONE), FP_ONE);
    assert_eq!(fp_mul(-FP_ONE, FP_ONE / 2), -32768);
    assert_eq!(fp_mul(-FP_ONE, -FP_ONE), FP_ONE);
    assert_eq!(fp_mul(0, 12345), 0);
}

#[test]
fn mul_div_exact_values() {
    assert_eq!(mul_div(100, 7, 2), 350);
    assert_eq!(mul_div(65536, 65536, 65536), 65536);
    assert_eq!(mul_div_s(-100, 7, 2), -350);
    // Rounds toward zero on both sides.
    assert_eq!(mul_div(5, 1, 2), 2);
    assert_eq!(mul_div_s(-5, 1, 2), -2);
}

#[test]
fn clamp_and_abs() {
    assert_eq!(clamp64(5, 0, 3), 3);
    assert_eq!(clamp64(-5, 0, 3), 0);
    assert_eq!(clamp64(2, 0, 3), 2);
    assert_eq!(abs64(-7), 7);
    assert_eq!(abs64(7), 7);
}

#[test]
fn isqrt_exact_values() {
    assert_eq!(isqrt64(0), 0);
    assert_eq!(isqrt64(1), 1);
    assert_eq!(isqrt64(17), 4);
    assert_eq!(isqrt64(16), 4);
    assert_eq!(isqrt64(0x1_0000_0000), 65536);
    assert_eq!(isqrt64(u64::MAX), 0xffff_ffff);
}

#[test]
fn curves_fix_the_endpoints() {
    assert_eq!(gamma09(0), 0);
    assert_eq!(gamma09(FP_ONE), FP_ONE);
    assert_eq!(gain12(0), 0);
    assert_eq!(gain12(FP_ONE), FP_ONE);
    assert_eq!(ridge17(0), 0);
    assert_eq!(ridge17(FP_ONE), FP_ONE);
    assert_eq!(canyon25(FP_ONE), FP_ONE);
    assert_eq!(pow07(FP_ONE), FP_ONE);
    assert_eq!(pow15(FP_ONE), FP_ONE);
    assert_eq!(smooth_up(FP_ONE), FP_ONE);
}

#[test]
fn curves_exact_midpoints() {
    assert_eq!(gamma09(32768), 35127);
    assert_eq!(gain12(32768), 29163);
    assert_eq!(ridge17(32768), 20168);
}

#[test]
fn lerp_exact_values() {
    assert_eq!(lerp(0, FP_ONE, 32768), 32768);
    assert_eq!(lerp(0, FP_ONE, 0), 0);
    assert_eq!(lerp(0, FP_ONE, FP_ONE), FP_ONE);
    assert_eq!(lerp(FP_ONE, 0, 16384), 49152);
    assert_eq!(lerp(-FP_ONE, FP_ONE, 32768), 0);
}

#[test]
fn corner_values_are_deterministic_and_bounded() {
    for xi in 0..50u64 {
        for yi in 0..50u64 {
            let c = corner(99, xi, yi);
            assert!(-FP_ONE <= c && c <= FP_ONE);
            assert_eq!(c, corner(99, xi, yi));
        }
    }
}

#[test]
fn value_noise_is_deterministic_and_bounded() {
    for x in 0..40 {
        for y in 0..40 {
            let cx = x * 40000 + 123;
            let cy = y * 40000 + 456;
            let v = value_noise(7, cx, cy);
            assert!(-FP_ONE <= v && v <= FP_ONE);
            assert_eq!(v, value_noise(7, cx, cy));
        }
    }
}

#[test]
fn zero_amplitude_field_is_flat() {
    let nf = NoiseField::with_amplitude(123, 0);
    for x in 0..20 {
        for y in 0..20 {
            assert_eq!(nf.sample(x * 50000, y * 50000), 0);
        }
    }
}

#[test]
fn full_amplitude_field_varies() {
    let nf = NoiseField::new(123);
    let mut seen_nonzero = false;
    for x in 0..20 {
        for y in 0..20 {
            if nf.sample(x * 50000 + 17, y * 50000 + 31) != 0 {
                seen_nonzero = true;
            }
        }
    }
    assert!(seen_nonzero);
}

#[test]
fn normalize_spans_the_unit_interval() {
    let vals: Vec<i64> = vec![0, 32768, 65536];
    let out = normalize_values(&vals);
    assert_eq!(out, vec![0, 35127, FP_ONE]);
}

#[test]
fn normalize_flat_field_is_uniform_zero() {
    let vals: Vec<i64> = vec![777, 777, 777, 777];
    let out = normalize_values(&vals);
    assert_eq!(out, vec![0, 0, 0, 0]);
}

#[test]
fn normalize_empty_field() {
    let vals: Vec<i64> = Vec::new();
    let out = normalize_values(&vals);
    assert!(out.is_empty());
}
