use vstd::prelude::*;

verus! {

use crate::fixed::{FP_ONE, fp_mul_spec, fp_mul, lemma_fp_unit_mul};

/// Square of a unit-interval value, `x * x` rescaled to the fixed-point grid.
pub open spec fn sq01_spec(x: int) -> int {
    fp_mul_spec(x, x)
}

/// The concave companion of [`sq01_spec`]: `2x - x^2` on the unit interval.
pub open spec fn smooth_up_spec(x: int) -> int {
    2 * x - sq01_spec(x)
}

/// Quadratic gain curve standing in for `x^1.2` on `[0, 1]`: slightly
/// convex, exact at both endpoints.
pub open spec fn gain12_spec(x: int) -> int {
    fp_mul_spec(x, 51118 + fp_mul_spec(14418, x))
}

/// Sharpening curve standing in for `t^1.7` on `[0, 1]`, used to turn the
/// smooth ridge noise into thin peaks; exact at both endpoints.
pub open spec fn ridge17_spec(t: int) -> int {
    fp_mul_spec(15139, t) + fp_mul_spec(50397, sq01_spec(t))
}

/// Sharpening curve standing in for `s^2.5` on `[0, 1]`, used to narrow the
/// canyon fault intersections; exact at both endpoints.
pub open spec fn canyon25_spec(s: int) -> int {
    fp_mul_spec(sq01_spec(s), 26214 + fp_mul_spec(39322, s))
}

/// Concave curve standing in for `x^0.7` on `[0, 1]` (equatorial wetness
/// profile); exact at both endpoints.
pub open spec fn pow07_spec(x: int) -> int {
    fp_mul_spec(35131, x) + fp_mul_spec(30405, smooth_up_spec(x))
}

/// Convex curve standing in for `x^1.5` on `[0, 1]` (polar wetness profile);
/// exact at both endpoints.
pub open spec fn pow15_spec(x: int) -> int {
    fp_mul_spec(x, 27140 + fp_mul_spec(38396, x))
}

/// Gamma curve standing in for `x^0.9` on `[0, 1]`, the contrast correction
/// applied by the normalizer. It maps 0 to 0 and `FP_ONE` to `FP_ONE`
/// exactly, which keeps the normalized range tight.
pub open spec fn gamma09_spec(x: int) -> int {
    fp_mul_spec(56097, x) + fp_mul_spec(9439, smooth_up_spec(x))
}

/// Square on the unit interval.
pub fn sq01(x: i64) -> (r: i64)
    requires
        0 <= x <= FP_ONE,
    ensures
        r == sq01_spec(x as int),
        0 <= r <= x,
{
    proof {
        lemma_fp_unit_mul(x as int, x as int);
    }
    fp_mul(x, x)
}

/// `2x - x^2` on the unit interval.
pub fn smooth_up(x: i64) -> (r: i64)
    requires
        0 <= x <= FP_ONE,
    ensures
        r == smooth_up_spec(x as int),
        x <= r <= FP_ONE,
{
    let s = sq01(x);
    proof {
        assert((x as int) * (x as int) / (FP_ONE as int) >= 2 * x - FP_ONE) by (nonlinear_arith)
            requires
                0 <= x <= FP_ONE,
        ;
    }
    2 * x - s
}

/// Gain curve for `x^1.2`.
pub fn gain12(x: i64) -> (r: i64)
    requires
        0 <= x <= FP_ONE,
    ensures
        r == gain12_spec(x as int),
        0 <= r <= FP_ONE,
{
    proof {
        lemma_fp_unit_mul(14418, x as int);
    }
    let inner = 51118 + fp_mul(14418, x);
    proof {
        lemma_fp_unit_mul(x as int, inner as int);
    }
    fp_mul(x, inner)
}

/// Ridge sharpening curve for `t^1.7`.
pub fn ridge17(t: i64) -> (r: i64)
    requires
        0 <= t <= FP_ONE,
    ensures
        r == ridge17_spec(t as int),
        0 <= r <= FP_ONE,
{
    let s = sq01(t);
    proof {
        lemma_fp_unit_mul(15139, t as int);
        lemma_fp_unit_mul(50397, s as int);
    }
    fp_mul(15139, t) + fp_mul(50397, s)
}

/// Canyon sharpening curve for `s^2.5`.
pub fn canyon25(s: i64) -> (r: i64)
    requires
        0 <= s <= FP_ONE,
    ensures
        r == canyon25_spec(s as int),
        0 <= r <= FP_ONE,
{
    let q = sq01(s);
    proof {
        lemma_fp_unit_mul(39322, s as int);
    }
    let inner = 26214 + fp_mul(39322, s);
    proof {
        lemma_fp_unit_mul(q as int, inner as int);
    }
    fp_mul(q, inner)
}

/// Wetness curve for `x^0.7`.
pub fn pow07(x: i64) -> (r: i64)
    requires
        0 <= x <= FP_ONE,
    ensures
        r == pow07_spec(x as int),
        0 <= r <= FP_ONE,
{
    let s = smooth_up(x);
    proof {
        lemma_fp_unit_mul(35131, x as int);
        lemma_fp_unit_mul(30405, s as int);
    }
    fp_mul(35131, x) + fp_mul(30405, s)
}

/// Wetness curve for `x^1.5`.
pub fn pow15(x: i64) -> (r: i64)
    requires
        0 <= x <= FP_ONE,
    ensures
        r == pow15_spec(x as int),
        0 <= r <= FP_ONE,
{
    proof {
        lemma_fp_unit_mul(38396, x as int);
    }
    let inner = 27140 + fp_mul(38396, x);
    proof {
        lemma_fp_unit_mul(x as int, inner as int);
    }
    fp_mul(x, inner)
}

/// Gamma correction curve for `x^0.9`.
pub fn gamma09(x: i64) -> (r: i64)
    requires
        0 <= x <= FP_ONE,
    ensures
        r == gamma09_spec(x as int),
        0 <= r <= FP_ONE,
        x == 0 ==> r == 0,
        x == FP_ONE ==> r == FP_ONE,
{
    let s = smooth_up(x);
    proof {
        lemma_fp_unit_mul(56097, x as int);
        lemma_fp_unit_mul(9439, s as int);
    }
    fp_mul(56097, x) + fp_mul(9439, s)
}

} // verus!
