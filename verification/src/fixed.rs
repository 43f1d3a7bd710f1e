use vstd::prelude::*;

verus! {

/// One whole unit of the crate's fixed-point scale (16 fractional bits).
///
/// Every scalar quantity of the generator (elevations, noise samples,
/// climate values, configuration knobs) is an `i64` measured in units of
/// `FP_ONE`, so `FP_ONE` stands for 1.0 and `FP_ONE / 2` for 0.5.
pub const FP_ONE: i64 = 65536;

/// Lower saturation bound for raw (pre-normalization) elevation values.
pub const RAW_MIN: i64 = -524288;

/// Upper saturation bound for raw (pre-normalization) elevation values.
pub const RAW_MAX: i64 = 524288;

/// Clamping of an integer into `[lo, hi]`.
pub open spec fn clamp_spec(v: int, lo: int, hi: int) -> int {
    if v < lo {
        lo
    } else if v > hi {
        hi
    } else {
        v
    }
}

/// Clamp `v` into the interval `[lo, hi]`.
pub fn clamp64(v: i64, lo: i64, hi: i64) -> (r: i64)
    requires
        lo <= hi,
    ensures
        r == clamp_spec(v as int, lo as int, hi as int),
        lo <= r <= hi,
{
    if v < lo {
        lo
    } else if v > hi {
        hi
    } else {
        v
    }
}

/// Absolute value.
pub open spec fn abs_spec(v: int) -> int {
    if v < 0 {
        -v
    } else {
        v
    }
}

/// Absolute value of a fixed-point scalar.
pub fn abs64(v: i64) -> (r: i64)
    requires
        v > i64::MIN,
    ensures
        r == abs_spec(v as int),
{
    if v < 0 {
        -v
    } else {
        v
    }
}

/// Fixed-point product `a * b / FP_ONE`, computed with the division always
/// applied to non-negative operands so that the result does not depend on a
/// division rounding convention for negative numbers.
pub open spec fn fp_mul_spec(a: int, b: int) -> int {
    if a >= 0 && b >= 0 {
        (a * b) / (FP_ONE as int)
    } else if a <= 0 && b <= 0 {
        ((-a) * (-b)) / (FP_ONE as int)
    } else if a < 0 {
        -(((-a) * b) / (FP_ONE as int))
    } else {
        -((a * (-b)) / (FP_ONE as int))
    }
}

/// Fixed-point multiplication: `r` is `a * b` rescaled back to the fixed-point
/// grid, rounded toward zero.
pub fn fp_mul(a: i64, b: i64) -> (r: i64)
    requires
        -0x4000_0000 <= a <= 0x4000_0000,
        -0x4000_0000 <= b <= 0x4000_0000,
    ensures
        r == fp_mul_spec(a as int, b as int),
        0 <= a && 0 <= b ==> 0 <= r,
        -FP_ONE <= a <= FP_ONE ==> abs_spec(r as int) <= abs_spec(b as int),
        -FP_ONE <= b <= FP_ONE ==> abs_spec(r as int) <= abs_spec(a as int),
{
    proof {
        assert((-a) * (-b) == a * b && (-a) * b == -(a * b) && a * (-b) == -(a * b)
            && -0x1000_0000_0000_0000 <= a * b <= 0x1000_0000_0000_0000) by (nonlinear_arith)
            requires
                -0x4000_0000 <= a <= 0x4000_0000,
                -0x4000_0000 <= b <= 0x4000_0000,
        ;
        assert(0 <= a && 0 <= b ==> 0 <= fp_mul_spec(a as int, b as int)) by (nonlinear_arith)
            requires
                -0x4000_0000 <= a <= 0x4000_0000,
                -0x4000_0000 <= b <= 0x4000_0000,
        ;
        assert(-FP_ONE <= a <= FP_ONE ==> abs_spec(fp_mul_spec(a as int, b as int)) <= abs_spec(
            b as int,
        )) by (nonlinear_arith)
            requires
                -0x4000_0000 <= a <= 0x4000_0000,
                -0x4000_0000 <= b <= 0x4000_0000,
        ;
        assert(-FP_ONE <= b <= FP_ONE ==> abs_spec(fp_mul_spec(a as int, b as int)) <= abs_spec(
            a as int,
        )) by (nonlinear_arith)
            requires
                -0x4000_0000 <= a <= 0x4000_0000,
                -0x4000_0000 <= b <= 0x4000_0000,
        ;
    }
    if a >= 0 && b >= 0 {
        (a * b) / FP_ONE
    } else if a <= 0 && b <= 0 {
        ((-a) * (-b)) / FP_ONE
    } else if a < 0 {
        -(((-a) * b) / FP_ONE)
    } else {
        -((a * (-b)) / FP_ONE)
    }
}

/// `a * num / den` for non-negative `a` and `num` and positive `den`,
/// used to rescale coordinates by rational frequencies.
pub open spec fn mul_div_spec(a: int, num: int, den: int) -> int {
    (a * num) / den
}

/// Multiply-then-divide on non-negative operands.
pub fn mul_div(a: i64, num: i64, den: i64) -> (r: i64)
    requires
        0 <= a,
        0 <= num,
        0 < den,
        a * num <= 0x7fff_ffff_ffff_ffff,
    ensures
        r == mul_div_spec(a as int, num as int, den as int),
        0 <= r,
        num <= den ==> r <= a,
        a <= den ==> r <= num,
{
    proof {
        assert(num <= den ==> (a * num) / (den as int) <= a) by (nonlinear_arith)
            requires
                0 <= a,
                0 <= num,
                0 < den,
        ;
        assert(a <= den ==> (a * num) / (den as int) <= num) by (nonlinear_arith)
            requires
                0 <= a,
                0 <= num,
                0 < den,
        ;
    }
    (a * num) / den
}

/// Signed variant of [`mul_div_spec`]: the magnitude is rescaled and the sign
/// of `a` is restored, so the division itself always sees non-negative
/// operands.
pub open spec fn mul_div_s_spec(a: int, num: int, den: int) -> int {
    if a >= 0 {
        (a * num) / den
    } else {
        -(((-a) * num) / den)
    }
}

/// Multiply-then-divide where only `a` may be negative.
pub fn mul_div_s(a: i64, num: i64, den: i64) -> (r: i64)
    requires
        i64::MIN < a,
        0 <= num,
        0 < den,
        -0x7fff_ffff_ffff_ffff <= a * num <= 0x7fff_ffff_ffff_ffff,
    ensures
        r == mul_div_s_spec(a as int, num as int, den as int),
        num <= den ==> abs_spec(r as int) <= abs_spec(a as int),
{
    proof {
        assert((-a) * num == -(a * num)) by (nonlinear_arith);
        assert(num <= den ==> abs_spec(mul_div_s_spec(a as int, num as int, den as int))
            <= abs_spec(a as int)) by (nonlinear_arith)
            requires
                i64::MIN < a,
                0 <= num,
                0 < den,
        ;
    }
    if a >= 0 {
        (a * num) / den
    } else {
        -(((-a) * num) / den)
    }
}

/// `r` is the integer square root of `n`: the largest integer whose square
/// does not exceed `n`.
pub open spec fn is_isqrt(n: int, r: int) -> bool {
    &&& 0 <= r
    &&& r * r <= n
    &&& (r + 1) * (r + 1) > n
}

/// The integer square root, as a function. [`lemma_isqrt_exists`] shows the
/// choice is inhabited and [`lemma_isqrt_unique`] that it is unique, so this
/// names a single value for every non-negative argument.
pub open spec fn isqrt_spec(n: int) -> int {
    choose|r: int| #[trigger] is_isqrt(n, r)
}

pub proof fn lemma_isqrt_exists(n: int)
    requires
        0 <= n,
    ensures
        exists|r: int| is_isqrt(n, r),
    decreases n,
{
    if n == 0 {
        assert(is_isqrt(0, 0));
    } else {
        lemma_isqrt_exists(n - 1);
        let r = choose|r: int| #[trigger] is_isqrt(n - 1, r);
        if (r + 1) * (r + 1) <= n {
            assert((r + 2) * (r + 2) > n) by (nonlinear_arith)
                requires
                    0 <= r,
                    r * r <= n - 1,
                    (r + 1) * (r + 1) > n - 1,
                    (r + 1) * (r + 1) <= n,
            ;
            assert(is_isqrt(n, r + 1));
        } else {
            assert(is_isqrt(n, r));
        }
    }
}

pub proof fn lemma_isqrt_unique(n: int, r1: int, r2: int)
    requires
        is_isqrt(n, r1),
        is_isqrt(n, r2),
    ensures
        r1 == r2,
{
    assert(r1 == r2) by (nonlinear_arith)
        requires
            0 <= r1,
            0 <= r2,
            r1 * r1 <= n,
            (r1 + 1) * (r1 + 1) > n,
            r2 * r2 <= n,
            (r2 + 1) * (r2 + 1) > n,
    ;
}

/// Integer square root by bisection.
pub fn isqrt64(n: u64) -> (r: u64)
    ensures
        is_isqrt(n as int, r as int),
        r == isqrt_spec(n as int),
        r <= 0xffff_ffff,
{
    let mut lo: u64 = 0;
    let mut hi: u64 = 0x1_0000_0000;
    while lo + 1 < hi
        invariant
            0 <= lo < hi <= 0x1_0000_0000,
            lo * lo <= n,
            hi * hi > n,
        decreases hi - lo,
    {
        let mid = lo + (hi - lo) / 2;
        assert(mid * mid < 0xffff_ffff_ffff_ffff) by (nonlinear_arith)
            requires
                0 <= mid < 0x1_0000_0000,
        ;
        if mid * mid <= n {
            lo = mid;
        } else {
            hi = mid;
        }
    }
    proof {
        assert(is_isqrt(n as int, lo as int));
        lemma_isqrt_exists(n as int);
        let w = choose|w: int| #[trigger] is_isqrt(n as int, w);
        lemma_isqrt_unique(n as int, lo as int, w);
    }
    lo
}

/// Helper bound: the product of two values in `[0, FP_ONE]` rescaled by
/// `FP_ONE` stays in `[0, FP_ONE]` and below either factor.
pub proof fn lemma_fp_unit_mul(a: int, b: int)
    requires
        0 <= a <= FP_ONE,
        0 <= b <= FP_ONE,
    ensures
        0 <= fp_mul_spec(a, b) <= FP_ONE,
        fp_mul_spec(a, b) <= a,
        fp_mul_spec(a, b) <= b,
{
    assert(0 <= (a * b) / (FP_ONE as int) <= FP_ONE && (a * b) / (FP_ONE as int) <= a && (a * b)
        / (FP_ONE as int) <= b) by (nonlinear_arith)
        requires
            0 <= a <= FP_ONE,
            0 <= b <= FP_ONE,
    ;
}

} // verus!
