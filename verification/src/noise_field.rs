use vstd::prelude::*;

verus! {

use crate::fixed::{
    FP_ONE, fp_mul_spec, fp_mul, lemma_fp_unit_mul, mul_div_spec, mul_div, mul_div_s_spec,
    mul_div_s, abs_spec,
};

/// Largest sampling coordinate the noise field accepts. Coordinates are
/// fixed-point, so this allows lattice indices up to 2^32.
pub const COORD_MAX: i64 = 0x1_0000_0000_0000;

/// Rescale a world coordinate by a rational frequency `num / den`; the
/// bounds guarantee the result is an admissible noise coordinate.
pub fn coord_scale(a: i64, num: i64, den: i64) -> (r: i64)
    requires
        0 <= a <= 0x100_0000_0000,
        0 <= num <= 0x10_0000,
        983040 <= den,
    ensures
        r == mul_div_spec(a as int, num as int, den as int),
        0 <= r <= COORD_MAX,
{
    proof {
        assert(0 <= a * num <= 0x100_0000_0000 * 0x10_0000) by (nonlinear_arith)
            requires
                0 <= a <= 0x100_0000_0000,
                0 <= num <= 0x10_0000,
        ;
        assert((a * num) / (den as int) <= COORD_MAX) by (nonlinear_arith)
            requires
                0 <= a * num <= 0x100_0000_0000 * 0x10_0000,
                983040 <= den,
        ;
    }
    mul_div(a, num, den)
}

/// Signed companion of [`coord_scale`] for oblique axis projections; the
/// result is small enough to be shifted into the non-negative domain.
pub fn coord_scale_s(a: i64, num: i64, den: i64) -> (r: i64)
    requires
        -0x2_0000_0000 <= a <= 0x2_0000_0000,
        0 <= num <= 0x10_0000,
        983040 <= den,
    ensures
        r == mul_div_s_spec(a as int, num as int, den as int),
        -0x3_0000_0000 <= r <= 0x3_0000_0000,
{
    proof {
        assert(-0x2_0000_0000 * 0x10_0000 <= a * num <= 0x2_0000_0000 * 0x10_0000)
            by (nonlinear_arith)
            requires
                -0x2_0000_0000 <= a <= 0x2_0000_0000,
                0 <= num <= 0x10_0000,
        ;
        assert(abs_spec(mul_div_s_spec(a as int, num as int, den as int)) <= 0x3_0000_0000)
            by (nonlinear_arith)
            requires
                -0x2_0000_0000 <= a <= 0x2_0000_0000,
                0 <= num <= 0x10_0000,
                983040 <= den,
        ;
    }
    mul_div_s(a, num, den)
}

/// Integer mixing function behind the lattice noise: a few rounds of
/// multiply-fold-xor over 32-bit lanes, all operations exact in `u64`.
#[verifier::opaque]
pub open spec fn mix_spec(seed: u64, x: u64, y: u64) -> u64 {
    let h1 = ((((x % 0x1_0000_0000) * 0x9e37_79b1) as u64) ^ (((y % 0x1_0000_0000)
        * 0x85eb_ca77) as u64)) ^ seed;
    let h2 = (((h1 ^ (h1 >> 29)) % 0x1_0000_0000) * 0xc2b2_ae3d) as u64;
    let h3 = (((h2 ^ (h2 >> 31)) % 0x1_0000_0000) * 0x27d4_eb2f) as u64;
    h3 ^ (h3 >> 33)
}

/// Deterministic mixing of a seed and two lattice coordinates.
pub fn mix(seed: u64, x: u64, y: u64) -> (r: u64)
    ensures
        r == mix_spec(seed, x, y),
{
    proof {
        reveal(mix_spec);
    }
    let h1 = (((x % 0x1_0000_0000) * 0x9e37_79b1) ^ ((y % 0x1_0000_0000) * 0x85eb_ca77)) ^ seed;
    let h2 = ((h1 ^ (h1 >> 29)) % 0x1_0000_0000) * 0xc2b2_ae3d;
    let h3 = ((h2 ^ (h2 >> 31)) % 0x1_0000_0000) * 0x27d4_eb2f;
    h3 ^ (h3 >> 33)
}

/// The pseudo-random lattice value at integer cell `(xi, yi)`: a value in
/// `[-FP_ONE, FP_ONE]` that depends only on the seed and the cell.
#[verifier::opaque]
pub open spec fn corner_spec(seed: u64, xi: u64, yi: u64) -> int {
    (mix_spec(seed, xi, yi) % 131073) - FP_ONE
}

/// Lattice corner value.
pub fn corner(seed: u64, xi: u64, yi: u64) -> (r: i64)
    ensures
        r == corner_spec(seed, xi, yi),
        -FP_ONE <= r <= FP_ONE,
{
    proof {
        reveal(corner_spec);
    }
    let h = mix(seed, xi, yi);
    (h % 131073) as i64 - FP_ONE
}

/// Linear interpolation from `a` to `b` by `t / FP_ONE`, with the division
/// applied only to non-negative operands.
pub open spec fn lerp_spec(a: int, b: int, t: int) -> int {
    if b >= a {
        a + ((b - a) * t) / (FP_ONE as int)
    } else {
        a - ((a - b) * t) / (FP_ONE as int)
    }
}

/// Linear interpolation between two unit-scale values.
pub fn lerp(a: i64, b: i64, t: i64) -> (r: i64)
    requires
        -FP_ONE <= a <= FP_ONE,
        -FP_ONE <= b <= FP_ONE,
        0 <= t <= FP_ONE,
    ensures
        r == lerp_spec(a as int, b as int, t as int),
        -FP_ONE <= r <= FP_ONE,
        a <= b ==> a <= r <= b,
        b <= a ==> b <= r <= a,
{
    if b >= a {
        let d = b - a;
        proof {
            assert(0 <= d * t <= d * FP_ONE) by (nonlinear_arith)
                requires
                    0 <= d,
                    0 <= t <= FP_ONE,
            ;
            assert(d * t / (FP_ONE as int) <= d) by (nonlinear_arith)
                requires
                    0 <= d * t <= d * FP_ONE,
                    0 <= d,
            ;
        }
        a + d * t / FP_ONE
    } else {
        let d = a - b;
        proof {
            assert(0 <= d * t <= d * FP_ONE) by (nonlinear_arith)
                requires
                    0 <= d,
                    0 <= t <= FP_ONE,
            ;
            assert(d * t / (FP_ONE as int) <= d) by (nonlinear_arith)
                requires
                    0 <= d * t <= d * FP_ONE,
                    0 <= d,
            ;
        }
        a - d * t / FP_ONE
    }
}

/// Bilinear lattice value noise at fixed-point coordinates `(x, y)`: the four
/// surrounding corner values blended by the fractional position. The result
/// is a deterministic function of the seed and the coordinates, always in
/// `[-FP_ONE, FP_ONE]`.
#[verifier::opaque]
pub open spec fn value_noise_spec(seed: u64, x: int, y: int) -> int
    recommends
        0 <= x <= COORD_MAX,
        0 <= y <= COORD_MAX,
{
    let xi = x / (FP_ONE as int);
    let yi = y / (FP_ONE as int);
    let tx = x % (FP_ONE as int);
    let ty = y % (FP_ONE as int);
    let c00 = corner_spec(seed, xi as u64, yi as u64);
    let c10 = corner_spec(seed, (xi + 1) as u64, yi as u64);
    let c01 = corner_spec(seed, xi as u64, (yi + 1) as u64);
    let c11 = corner_spec(seed, (xi + 1) as u64, (yi + 1) as u64);
    lerp_spec(lerp_spec(c00, c10, tx), lerp_spec(c01, c11, tx), ty)
}

/// Sample the lattice value noise.
pub fn value_noise(seed: u64, x: i64, y: i64) -> (r: i64)
    requires
        0 <= x <= COORD_MAX,
        0 <= y <= COORD_MAX,
    ensures
        r == value_noise_spec(seed, x as int, y as int),
        -FP_ONE <= r <= FP_ONE,
{
    proof {
        reveal(value_noise_spec);
    }
    let xi = (x / FP_ONE) as u64;
    let yi = (y / FP_ONE) as u64;
    let tx = x % FP_ONE;
    let ty = y % FP_ONE;
    let c00 = corner(seed, xi, yi);
    let c10 = corner(seed, xi + 1, yi);
    let c01 = corner(seed, xi, yi + 1);
    let c11 = corner(seed, xi + 1, yi + 1);
    let nx0 = lerp(c00, c10, tx);
    let nx1 = lerp(c01, c11, tx);
    lerp(nx0, nx1, ty)
}

/// A deterministic scalar noise field: a seed selecting the lattice values
/// and an amplitude scaling every sample. An amplitude of 0 gives the
/// zero-variance (perfectly flat) provider, `FP_ONE` the full-range one.
pub struct NoiseField {
    pub seed: u64,
    pub amplitude: i64,
}

impl NoiseField {
    /// A well-formed field has a unit-interval amplitude.
    pub open spec fn wf(self) -> bool {
        0 <= self.amplitude <= FP_ONE
    }

    /// What a sample at `(x, y)` is: the lattice noise scaled by the
    /// amplitude.
    #[verifier::opaque]
    pub open spec fn sample_spec(self, x: int, y: int) -> int {
        fp_mul_spec(self.amplitude as int, value_noise_spec(self.seed, x, y))
    }

    /// Construct a full-amplitude field from a seed.
    pub fn new(seed: u64) -> (r: NoiseField)
        ensures
            r.seed == seed,
            r.amplitude == FP_ONE,
            r.wf(),
    {
        NoiseField { seed, amplitude: FP_ONE }
    }

    /// Construct a field with an explicit amplitude; amplitude 0 yields the
    /// constant-zero provider.
    pub fn with_amplitude(seed: u64, amplitude: i64) -> (r: NoiseField)
        requires
            0 <= amplitude <= FP_ONE,
        ensures
            r.seed == seed,
            r.amplitude == amplitude,
            r.wf(),
    {
        NoiseField { seed, amplitude }
    }

    /// Sample the field at fixed-point coordinates.
    pub fn sample(&self, x: i64, y: i64) -> (r: i64)
        requires
            self.wf(),
            0 <= x <= COORD_MAX,
            0 <= y <= COORD_MAX,
        ensures
            r == self.sample_spec(x as int, y as int),
            -FP_ONE <= r <= FP_ONE,
            self.amplitude == 0 ==> r == 0,
    {
        let n = value_noise(self.seed, x, y);
        proof {
            reveal(NoiseField::sample_spec);
            assert(-0x1_0000_0000 <= self.amplitude * n <= 0x1_0000_0000) by (nonlinear_arith)
                requires
                    0 <= self.amplitude <= FP_ONE,
                    -FP_ONE <= n <= FP_ONE,
            ;
            if n >= 0 {
                lemma_fp_unit_mul(self.amplitude as int, n as int);
            } else {
                lemma_fp_unit_mul(self.amplitude as int, -n as int);
            }
        }
        fp_mul(self.amplitude, n)
    }
}

} // verus!
