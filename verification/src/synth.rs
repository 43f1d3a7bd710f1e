use vstd::prelude::*;

verus! {

use crate::fixed::{
    FP_ONE, RAW_MAX, clamp_spec, clamp64, fp_mul_spec, fp_mul, mul_div_spec, mul_div,
    mul_div_s_spec, mul_div_s, abs_spec, abs64, isqrt64,
};
use crate::noise_field::{NoiseField, coord_scale, coord_scale_s};
use crate::grid::{RawElevationField, gidx, lemma_gidx_bounds, MAX_CELLS};
use crate::config::WorldGenConfig;

/// Offset added to ridge projection coordinates so that oblique projections,
/// which may be negative, land in the noise field's non-negative domain.
pub const AXIS_BASE: i64 = 0x10_0000_0000;

/// The per-generation sampling parameters of the synthesizer, derived once
/// from the configuration and the target dimensions.
pub struct SynthParams {
    /// Base seed; each noise field perturbs it with its own constant.
    pub seed: u64,
    /// Amplitude handed to every noise field (0 mocks a flat provider).
    pub amplitude: i64,
    /// `max(width - 1, 1)`, the denominator of normalized x coordinates.
    pub w1: i64,
    /// `max(height - 1, 1)`.
    pub h1: i64,
    /// Continental scale in fixed-point world units.
    pub cs: i64,
    /// Seed-derived world-space offset, x component.
    pub off_x: i64,
    /// Seed-derived world-space offset, y component.
    pub off_y: i64,
    /// Mountain amplitude relative to the 3500 m baseline, in `[0, 2]`.
    pub amp_factor: i64,
}

impl SynthParams {
    /// Ranges under which every coordinate computation below fits in `i64`
    /// and every noise coordinate is admissible.
    pub open spec fn wf(self) -> bool {
        &&& 0 <= self.amplitude <= FP_ONE
        &&& 1 <= self.w1 <= 0x400_0000
        &&& 1 <= self.h1 <= 0x400_0000
        &&& 983040 <= self.cs <= 1_500_000_000
        &&& 0 <= self.off_x <= 65_536_000
        &&& 0 <= self.off_y <= 65_536_000
        &&& 0 <= self.amp_factor <= 131072
    }

    /// The continent noise field.
    pub open spec fn cont_field(self) -> NoiseField {
        NoiseField { seed: self.seed, amplitude: self.amplitude }
    }

    /// The fine-detail noise field.
    pub open spec fn detail_field(self) -> NoiseField {
        NoiseField { seed: self.seed ^ 0x1234_5678, amplitude: self.amplitude }
    }

    /// The first (25 degree) ridge noise field.
    pub open spec fn ridge1_field(self) -> NoiseField {
        NoiseField { seed: self.seed ^ 0x8765_4321, amplitude: self.amplitude }
    }

    /// The second (-40 degree) ridge noise field.
    pub open spec fn ridge2_field(self) -> NoiseField {
        NoiseField { seed: self.seed ^ 0x7777, amplitude: self.amplitude }
    }

    /// The domain-warp noise field.
    pub open spec fn warp_field(self) -> NoiseField {
        NoiseField { seed: self.seed ^ 0x3e7, amplitude: self.amplitude }
    }
}

/// World-space coordinate before warping: one continental scale of margin,
/// the seed offset, and the normalized position scaled up.
pub open spec fn base_coord_spec(p: SynthParams, v: int, d1: int, off: int) -> int {
    p.cs + off + mul_div_spec(mul_div_spec(v, FP_ONE as int, d1), p.cs as int, FP_ONE as int)
}

/// The domain-warped x coordinate.
pub open spec fn warped_x_spec(p: SynthParams, px: int, py: int) -> int {
    let wx = p.warp_field().sample_spec(
        mul_div_spec(px, 26214, p.cs as int),
        mul_div_spec(py, 26214, p.cs as int),
    );
    px + mul_div_s_spec(fp_mul_spec(wx, 22938), p.cs as int, FP_ONE as int)
}

/// The domain-warped y coordinate, sampled at a shifted point so the two
/// warp components are independent.
pub open spec fn warped_y_spec(p: SynthParams, px: int, py: int) -> int {
    let wy = p.warp_field().sample_spec(
        mul_div_spec(px + 100 * FP_ONE, 26214, p.cs as int),
        mul_div_spec(py + 50 * FP_ONE, 26214, p.cs as int),
    );
    py + mul_div_s_spec(fp_mul_spec(wy, 22938), p.cs as int, FP_ONE as int)
}

/// The continent field sampled at warped world coordinates.
pub open spec fn cont_sample_spec(p: SynthParams, ax: int, ay: int) -> int {
    p.cont_field().sample_spec(
        mul_div_spec(ax, 32768, p.cs as int),
        mul_div_spec(ay, 32768, p.cs as int),
    )
}

/// Gradient magnitude of the continent field at a one-sided finite
/// difference of half a continental scale.
pub open spec fn grad_mag_spec(p: SynthParams, xw: int, yw: int, cont_raw: int) -> int {
    let eps = (p.cs as int) / 2;
    let dx = cont_sample_spec(p, xw + eps, yw) - cont_raw;
    let dy = cont_sample_spec(p, xw, yw + eps) - cont_raw;
    crate::fixed::isqrt_spec(dx * dx + dy * dy)
}

/// Three-octave fractal detail at warped coordinates, at reduced amplitude.
pub open spec fn detail_spec(p: SynthParams, xw: int, yw: int) -> int {
    let n0 = p.detail_field().sample_spec(
        mul_div_spec(xw, 98304, p.cs as int),
        mul_div_spec(yw, 98304, p.cs as int),
    );
    let n1 = p.detail_field().sample_spec(
        mul_div_spec(xw, 196608, p.cs as int),
        mul_div_spec(yw, 196608, p.cs as int),
    );
    let n2 = p.detail_field().sample_spec(
        mul_div_spec(xw, 393216, p.cs as int),
        mul_div_spec(yw, 393216, p.cs as int),
    );
    fp_mul_spec(n0 + fp_mul_spec(n1, 32768) + fp_mul_spec(n2, 16384), 11797)
}

/// First anisotropic ridge: projection onto the 25 degree axis with the
/// orthogonal direction compressed, turned into sharp peaks.
pub open spec fn ridge1_spec(p: SynthParams, xw: int, yw: int) -> int {
    let proj = mul_div_spec(xw, 59404, FP_ONE as int) + mul_div_spec(yw, 27697, FP_ONE as int);
    let ortho = mul_div_spec(yw, 59404, FP_ONE as int) - mul_div_spec(xw, 27697, FP_ONE as int);
    let u = mul_div_spec(proj, 58982, p.cs as int);
    let v = AXIS_BASE + mul_div_s_spec(ortho, 20644, p.cs as int);
    let r = p.ridge1_field().sample_spec(u, v);
    crate::curves::ridge17_spec(FP_ONE - abs_spec(r))
}

/// Second anisotropic ridge on the -40 degree axis.
pub open spec fn ridge2_spec(p: SynthParams, xw: int, yw: int) -> int {
    let proj = mul_div_spec(xw, 50208, FP_ONE as int) - mul_div_spec(yw, 42126, FP_ONE as int);
    let ortho = mul_div_spec(yw, 50208, FP_ONE as int) + mul_div_spec(xw, 42126, FP_ONE as int);
    let u = AXIS_BASE + mul_div_s_spec(proj, 53084, p.cs as int);
    let v = AXIS_BASE + mul_div_s_spec(ortho, 23593, p.cs as int);
    let r = p.ridge2_field().sample_spec(u, v);
    crate::curves::ridge17_spec(FP_ONE - abs_spec(r))
}

/// The raw elevation of cell `(x, y)`: warped continent base, gated ridges
/// and coastal-faded detail combined, clamped to the raw window.
#[verifier::opaque]
pub open spec fn cell_elevation_spec(p: SynthParams, x: int, y: int) -> int {
    let px = base_coord_spec(p, x, p.w1 as int, p.off_x as int);
    let py = base_coord_spec(p, y, p.h1 as int, p.off_y as int);
    let xw = warped_x_spec(p, px, py);
    let yw = warped_y_spec(p, px, py);
    let cont_raw = cont_sample_spec(p, xw, yw);
    let land = if cont_raw - 6554 > 0 {
        cont_raw - 6554
    } else {
        0
    };
    let grad_factor = clamp_spec(2 * grad_mag_spec(p, xw, yw, cont_raw), 0, 98304);
    let detail = detail_spec(p, xw, yw);
    let ridge_sum = fp_mul_spec(39322, ridge1_spec(p, xw, yw)) + fp_mul_spec(
        26214,
        ridge2_spec(p, xw, yw),
    );
    let mountain = clamp_spec(fp_mul_spec(fp_mul_spec(ridge_sum, land), grad_factor), 0, 131072);
    let base_land = crate::curves::gain12_spec(land);
    let coastal = clamp_spec(mul_div_spec(land, FP_ONE as int, 11797), 0, FP_ONE as int);
    let mountain_inland = fp_mul_spec(
        fp_mul_spec(mountain, 26214 + fp_mul_spec(32768, coastal)),
        p.amp_factor as int,
    );
    let detail_inland = fp_mul_spec(detail, coastal);
    clamp_spec(base_land + detail_inland + mountain_inland, 0, RAW_MAX as int)
}

/// The whole raw field, cell by cell in row-major order.
pub open spec fn raw_field_spec(p: SynthParams, w: int, h: int) -> Seq<i64> {
    Seq::new((w * h) as nat, |i: int| cell_elevation_spec(p, i % w, i / w) as i64)
}

/// Derivation of the sampling parameters from a configuration: the
/// continental scale is clamped to a sane window and widened by half, the
/// offsets are drawn from the seed, and the mountain amplitude is taken
/// relative to a 3500 m baseline.
pub open spec fn synth_params_spec(
    cfg: WorldGenConfig,
    width: u32,
    height: u32,
    amplitude: i64,
) -> SynthParams {
    SynthParams {
        seed: cfg.base_seed,
        amplitude,
        w1: if width <= 1 {
            1
        } else {
            (width - 1) as i64
        },
        h1: if height <= 1 {
            1
        } else {
            (height - 1) as i64
        },
        cs: (clamp_spec(cfg.continental_scale_km as int, 655360, 1_000_000_000) * 3 / 2) as i64,
        off_x: (crate::noise_field::mix_spec(cfg.base_seed, 0xf05, 1) % 65_536_000) as i64,
        off_y: (crate::noise_field::mix_spec(cfg.base_seed, 0xf05, 2) % 65_536_000) as i64,
        amp_factor: clamp_spec(
            mul_div_spec(cfg.mountain_amplitude_m as int, FP_ONE as int, 229_376_000),
            0,
            131072,
        ) as i64,
    }
}

/// Build the sampling parameters.
pub fn synth_params(cfg: &WorldGenConfig, width: u32, height: u32, amplitude: i64) -> (p:
    SynthParams)
    requires
        cfg.valid(),
        width <= MAX_CELLS,
        height <= MAX_CELLS,
        0 <= amplitude <= FP_ONE,
    ensures
        p == synth_params_spec(*cfg, width, height, amplitude),
        p.wf(),
{
    let w1: i64 = if width <= 1 {
        1
    } else {
        (width - 1) as i64
    };
    let h1: i64 = if height <= 1 {
        1
    } else {
        (height - 1) as i64
    };
    let cs = clamp64(cfg.continental_scale_km, 655360, 1_000_000_000) * 3 / 2;
    let off_x = (crate::noise_field::mix(cfg.base_seed, 0xf05, 1) % 65_536_000) as i64;
    let off_y = (crate::noise_field::mix(cfg.base_seed, 0xf05, 2) % 65_536_000) as i64;
    let amp_factor = clamp64(mul_div(cfg.mountain_amplitude_m, FP_ONE, 229_376_000), 0, 131072);
    SynthParams { seed: cfg.base_seed, amplitude, w1, h1, cs, off_x, off_y, amp_factor }
}

/// Raw elevation of one cell.
#[verifier::rlimit(100)]
pub fn cell_elevation(p: &SynthParams, x: u32, y: u32) -> (r: i64)
    requires
        p.wf(),
        x <= p.w1,
        y <= p.h1,
    ensures
        r == cell_elevation_spec(*p, x as int, y as int),
        0 <= r <= RAW_MAX,
{
    proof {
        reveal(cell_elevation_spec);
    }
    let nx = mul_div(x as i64, FP_ONE, p.w1);
    let ny = mul_div(y as i64, FP_ONE, p.h1);
    proof {
        assert(nx * p.cs <= 0x7fff_ffff_ffff_ffff && ny * p.cs <= 0x7fff_ffff_ffff_ffff)
            by (nonlinear_arith)
            requires
                0 <= nx <= FP_ONE,
                0 <= ny <= FP_ONE,
                0 < p.cs <= 1_500_000_000,
        ;
    }
    let px = p.cs + p.off_x + mul_div(nx, p.cs, FP_ONE);
    let py = p.cs + p.off_y + mul_div(ny, p.cs, FP_ONE);
    let warp = NoiseField { seed: p.seed ^ 0x3e7, amplitude: p.amplitude };
    let wx = warp.sample(coord_scale(px, 26214, p.cs), coord_scale(py, 26214, p.cs));
    let wy = warp.sample(
        coord_scale(px + 100 * FP_ONE, 26214, p.cs),
        coord_scale(py + 50 * FP_ONE, 26214, p.cs),
    );
    let tx = fp_mul(wx, 22938);
    let ty = fp_mul(wy, 22938);
    proof {
        assert(-0x7fff_ffff_ffff_ffff <= tx * p.cs <= 0x7fff_ffff_ffff_ffff && abs_spec(
            mul_div_s_spec(tx as int, p.cs as int, FP_ONE as int),
        ) < p.cs) by (nonlinear_arith)
            requires
                -22938 <= tx <= 22938,
                983040 <= p.cs <= 1_500_000_000,
        ;
        assert(-0x7fff_ffff_ffff_ffff <= ty * p.cs <= 0x7fff_ffff_ffff_ffff && abs_spec(
            mul_div_s_spec(ty as int, p.cs as int, FP_ONE as int),
        ) < p.cs) by (nonlinear_arith)
            requires
                -22938 <= ty <= 22938,
                983040 <= p.cs <= 1_500_000_000,
        ;
    }
    let xw = px + mul_div_s(tx, p.cs, FP_ONE);
    let yw = py + mul_div_s(ty, p.cs, FP_ONE);
    let cont = NoiseField { seed: p.seed, amplitude: p.amplitude };
    let cont_raw = cont.sample(coord_scale(xw, 32768, p.cs), coord_scale(yw, 32768, p.cs));
    let land = if cont_raw - 6554 > 0 {
        cont_raw - 6554
    } else {
        0
    };
    // Gradient of the continent field by a one-sided finite difference.
    let eps = p.cs / 2;
    let cx1 = cont.sample(coord_scale(xw + eps, 32768, p.cs), coord_scale(yw, 32768, p.cs));
    let cy1 = cont.sample(coord_scale(xw, 32768, p.cs), coord_scale(yw + eps, 32768, p.cs));
    let dx = cx1 - cont_raw;
    let dy = cy1 - cont_raw;
    proof {
        assert(0 <= dx * dx <= 0x4_0000_0000 && 0 <= dy * dy <= 0x4_0000_0000 && 0 <= dx * dx + dy
            * dy <= 0x8_0000_0000) by (nonlinear_arith)
            requires
                -131072 <= dx <= 131072,
                -131072 <= dy <= 131072,
        ;
    }
    let grad = isqrt64((dx * dx + dy * dy) as u64);
    proof {
        assert(grad <= 185364) by (nonlinear_arith)
            requires
                0 <= grad,
                (grad as int) * (grad as int) <= 0x8_0000_0000,
        ;
    }
    let grad_factor = clamp64(2 * (grad as i64), 0, 98304);
    // Fractal detail, three octaves with halving amplitude.
    let detail_f = NoiseField { seed: p.seed ^ 0x1234_5678, amplitude: p.amplitude };
    let n0 = detail_f.sample(coord_scale(xw, 98304, p.cs), coord_scale(yw, 98304, p.cs));
    let n1 = detail_f.sample(coord_scale(xw, 196608, p.cs), coord_scale(yw, 196608, p.cs));
    let n2 = detail_f.sample(coord_scale(xw, 393216, p.cs), coord_scale(yw, 393216, p.cs));
    let dsum = n0 + fp_mul(n1, 32768) + fp_mul(n2, 16384);
    let detail = fp_mul(dsum, 11797);
    // Ridge one, 25 degree axis.
    let r1f = NoiseField { seed: p.seed ^ 0x8765_4321, amplitude: p.amplitude };
    let proj1 = mul_div(xw, 59404, FP_ONE) + mul_div(yw, 27697, FP_ONE);
    let ortho1 = mul_div(yw, 59404, FP_ONE) - mul_div(xw, 27697, FP_ONE);
    let u1 = coord_scale(proj1, 58982, p.cs);
    let v1 = AXIS_BASE + coord_scale_s(ortho1, 20644, p.cs);
    let r1 = r1f.sample(u1, v1);
    let ridge1 = crate::curves::ridge17(FP_ONE - abs64(r1));
    // Ridge two, -40 degree axis.
    let r2f = NoiseField { seed: p.seed ^ 0x7777, amplitude: p.amplitude };
    let proj2 = mul_div(xw, 50208, FP_ONE) - mul_div(yw, 42126, FP_ONE);
    let ortho2 = mul_div(yw, 50208, FP_ONE) + mul_div(xw, 42126, FP_ONE);
    let u2 = AXIS_BASE + coord_scale_s(proj2, 53084, p.cs);
    let v2 = AXIS_BASE + coord_scale_s(ortho2, 23593, p.cs);
    let r2 = r2f.sample(u2, v2);
    let ridge2 = crate::curves::ridge17(FP_ONE - abs64(r2));
    let ridge_sum = fp_mul(39322, ridge1) + fp_mul(26214, ridge2);
    let rl = fp_mul(ridge_sum, land);
    let mountain = clamp64(fp_mul(rl, grad_factor), 0, 131072);
    let base_land = crate::curves::gain12(land);
    let coastal = clamp64(mul_div(land, FP_ONE, 11797), 0, FP_ONE);
    let inland_w = 26214 + fp_mul(32768, coastal);
    let mi = fp_mul(mountain, inland_w);
    proof {
        assert(abs_spec(fp_mul_spec(mi as int, p.amp_factor as int)) <= 0x4000_0000)
            by (nonlinear_arith)
            requires
                -131072 <= mi <= 131072,
                0 <= p.amp_factor <= 131072,
        ;
    }
    let mountain_inland = fp_mul(mi, p.amp_factor);
    let detail_inland = fp_mul(detail, coastal);
    clamp64(base_land + detail_inland + mountain_inland, 0, RAW_MAX)
}

/// Synthesize the raw elevation field for the whole grid.
pub fn generate_raw_field(cfg: &WorldGenConfig, width: u32, height: u32, amplitude: i64) -> (f:
    RawElevationField)
    requires
        cfg.valid(),
        width <= MAX_CELLS,
        height <= MAX_CELLS,
        (width as int) * (height as int) <= MAX_CELLS,
        0 <= amplitude <= FP_ONE,
    ensures
        f.wf(),
        f.width == width,
        f.height == height,
        f.values@ == raw_field_spec(
            synth_params_spec(*cfg, width, height, amplitude),
            width as int,
            height as int,
        ),
{
    let p = synth_params(cfg, width, height, amplitude);
    let ghost gw = width as int;
    let ghost gh = height as int;
    let ghost target = raw_field_spec(p, gw, gh);
    let mut values: Vec<i64> = Vec::new();
    let mut y: u32 = 0;
    while y < height
        invariant
            p.wf(),
            p == synth_params_spec(*cfg, width, height, amplitude),
            0 <= y <= height,
            (width as int) * (height as int) <= MAX_CELLS,
            target == raw_field_spec(p, gw, gh),
            gw == width as int,
            gh == height as int,
            p.w1 as int == if width <= 1 { 1int } else { width - 1 },
            p.h1 as int == if height <= 1 { 1int } else { height - 1 },
            values.len() == y * width,
            forall|i: int| 0 <= i < values.len() ==> values[i] == target[i],
            forall|i: int| 0 <= i < values.len() ==> 0 <= #[trigger] values[i] <= RAW_MAX,
        decreases height - y,
    {
        let mut x: u32 = 0;
        while x < width
            invariant
                p.wf(),
                0 <= x <= width,
                y < height,
                (width as int) * (height as int) <= MAX_CELLS,
                target == raw_field_spec(p, gw, gh),
                gw == width as int,
                gh == height as int,
                p.w1 as int == if width <= 1 { 1int } else { width - 1 },
                p.h1 as int == if height <= 1 { 1int } else { height - 1 },
                values.len() == y * width + x,
                forall|i: int| 0 <= i < values.len() ==> values[i] == target[i],
                forall|i: int| 0 <= i < values.len() ==> 0 <= #[trigger] values[i] <= RAW_MAX,
            decreases width - x,
        {
            proof {
                lemma_gidx_bounds(gw, gh, x as int, y as int);
            }
            let v = cell_elevation(&p, x, y);
            proof {
                let i = gidx(gw, x as int, y as int);
                assert(i % gw == x as int && i / gw == y as int) by (nonlinear_arith)
                    requires
                        i == (y as int) * gw + x,
                        0 <= x < gw,
                        0 <= y,
                ;
                assert(target[i] == v);
            }
            values.push(v);
            x = x + 1;
        }
        proof {
            assert((y as int + 1) * width == y * width + width) by (nonlinear_arith);
        }
        y = y + 1;
    }
    proof {
        assert(gh * gw == gw * gh) by (nonlinear_arith);
        assert(values@ =~= target);
    }
    RawElevationField { width, height, values }
}

} // verus!
