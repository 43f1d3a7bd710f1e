use vstd::prelude::*;

verus! {

use crate::fixed::{FP_ONE, RAW_MIN, RAW_MAX, clamp_spec, clamp64, fp_mul_spec, fp_mul, abs_spec,
    abs64, isqrt_spec, isqrt64};
use crate::grid::{RawElevationField, gidx, lemma_gidx_bounds};
use crate::flow::{dir_dx, dir_dy, dir};
use crate::noise_field::NoiseField;

/// How strongly cell `(x, y)` sits on a fault-line intersection: the
/// near-zero crossings of two independent noise reads, multiplied and
/// sharpened.
pub open spec fn canyon_strength_spec(nf: NoiseField, x: int, y: int) -> int {
    let n1 = nf.sample_spec(x * 3277, y * 3277);
    let n2 = nf.sample_spec(x * 7537 + 100 * FP_ONE, y * 7537 + 50 * FP_ONE);
    crate::curves::canyon25_spec(fp_mul_spec(FP_ONE - abs_spec(n1), FP_ONE - abs_spec(n2)))
}

/// Depth carved from the canyon center for a given strength above the
/// trigger threshold.
pub open spec fn canyon_carve_spec(intensity: int, s: int) -> int {
    fp_mul_spec(intensity, (s - 19661) * 3)
}

/// V-profile falloff of the carve at neighbor offset `(dx, dy)`.
pub open spec fn canyon_falloff(dx: int, dy: int) -> int {
    let dist = isqrt_spec((dx * dx + dy * dy) * FP_ONE * FP_ONE);
    if FP_ONE - dist / 2 > 0 {
        FP_ONE - dist / 2
    } else {
        0
    }
}

/// The writes of one firing canyon cell, in scan order: the center first,
/// then each of the 8 neighbors at a reduced, distance-scaled depth. A cell
/// at or below the shallow-water guard is left alone.
pub open spec fn canyon_writes_upto(
    g: Seq<i64>,
    w: int,
    h: int,
    x: int,
    y: int,
    carve: int,
    j: int,
) -> Seq<i64>
    decreases j,
{
    if j <= 0 {
        g.update(
            gidx(w, x, y),
            clamp_spec(g[gidx(w, x, y)] - carve, RAW_MIN as int, RAW_MAX as int) as i64,
        )
    } else {
        let p = canyon_writes_upto(g, w, h, x, y, carve, j - 1);
        let dx = dir_dx(j - 1);
        let dy = dir_dy(j - 1);
        let nx = x + dx;
        let ny = y + dy;
        if 0 < nx && nx < w && 0 < ny && ny < h && p[gidx(w, nx, ny)] > 13107 {
            let t = gidx(w, nx, ny);
            let sub = fp_mul_spec(carve, fp_mul_spec(canyon_falloff(dx, dy), 26214));
            p.update(t, clamp_spec(p[t] - sub, RAW_MIN as int, RAW_MAX as int) as i64)
        } else {
            p
        }
    }
}

/// The grid after considering cell `(x, y)` for canyon carving.
pub open spec fn canyon_cell_spec(
    g: Seq<i64>,
    w: int,
    h: int,
    x: int,
    y: int,
    nf: NoiseField,
    intensity: int,
) -> Seq<i64> {
    let s = canyon_strength_spec(nf, x, y);
    if s > 19661 && g[gidx(w, x, y)] > 13107 {
        canyon_writes_upto(g, w, h, x, y, canyon_carve_spec(intensity, s), 8)
    } else {
        g
    }
}

/// The grid after the first `k` cells (row-major) have been considered.
pub open spec fn canyon_upto(
    g: Seq<i64>,
    w: int,
    h: int,
    nf: NoiseField,
    intensity: int,
    k: nat,
) -> Seq<i64>
    decreases k,
{
    if k == 0 {
        g
    } else {
        let p = canyon_upto(g, w, h, nf, intensity, (k - 1) as nat);
        let x = (k - 1) % w;
        let y = (k - 1) / w;
        canyon_cell_spec(p, w, h, x, y, nf, intensity)
    }
}

/// Canyon carving over the whole grid: where two noise fields cross zero at
/// once, a V-shaped profile is cut, skipping cells at or below the
/// shallow-water guard. Cells are considered in row-major order and each
/// carve is visible to the cells after it.
pub open spec fn canyon_spec(g: Seq<i64>, w: int, h: int, nf: NoiseField, intensity: int) -> Seq<
    i64,
> {
    canyon_upto(g, w, h, nf, intensity, g.len() as nat)
}

/// Canyon carving, the fourth erosion stage.
pub fn apply_canyon_erosion(field: &mut RawElevationField, noise: &NoiseField, intensity: i64)
    requires
        old(field).wf(),
        noise.wf(),
        0 <= intensity <= FP_ONE,
    ensures
        final(field).wf(),
        final(field).width == old(field).width,
        final(field).height == old(field).height,
        final(field).values@ == canyon_spec(
            old(field).values@,
            old(field).width as int,
            old(field).height as int,
            *noise,
            intensity as int,
        ),
{
    let ghost g0 = field.values@;
    let ghost w = field.width as int;
    let ghost h = field.height as int;
    let width = field.width;
    let height = field.height;
    let mut y: u32 = 0;
    while y < height
        invariant
            field.wf(),
            field.width == width,
            field.height == height,
            w == width as int,
            h == height as int,
            noise.wf(),
            0 <= intensity <= FP_ONE,
            0 <= y <= height,
            field.values@ == canyon_upto(
                g0,
                w,
                h,
                *noise,
                intensity as int,
                ((y as int) * w) as nat,
            ),
        decreases height - y,
    {
        let mut x: u32 = 0;
        while x < width
            invariant
                field.wf(),
                field.width == width,
                field.height == height,
                w == width as int,
                h == height as int,
                noise.wf(),
                0 <= intensity <= FP_ONE,
                y < height,
                0 <= x <= width,
                field.values@ == canyon_upto(
                    g0,
                    w,
                    h,
                    *noise,
                    intensity as int,
                    ((y as int) * w + x as int) as nat,
                ),
            decreases width - x,
        {
            let ghost gpre = field.values@;
            proof {
                lemma_gidx_bounds(w, h, x as int, y as int);
            }
            let c = (y as usize) * (width as usize) + (x as usize);
            let n1 = noise.sample(x as i64 * 3277, y as i64 * 3277);
            let n2 = noise.sample(
                x as i64 * 7537 + 100 * FP_ONE,
                y as i64 * 7537 + 50 * FP_ONE,
            );
            let r1 = FP_ONE - abs64(n1);
            let r2 = FP_ONE - abs64(n2);
            proof {
                crate::fixed::lemma_fp_unit_mul(r1 as int, r2 as int);
            }
            let s = crate::curves::canyon25(fp_mul(r1, r2));
            if s > 19661 && field.values[c] > 13107 {
                let carve = fp_mul(intensity, (s - 19661) * 3);
                let cv = clamp64(field.values[c] - carve, RAW_MIN, RAW_MAX);
                field.values.set(c, cv);
                proof {
                    assert(field.values@ == canyon_writes_upto(
                        gpre,
                        w,
                        h,
                        x as int,
                        y as int,
                        carve as int,
                        0,
                    ));
                }
                let mut j: usize = 0;
                while j < 8
                    invariant
                        field.wf(),
                        field.width == width,
                        field.height == height,
                        w == width as int,
                        h == height as int,
                        y < height,
                        x < width,
                        0 <= carve <= 0x80000,
                        0 <= j <= 8,
                        field.values@ == canyon_writes_upto(
                            gpre,
                            w,
                            h,
                            x as int,
                            y as int,
                            carve as int,
                            j as int,
                        ),
                    decreases 8 - j,
                {
                    let (dx, dy) = dir(j);
                    let nx = x as i64 + dx;
                    let ny = y as i64 + dy;
                    if nx > 0 && nx < width as i64 && ny > 0 && ny < height as i64 {
                        proof {
                            lemma_gidx_bounds(w, h, nx as int, ny as int);
                        }
                        let t = (ny as usize) * (width as usize) + (nx as usize);
                        let vold = field.values[t];
                        if vold > 13107 {
                            proof {
                                assert(0 <= dx * dx <= 1 && 0 <= dy * dy <= 1 && 0 <= (dx * dx + dy
                                    * dy) * FP_ONE <= 0x2_0000 && 0 <= (dx * dx + dy * dy) * FP_ONE
                                    * FP_ONE <= 0x2_0000_0000) by (nonlinear_arith)
                                    requires
                                        -1 <= dx <= 1,
                                        -1 <= dy <= 1,
                                ;
                            }
                            let dist = isqrt64(((dx * dx + dy * dy) * FP_ONE * FP_ONE) as u64);
                            proof {
                                assert(dist <= 0x18000) by (nonlinear_arith)
                                    requires
                                        0 <= dist,
                                        (dist as int) * (dist as int) <= 0x2_0000_0000,
                                ;
                            }
                            let falloff = if FP_ONE - (dist as i64) / 2 > 0 {
                                FP_ONE - (dist as i64) / 2
                            } else {
                                0
                            };
                            let fw = fp_mul(falloff, 26214);
                            let sub = fp_mul(carve, fw);
                            let nv = clamp64(vold - sub, RAW_MIN, RAW_MAX);
                            field.values.set(t, nv);
                        }
                    }
                    j = j + 1;
                }
            }
            proof {
                let kk = (y as int) * w + x as int;
                assert(kk % w == x as int && kk / w == y as int) by (nonlinear_arith)
                    requires
                        kk == (y as int) * w + x,
                        0 <= x < w,
                        0 <= y,
                ;
            }
            x = x + 1;
        }
        proof {
            assert((y as int) * w + w == (y as int + 1) * w) by (nonlinear_arith);
        }
        y = y + 1;
    }
    proof {
        assert(g0.len() == (h as int) * w) by (nonlinear_arith)
            requires
                g0.len() == w * h,
        ;
    }
}

} // verus!
