use vstd::prelude::*;

verus! {

use crate::fixed::{FP_ONE, RAW_MIN, RAW_MAX, clamp_spec, clamp64, fp_mul_spec, fp_mul, isqrt_spec,
    isqrt64};
use crate::grid::{RawElevationField, gidx, lemma_gidx_bounds};
use crate::flow::{dir_dx, dir_dy, dir};
use crate::noise_field::NoiseField;

/// Whether the first `k` of the 8 neighbors of interior cell `(x, y)` all
/// lie strictly above it.
pub open spec fn higher_upto(g: Seq<i64>, w: int, x: int, y: int, k: int) -> bool
    decreases k,
{
    if k <= 0 {
        true
    } else {
        higher_upto(g, w, x, y, k - 1) && g[gidx(w, x, y)] < g[gidx(
            w,
            x + dir_dx(k - 1),
            y + dir_dy(k - 1),
        )]
    }
}

/// Sum of the first `k` neighbor heights of interior cell `(x, y)`, shifted
/// up by `-RAW_MIN` so the sum is non-negative.
pub open spec fn nbr_sum_upto(g: Seq<i64>, w: int, x: int, y: int, k: int) -> int
    decreases k,
{
    if k <= 0 {
        0
    } else {
        nbr_sum_upto(g, w, x, y, k - 1) + (g[gidx(w, x + dir_dx(k - 1), y + dir_dy(k - 1))]
            - RAW_MIN)
    }
}

/// Mean height of the 8 neighbors of interior cell `(x, y)`.
pub open spec fn nbr_avg_spec(g: Seq<i64>, w: int, x: int, y: int) -> int {
    nbr_sum_upto(g, w, x, y, 8) / 8 + RAW_MIN
}

/// Whether a lake forms at interior cell `(x, y)`: it is a strict local
/// minimum, deep enough below its neighborhood, and the per-cell noise gate
/// accepts it.
pub open spec fn lake_fires_spec(
    g: Seq<i64>,
    w: int,
    x: int,
    y: int,
    nf: NoiseField,
    min_depth: int,
    chance: int,
) -> bool {
    let depth = nbr_avg_spec(g, w, x, y) - g[gidx(w, x, y)];
    &&& higher_upto(g, w, x, y, 8)
    &&& depth > min_depth
    &&& (nf.sample_spec(x * 6554, y * 6554) + FP_ONE) / 2 < chance
}

/// The level a forming lake fills to: 70% of the depression depth.
pub open spec fn lake_fill_spec(g: Seq<i64>, w: int, x: int, y: int) -> int {
    g[gidx(w, x, y)] + (nbr_avg_spec(g, w, x, y) - g[gidx(w, x, y)]) * 7 / 10
}

/// Blend factor toward the fill level at offset `(dx, dy)`: 0.3 of a linear
/// falloff that reaches zero at distance 3.
pub open spec fn lake_blend_weight(dx: int, dy: int) -> int {
    let dist = isqrt_spec((dx * dx + dy * dy) * FP_ONE * FP_ONE);
    let falloff = if FP_ONE - dist / 3 > 0 {
        FP_ONE - dist / 3
    } else {
        0
    };
    fp_mul_spec(falloff, 19661)
}

/// A neighbor's height blended toward the fill level.
pub open spec fn lake_blended(vold: int, fill: int, dx: int, dy: int) -> int {
    let bl = lake_blend_weight(dx, dy);
    clamp_spec(
        fp_mul_spec(vold, FP_ONE - bl) + fp_mul_spec(fill, bl),
        RAW_MIN as int,
        RAW_MAX as int,
    )
}

/// The writes of one forming lake, in scan order: first the center is
/// raised to the fill level, then each cell of the 5x5 neighborhood is
/// blended toward it, closer cells more.
pub open spec fn lake_blend_upto(
    g: Seq<i64>,
    w: int,
    h: int,
    x: int,
    y: int,
    fill: int,
    j: int,
) -> Seq<i64>
    decreases j,
{
    if j <= 0 {
        g.update(gidx(w, x, y), clamp_spec(fill, RAW_MIN as int, RAW_MAX as int) as i64)
    } else {
        let p = lake_blend_upto(g, w, h, x, y, fill, j - 1);
        let dx = (j - 1) % 5 - 2;
        let dy = (j - 1) / 5 - 2;
        let nx = x + dx;
        let ny = y + dy;
        if (dx == 0 && dy == 0) || !(0 < nx && nx < w && 0 < ny && ny < h) {
            p
        } else {
            let t = gidx(w, nx, ny);
            p.update(t, lake_blended(p[t] as int, fill, dx, dy) as i64)
        }
    }
}

/// The grid after considering interior cell `(x, y)` for lake formation.
pub open spec fn lake_cell_spec(
    g: Seq<i64>,
    w: int,
    h: int,
    x: int,
    y: int,
    nf: NoiseField,
    min_depth: int,
    chance: int,
) -> Seq<i64> {
    if lake_fires_spec(g, w, x, y, nf, min_depth, chance) {
        lake_blend_upto(g, w, h, x, y, lake_fill_spec(g, w, x, y), 25)
    } else {
        g
    }
}

/// The grid after the first `k` interior cells (row-major) have been
/// considered.
pub open spec fn lakes_upto(
    g: Seq<i64>,
    w: int,
    h: int,
    nf: NoiseField,
    min_depth: int,
    chance: int,
    k: nat,
) -> Seq<i64>
    decreases k,
{
    if k == 0 {
        g
    } else {
        let p = lakes_upto(g, w, h, nf, min_depth, chance, (k - 1) as nat);
        let x = 1 + ((k - 1) % (w - 2));
        let y = 1 + ((k - 1) / (w - 2));
        lake_cell_spec(p, w, h, x, y, nf, min_depth, chance)
    }
}

/// Lake formation over the whole grid: every interior strict local minimum
/// that is deep enough and passes the noise gate is partly filled, with a
/// soft 5x5 bank blend. Cells are considered in row-major order and each
/// lake's writes are visible to the cells after it.
pub open spec fn lakes_spec(
    g: Seq<i64>,
    w: int,
    h: int,
    nf: NoiseField,
    min_depth: int,
    chance: int,
) -> Seq<i64> {
    if w < 3 || h < 3 {
        g
    } else {
        lakes_upto(g, w, h, nf, min_depth, chance, ((w - 2) * (h - 2)) as nat)
    }
}

/// Lake formation, the third erosion stage.
pub fn apply_lake_formation(
    field: &mut RawElevationField,
    noise: &NoiseField,
    min_depth: i64,
    chance: i64,
)
    requires
        old(field).wf(),
        noise.wf(),
        min_depth >= 0,
        0 <= chance <= FP_ONE,
    ensures
        final(field).wf(),
        final(field).width == old(field).width,
        final(field).height == old(field).height,
        final(field).values@ == lakes_spec(
            old(field).values@,
            old(field).width as int,
            old(field).height as int,
            *noise,
            min_depth as int,
            chance as int,
        ),
{
    if field.width < 3 || field.height < 3 {
        return ;
    }
    let ghost g0 = field.values@;
    let ghost w = field.width as int;
    let ghost h = field.height as int;
    let width = field.width;
    let height = field.height;
    let mut y: u32 = 1;
    while y < height - 1
        invariant
            field.wf(),
            field.width == width,
            field.height == height,
            3 <= width,
            3 <= height,
            w == width as int,
            h == height as int,
            noise.wf(),
            min_depth >= 0,
            0 <= chance <= FP_ONE,
            1 <= y <= height - 1,
            field.values@ == lakes_upto(
                g0,
                w,
                h,
                *noise,
                min_depth as int,
                chance as int,
                ((y as int - 1) * (w - 2)) as nat,
            ),
        decreases height - y,
    {
        let mut x: u32 = 1;
        while x < width - 1
            invariant
                field.wf(),
                field.width == width,
                field.height == height,
                3 <= width,
                3 <= height,
                w == width as int,
                h == height as int,
                noise.wf(),
                min_depth >= 0,
                0 <= chance <= FP_ONE,
                1 <= y < height - 1,
                1 <= x <= width - 1,
                field.values@ == lakes_upto(
                    g0,
                    w,
                    h,
                    *noise,
                    min_depth as int,
                    chance as int,
                    ((y as int - 1) * (w - 2) + (x as int - 1)) as nat,
                ),
            decreases width - x,
        {
            let ghost gpre = field.values@;
            proof {
                lemma_gidx_bounds(w, h, x as int, y as int);
            }
            let c = (y as usize) * (width as usize) + (x as usize);
            let vc = field.values[c];
            // Strict local minimum test and neighborhood mean.
            let mut is_min = true;
            let mut sum: i64 = 0;
            let mut k: usize = 0;
            while k < 8
                invariant
                    field.wf(),
                    field.values@ == gpre,
                    field.width == width,
                    field.height == height,
                    w == width as int,
                    h == height as int,
                    1 <= y < height - 1,
                    1 <= x < width - 1,
                    c == gidx(w, x as int, y as int),
                    c < field.values.len(),
                    vc == gpre[c as int],
                    0 <= k <= 8,
                    is_min == higher_upto(gpre, w, x as int, y as int, k as int),
                    sum == nbr_sum_upto(gpre, w, x as int, y as int, k as int),
                    0 <= sum <= k * 1048576,
                decreases 8 - k,
            {
                let (dx, dy) = dir(k);
                let nx = x as i64 + dx;
                let ny = y as i64 + dy;
                proof {
                    lemma_gidx_bounds(w, h, nx as int, ny as int);
                }
                let ni = (ny as usize) * (width as usize) + (nx as usize);
                let nv = field.values[ni];
                if vc >= nv {
                    is_min = false;
                }
                sum = sum + (nv - RAW_MIN);
                k = k + 1;
            }
            let avg = sum / 8 + RAW_MIN;
            proof {
                assert(0 <= sum / 8 <= 1048576) by (nonlinear_arith)
                    requires
                        0 <= sum <= 8 * 1048576,
                ;
            }
            let depth = avg - vc;
            if is_min && depth > min_depth {
                let nz = noise.sample(x as i64 * 6554, y as i64 * 6554);
                if (nz + FP_ONE) / 2 < chance {
                    // The lake forms: raise the center, then blend the banks.
                    proof {
                        assert(0 <= depth * 7 / 10 <= depth) by (nonlinear_arith)
                            requires
                                depth >= 0,
                        ;
                    }
                    let fill = vc + depth * 7 / 10;
                    let ghost gfill = lake_fill_spec(gpre, w, x as int, y as int);
                    proof {
                        assert(gfill == fill);
                    }
                    let cv = clamp64(fill, RAW_MIN, RAW_MAX);
                    field.values.set(c, cv);
                    let mut j: usize = 0;
                    proof {
                        assert(field.values@ == lake_blend_upto(
                            gpre,
                            w,
                            h,
                            x as int,
                            y as int,
                            gfill,
                            0,
                        ));
                    }
                    while j < 25
                        invariant
                            field.wf(),
                            field.width == width,
                            field.height == height,
                            w == width as int,
                            h == height as int,
                            1 <= y < height - 1,
                            1 <= x < width - 1,
                            RAW_MIN <= fill <= RAW_MAX,
                            0 <= j <= 25,
                            field.values@ == lake_blend_upto(
                                gpre,
                                w,
                                h,
                                x as int,
                                y as int,
                                gfill,
                                j as int,
                            ),
                            gfill == fill,
                        decreases 25 - j,
                    {
                        let dx = (j as i64) % 5 - 2;
                        let dy = (j as i64) / 5 - 2;
                        let nx = x as i64 + dx;
                        let ny = y as i64 + dy;
                        if !(dx == 0 && dy == 0) && nx > 0 && nx < width as i64 && ny > 0 && ny
                            < height as i64 {
                            proof {
                                lemma_gidx_bounds(w, h, nx as int, ny as int);
                            }
                            let t = (ny as usize) * (width as usize) + (nx as usize);
                            let vold = field.values[t];
                            proof {
                                assert(0 <= dx * dx <= 4 && 0 <= dy * dy <= 4 && 0 <= (dx * dx + dy
                                    * dy) * FP_ONE <= 0x8_0000 && 0 <= (dx * dx + dy * dy) * FP_ONE
                                    * FP_ONE <= 0x8_0000_0000) by (nonlinear_arith)
                                    requires
                                        -2 <= dx <= 2,
                                        -2 <= dy <= 2,
                                ;
                            }
                            let dist = isqrt64(((dx * dx + dy * dy) * FP_ONE * FP_ONE) as u64);
                            proof {
                                assert(dist <= 0x30000) by (nonlinear_arith)
                                    requires
                                        0 <= dist,
                                        (dist as int) * (dist as int) <= 0x8_0000_0000,
                                ;
                            }
                            let falloff = if FP_ONE - (dist as i64) / 3 > 0 {
                                FP_ONE - (dist as i64) / 3
                            } else {
                                0
                            };
                            let bl = fp_mul(falloff, 19661);
                            let nv = clamp64(
                                fp_mul(vold, FP_ONE - bl) + fp_mul(fill, bl),
                                RAW_MIN,
                                RAW_MAX,
                            );
                            field.values.set(t, nv);
                        }
                        j = j + 1;
                    }
                    proof {
                        assert(field.values@ == lake_cell_spec(
                            gpre,
                            w,
                            h,
                            x as int,
                            y as int,
                            *noise,
                            min_depth as int,
                            chance as int,
                        ));
                    }
                }
            }
            proof {
                let kk = (y as int - 1) * (w - 2) + (x as int - 1);
                assert(kk % (w - 2) == x as int - 1 && kk / (w - 2) == y as int - 1)
                    by (nonlinear_arith)
                    requires
                        kk == (y as int - 1) * (w - 2) + (x as int - 1),
                        0 <= x as int - 1 < w - 2,
                        0 <= y as int - 1,
                ;
                assert(kk + 1 == (y as int - 1) * (w - 2) + x);
            }
            x = x + 1;
        }
        proof {
            assert((y as int - 1) * (w - 2) + (w - 2) == ((y as int + 1) - 1) * (w - 2))
                by (nonlinear_arith);
        }
        y = y + 1;
    }
    proof {
        assert((h - 2) * (w - 2) == (w - 2) * (h - 2)) by (nonlinear_arith);
    }
}

} // verus!
