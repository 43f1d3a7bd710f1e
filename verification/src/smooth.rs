use vstd::prelude::*;

verus! {

use crate::fixed::{RAW_MIN, RAW_MAX};
use crate::grid::{RawElevationField, gidx, lemma_gidx_bounds, MAX_CELLS};

/// Integer weight of the 3x3 Gaussian kernel (sigma around 0.9) at offset
/// `(dx, dy)`: 16 in the center, 9 on the edges, 5 in the corners. The
/// weights sum to 72.
pub open spec fn kern(dx: int, dy: int) -> int {
    if dx == 0 && dy == 0 {
        16
    } else if dx == 0 || dy == 0 {
        9
    } else {
        5
    }
}

/// Weighted sum of the first `k` cells of the 3x3 neighborhood of an
/// interior cell `(x, y)`, with every height shifted up by `-RAW_MIN` so
/// the sum stays non-negative.
pub open spec fn wsum_upto(g: Seq<i64>, w: int, x: int, y: int, k: int) -> int
    decreases k,
{
    if k <= 0 {
        0
    } else {
        let dx = (k - 1) % 3 - 1;
        let dy = (k - 1) / 3 - 1;
        wsum_upto(g, w, x, y, k - 1) + kern(dx, dy) * (g[gidx(w, x + dx, y + dy)] - RAW_MIN)
    }
}

/// Sum of the first `k` kernel weights in scan order.
pub open spec fn kern_sum_upto(k: int) -> int
    decreases k,
{
    if k <= 0 {
        0
    } else {
        kern_sum_upto(k - 1) + kern((k - 1) % 3 - 1, (k - 1) / 3 - 1)
    }
}

/// The weighted sum of an interior neighborhood is bounded by the weight
/// total times the raw span.
proof fn lemma_wsum_bound(g: Seq<i64>, w: int, h: int, x: int, y: int, k: int)
    requires
        0 < x < w - 1,
        0 < y < h - 1,
        g.len() == w * h,
        forall|i: int| 0 <= i < g.len() ==> RAW_MIN <= #[trigger] g[i] <= RAW_MAX,
        0 <= k <= 9,
    ensures
        0 <= wsum_upto(g, w, x, y, k) <= kern_sum_upto(k) * (RAW_MAX - RAW_MIN),
        0 <= kern_sum_upto(k),
    decreases k,
{
    if k > 0 {
        lemma_wsum_bound(g, w, h, x, y, k - 1);
        let dx = (k - 1) % 3 - 1;
        let dy = (k - 1) / 3 - 1;
        lemma_gidx_bounds(w, h, x + dx, y + dy);
        let kv = kern(dx, dy);
        let v = g[gidx(w, x + dx, y + dy)] - RAW_MIN;
        assert(0 <= kv * v <= kv * (RAW_MAX - RAW_MIN) && (kern_sum_upto(k - 1) + kv) * (RAW_MAX
            - RAW_MIN) == kern_sum_upto(k - 1) * (RAW_MAX - RAW_MIN) + kv * (RAW_MAX - RAW_MIN))
            by (nonlinear_arith)
            requires
                0 <= kv,
                0 <= v <= RAW_MAX - RAW_MIN,
        ;
    }
}

/// New height of `(x, y)` after one blur pass: the kernel-weighted mean of
/// the 3x3 neighborhood for interior cells, the old value on the border.
pub open spec fn smooth_cell_spec(g: Seq<i64>, w: int, h: int, x: int, y: int) -> int {
    if x == 0 || y == 0 || x == w - 1 || y == h - 1 {
        g[gidx(w, x, y)] as int
    } else {
        wsum_upto(g, w, x, y, 9) / 72 + RAW_MIN
    }
}

/// One blur pass over the whole grid.
pub open spec fn smooth_pass_spec(g: Seq<i64>, w: int, h: int) -> Seq<i64> {
    Seq::new(g.len(), |i: int| smooth_cell_spec(g, w, h, i % w, i / w) as i64)
}

/// `n` blur passes.
pub open spec fn smooth_spec(g: Seq<i64>, w: int, h: int, n: nat) -> Seq<i64>
    decreases n,
{
    if n == 0 {
        g
    } else {
        smooth_pass_spec(smooth_spec(g, w, h, (n - 1) as nat), w, h)
    }
}

/// New height of one cell after one blur pass.
fn smooth_cell(vals: &Vec<i64>, width: u32, height: u32, x: u32, y: u32) -> (r: i64)
    requires
        vals.len() == (width as int) * (height as int),
        (width as int) * (height as int) <= MAX_CELLS,
        x < width,
        y < height,
        forall|i: int| 0 <= i < vals.len() ==> RAW_MIN <= #[trigger] vals[i] <= RAW_MAX,
    ensures
        r == smooth_cell_spec(vals@, width as int, height as int, x as int, y as int),
        RAW_MIN <= r <= RAW_MAX,
{
    proof {
        lemma_gidx_bounds(width as int, height as int, x as int, y as int);
    }
    if x == 0 || y == 0 || x == width - 1 || y == height - 1 {
        let i = (y as usize) * (width as usize) + (x as usize);
        vals[i]
    } else {
        let mut acc: i64 = 0;
        let mut k: usize = 0;
        while k < 9
            invariant
                vals.len() == (width as int) * (height as int),
                (width as int) * (height as int) <= MAX_CELLS,
                0 < x < width - 1,
                0 < y < height - 1,
                forall|i: int| 0 <= i < vals.len() ==> RAW_MIN <= #[trigger] vals[i] <= RAW_MAX,
                0 <= k <= 9,
                acc == wsum_upto(vals@, width as int, x as int, y as int, k as int),
                0 <= acc <= k * 16777216,
            decreases 9 - k,
        {
            let dx = (k as i64) % 3 - 1;
            let dy = (k as i64) / 3 - 1;
            let nx = x as i64 + dx;
            let ny = y as i64 + dy;
            proof {
                lemma_gidx_bounds(width as int, height as int, nx as int, ny as int);
            }
            let ni = (ny as usize) * (width as usize) + (nx as usize);
            let wgt: i64 = if dx == 0 && dy == 0 {
                16
            } else if dx == 0 || dy == 0 {
                9
            } else {
                5
            };
            let term = vals[ni] - RAW_MIN;
            proof {
                assert(0 <= wgt * term <= 16777216 && acc + wgt * term <= (k + 1) * 16777216)
                    by (nonlinear_arith)
                    requires
                        0 <= wgt <= 16,
                        0 <= term <= 1048576,
                        0 <= acc <= k * 16777216,
                        0 <= k <= 8,
                ;
            }
            acc = acc + wgt * term;
            k = k + 1;
        }
        proof {
            lemma_wsum_bound(vals@, width as int, height as int, x as int, y as int, 9);
            reveal_with_fuel(kern_sum_upto, 11);
            assert(kern_sum_upto(9) == 72);
            assert(0 <= acc / 72 <= RAW_MAX - RAW_MIN) by (nonlinear_arith)
                requires
                    0 <= acc <= 72 * (RAW_MAX - RAW_MIN),
            ;
        }
        acc / 72 + RAW_MIN
    }
}

/// One blur pass over the whole grid, double-buffered.
fn smooth_pass(vals: &Vec<i64>, width: u32, height: u32) -> (r: Vec<i64>)
    requires
        vals.len() == (width as int) * (height as int),
        (width as int) * (height as int) <= MAX_CELLS,
        forall|i: int| 0 <= i < vals.len() ==> RAW_MIN <= #[trigger] vals[i] <= RAW_MAX,
    ensures
        r@ == smooth_pass_spec(vals@, width as int, height as int),
        r.len() == vals.len(),
        forall|i: int| 0 <= i < r.len() ==> RAW_MIN <= #[trigger] r[i] <= RAW_MAX,
{
    let ghost target = smooth_pass_spec(vals@, width as int, height as int);
    let mut out: Vec<i64> = Vec::new();
    let mut y: u32 = 0;
    while y < height
        invariant
            vals.len() == (width as int) * (height as int),
            (width as int) * (height as int) <= MAX_CELLS,
            forall|i: int| 0 <= i < vals.len() ==> RAW_MIN <= #[trigger] vals[i] <= RAW_MAX,
            target == smooth_pass_spec(vals@, width as int, height as int),
            0 <= y <= height,
            out.len() == y * width,
            forall|i: int| 0 <= i < out.len() ==> out[i] == target[i],
            forall|i: int| 0 <= i < out.len() ==> RAW_MIN <= #[trigger] out[i] <= RAW_MAX,
        decreases height - y,
    {
        let mut x: u32 = 0;
        while x < width
            invariant
                vals.len() == (width as int) * (height as int),
                (width as int) * (height as int) <= MAX_CELLS,
                forall|i: int| 0 <= i < vals.len() ==> RAW_MIN <= #[trigger] vals[i] <= RAW_MAX,
                target == smooth_pass_spec(vals@, width as int, height as int),
                0 <= x <= width,
                y < height,
                out.len() == y * width + x,
                forall|i: int| 0 <= i < out.len() ==> out[i] == target[i],
                forall|i: int| 0 <= i < out.len() ==> RAW_MIN <= #[trigger] out[i] <= RAW_MAX,
            decreases width - x,
        {
            proof {
                lemma_gidx_bounds(width as int, height as int, x as int, y as int);
            }
            let v = smooth_cell(vals, width, height, x, y);
            proof {
                let i = gidx(width as int, x as int, y as int);
                assert(i % (width as int) == x as int && i / (width as int) == y as int)
                    by (nonlinear_arith)
                    requires
                        i == (y as int) * (width as int) + x,
                        0 <= x < width,
                        0 <= y,
                ;
                assert(target[i] == v);
            }
            out.push(v);
            x = x + 1;
        }
        proof {
            assert((y as int + 1) * width == y * width + width) by (nonlinear_arith);
        }
        y = y + 1;
    }
    proof {
        assert(out.len() == target.len()) by (nonlinear_arith)
            requires
                out.len() == (height as int) * (width as int),
                target.len() == (width as int) * (height as int),
        ;
        assert(out@ =~= target);
    }
    out
}

/// Repeated small-kernel Gaussian-weighted blur; border cells are left
/// untouched so the non-toroidal edge does not bleed in.
pub fn apply_gaussian_smooth(field: &mut RawElevationField, iterations: u32)
    requires
        old(field).wf(),
    ensures
        final(field).wf(),
        final(field).width == old(field).width,
        final(field).height == old(field).height,
        final(field).values@ == smooth_spec(
            old(field).values@,
            old(field).width as int,
            old(field).height as int,
            iterations as nat,
        ),
{
    let ghost g0 = field.values@;
    let ghost w = field.width as int;
    let ghost h = field.height as int;
    let mut it: u32 = 0;
    while it < iterations
        invariant
            0 <= it <= iterations,
            field.width as int == w,
            field.height as int == h,
            field.wf(),
            field.values@ == smooth_spec(g0, w, h, it as nat),
        decreases iterations - it,
    {
        let next = smooth_pass(&field.values, field.width, field.height);
        field.values = next;
        it = it + 1;
    }
}

} // verus!
