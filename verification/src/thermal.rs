use vstd::prelude::*;

verus! {

use crate::fixed::{FP_ONE, RAW_MIN, RAW_MAX, clamp_spec, clamp64, fp_mul_spec, fp_mul, mul_div};
use crate::grid::{RawElevationField, gidx, in_grid, lemma_gidx_bounds, MAX_CELLS};
use crate::flow::{dir_dx, dir_dy, dir};

/// Largest height difference two raw cells can have.
pub const RAW_SPAN: i64 = 1048576;

/// The height drop from `(x, y)` toward its `k`-th neighbor, if that
/// neighbor exists and lies lower by more than the talus threshold;
/// otherwise 0.
pub open spec fn drop_to(
    g: Seq<i64>,
    w: int,
    h: int,
    x: int,
    y: int,
    k: int,
    talus: int,
) -> int {
    let nx = x + dir_dx(k);
    let ny = y + dir_dy(k);
    if in_grid(w, h, nx, ny) {
        let d = g[gidx(w, x, y)] - g[gidx(w, nx, ny)];
        if d > talus {
            d
        } else {
            0
        }
    } else {
        0
    }
}

/// Sum of the drops toward the first `k` neighbors.
pub open spec fn total_drop_upto(
    g: Seq<i64>,
    w: int,
    h: int,
    x: int,
    y: int,
    k: int,
    talus: int,
) -> int
    decreases k,
{
    if k <= 0 {
        0
    } else {
        total_drop_upto(g, w, h, x, y, k - 1, talus) + drop_to(g, w, h, x, y, k - 1, talus)
    }
}

/// The material sent from `(x, y)` to its `k`-th neighbor in one iteration:
/// a fraction `amount` of the total positive differential, distributed
/// proportionally to each neighbor's share of it.
pub open spec fn share_spec(
    g: Seq<i64>,
    w: int,
    h: int,
    x: int,
    y: int,
    k: int,
    talus: int,
    amount: int,
) -> int {
    let tot = total_drop_upto(g, w, h, x, y, 8, talus);
    if tot > 0 {
        (fp_mul_spec(amount, tot) * drop_to(g, w, h, x, y, k, talus)) / tot
    } else {
        0
    }
}

/// Total material leaving `(x, y)` toward its first `k` neighbors.
pub open spec fn out_upto(
    g: Seq<i64>,
    w: int,
    h: int,
    x: int,
    y: int,
    k: int,
    talus: int,
    amount: int,
) -> int
    decreases k,
{
    if k <= 0 {
        0
    } else {
        out_upto(g, w, h, x, y, k - 1, talus, amount) + share_spec(
            g,
            w,
            h,
            x,
            y,
            k - 1,
            talus,
            amount,
        )
    }
}

/// Total material arriving at `(x, y)` from its first `k` neighbors. The
/// neighbor in direction `j` sends toward direction `7 - j`, which points
/// back at `(x, y)`.
pub open spec fn in_upto(
    g: Seq<i64>,
    w: int,
    h: int,
    x: int,
    y: int,
    k: int,
    talus: int,
    amount: int,
) -> int
    decreases k,
{
    if k <= 0 {
        0
    } else {
        let nx = x + dir_dx(k - 1);
        let ny = y + dir_dy(k - 1);
        in_upto(g, w, h, x, y, k - 1, talus, amount) + if in_grid(w, h, nx, ny) {
            share_spec(g, w, h, nx, ny, 7 - (k - 1), talus, amount)
        } else {
            0
        }
    }
}

/// Sum of `f(0) + ... + f(n - 1)`.
pub open spec fn sum_upto(f: spec_fn(int) -> int, n: int) -> int
    decreases n,
{
    if n <= 0 {
        0
    } else {
        sum_upto(f, n - 1) + f(n - 1)
    }
}

/// Sum of `f(lo) + ... + f(hi - 1)`.
pub open spec fn sum_range(f: spec_fn(int) -> int, lo: int, hi: int) -> int
    decreases hi - lo,
{
    if hi <= lo {
        0
    } else {
        sum_range(f, lo, hi - 1) + f(hi - 1)
    }
}

/// Sums agree on pointwise-equal functions.
proof fn lemma_sum_ext(f: spec_fn(int) -> int, g: spec_fn(int) -> int, n: int)
    requires
        forall|i: int| 0 <= i < n ==> #[trigger] f(i) == g(i),
    ensures
        sum_upto(f, n) == sum_upto(g, n),
    decreases n,
{
    if n > 0 {
        lemma_sum_ext(f, g, n - 1);
    }
}

/// A pointwise-zero function sums to zero.
proof fn lemma_sum_zero(f: spec_fn(int) -> int, n: int)
    requires
        forall|i: int| 0 <= i < n ==> #[trigger] f(i) == 0,
    ensures
        sum_upto(f, n) == 0,
    decreases n,
{
    if n > 0 {
        lemma_sum_zero(f, n - 1);
    }
}

/// Summation is linear over a pointwise sum.
proof fn lemma_sum_add(
    f: spec_fn(int) -> int,
    g: spec_fn(int) -> int,
    h: spec_fn(int) -> int,
    n: int,
)
    requires
        forall|i: int| 0 <= i < n ==> #[trigger] h(i) == f(i) + g(i),
    ensures
        sum_upto(h, n) == sum_upto(f, n) + sum_upto(g, n),
    decreases n,
{
    if n > 0 {
        lemma_sum_add(f, g, h, n - 1);
    }
}

/// Reading `f` through an offset `d` under the in-range guard sums the
/// values of `f` on the overlap of `[0, n)` with its shift.
proof fn lemma_sum_shift_read(f: spec_fn(int) -> int, a: spec_fn(int) -> int, n: int, d: int, m: int)
    requires
        forall|x: int| 0 <= x < m ==> #[trigger] a(x) == if 0 <= x + d < n {
            f(x + d)
        } else {
            0
        },
        0 <= m,
        0 <= n,
    ensures
        sum_upto(a, m) == sum_range(
            f,
            if d > 0 { d } else { 0 },
            clamp_spec(m + d, if d > 0 { d } else { 0 }, n),
        ),
    decreases m,
{
    if m > 0 {
        lemma_sum_shift_read(f, a, n, d, m - 1);
    }
}

/// Keeping only the entries whose `d`-shifted source lies in range sums the
/// same overlap.
proof fn lemma_sum_shift_keep(f: spec_fn(int) -> int, b: spec_fn(int) -> int, n: int, d: int, m: int)
    requires
        forall|x: int| 0 <= x < m ==> #[trigger] b(x) == if 0 <= x - d < n {
            f(x)
        } else {
            0
        },
        0 <= m <= n,
        0 <= n,
    ensures
        sum_upto(b, m) == sum_range(
            f,
            if d > 0 { d } else { 0 },
            clamp_spec(m, if d > 0 { d } else { 0 }, n + d),
        ),
    decreases m,
{
    if m > 0 {
        lemma_sum_shift_keep(f, b, n, d, m - 1);
    }
}

/// The guarded shifted read and the guarded direct read have the same sum.
proof fn lemma_sum_shift(f: spec_fn(int) -> int, a: spec_fn(int) -> int, b: spec_fn(int) -> int, n: int, d: int)
    requires
        forall|x: int| 0 <= x < n ==> #[trigger] a(x) == if 0 <= x + d < n {
            f(x + d)
        } else {
            0
        },
        forall|x: int| 0 <= x < n ==> #[trigger] b(x) == if 0 <= x - d < n {
            f(x)
        } else {
            0
        },
        0 <= n,
    ensures
        sum_upto(a, n) == sum_upto(b, n),
{
    lemma_sum_shift_read(f, a, n, d, n);
    lemma_sum_shift_keep(f, b, n, d, n);
}

/// A sum over a longer prefix splits into the shorter prefix plus the tail
/// read through an offset.
proof fn lemma_sum_concat(f: spec_fn(int) -> int, t: spec_fn(int) -> int, a: int, b: int)
    requires
        forall|i: int| 0 <= i < b ==> #[trigger] t(i) == f(a + i),
        0 <= a,
        0 <= b,
    ensures
        sum_upto(f, a + b) == sum_upto(f, a) + sum_upto(t, b),
    decreases b,
{
    if b > 0 {
        lemma_sum_concat(f, t, a, b - 1);
    }
}

/// Sum of `f` over the first `k` cells of grid row `y`.
pub open spec fn row_sum_upto(f: spec_fn(int) -> int, w: int, y: int, k: int) -> int
    decreases k,
{
    if k <= 0 {
        0
    } else {
        row_sum_upto(f, w, y, k - 1) + f(y * w + (k - 1))
    }
}

/// Sum of `f` over the first `m` full rows of a `w`-wide grid.
pub open spec fn grid_sum(f: spec_fn(int) -> int, w: int, m: int) -> int
    decreases m,
{
    if m <= 0 {
        0
    } else {
        grid_sum(f, w, m - 1) + row_sum_upto(f, w, m - 1, w)
    }
}

/// A row sum equals the plain sum of any function reading the same row.
proof fn lemma_row_sum_as(f: spec_fn(int) -> int, c: spec_fn(int) -> int, w: int, y: int, k: int)
    requires
        forall|x: int| 0 <= x < k ==> #[trigger] c(x) == f(y * w + x),
    ensures
        row_sum_upto(f, w, y, k) == sum_upto(c, k),
    decreases k,
{
    if k > 0 {
        lemma_row_sum_as(f, c, w, y, k - 1);
    }
}

/// A grid sum equals the plain sum of any function reading the row sums.
proof fn lemma_grid_sum_as(f: spec_fn(int) -> int, c: spec_fn(int) -> int, w: int, m: int)
    requires
        forall|y: int| 0 <= y < m ==> #[trigger] c(y) == row_sum_upto(f, w, y, w),
    ensures
        grid_sum(f, w, m) == sum_upto(c, m),
    decreases m,
{
    if m > 0 {
        lemma_grid_sum_as(f, c, w, m - 1);
    }
}

/// A sum over `w * m` linear indices is the sum of its `m` row sums.
proof fn lemma_sum_is_grid_sum(f: spec_fn(int) -> int, w: int, m: int)
    requires
        0 < w,
        0 <= m,
    ensures
        sum_upto(f, w * m) == grid_sum(f, w, m),
    decreases m,
{
    if m > 0 {
        lemma_sum_is_grid_sum(f, w, m - 1);
        let t = |x: int| f((m - 1) * w + x);
        assert(0 <= (m - 1) * w && (m - 1) * w + w == w * m && w * (m - 1) == (m - 1) * w)
            by (nonlinear_arith)
            requires
                0 < w,
                1 <= m,
        ;
        lemma_sum_concat(f, t, (m - 1) * w, w);
        lemma_row_sum_as(f, t, w, m - 1, w);
    } else {
        assert(w * m == 0) by (nonlinear_arith)
            requires
                m == 0,
        ;
    }
}

/// Unsaturated new height of `(x, y)` after one thermal iteration: the old
/// height minus everything it sheds plus everything its higher neighbors
/// shed onto it.
pub open spec fn thermal_flux_spec(
    g: Seq<i64>,
    w: int,
    h: int,
    x: int,
    y: int,
    talus: int,
    amount: int,
) -> int {
    g[gidx(w, x, y)] - out_upto(g, w, h, x, y, 8, talus, amount) + in_upto(
        g,
        w,
        h,
        x,
        y,
        8,
        talus,
        amount,
    )
}

/// New height of `(x, y)` after one thermal iteration: the flux saturated
/// to the raw window. The saturation is the single step of the pass that
/// can lose material: each transfer is conserved cell to cell
/// ([`lemma_exchange_conserved`]), none crosses the boundary
/// ([`lemma_share_offgrid_zero`]), and over the whole grid the fluxes sum
/// to the heights ([`lemma_thermal_flux_conserves`]).
pub open spec fn thermal_cell_spec(
    g: Seq<i64>,
    w: int,
    h: int,
    x: int,
    y: int,
    talus: int,
    amount: int,
) -> int {
    clamp_spec(thermal_flux_spec(g, w, h, x, y, talus, amount), RAW_MIN as int, RAW_MAX as int)
}

/// Conservation of one transfer: the `k`-th out-term of `(x, y)` is exactly
/// the term its `k`-th neighbor's inflow sum counts from the opposite
/// direction. Summed over all cells and directions this says no transfer
/// creates or destroys material and none crosses the grid boundary, so
/// saturation at the raw window is the pass's only loss of material.
pub proof fn lemma_exchange_conserved(
    g: Seq<i64>,
    w: int,
    h: int,
    x: int,
    y: int,
    k: int,
    talus: int,
    amount: int,
)
    requires
        in_grid(w, h, x, y),
        0 <= k < 8,
        in_grid(w, h, x + dir_dx(k), y + dir_dy(k)),
    ensures
        out_upto(g, w, h, x, y, k + 1, talus, amount) - out_upto(g, w, h, x, y, k, talus, amount)
            == share_spec(g, w, h, x, y, k, talus, amount),
        in_upto(g, w, h, x + dir_dx(k), y + dir_dy(k), 8 - k, talus, amount) - in_upto(
            g,
            w,
            h,
            x + dir_dx(k),
            y + dir_dy(k),
            7 - k,
            talus,
            amount,
        ) == share_spec(g, w, h, x, y, k, talus, amount),
{
    assert(dir_dx(7 - k) == -dir_dx(k) && dir_dy(7 - k) == -dir_dy(k));
}

/// A share toward a direction with no in-grid neighbor is zero: material
/// never leaves the grid.
pub proof fn lemma_share_offgrid_zero(
    g: Seq<i64>,
    w: int,
    h: int,
    x: int,
    y: int,
    k: int,
    talus: int,
    amount: int,
)
    requires
        0 <= k < 8,
        !in_grid(w, h, x + dir_dx(k), y + dir_dy(k)),
    ensures
        share_spec(g, w, h, x, y, k, talus, amount) == 0,
{
    let tot = total_drop_upto(g, w, h, x, y, 8, talus);
    if tot > 0 {
        assert(drop_to(g, w, h, x, y, k, talus) == 0);
        assert((fp_mul_spec(amount, tot) * 0) / tot == 0) by (nonlinear_arith)
            requires
                tot > 0,
        ;
    }
}

/// Index arithmetic of a row-major grid: a linear index inside the grid
/// resolves to exactly one in-grid cell.
proof fn lemma_index_resolve(w: int, h: int, i: int)
    requires
        0 < w,
        0 <= i < w * h,
    ensures
        0 <= i % w < w,
        0 <= i / w < h,
        gidx(w, i % w, i / w) == i,
{
    assert(0 <= i % w < w && 0 <= i / w < h && (i / w) * w + (i % w) == i) by (nonlinear_arith)
        requires
            0 < w,
            0 <= i < w * h,
    ;
}

/// Index arithmetic of a row-major grid: an in-grid cell's linear index
/// resolves back to the cell.
proof fn lemma_cell_of_index(w: int, h: int, x: int, y: int)
    requires
        0 <= x < w,
        0 <= y < h,
    ensures
        (y * w + x) % w == x,
        (y * w + x) / w == y,
        0 <= y * w + x < w * h,
{
    assert((y * w + x) % w == x && (y * w + x) / w == y && 0 <= y * w + x < w * h)
        by (nonlinear_arith)
        requires
            0 <= x < w,
            0 <= y < h,
    ;
}

/// The share a cell (by linear index) sends toward direction `j`.
pub open spec fn out_share_at(
    g: Seq<i64>,
    w: int,
    h: int,
    talus: int,
    amount: int,
    j: int,
    i: int,
) -> int {
    share_spec(g, w, h, i % w, i / w, j, talus, amount)
}

/// The material a cell (by linear index) receives from its neighbor in
/// direction `j`: that neighbor's share back toward the cell, or 0 where
/// the neighbor is missing.
pub open spec fn in_share_at(
    g: Seq<i64>,
    w: int,
    h: int,
    talus: int,
    amount: int,
    j: int,
    i: int,
) -> int {
    let x = i % w;
    let y = i / w;
    if in_grid(w, h, x + dir_dx(j), y + dir_dy(j)) {
        share_spec(g, w, h, x + dir_dx(j), y + dir_dy(j), 7 - j, talus, amount)
    } else {
        0
    }
}

/// Sum over the first `k` cells of row `q` of the direction-`jj` shares,
/// kept only where the cell lies at least `dxc` columns from the grid edge
/// (the cells whose `jj`-transfer partner exists horizontally).
spec fn dir_row_sum(
    g: Seq<i64>,
    w: int,
    h: int,
    talus: int,
    amount: int,
    jj: int,
    dxc: int,
    q: int,
    k: int,
) -> int
    decreases k,
{
    if k <= 0 {
        0
    } else {
        dir_row_sum(g, w, h, talus, amount, jj, dxc, q, k - 1) + if 0 <= (k - 1) - dxc < w {
            out_share_at(g, w, h, talus, amount, jj, q * w + (k - 1))
        } else {
            0
        }
    }
}

/// The guarded row sum equals the plain sum of any function reading it.
proof fn lemma_dir_row_as(
    g: Seq<i64>,
    w: int,
    h: int,
    talus: int,
    amount: int,
    jj: int,
    dxc: int,
    q: int,
    c: spec_fn(int) -> int,
    k: int,
)
    requires
        forall|x: int|
            0 <= x < k ==> #[trigger] c(x) == if 0 <= x - dxc < w {
                out_share_at(g, w, h, talus, amount, jj, q * w + x)
            } else {
                0
            },
    ensures
        dir_row_sum(g, w, h, talus, amount, jj, dxc, q, k) == sum_upto(c, k),
    decreases k,
{
    if k > 0 {
        lemma_dir_row_as(g, w, h, talus, amount, jj, dxc, q, c, k - 1);
    }
}

/// One direction of the grid-global exchange: summed over the whole grid,
/// what the cells receive from their direction-`j` neighbors is what those
/// neighbors shed toward direction `7 - j`.
proof fn lemma_dir_exchange(
    g: Seq<i64>,
    w: int,
    h: int,
    talus: int,
    amount: int,
    j: int,
    din: spec_fn(int) -> int,
    dout: spec_fn(int) -> int,
)
    requires
        0 < w,
        0 < h,
        0 <= j < 8,
        forall|i: int|
            0 <= i < w * h ==> #[trigger] din(i) == in_share_at(g, w, h, talus, amount, j, i),
        forall|i: int|
            0 <= i < w * h ==> #[trigger] dout(i) == out_share_at(g, w, h, talus, amount, 7 - j, i),
    ensures
        sum_upto(din, w * h) == sum_upto(dout, w * h),
{
    let n = w * h;
    let dx = dir_dx(j);
    let dy = dir_dy(j);
    assert(dir_dx(7 - j) == -dx && dir_dy(7 - j) == -dy);
    let fq = |q: int| dir_row_sum(g, w, h, talus, amount, 7 - j, dx, q, w);
    // Left side, row by row: row y of the receipts reads the guarded
    // direct shares of row y + dy.
    lemma_sum_is_grid_sum(din, w, h);
    let rowl = |y: int| row_sum_upto(din, w, y, w);
    lemma_grid_sum_as(din, rowl, w, h);
    let ay = |y: int| if 0 <= y + dy < h {
        fq(y + dy)
    } else {
        0
    };
    assert forall|y: int| 0 <= y < h implies #[trigger] rowl(y) == ay(y) by {
        let cy = |x: int| din(y * w + x);
        lemma_row_sum_as(din, cy, w, y, w);
        if 0 <= y + dy < h {
            let fyrow = |x2: int| out_share_at(g, w, h, talus, amount, 7 - j, (y + dy) * w + x2);
            let ax = |x: int| if 0 <= x + dx < w {
                fyrow(x + dx)
            } else {
                0
            };
            let bx = |x: int| if 0 <= x - dx < w {
                fyrow(x)
            } else {
                0
            };
            assert forall|x: int| 0 <= x < w implies #[trigger] cy(x) == ax(x) by {
                lemma_cell_of_index(w, h, x, y);
                if 0 <= x + dx < w {
                    lemma_cell_of_index(w, h, x + dx, y + dy);
                }
            }
            lemma_sum_ext(cy, ax, w);
            lemma_sum_shift(fyrow, ax, bx, w, dx);
            lemma_dir_row_as(g, w, h, talus, amount, 7 - j, dx, y + dy, bx, w);
        } else {
            assert forall|x: int| 0 <= x < w implies #[trigger] cy(x) == 0 by {
                lemma_cell_of_index(w, h, x, y);
            }
            lemma_sum_zero(cy, w);
        }
    }
    lemma_sum_ext(rowl, ay, h);
    let gy = |y: int| if 0 <= y - dy < h {
        fq(y)
    } else {
        0
    };
    lemma_sum_shift(fq, ay, gy, h, dy);
    // Right side, row by row: row y of the shares is its own guarded row
    // sum where row y - dy exists, and all zero where it does not.
    lemma_sum_is_grid_sum(dout, w, h);
    let rowr = |y: int| row_sum_upto(dout, w, y, w);
    lemma_grid_sum_as(dout, rowr, w, h);
    assert forall|y: int| 0 <= y < h implies #[trigger] rowr(y) == gy(y) by {
        let cy2 = |x: int| dout(y * w + x);
        lemma_row_sum_as(dout, cy2, w, y, w);
        if 0 <= y - dy < h {
            let bx2 = |x: int| if 0 <= x - dx < w {
                out_share_at(g, w, h, talus, amount, 7 - j, y * w + x)
            } else {
                0
            };
            assert forall|x: int| 0 <= x < w implies #[trigger] cy2(x) == bx2(x) by {
                lemma_cell_of_index(w, h, x, y);
                if !(0 <= x - dx < w) {
                    lemma_share_offgrid_zero(g, w, h, x, y, 7 - j, talus, amount);
                }
            }
            lemma_sum_ext(cy2, bx2, w);
            lemma_dir_row_as(g, w, h, talus, amount, 7 - j, dx, y, bx2, w);
        } else {
            assert forall|x: int| 0 <= x < w implies #[trigger] cy2(x) == 0 by {
                lemma_cell_of_index(w, h, x, y);
                lemma_share_offgrid_zero(g, w, h, x, y, 7 - j, talus, amount);
            }
            lemma_sum_zero(cy2, w);
        }
    }
    lemma_sum_ext(rowr, gy, h);
}

/// Sum of the unsaturated fluxes of the first `n` cells.
pub open spec fn flux_sum_upto(
    g: Seq<i64>,
    w: int,
    h: int,
    talus: int,
    amount: int,
    n: int,
) -> int
    decreases n,
{
    if n <= 0 {
        0
    } else {
        flux_sum_upto(g, w, h, talus, amount, n - 1) + thermal_flux_spec(
            g,
            w,
            h,
            (n - 1) % w,
            (n - 1) / w,
            talus,
            amount,
        )
    }
}

/// Sum of the first `n` heights.
pub open spec fn height_sum_upto(g: Seq<i64>, n: int) -> int
    decreases n,
{
    if n <= 0 {
        0
    } else {
        height_sum_upto(g, n - 1) + g[n - 1]
    }
}

/// The flux sum equals the plain sum of any function reading the fluxes.
proof fn lemma_flux_sum_as(
    g: Seq<i64>,
    w: int,
    h: int,
    talus: int,
    amount: int,
    c: spec_fn(int) -> int,
    n: int,
)
    requires
        forall|i: int|
            0 <= i < n ==> #[trigger] c(i) == thermal_flux_spec(
                g,
                w,
                h,
                i % w,
                i / w,
                talus,
                amount,
            ),
    ensures
        flux_sum_upto(g, w, h, talus, amount, n) == sum_upto(c, n),
    decreases n,
{
    if n > 0 {
        lemma_flux_sum_as(g, w, h, talus, amount, c, n - 1);
    }
}

/// The height sum equals the plain sum of any function reading the heights.
proof fn lemma_height_sum_as(g: Seq<i64>, c: spec_fn(int) -> int, n: int)
    requires
        forall|i: int| 0 <= i < n ==> #[trigger] c(i) == g[i],
    ensures
        height_sum_upto(g, n) == sum_upto(c, n),
    decreases n,
{
    if n > 0 {
        lemma_height_sum_as(g, c, n - 1);
    }
}

/// Grid-global conservation of the thermal transfers: summed over the
/// whole grid, the material the cells receive is exactly the material they
/// shed, so the unsaturated fluxes of one iteration sum to the heights they
/// started from. The saturation in [`thermal_cell_spec`] is therefore the
/// pass's only possible loss of material.
pub proof fn lemma_thermal_flux_conserves(g: Seq<i64>, w: int, h: int, talus: int, amount: int)
    requires
        0 < w,
        0 < h,
        g.len() == w * h,
    ensures
        flux_sum_upto(g, w, h, talus, amount, w * h) == height_sum_upto(g, w * h),
{
    let n = w * h;
    // Shares shed toward each direction, and receipts from each direction.
    let c0 = |i: int| out_share_at(g, w, h, talus, amount, 0, i);
    let c1 = |i: int| out_share_at(g, w, h, talus, amount, 1, i);
    let c2 = |i: int| out_share_at(g, w, h, talus, amount, 2, i);
    let c3 = |i: int| out_share_at(g, w, h, talus, amount, 3, i);
    let c4 = |i: int| out_share_at(g, w, h, talus, amount, 4, i);
    let c5 = |i: int| out_share_at(g, w, h, talus, amount, 5, i);
    let c6 = |i: int| out_share_at(g, w, h, talus, amount, 6, i);
    let c7 = |i: int| out_share_at(g, w, h, talus, amount, 7, i);
    let d0 = |i: int| in_share_at(g, w, h, talus, amount, 0, i);
    let d1 = |i: int| in_share_at(g, w, h, talus, amount, 1, i);
    let d2 = |i: int| in_share_at(g, w, h, talus, amount, 2, i);
    let d3 = |i: int| in_share_at(g, w, h, talus, amount, 3, i);
    let d4 = |i: int| in_share_at(g, w, h, talus, amount, 4, i);
    let d5 = |i: int| in_share_at(g, w, h, talus, amount, 5, i);
    let d6 = |i: int| in_share_at(g, w, h, talus, amount, 6, i);
    let d7 = |i: int| in_share_at(g, w, h, talus, amount, 7, i);
    // Partial outflows and inflows by scanned direction count.
    let q0 = |i: int| out_upto(g, w, h, i % w, i / w, 0, talus, amount);
    let q1 = |i: int| out_upto(g, w, h, i % w, i / w, 1, talus, amount);
    let q2 = |i: int| out_upto(g, w, h, i % w, i / w, 2, talus, amount);
    let q3 = |i: int| out_upto(g, w, h, i % w, i / w, 3, talus, amount);
    let q4 = |i: int| out_upto(g, w, h, i % w, i / w, 4, talus, amount);
    let q5 = |i: int| out_upto(g, w, h, i % w, i / w, 5, talus, amount);
    let q6 = |i: int| out_upto(g, w, h, i % w, i / w, 6, talus, amount);
    let q7 = |i: int| out_upto(g, w, h, i % w, i / w, 7, talus, amount);
    let q8 = |i: int| out_upto(g, w, h, i % w, i / w, 8, talus, amount);
    let p0 = |i: int| in_upto(g, w, h, i % w, i / w, 0, talus, amount);
    let p1 = |i: int| in_upto(g, w, h, i % w, i / w, 1, talus, amount);
    let p2 = |i: int| in_upto(g, w, h, i % w, i / w, 2, talus, amount);
    let p3 = |i: int| in_upto(g, w, h, i % w, i / w, 3, talus, amount);
    let p4 = |i: int| in_upto(g, w, h, i % w, i / w, 4, talus, amount);
    let p5 = |i: int| in_upto(g, w, h, i % w, i / w, 5, talus, amount);
    let p6 = |i: int| in_upto(g, w, h, i % w, i / w, 6, talus, amount);
    let p7 = |i: int| in_upto(g, w, h, i % w, i / w, 7, talus, amount);
    let p8 = |i: int| in_upto(g, w, h, i % w, i / w, 8, talus, amount);
    // The outflow sum splits into its eight direction sums.
    lemma_sum_zero(q0, n);
    lemma_sum_add(q0, c0, q1, n);
    lemma_sum_add(q1, c1, q2, n);
    lemma_sum_add(q2, c2, q3, n);
    lemma_sum_add(q3, c3, q4, n);
    lemma_sum_add(q4, c4, q5, n);
    lemma_sum_add(q5, c5, q6, n);
    lemma_sum_add(q6, c6, q7, n);
    lemma_sum_add(q7, c7, q8, n);
    // So does the inflow sum.
    lemma_sum_zero(p0, n);
    lemma_sum_add(p0, d0, p1, n);
    lemma_sum_add(p1, d1, p2, n);
    lemma_sum_add(p2, d2, p3, n);
    lemma_sum_add(p3, d3, p4, n);
    lemma_sum_add(p4, d4, p5, n);
    lemma_sum_add(p5, d5, p6, n);
    lemma_sum_add(p6, d6, p7, n);
    lemma_sum_add(p7, d7, p8, n);
    // Each direction's receipts are the opposite direction's shares.
    lemma_dir_exchange(g, w, h, talus, amount, 0, d0, c7);
    lemma_dir_exchange(g, w, h, talus, amount, 1, d1, c6);
    lemma_dir_exchange(g, w, h, talus, amount, 2, d2, c5);
    lemma_dir_exchange(g, w, h, talus, amount, 3, d3, c4);
    lemma_dir_exchange(g, w, h, talus, amount, 4, d4, c3);
    lemma_dir_exchange(g, w, h, talus, amount, 5, d5, c2);
    lemma_dir_exchange(g, w, h, talus, amount, 6, d6, c1);
    lemma_dir_exchange(g, w, h, talus, amount, 7, d7, c0);
    assert(sum_upto(p8, n) == sum_upto(q8, n));
    // Flux is height plus the per-cell balance, so the sums agree.
    let fl = |i: int| thermal_flux_spec(g, w, h, i % w, i / w, talus, amount);
    let hv = |i: int| g[i] as int;
    let bal = |i: int| p8(i) - q8(i);
    lemma_sum_add(bal, q8, p8, n);
    assert forall|i: int| 0 <= i < n implies #[trigger] fl(i) == hv(i) + bal(i) by {
        lemma_index_resolve(w, h, i);
    }
    lemma_sum_add(hv, bal, fl, n);
    lemma_flux_sum_as(g, w, h, talus, amount, fl, n);
    lemma_height_sum_as(g, hv, n);
}

/// One full double-buffered thermal iteration.
pub open spec fn thermal_pass_spec(g: Seq<i64>, w: int, h: int, talus: int, amount: int) -> Seq<
    i64,
> {
    Seq::new(g.len(), |i: int| thermal_cell_spec(g, w, h, i % w, i / w, talus, amount) as i64)
}

/// `n` thermal iterations.
pub open spec fn thermal_spec(
    g: Seq<i64>,
    w: int,
    h: int,
    n: nat,
    talus: int,
    amount: int,
) -> Seq<i64>
    decreases n,
{
    if n == 0 {
        g
    } else {
        thermal_pass_spec(thermal_spec(g, w, h, (n - 1) as nat, talus, amount), w, h, talus, amount)
    }
}

/// Drop toward one neighbor.
fn drop_at(vals: &Vec<i64>, width: u32, height: u32, x: u32, y: u32, k: usize, talus: i64) -> (d:
    i64)
    requires
        vals.len() == (width as int) * (height as int),
        (width as int) * (height as int) <= MAX_CELLS,
        x < width,
        y < height,
        k < 8,
        talus >= 0,
        forall|i: int| 0 <= i < vals.len() ==> RAW_MIN <= #[trigger] vals[i] <= RAW_MAX,
    ensures
        d == drop_to(vals@, width as int, height as int, x as int, y as int, k as int, talus as int),
        0 <= d <= RAW_SPAN,
{
    proof {
        lemma_gidx_bounds(width as int, height as int, x as int, y as int);
    }
    let (dx, dy) = dir(k);
    let nx = x as i64 + dx;
    let ny = y as i64 + dy;
    if nx >= 0 && ny >= 0 && nx < width as i64 && ny < height as i64 {
        proof {
            lemma_gidx_bounds(width as int, height as int, nx as int, ny as int);
        }
        let i = (y as usize) * (width as usize) + (x as usize);
        let ni = (ny as usize) * (width as usize) + (nx as usize);
        let d = vals[i] - vals[ni];
        if d > talus {
            d
        } else {
            0
        }
    } else {
        0
    }
}

/// Total positive differential of a cell against its 8 neighbors.
fn cell_total_drop(vals: &Vec<i64>, width: u32, height: u32, x: u32, y: u32, talus: i64) -> (t:
    i64)
    requires
        vals.len() == (width as int) * (height as int),
        (width as int) * (height as int) <= MAX_CELLS,
        x < width,
        y < height,
        talus >= 0,
        forall|i: int| 0 <= i < vals.len() ==> RAW_MIN <= #[trigger] vals[i] <= RAW_MAX,
    ensures
        t == total_drop_upto(vals@, width as int, height as int, x as int, y as int, 8, talus as int),
        0 <= t <= 8 * RAW_SPAN,
{
    let mut acc: i64 = 0;
    let mut k: usize = 0;
    while k < 8
        invariant
            vals.len() == (width as int) * (height as int),
            (width as int) * (height as int) <= MAX_CELLS,
            x < width,
            y < height,
            talus >= 0,
            forall|i: int| 0 <= i < vals.len() ==> RAW_MIN <= #[trigger] vals[i] <= RAW_MAX,
            0 <= k <= 8,
            acc == total_drop_upto(
                vals@,
                width as int,
                height as int,
                x as int,
                y as int,
                k as int,
                talus as int,
            ),
            0 <= acc <= k * RAW_SPAN,
        decreases 8 - k,
    {
        let d = drop_at(vals, width, height, x, y, k, talus);
        acc = acc + d;
        k = k + 1;
    }
    acc
}

/// Material sent from `(x, y)` toward its `k`-th neighbor.
fn share_to(
    vals: &Vec<i64>,
    width: u32,
    height: u32,
    x: u32,
    y: u32,
    k: usize,
    talus: i64,
    amount: i64,
) -> (s: i64)
    requires
        vals.len() == (width as int) * (height as int),
        (width as int) * (height as int) <= MAX_CELLS,
        x < width,
        y < height,
        k < 8,
        talus >= 0,
        0 <= amount <= FP_ONE,
        forall|i: int| 0 <= i < vals.len() ==> RAW_MIN <= #[trigger] vals[i] <= RAW_MAX,
    ensures
        s == share_spec(
            vals@,
            width as int,
            height as int,
            x as int,
            y as int,
            k as int,
            talus as int,
            amount as int,
        ),
        0 <= s <= RAW_SPAN,
{
    let tot = cell_total_drop(vals, width, height, x, y, talus);
    if tot > 0 {
        let md = fp_mul(amount, tot);
        let d = drop_at(vals, width, height, x, y, k, talus);
        proof {
            assert(0 <= fp_mul_spec(amount as int, tot as int) <= tot) by (nonlinear_arith)
                requires
                    0 <= amount <= FP_ONE,
                    0 < tot,
            ;
            assert(0 <= md * d <= 0x7fff_ffff_ffff_ffff) by (nonlinear_arith)
                requires
                    0 <= md <= 8 * RAW_SPAN,
                    0 <= d <= RAW_SPAN,
            ;
        }
        mul_div(md, d, tot)
    } else {
        0
    }
}

/// New height of one cell after one thermal iteration.
fn thermal_cell(
    vals: &Vec<i64>,
    width: u32,
    height: u32,
    x: u32,
    y: u32,
    talus: i64,
    amount: i64,
) -> (r: i64)
    requires
        vals.len() == (width as int) * (height as int),
        (width as int) * (height as int) <= MAX_CELLS,
        x < width,
        y < height,
        talus >= 0,
        0 <= amount <= FP_ONE,
        forall|i: int| 0 <= i < vals.len() ==> RAW_MIN <= #[trigger] vals[i] <= RAW_MAX,
    ensures
        r == thermal_cell_spec(
            vals@,
            width as int,
            height as int,
            x as int,
            y as int,
            talus as int,
            amount as int,
        ),
        RAW_MIN <= r <= RAW_MAX,
{
    proof {
        lemma_gidx_bounds(width as int, height as int, x as int, y as int);
    }
    let mut out: i64 = 0;
    let mut k: usize = 0;
    while k < 8
        invariant
            vals.len() == (width as int) * (height as int),
            (width as int) * (height as int) <= MAX_CELLS,
            x < width,
            y < height,
            talus >= 0,
            0 <= amount <= FP_ONE,
            forall|i: int| 0 <= i < vals.len() ==> RAW_MIN <= #[trigger] vals[i] <= RAW_MAX,
            0 <= k <= 8,
            out == out_upto(
                vals@,
                width as int,
                height as int,
                x as int,
                y as int,
                k as int,
                talus as int,
                amount as int,
            ),
            0 <= out <= k * RAW_SPAN,
        decreases 8 - k,
    {
        let s = share_to(vals, width, height, x, y, k, talus, amount);
        out = out + s;
        k = k + 1;
    }
    let mut inn: i64 = 0;
    let mut k2: usize = 0;
    while k2 < 8
        invariant
            vals.len() == (width as int) * (height as int),
            (width as int) * (height as int) <= MAX_CELLS,
            x < width,
            y < height,
            talus >= 0,
            0 <= amount <= FP_ONE,
            forall|i: int| 0 <= i < vals.len() ==> RAW_MIN <= #[trigger] vals[i] <= RAW_MAX,
            0 <= k2 <= 8,
            inn == in_upto(
                vals@,
                width as int,
                height as int,
                x as int,
                y as int,
                k2 as int,
                talus as int,
                amount as int,
            ),
            0 <= inn <= k2 * RAW_SPAN,
        decreases 8 - k2,
    {
        let (dx, dy) = dir(k2);
        let nx = x as i64 + dx;
        let ny = y as i64 + dy;
        if nx >= 0 && ny >= 0 && nx < width as i64 && ny < height as i64 {
            let s = share_to(vals, width, height, nx as u32, ny as u32, 7 - k2, talus, amount);
            inn = inn + s;
        }
        k2 = k2 + 1;
    }
    let i = (y as usize) * (width as usize) + (x as usize);
    clamp64(vals[i] - out + inn, RAW_MIN, RAW_MAX)
}

/// One double-buffered thermal iteration over the whole grid.
fn thermal_pass(vals: &Vec<i64>, width: u32, height: u32, talus: i64, amount: i64) -> (r: Vec<
    i64,
>)
    requires
        vals.len() == (width as int) * (height as int),
        (width as int) * (height as int) <= MAX_CELLS,
        talus >= 0,
        0 <= amount <= FP_ONE,
        forall|i: int| 0 <= i < vals.len() ==> RAW_MIN <= #[trigger] vals[i] <= RAW_MAX,
    ensures
        r@ == thermal_pass_spec(vals@, width as int, height as int, talus as int, amount as int),
        r.len() == vals.len(),
        forall|i: int| 0 <= i < r.len() ==> RAW_MIN <= #[trigger] r[i] <= RAW_MAX,
{
    let ghost target = thermal_pass_spec(
        vals@,
        width as int,
        height as int,
        talus as int,
        amount as int,
    );
    let mut out: Vec<i64> = Vec::new();
    let mut y: u32 = 0;
    while y < height
        invariant
            vals.len() == (width as int) * (height as int),
            (width as int) * (height as int) <= MAX_CELLS,
            talus >= 0,
            0 <= amount <= FP_ONE,
            forall|i: int| 0 <= i < vals.len() ==> RAW_MIN <= #[trigger] vals[i] <= RAW_MAX,
            target == thermal_pass_spec(
                vals@,
                width as int,
                height as int,
                talus as int,
                amount as int,
            ),
            0 <= y <= height,
            out.len() == y * width,
            forall|i: int| 0 <= i < out.len() ==> out[i] == target[i],
            forall|i: int| 0 <= i < out.len() ==> RAW_MIN <= #[trigger] out[i] <= RAW_MAX,
        decreases height - y,
    {
        let mut x: u32 = 0;
        while x < width
            invariant
                vals.len() == (width as int) * (height as int),
                (width as int) * (height as int) <= MAX_CELLS,
                talus >= 0,
                0 <= amount <= FP_ONE,
                forall|i: int| 0 <= i < vals.len() ==> RAW_MIN <= #[trigger] vals[i] <= RAW_MAX,
                target == thermal_pass_spec(
                    vals@,
                    width as int,
                    height as int,
                    talus as int,
                    amount as int,
                ),
                0 <= x <= width,
                y < height,
                out.len() == y * width + x,
                forall|i: int| 0 <= i < out.len() ==> out[i] == target[i],
                forall|i: int| 0 <= i < out.len() ==> RAW_MIN <= #[trigger] out[i] <= RAW_MAX,
            decreases width - x,
        {
            proof {
                lemma_gidx_bounds(width as int, height as int, x as int, y as int);
            }
            let v = thermal_cell(vals, width, height, x, y, talus, amount);
            proof {
                let i = gidx(width as int, x as int, y as int);
                assert(i % (width as int) == x as int && i / (width as int) == y as int)
                    by (nonlinear_arith)
                    requires
                        i == (y as int) * (width as int) + x,
                        0 <= x < width,
                        0 <= y,
                ;
                assert(target[i] == v);
            }
            out.push(v);
            x = x + 1;
        }
        proof {
            assert((y as int + 1) * width == y * width + width) by (nonlinear_arith);
        }
        y = y + 1;
    }
    proof {
        assert(out.len() == target.len()) by (nonlinear_arith)
            requires
                out.len() == (height as int) * (width as int),
                target.len() == (width as int) * (height as int),
        ;
        assert(out@ =~= target);
    }
    out
}

/// Thermal erosion: for `iterations` double-buffered passes, every cell
/// sheds a fraction of its positive differential to the neighbors that lie
/// below it by more than the talus threshold, in proportion to each
/// neighbor's share of that differential. Each pass conserves material up
/// to the saturation window: [`lemma_thermal_flux_conserves`] proves the
/// unsaturated new heights sum to the old ones.
pub fn apply_thermal_erosion(
    field: &mut RawElevationField,
    iterations: u32,
    talus: i64,
    amount: i64,
)
    requires
        old(field).wf(),
        talus >= 0,
        0 <= amount <= FP_ONE,
    ensures
        final(field).wf(),
        final(field).width == old(field).width,
        final(field).height == old(field).height,
        final(field).values@ == thermal_spec(
            old(field).values@,
            old(field).width as int,
            old(field).height as int,
            iterations as nat,
            talus as int,
            amount as int,
        ),
{
    let ghost g0 = field.values@;
    let ghost w = field.width as int;
    let ghost h = field.height as int;
    let mut it: u32 = 0;
    while it < iterations
        invariant
            0 <= it <= iterations,
            talus >= 0,
            0 <= amount <= FP_ONE,
            field.width as int == w,
            field.height as int == h,
            field.wf(),
            field.values@ == thermal_spec(g0, w, h, it as nat, talus as int, amount as int),
        decreases iterations - it,
    {
        let next = thermal_pass(&field.values, field.width, field.height, talus, amount);
        field.values = next;
        it = it + 1;
    }
}

} // verus!
