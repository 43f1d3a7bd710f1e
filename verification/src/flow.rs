use vstd::prelude::*;

verus! {

use crate::fixed::{RAW_MIN, RAW_MAX};
use crate::grid::{gidx, in_grid, lemma_gidx_bounds, MAX_CELLS};

/// x offset of the k-th entry of the canonical 8-neighbor enumeration.
pub open spec fn dir_dx(k: int) -> int {
    if k == 0 || k == 3 || k == 5 {
        -1
    } else if k == 1 || k == 6 {
        0
    } else {
        1
    }
}

/// y offset of the k-th entry of the canonical 8-neighbor enumeration.
pub open spec fn dir_dy(k: int) -> int {
    if k <= 2 {
        -1
    } else if k <= 4 {
        0
    } else {
        1
    }
}

/// The canonical neighbor enumeration, top-left to bottom-right.
pub fn dir(k: usize) -> (r: (i64, i64))
    requires
        k < 8,
    ensures
        r.0 == dir_dx(k as int),
        r.1 == dir_dy(k as int),
{
    match k {
        0 => (-1, -1),
        1 => (0, -1),
        2 => (1, -1),
        3 => (-1, 0),
        4 => (1, 0),
        5 => (-1, 1),
        6 => (0, 1),
        _ => (1, 1),
    }
}

/// Scan state after considering the first `k` neighbors of `(x, y)`: the
/// largest positive height drop found so far and the linear index it leads
/// to (`-1` while none). The first neighbor reaching the maximum wins, so
/// ties are settled by the canonical enumeration order.
pub open spec fn ds_scan(vals: Seq<i64>, w: int, h: int, x: int, y: int, k: nat) -> (int, int)
    decreases k,
{
    if k == 0 {
        (0, -1)
    } else {
        let prev = ds_scan(vals, w, h, x, y, (k - 1) as nat);
        let nx = x + dir_dx(k - 1);
        let ny = y + dir_dy(k - 1);
        if in_grid(w, h, nx, ny) {
            let diff = vals[gidx(w, x, y)] - vals[gidx(w, nx, ny)];
            if diff > prev.0 {
                (diff, gidx(w, nx, ny))
            } else {
                prev
            }
        } else {
            prev
        }
    }
}

/// The downslope target of the cell with linear index `i`: the neighbor with
/// the largest strictly positive height drop, or `None` for cells that have
/// no strictly lower neighbor or that lie at or below the water threshold.
pub open spec fn downslope_spec(
    vals: Seq<i64>,
    w: int,
    h: int,
    threshold: Option<i64>,
    i: int,
) -> Option<usize> {
    let x = i % w;
    let y = i / w;
    if threshold matches Some(t) && vals[i] <= t {
        None
    } else {
        let scan = ds_scan(vals, w, h, x, y, 8);
        if scan.0 > 0 {
            Some(scan.1 as usize)
        } else {
            None
        }
    }
}

/// The downslope map of the whole grid.
pub open spec fn ds_full_spec(vals: Seq<i64>, w: int, h: int, threshold: Option<i64>) -> Seq<
    Option<usize>,
> {
    Seq::new(vals.len(), |i: int| downslope_spec(vals, w, h, threshold, i))
}

/// What makes a downslope map usable for routing: in-range targets that are
/// strictly lower than their source, over values inside the raw window.
pub open spec fn ds_closed(vals: Seq<i64>, ds: Seq<Option<usize>>) -> bool {
    &&& ds.len() == vals.len()
    &&& forall|i: int|
        0 <= i < vals.len() ==> RAW_MIN <= #[trigger] vals[i] <= RAW_MAX
    &&& forall|i: int|
        0 <= i < ds.len() ==> ((#[trigger] ds[i]) matches Some(t) ==> 0 <= t < vals.len()
            && vals[t as int] < vals[i])
}

/// The scan's drop is the drop to the cell it names.
proof fn lemma_ds_scan_sound(vals: Seq<i64>, w: int, h: int, x: int, y: int, k: nat)
    requires
        in_grid(w, h, x, y),
        vals.len() == w * h,
        k <= 8,
    ensures
        ds_scan(vals, w, h, x, y, k).0 >= 0,
        ds_scan(vals, w, h, x, y, k).0 > 0 ==> {
            let s = ds_scan(vals, w, h, x, y, k);
            &&& 0 <= s.1 < vals.len()
            &&& vals[s.1] == vals[gidx(w, x, y)] - s.0
        },
    decreases k,
{
    if k > 0 {
        lemma_ds_scan_sound(vals, w, h, x, y, (k - 1) as nat);
        let nx = x + dir_dx(k - 1);
        let ny = y + dir_dy(k - 1);
        if in_grid(w, h, nx, ny) {
            lemma_gidx_bounds(w, h, nx, ny);
        }
    }
}

/// The full downslope map is closed.
pub proof fn lemma_ds_full_closed(vals: Seq<i64>, w: int, h: int, threshold: Option<i64>)
    requires
        vals.len() == w * h,
        vals.len() <= MAX_CELLS,
        0 < w,
        0 < h,
        forall|i: int| 0 <= i < vals.len() ==> RAW_MIN <= #[trigger] vals[i] <= RAW_MAX,
    ensures
        ds_closed(vals, ds_full_spec(vals, w, h, threshold)),
{
    let ds = ds_full_spec(vals, w, h, threshold);
    assert forall|i: int|
        0 <= i < ds.len() implies ((#[trigger] ds[i]) matches Some(t) ==> 0 <= t < vals.len()
        && vals[t as int] < vals[i]) by {
        let x = i % w;
        let y = i / w;
        assert(0 <= x < w && 0 <= y < h && gidx(w, x, y) == i) by (nonlinear_arith)
            requires
                0 <= i < w * h,
                0 < w,
                0 < h,
                x == i % w,
                y == i / w,
        ;
        lemma_ds_scan_sound(vals, w, h, x, y, 8);
        assert(ds[i] == downslope_spec(vals, w, h, threshold, i));
        if ds[i] is Some {
            let s = ds_scan(vals, w, h, x, y, 8);
            assert(s.0 > 0);
            assert(ds[i] == Some(s.1 as usize));
            assert(vals[s.1] == vals[gidx(w, x, y)] - s.0);
        }
    }
}

/// One routing walk: starting at `cur`, add one unit of flow to every cell
/// on the downslope chain until a sink (a cell with no target) is reached.
pub open spec fn walk_spec(
    vals: Seq<i64>,
    ds: Seq<Option<usize>>,
    flow: Seq<u64>,
    cur: int,
) -> Seq<u64>
    decreases vals[cur] - RAW_MIN,
        when ds_closed(vals, ds) && 0 <= cur < vals.len() && flow.len() == vals.len()
{
    let f2 = flow.update(cur, (flow[cur] + 1) as u64);
    match ds[cur] {
        Option::None => f2,
        Option::Some(t) => walk_spec(vals, ds, f2, t as int),
    }
}

/// Flow after the first `j` cells have each contributed their walk,
/// starting from an all-zero field.
pub open spec fn accumulate_spec(vals: Seq<i64>, ds: Seq<Option<usize>>, j: nat) -> Seq<u64>
    decreases j,
{
    if j == 0 {
        Seq::new(vals.len(), |i: int| 0u64)
    } else {
        let prev = accumulate_spec(vals, ds, (j - 1) as nat);
        if j - 1 < vals.len() {
            walk_spec(vals, ds, prev, j - 1)
        } else {
            prev
        }
    }
}

/// A walk touches each cell at most once (the chain strictly descends), adds
/// exactly one unit at its start, and leaves cells above the start alone.
pub proof fn lemma_walk_props(vals: Seq<i64>, ds: Seq<Option<usize>>, flow: Seq<u64>, cur: int)
    requires
        ds_closed(vals, ds),
        0 <= cur < vals.len(),
        flow.len() == vals.len(),
        forall|i: int|
            0 <= i < flow.len() ==> #[trigger] flow[i] + (vals[cur] - RAW_MIN)
                < 0xffff_ffff_ffff_ffff,
    ensures
        walk_spec(vals, ds, flow, cur).len() == flow.len(),
        forall|i: int|
            0 <= i < flow.len() ==> flow[i] <= #[trigger] walk_spec(vals, ds, flow, cur)[i]
                <= flow[i] + 1,
        walk_spec(vals, ds, flow, cur)[cur] == flow[cur] + 1,
        forall|i: int|
            0 <= i < flow.len() && vals[i] > vals[cur] ==> #[trigger] walk_spec(
                vals,
                ds,
                flow,
                cur,
            )[i] == flow[i],
    decreases vals[cur] - RAW_MIN,
{
    let f2 = flow.update(cur, (flow[cur] + 1) as u64);
    match ds[cur] {
        Option::None => {},
        Option::Some(t) => {
            lemma_walk_props(vals, ds, f2, t as int);
        },
    }
}

/// Sum of the flow at sink cells (no downslope target) among the first
/// `upto` cells.
pub open spec fn sink_sum(flow: Seq<u64>, ds: Seq<Option<usize>>, upto: int) -> int
    decreases upto,
{
    if upto <= 0 {
        0
    } else {
        sink_sum(flow, ds, upto - 1) + if ds[upto - 1] is None {
            flow[upto - 1] as int
        } else {
            0
        }
    }
}

/// Changing one cell's flow changes the sink sum by the difference at that
/// cell, and only if it is a sink.
proof fn lemma_sink_sum_update(
    flow: Seq<u64>,
    ds: Seq<Option<usize>>,
    i: int,
    v: u64,
    upto: int,
)
    requires
        0 <= i < flow.len(),
        upto <= flow.len(),
    ensures
        sink_sum(flow.update(i, v), ds, upto) == sink_sum(flow, ds, upto) + if i < upto && ds[i]
            is None {
            v - flow[i]
        } else {
            0
        },
    decreases upto,
{
    if upto > 0 {
        lemma_sink_sum_update(flow, ds, i, v, upto - 1);
    }
}

/// A walk raises the total sink flow by exactly one unit.
proof fn lemma_walk_sink_sum(vals: Seq<i64>, ds: Seq<Option<usize>>, flow: Seq<u64>, cur: int)
    requires
        ds_closed(vals, ds),
        0 <= cur < vals.len(),
        flow.len() == vals.len(),
        forall|i: int|
            0 <= i < flow.len() ==> #[trigger] flow[i] + (vals[cur] - RAW_MIN)
                < 0xffff_ffff_ffff_ffff,
    ensures
        sink_sum(walk_spec(vals, ds, flow, cur), ds, flow.len() as int) == sink_sum(
            flow,
            ds,
            flow.len() as int,
        ) + 1,
    decreases vals[cur] - RAW_MIN,
{
    let f2 = flow.update(cur, (flow[cur] + 1) as u64);
    lemma_sink_sum_update(flow, ds, cur, (flow[cur] + 1) as u64, flow.len() as int);
    match ds[cur] {
        Option::None => {},
        Option::Some(t) => {
            lemma_walk_sink_sum(vals, ds, f2, t as int);
        },
    }
}

/// Flow bounds after `j` walks: every cell holds at most `j` units, and
/// every already-processed cell holds at least one (its own).
pub proof fn lemma_accumulate_props(vals: Seq<i64>, ds: Seq<Option<usize>>, j: nat)
    requires
        ds_closed(vals, ds),
        j <= vals.len(),
        vals.len() <= MAX_CELLS,
    ensures
        accumulate_spec(vals, ds, j).len() == vals.len(),
        forall|i: int|
            0 <= i < vals.len() ==> #[trigger] accumulate_spec(vals, ds, j)[i] <= j,
        forall|i: int| 0 <= i < j ==> 1 <= #[trigger] accumulate_spec(vals, ds, j)[i],
    decreases j,
{
    if j > 0 {
        lemma_accumulate_props(vals, ds, (j - 1) as nat);
        let prev = accumulate_spec(vals, ds, (j - 1) as nat);
        lemma_walk_props(vals, ds, prev, j - 1);
    }
}

/// The sum of all-zero flow over any prefix is zero.
proof fn lemma_sink_sum_zero(flow: Seq<u64>, ds: Seq<Option<usize>>, upto: int)
    requires
        upto <= flow.len(),
        forall|i: int| 0 <= i < flow.len() ==> #[trigger] flow[i] == 0,
    ensures
        sink_sum(flow, ds, upto) == 0,
    decreases upto,
{
    if upto > 0 {
        lemma_sink_sum_zero(flow, ds, upto - 1);
    }
}

/// Conservation of routed flow: after every cell has contributed its walk,
/// the flow collected at the sinks is exactly the cell count. No flow is
/// created or destroyed on the way down, and every cell keeps at least its
/// own unit.
pub proof fn lemma_flow_conservation(vals: Seq<i64>, ds: Seq<Option<usize>>, j: nat)
    requires
        ds_closed(vals, ds),
        j <= vals.len(),
        vals.len() <= MAX_CELLS,
    ensures
        sink_sum(accumulate_spec(vals, ds, j), ds, vals.len() as int) == j,
    decreases j,
{
    if j == 0 {
        lemma_sink_sum_zero(accumulate_spec(vals, ds, 0), ds, vals.len() as int);
    } else {
        lemma_flow_conservation(vals, ds, (j - 1) as nat);
        let prev = accumulate_spec(vals, ds, (j - 1) as nat);
        lemma_accumulate_props(vals, ds, (j - 1) as nat);
        lemma_walk_sink_sum(vals, ds, prev, j - 1);
    }
}

/// The downslope target of one cell, by scanning the 8 neighbors in
/// canonical order.
pub fn downslope_cell(
    vals: &Vec<i64>,
    width: u32,
    height: u32,
    x: u32,
    y: u32,
    threshold: Option<i64>,
) -> (r: Option<usize>)
    requires
        vals.len() == (width as int) * (height as int),
        (width as int) * (height as int) <= MAX_CELLS,
        x < width,
        y < height,
        forall|i: int| 0 <= i < vals.len() ==> RAW_MIN <= #[trigger] vals[i] <= RAW_MAX,
    ensures
        r == downslope_spec(
            vals@,
            width as int,
            height as int,
            threshold,
            gidx(width as int, x as int, y as int),
        ),
{
    proof {
        lemma_gidx_bounds(width as int, height as int, x as int, y as int);
        assert(gidx(width as int, x as int, y as int) % (width as int) == x as int && gidx(
            width as int,
            x as int,
            y as int,
        ) / (width as int) == y as int) by (nonlinear_arith)
            requires
                0 <= x < width,
                0 <= y < height,
                gidx(width as int, x as int, y as int) == (y as int) * (width as int) + x,
        ;
    }
    let i = (y as usize) * (width as usize) + (x as usize);
    let here = vals[i];
    if let Some(t) = threshold {
        if here <= t {
            return None;
        }
    }
    let mut best_diff: i64 = 0;
    let mut best: usize = 0;
    let mut k: usize = 0;
    while k < 8
        invariant
            vals.len() == (width as int) * (height as int),
            (width as int) * (height as int) <= MAX_CELLS,
            x < width,
            y < height,
            i == gidx(width as int, x as int, y as int),
            i < vals.len(),
            here == vals[i as int],
            forall|q: int| 0 <= q < vals.len() ==> RAW_MIN <= #[trigger] vals[q] <= RAW_MAX,
            0 <= k <= 8,
            best_diff == ds_scan(vals@, width as int, height as int, x as int, y as int, k as nat).0,
            best_diff > 0 ==> best == ds_scan(
                vals@,
                width as int,
                height as int,
                x as int,
                y as int,
                k as nat,
            ).1,
        decreases 8 - k,
    {
        let (dx, dy) = dir(k);
        let nx = x as i64 + dx;
        let ny = y as i64 + dy;
        if nx >= 0 && ny >= 0 && nx < width as i64 && ny < height as i64 {
            proof {
                lemma_gidx_bounds(width as int, height as int, nx as int, ny as int);
            }
            let ni = (ny as usize) * (width as usize) + (nx as usize);
            let diff = here - vals[ni];
            if diff > best_diff {
                best_diff = diff;
                best = ni;
            }
        }
        k = k + 1;
    }
    if best_diff > 0 {
        Some(best)
    } else {
        None
    }
}

/// The downslope map of the whole grid.
pub fn downslope_map(vals: &Vec<i64>, width: u32, height: u32, threshold: Option<i64>) -> (r: Vec<
    Option<usize>,
>)
    requires
        vals.len() == (width as int) * (height as int),
        (width as int) * (height as int) <= MAX_CELLS,
        forall|i: int| 0 <= i < vals.len() ==> RAW_MIN <= #[trigger] vals[i] <= RAW_MAX,
    ensures
        r@ == ds_full_spec(vals@, width as int, height as int, threshold),
{
    let ghost target = ds_full_spec(vals@, width as int, height as int, threshold);
    let mut out: Vec<Option<usize>> = Vec::new();
    let mut y: u32 = 0;
    while y < height
        invariant
            vals.len() == (width as int) * (height as int),
            (width as int) * (height as int) <= MAX_CELLS,
            forall|i: int| 0 <= i < vals.len() ==> RAW_MIN <= #[trigger] vals[i] <= RAW_MAX,
            target == ds_full_spec(vals@, width as int, height as int, threshold),
            0 <= y <= height,
            out.len() == y * width,
            forall|i: int| 0 <= i < out.len() ==> out[i] == target[i],
        decreases height - y,
    {
        let mut x: u32 = 0;
        while x < width
            invariant
                vals.len() == (width as int) * (height as int),
                (width as int) * (height as int) <= MAX_CELLS,
                forall|i: int| 0 <= i < vals.len() ==> RAW_MIN <= #[trigger] vals[i] <= RAW_MAX,
                target == ds_full_spec(vals@, width as int, height as int, threshold),
                0 <= x <= width,
                y < height,
                out.len() == y * width + x,
                forall|i: int| 0 <= i < out.len() ==> out[i] == target[i],
            decreases width - x,
        {
            proof {
                lemma_gidx_bounds(width as int, height as int, x as int, y as int);
            }
            let d = downslope_cell(vals, width, height, x, y, threshold);
            out.push(d);
            x = x + 1;
        }
        proof {
            assert((y as int + 1) * width == y * width + width) by (nonlinear_arith);
        }
        y = y + 1;
    }
    proof {
        assert(out.len() == target.len()) by (nonlinear_arith)
            requires
                out.len() == (height as int) * (width as int),
                target.len() == (width as int) * (height as int),
        ;
        assert(out@ =~= target);
    }
    out
}

/// Accumulated D8 flow of every cell: each cell contributes one unit which
/// runs down its chain of downslope targets. The result is exactly the walk
/// fold, so its conservation and bounds follow from the lemmas above.
pub fn flow_counts(vals: &Vec<i64>, width: u32, height: u32, threshold: Option<i64>) -> (r: Vec<
    u64,
>)
    requires
        vals.len() == (width as int) * (height as int),
        0 < width,
        0 < height,
        (width as int) * (height as int) <= MAX_CELLS,
        forall|i: int| 0 <= i < vals.len() ==> RAW_MIN <= #[trigger] vals[i] <= RAW_MAX,
    ensures
        r@ == accumulate_spec(
            vals@,
            ds_full_spec(vals@, width as int, height as int, threshold),
            vals.len() as nat,
        ),
        r.len() == vals.len(),
        forall|i: int| 0 <= i < r.len() ==> 1 <= #[trigger] r[i] <= vals.len(),
{
    let ghost ds = ds_full_spec(vals@, width as int, height as int, threshold);
    proof {
        lemma_ds_full_closed(vals@, width as int, height as int, threshold);
    }
    let dsv = downslope_map(vals, width, height, threshold);
    let n = vals.len();
    let mut flow: Vec<u64> = Vec::new();
    while flow.len() < n
        invariant
            forall|i: int| 0 <= i < flow.len() ==> #[trigger] flow[i] == 0,
            flow.len() <= n,
        decreases n - flow.len(),
    {
        flow.push(0);
    }
    proof {
        assert(flow@ =~= accumulate_spec(vals@, ds, 0));
    }
    let mut j: usize = 0;
    while j < n
        invariant
            ds_closed(vals@, ds),
            dsv@ == ds,
            n == vals.len(),
            vals.len() == (width as int) * (height as int),
            0 <= j <= n,
            n <= MAX_CELLS,
            flow.len() == n,
            flow@ == accumulate_spec(vals@, ds, j as nat),
            forall|i: int| 0 <= i < flow.len() ==> #[trigger] flow[i] <= j,
        decreases n - j,
    {
        let ghost entry = flow@;
        let ghost fin = walk_spec(vals@, ds, entry, j as int);
        let mut cur: usize = j;
        proof {
            lemma_walk_props(vals@, ds, entry, j as int);
        }
        loop
            invariant_except_break
                ds_closed(vals@, ds),
                dsv@ == ds,
                n == vals.len(),
                0 <= cur < n,
                j < n,
                n <= MAX_CELLS,
                flow.len() == n,
                fin == walk_spec(vals@, ds, entry, j as int),
                walk_spec(vals@, ds, flow@, cur as int) == fin,
                fin.len() == n,
                forall|i: int| 0 <= i < n ==> #[trigger] fin[i] <= j + 1,
                forall|i: int| 0 <= i < flow.len() ==> #[trigger] flow[i] <= n + 1,
            ensures
                flow.len() == n,
                flow@ == fin,
            decreases vals@[cur as int] - RAW_MIN,
        {
            proof {
                lemma_walk_props(vals@, ds, flow@, cur as int);
            }
            let fc = flow[cur];
            proof {
                assert(fin[cur as int] >= flow@[cur as int] + 1);
            }
            flow.set(cur, fc + 1);
            match dsv[cur] {
                Option::Some(t) => {
                    cur = t;
                },
                Option::None => {
                    break ;
                },
            }
        }
        proof {
            lemma_accumulate_props(vals@, ds, (j + 1) as nat);
            assert(flow@ == accumulate_spec(vals@, ds, (j + 1) as nat));
        }
        j = j + 1;
    }
    proof {
        lemma_accumulate_props(vals@, ds, vals.len() as nat);
    }
    flow
}

} // verus!
