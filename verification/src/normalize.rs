use vstd::prelude::*;

verus! {

use crate::fixed::{FP_ONE, RAW_MIN, RAW_MAX, mul_div_spec, mul_div};
use crate::curves::{gamma09_spec, gamma09};
use crate::hydro::{min_upto, max_upto};
use crate::grid::MAX_CELLS;

/// Rescaling of a raw field into `[0, FP_ONE]` with gamma correction: the
/// minimum maps to 0 and the maximum to `FP_ONE` exactly; a perfectly flat
/// field (range zero) maps uniformly to 0.
pub open spec fn normalize_spec(g: Seq<i64>) -> Seq<i64> {
    if g.len() == 0 {
        g
    } else {
        let mn = min_upto(g, g.len() as int);
        let mx = max_upto(g, g.len() as int);
        let range = if mx - mn > 0 {
            mx - mn
        } else {
            1
        };
        Seq::new(
            g.len(),
            |i: int| gamma09_spec(mul_div_spec(g[i] - mn, FP_ONE as int, range)) as i64,
        )
    }
}

/// Normalize a raw field into unit heights. Besides pinning the result,
/// the contract carries the full-range property: some cell maps to 0, and
/// unless the field was exactly flat some cell maps to `FP_ONE`.
pub fn normalize_values(vals: &Vec<i64>) -> (r: Vec<i64>)
    requires
        vals.len() <= MAX_CELLS,
        forall|i: int| 0 <= i < vals.len() ==> RAW_MIN <= #[trigger] vals[i] <= RAW_MAX,
    ensures
        r@ == normalize_spec(vals@),
        r.len() == vals.len(),
        forall|i: int| 0 <= i < r.len() ==> 0 <= #[trigger] r[i] <= FP_ONE,
        vals.len() > 0 ==> exists|i: int| 0 <= i < r.len() && #[trigger] r[i] == 0,
        vals.len() > 0 && min_upto(vals@, vals.len() as int) != max_upto(vals@, vals.len() as int)
            ==> exists|j: int| 0 <= j < r.len() && #[trigger] r[j] == FP_ONE,
{
    let n = vals.len();
    if n == 0 {
        let r: Vec<i64> = Vec::new();
        proof {
            assert(r@ =~= normalize_spec(vals@));
        }
        return r;
    }
    let ghost g = vals@;
    let mut mn: i64 = vals[0];
    let mut mx: i64 = vals[0];
    let mut imin: usize = 0;
    let mut imax: usize = 0;
    let mut k: usize = 1;
    while k < n
        invariant
            n == vals.len(),
            g == vals@,
            1 <= k <= n,
            imin < n,
            imax < n,
            mn == min_upto(g, k as int),
            mx == max_upto(g, k as int),
            mn == g[imin as int],
            mx == g[imax as int],
            forall|j: int| 0 <= j < k ==> mn <= #[trigger] g[j] <= mx,
            forall|j: int| 0 <= j < g.len() ==> RAW_MIN <= #[trigger] g[j] <= RAW_MAX,
            RAW_MIN <= mn <= RAW_MAX,
            RAW_MIN <= mx <= RAW_MAX,
        decreases n - k,
    {
        let v = vals[k];
        if v < mn {
            mn = v;
            imin = k;
        }
        if v > mx {
            mx = v;
            imax = k;
        }
        k = k + 1;
    }
    let range: i64 = if mx - mn > 0 {
        mx - mn
    } else {
        1
    };
    let ghost target = normalize_spec(g);
    let mut out: Vec<i64> = Vec::new();
    let mut i: usize = 0;
    while i < n
        invariant
            n == vals.len(),
            g == vals@,
            0 <= i <= n,
            mn == min_upto(g, n as int),
            mx == max_upto(g, n as int),
            range == if mx - mn > 0 { (mx - mn) as int } else { 1int },
            1 <= range <= RAW_MAX - RAW_MIN,
            forall|j: int| 0 <= j < n ==> mn <= #[trigger] g[j] <= mx,
            target == normalize_spec(g),
            target.len() == n,
            out.len() == i,
            forall|j: int| 0 <= j < i ==> out[j] == target[j],
            forall|j: int| 0 <= j < out.len() ==> 0 <= #[trigger] out[j] <= FP_ONE,
        decreases n - i,
    {
        let v = vals[i];
        let scaled = mul_div(v - mn, FP_ONE, range);
        proof {
            assert(mul_div_spec(v - mn as int, FP_ONE as int, range as int) <= FP_ONE)
                by (nonlinear_arith)
                requires
                    0 <= v - mn <= range,
                    1 <= range,
            ;
        }
        let nv = gamma09(scaled);
        proof {
            assert(target[i as int] == nv);
        }
        out.push(nv);
        i = i + 1;
    }
    proof {
        assert(out@ =~= target);
        // The minimum cell lands exactly on 0.
        assert(mul_div_spec(g[imin as int] - mn, FP_ONE as int, range as int) == 0);
        assert(out[imin as int] == 0);
        // The maximum cell lands exactly on FP_ONE when the field has range.
        if mn != mx {
            assert((range as int) * (FP_ONE as int) / (range as int) == FP_ONE)
                by (nonlinear_arith)
                requires
                    1 <= range,
            ;
            assert(out[imax as int] == FP_ONE);
        }
    }
    out
}

} // verus!
