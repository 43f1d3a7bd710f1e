use vstd::prelude::*;

verus! {

use crate::fixed::{
    FP_ONE, RAW_MIN, RAW_MAX, clamp_spec, clamp64, fp_mul_spec, fp_mul, isqrt_spec, isqrt64,
};
use crate::grid::RawElevationField;
use crate::flow::{ds_full_spec, accumulate_spec, flow_counts};

/// Minimum of the first `k` values (`k >= 1`).
pub open spec fn min_upto(g: Seq<i64>, k: int) -> int
    decreases k,
{
    if k <= 1 {
        g[0] as int
    } else {
        let p = min_upto(g, k - 1);
        if g[k - 1] < p {
            g[k - 1] as int
        } else {
            p
        }
    }
}

/// Maximum of the first `k` values (`k >= 1`).
pub open spec fn max_upto(g: Seq<i64>, k: int) -> int
    decreases k,
{
    if k <= 1 {
        g[0] as int
    } else {
        let p = max_upto(g, k - 1);
        if g[k - 1] > p {
            g[k - 1] as int
        } else {
            p
        }
    }
}

/// Maximum of the first `k` flow counts (`k >= 1`).
pub open spec fn fmax_upto(f: Seq<u64>, k: int) -> int
    decreases k,
{
    if k <= 1 {
        f[0] as int
    } else {
        let p = fmax_upto(f, k - 1);
        if f[k - 1] > p {
            f[k - 1] as int
        } else {
            p
        }
    }
}

/// New height of one cell under flow carving: cells above the water level
/// whose flow passes the threshold are cut by the carve strength scaled by
/// the square root of their relative flow.
pub open spec fn hydro_cell_spec(
    g: Seq<i64>,
    flow: Seq<u64>,
    maxf: int,
    wl: int,
    thr: u64,
    strength: int,
    i: int,
) -> int {
    if g[i] <= wl || flow[i] < thr {
        g[i] as int
    } else {
        let q = (flow[i] * FP_ONE * FP_ONE) / maxf;
        clamp_spec(g[i] - fp_mul_spec(strength, isqrt_spec(q)), RAW_MIN as int, RAW_MAX as int)
    }
}

/// Flow-based hydraulic carving of the whole grid: one flow accumulation
/// over the raw field, a water level at a configured fraction of the height
/// range, and a per-cell carve proportional to the square root of relative
/// flow.
pub open spec fn hydro_spec(
    g: Seq<i64>,
    w: int,
    h: int,
    frac: int,
    thr: u64,
    strength: int,
) -> Seq<i64> {
    if g.len() == 0 {
        g
    } else {
        let flow = accumulate_spec(g, ds_full_spec(g, w, h, Option::None), g.len());
        let mn = min_upto(g, g.len() as int);
        let mx = max_upto(g, g.len() as int);
        let wl = mn + fp_mul_spec(frac, mx - mn);
        let maxf = fmax_upto(flow, g.len() as int);
        Seq::new(g.len(), |i: int| hydro_cell_spec(g, flow, maxf, wl, thr, strength, i) as i64)
    }
}

/// Hydraulic flow carving, the second erosion stage.
pub fn apply_flow_erosion(
    field: &mut RawElevationField,
    water_level_fraction: i64,
    flow_threshold: u64,
    carve_strength: i64,
)
    requires
        old(field).wf(),
        0 <= water_level_fraction <= FP_ONE,
        0 <= carve_strength <= FP_ONE,
    ensures
        final(field).wf(),
        final(field).width == old(field).width,
        final(field).height == old(field).height,
        final(field).values@ == hydro_spec(
            old(field).values@,
            old(field).width as int,
            old(field).height as int,
            water_level_fraction as int,
            flow_threshold,
            carve_strength as int,
        ),
{
    if field.width == 0 || field.height == 0 {
        proof {
            assert(field.values@.len() == 0) by (nonlinear_arith)
                requires
                    field.values@.len() == (field.width as int) * (field.height as int),
                    field.width == 0 || field.height == 0,
            ;
        }
        return ;
    }
    let ghost g = field.values@;
    let n = field.values.len();
    proof {
        assert(n > 0) by (nonlinear_arith)
            requires
                n == (field.width as int) * (field.height as int),
                field.width > 0,
                field.height > 0,
        ;
    }
    // Height range and water level.
    let mut mn: i64 = field.values[0];
    let mut mx: i64 = field.values[0];
    let mut k: usize = 1;
    while k < n
        invariant
            field.wf(),
            g == field.values@,
            n == field.values.len(),
            1 <= k <= n,
            mn == min_upto(g, k as int),
            mx == max_upto(g, k as int),
            RAW_MIN <= mn <= RAW_MAX,
            RAW_MIN <= mx <= RAW_MAX,
        decreases n - k,
    {
        let v = field.values[k];
        if v < mn {
            mn = v;
        }
        if v > mx {
            mx = v;
        }
        k = k + 1;
    }
    let wl = mn + fp_mul(water_level_fraction, mx - mn);
    // Flow accumulation over the raw field.
    let flow = flow_counts(&field.values, field.width, field.height, None);
    let mut maxf: u64 = flow[0];
    let mut k2: usize = 1;
    while k2 < n
        invariant
            n == flow.len(),
            1 <= k2 <= n,
            maxf == fmax_upto(flow@, k2 as int),
            1 <= maxf <= n,
            forall|j: int| 0 <= j < k2 ==> #[trigger] flow[j] <= maxf,
            forall|j: int| 0 <= j < flow.len() ==> 1 <= #[trigger] flow[j] <= n,
        decreases n - k2,
    {
        let v = flow[k2];
        if v > maxf {
            maxf = v;
        }
        k2 = k2 + 1;
    }
    let ghost target = hydro_spec(
        g,
        field.width as int,
        field.height as int,
        water_level_fraction as int,
        flow_threshold,
        carve_strength as int,
    );
    let mut out: Vec<i64> = Vec::new();
    let mut i: usize = 0;
    while i < n
        invariant
            field.wf(),
            g == field.values@,
            n == field.values.len(),
            n == flow.len(),
            n <= 0x400_0000,
            0 <= i <= n,
            0 <= carve_strength <= FP_ONE,
            1 <= maxf <= n,
            forall|j: int| 0 <= j < n ==> #[trigger] flow[j] <= maxf,
            forall|j: int| 0 <= j < flow.len() ==> 1 <= #[trigger] flow[j] <= n,
            wl == min_upto(g, n as int) + fp_mul_spec(
                water_level_fraction as int,
                max_upto(g, n as int) - min_upto(g, n as int),
            ),
            maxf == fmax_upto(flow@, n as int),
            flow@ == accumulate_spec(
                g,
                ds_full_spec(g, field.width as int, field.height as int, Option::None),
                n as nat,
            ),
            target == hydro_spec(
                g,
                field.width as int,
                field.height as int,
                water_level_fraction as int,
                flow_threshold,
                carve_strength as int,
            ),
            target.len() == n,
            out.len() == i,
            forall|j: int| 0 <= j < i ==> out[j] == target[j],
            forall|j: int| 0 <= j < out.len() ==> RAW_MIN <= #[trigger] out[j] <= RAW_MAX,
        decreases n - i,
    {
        let hv = field.values[i];
        let fv = flow[i];
        let v: i64 = if hv <= wl || fv < flow_threshold {
            hv
        } else {
            let q = (fv * (FP_ONE as u64) * (FP_ONE as u64)) / maxf;
            proof {
                assert(fv * (FP_ONE as u64) * (FP_ONE as u64) <= 0x400_0000 * 0x1_0000_0000)
                    by (nonlinear_arith)
                    requires
                        0 <= fv <= 0x400_0000,
                ;
                assert((fv * (FP_ONE as u64) * (FP_ONE as u64)) as int / (maxf as int) <= FP_ONE
                    * FP_ONE) by (nonlinear_arith)
                    requires
                        1 <= maxf,
                        fv <= maxf,
                        0 <= fv,
                ;
            }
            let kf = isqrt64(q);
            proof {
                assert(kf <= FP_ONE) by (nonlinear_arith)
                    requires
                        0 <= kf,
                        (kf as int) * (kf as int) <= FP_ONE * FP_ONE,
                ;
            }
            clamp64(hv - fp_mul(carve_strength, kf as i64), RAW_MIN, RAW_MAX)
        };
        proof {
            assert(target[i as int] == v);
        }
        out.push(v);
        i = i + 1;
    }
    proof {
        assert(out@ =~= target);
    }
    field.values = out;
}

} // verus!
