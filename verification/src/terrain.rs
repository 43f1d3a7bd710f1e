use vstd::prelude::*;

verus! {

use crate::fixed::FP_ONE;
use crate::grid::{gidx, lemma_gidx_bounds, MAX_CELLS};
use crate::config::WorldGenConfig;
use crate::noise_field::NoiseField;
use crate::synth::{synth_params_spec, raw_field_spec, generate_raw_field};
use crate::thermal::{thermal_spec, apply_thermal_erosion};
use crate::hydro::{hydro_spec, min_upto, max_upto, fmax_upto, apply_flow_erosion};
use crate::lakes::{lakes_spec, apply_lake_formation};
use crate::canyon::{canyon_spec, apply_canyon_erosion};
use crate::smooth::{smooth_spec, apply_gaussian_smooth};
use crate::normalize::{normalize_spec, normalize_values};
use crate::flow::{ds_full_spec, accumulate_spec, flow_counts};

/// A finished height field: normalized elevations in `[0, FP_ONE]`,
/// row-major. Immutable once produced.
pub struct Heightmap {
    pub width: u32,
    pub height: u32,
    /// Normalized fixed-point heights, one per cell.
    pub values: Vec<i64>,
}

/// A rectangular window copied out of a [`Heightmap`], row-major.
pub struct HeightChunk {
    pub origin_x: u32,
    pub origin_y: u32,
    pub width: u32,
    pub height: u32,
    /// Normalized fixed-point heights of the window, row-major.
    pub values: Vec<i64>,
}

impl Heightmap {
    /// Structural invariant: the flat vector matches the dimensions and
    /// every height is a unit-interval fixed-point value.
    pub open spec fn wf(self) -> bool {
        &&& self.values.len() == (self.width as int) * (self.height as int)
        &&& (self.width as int) * (self.height as int) <= MAX_CELLS
        &&& forall|i: int| 0 <= i < self.values.len() ==> 0 <= #[trigger] self.values[i] <= FP_ONE
    }

    /// Linear index of cell `(x, y)`.
    pub fn index(&self, x: u32, y: u32) -> (r: usize)
        requires
            self.wf(),
            x < self.width,
            y < self.height,
        ensures
            r == gidx(self.width as int, x as int, y as int),
            r < self.values.len(),
    {
        proof {
            lemma_gidx_bounds(self.width as int, self.height as int, x as int, y as int);
        }
        (y as usize) * (self.width as usize) + (x as usize)
    }

    /// The normalized height at `(x, y)`.
    pub fn get(&self, x: u32, y: u32) -> (r: i64)
        requires
            self.wf(),
            x < self.width,
            y < self.height,
        ensures
            r == self.values[gidx(self.width as int, x as int, y as int)],
            0 <= r <= FP_ONE,
    {
        let i = self.index(x, y);
        self.values[i]
    }

    /// Copy out the sub-rectangle starting at `(origin_x, origin_y)` of at
    /// most `width` by `height` cells, clipped to the map.
    pub fn sample_chunk(&self, origin_x: u32, origin_y: u32, width: u32, height: u32) -> (r:
        HeightChunk)
        requires
            self.wf(),
            origin_x <= self.width,
            origin_y <= self.height,
            origin_x + width <= u32::MAX,
            origin_y + height <= u32::MAX,
        ensures
            r.origin_x == origin_x,
            r.origin_y == origin_y,
            r.width == if origin_x + width <= self.width {
                width as int
            } else {
                self.width - origin_x
            },
            r.height == if origin_y + height <= self.height {
                height as int
            } else {
                self.height - origin_y
            },
            r.values@ == chunk_values_spec(
                self.values@,
                self.width as int,
                origin_x as int,
                origin_y as int,
                r.width as int,
                r.height as int,
            ),
    {
        let max_w = if origin_x + width < self.width {
            origin_x + width
        } else {
            self.width
        };
        let max_h = if origin_y + height < self.height {
            origin_y + height
        } else {
            self.height
        };
        let w = max_w - origin_x;
        let h = max_h - origin_y;
        let ghost target = chunk_values_spec(
            self.values@,
            self.width as int,
            origin_x as int,
            origin_y as int,
            w as int,
            h as int,
        );
        let mut vals: Vec<i64> = Vec::new();
        let mut j: u32 = 0;
        while j < h
            invariant
                self.wf(),
                origin_x <= max_w <= self.width,
                origin_y <= max_h <= self.height,
                w == max_w - origin_x,
                h == max_h - origin_y,
                0 <= j <= h,
                target == chunk_values_spec(
                    self.values@,
                    self.width as int,
                    origin_x as int,
                    origin_y as int,
                    w as int,
                    h as int,
                ),
                vals.len() == j * w,
                forall|k: int| 0 <= k < vals.len() ==> vals[k] == target[k],
            decreases h - j,
        {
            let mut i: u32 = 0;
            while i < w
                invariant
                    self.wf(),
                    origin_x <= max_w <= self.width,
                    origin_y <= max_h <= self.height,
                    w == max_w - origin_x,
                    h == max_h - origin_y,
                    j < h,
                    0 <= i <= w,
                    target == chunk_values_spec(
                        self.values@,
                        self.width as int,
                        origin_x as int,
                        origin_y as int,
                        w as int,
                        h as int,
                    ),
                    vals.len() == j * w + i,
                    forall|k: int| 0 <= k < vals.len() ==> vals[k] == target[k],
                decreases w - i,
            {
                proof {
                    lemma_gidx_bounds(w as int, h as int, i as int, j as int);
                }
                let v = self.get(origin_x + i, origin_y + j);
                proof {
                    let k = gidx(w as int, i as int, j as int);
                    assert(k % (w as int) == i as int && k / (w as int) == j as int)
                        by (nonlinear_arith)
                        requires
                            k == (j as int) * (w as int) + i,
                            0 <= i < w,
                            0 <= j,
                    ;
                    assert(target[k] == v);
                }
                vals.push(v);
                i = i + 1;
            }
            proof {
                assert((j as int + 1) * w == j * w + w) by (nonlinear_arith);
            }
            j = j + 1;
        }
        proof {
            assert(vals.len() == target.len()) by (nonlinear_arith)
                requires
                    vals.len() == (h as int) * (w as int),
                    target.len() == (w as int) * (h as int),
            ;
            assert(vals@ =~= target);
        }
        HeightChunk { origin_x, origin_y, width: w, height: h, values: vals }
    }
}

/// The contents of a chunk window: cell `(i, j)` of the chunk is cell
/// `(origin_x + i, origin_y + j)` of the source map.
pub open spec fn chunk_values_spec(
    src: Seq<i64>,
    sw: int,
    ox: int,
    oy: int,
    cw: int,
    ch: int,
) -> Seq<i64> {
    Seq::new((cw * ch) as nat, |k: int| src[gidx(sw, ox + k % cw, oy + k / cw)])
}

/// The carving threshold in whole cells of accumulated flow, derived from
/// the river density knob; a density of 1.0 gives the baseline of 120.
pub open spec fn flow_threshold_spec(cfg: WorldGenConfig) -> u64 {
    let d = if cfg.river_density < 3277 {
        3277
    } else {
        cfg.river_density as int
    };
    (7864320int / d) as u64
}

/// The raw field right before normalization: synthesis followed by the
/// fixed erosion sequence (thermal, hydraulic, lakes, canyons, smoothing).
pub open spec fn prenorm_spec(cfg: WorldGenConfig, width: u32, height: u32) -> Seq<i64> {
    let p = synth_params_spec(cfg, width, height, FP_ONE);
    let w = width as int;
    let h = height as int;
    let g0 = raw_field_spec(p, w, h);
    let g1 = thermal_spec(g0, w, h, cfg.erosion_iterations as nat, 1311, 14418);
    let g2 = hydro_spec(g1, w, h, 14418, flow_threshold_spec(cfg), 655);
    let g3 = lakes_spec(g2, w, h, p.detail_field(), 7864, 786);
    let g4 = canyon_spec(g3, w, h, p.ridge1_field(), 655);
    smooth_spec(g4, w, h, 4)
}

/// The finished heightmap contents.
pub open spec fn heightmap_values_spec(cfg: WorldGenConfig, width: u32, height: u32) -> Seq<i64> {
    normalize_spec(prenorm_spec(cfg, width, height))
}

/// Generate the heightmap for a configuration: continent and ridge
/// synthesis, the five-stage erosion pipeline, and normalization into
/// `[0, FP_ONE]` with gamma correction. The result is a pure function of
/// the configuration and dimensions, and it attains 0 and, unless the
/// eroded field was exactly flat, also `FP_ONE`.
pub fn generate_heightmap_from_config(cfg: &WorldGenConfig, width: u32, height: u32) -> (hm:
    Heightmap)
    requires
        cfg.valid(),
        width <= MAX_CELLS,
        height <= MAX_CELLS,
        (width as int) * (height as int) <= MAX_CELLS,
    ensures
        hm.wf(),
        hm.width == width,
        hm.height == height,
        hm.values@ == heightmap_values_spec(*cfg, width, height),
        hm.values.len() > 0 ==> exists|i: int|
            0 <= i < hm.values.len() && #[trigger] hm.values[i] == 0,
        hm.values.len() > 0 && min_upto(
            prenorm_spec(*cfg, width, height),
            hm.values.len() as int,
        ) != max_upto(prenorm_spec(*cfg, width, height), hm.values.len() as int) ==> exists|j: int|
            0 <= j < hm.values.len() && #[trigger] hm.values[j] == FP_ONE,
{
    let mut field = generate_raw_field(cfg, width, height, FP_ONE);
    apply_thermal_erosion(&mut field, cfg.erosion_iterations, 1311, 14418);
    let d = if cfg.river_density < 3277 {
        3277
    } else {
        cfg.river_density
    };
    let thr = (7864320 / d) as u64;
    apply_flow_erosion(&mut field, 14418, thr, 655);
    let lake_noise = NoiseField { seed: cfg.base_seed ^ 0x1234_5678, amplitude: FP_ONE };
    apply_lake_formation(&mut field, &lake_noise, 7864, 786);
    let canyon_noise = NoiseField { seed: cfg.base_seed ^ 0x8765_4321, amplitude: FP_ONE };
    apply_canyon_erosion(&mut field, &canyon_noise, 655);
    apply_gaussian_smooth(&mut field, 4);
    proof {
        assert(field.values@ == prenorm_spec(*cfg, width, height));
    }
    let values = normalize_values(&field.values);
    Heightmap { width, height, values }
}

/// The normalized flow field of a finished heightmap: accumulated D8 flow
/// with cells at or below sea level acting as sinks, scaled by the maximum
/// observed flow. The division rounds up, so every cell keeps a strictly
/// positive share of its own unit and the maximum cell lands exactly on
/// `FP_ONE`.
pub open spec fn flow_field_spec(hm: Heightmap, sea_level_norm: i64) -> Seq<i64> {
    if hm.values.len() == 0 {
        Seq::empty()
    } else {
        let counts = accumulate_spec(
            hm.values@,
            ds_full_spec(
                hm.values@,
                hm.width as int,
                hm.height as int,
                Option::Some(sea_level_norm),
            ),
            hm.values.len() as nat,
        );
        let maxf = fmax_upto(counts, hm.values.len() as int);
        Seq::new(
            hm.values.len() as nat,
            |i: int| (((counts[i] as int) * (FP_ONE as int) + maxf - 1) / maxf) as i64,
        )
    }
}

/// Per-cell water throughput for river rendering: every cell contributes
/// one unit routed down its steepest descent; the result is normalized to
/// `(0, FP_ONE]` by the maximum flow, which itself normalizes to exactly
/// `FP_ONE`.
pub fn compute_flow_accumulation(hm: &Heightmap, sea_level_norm: i64) -> (r: Vec<i64>)
    requires
        hm.wf(),
    ensures
        r@ == flow_field_spec(*hm, sea_level_norm),
        r.len() == hm.values.len(),
        forall|i: int| 0 <= i < r.len() ==> 1 <= #[trigger] r[i] <= FP_ONE,
        r.len() > 0 ==> exists|i: int| 0 <= i < r.len() && #[trigger] r[i] == FP_ONE,
{
    if hm.width == 0 || hm.height == 0 {
        proof {
            assert(hm.values@.len() == 0) by (nonlinear_arith)
                requires
                    hm.values@.len() == (hm.width as int) * (hm.height as int),
                    hm.width == 0 || hm.height == 0,
            ;
        }
        let r: Vec<i64> = Vec::new();
        proof {
            assert(r@ =~= flow_field_spec(*hm, sea_level_norm));
        }
        return r;
    }
    let n = hm.values.len();
    proof {
        assert(n > 0) by (nonlinear_arith)
            requires
                n == (hm.width as int) * (hm.height as int),
                hm.width > 0,
                hm.height > 0,
        ;
    }
    let counts = flow_counts(&hm.values, hm.width, hm.height, Some(sea_level_norm));
    let mut maxf: u64 = counts[0];
    let mut imax: usize = 0;
    let mut k: usize = 1;
    while k < n
        invariant
            n == counts.len(),
            1 <= k <= n,
            imax < n,
            maxf == fmax_upto(counts@, k as int),
            maxf == counts[imax as int],
            1 <= maxf <= n,
            forall|j: int| 0 <= j < k ==> #[trigger] counts[j] <= maxf,
            forall|j: int| 0 <= j < counts.len() ==> 1 <= #[trigger] counts[j] <= n,
        decreases n - k,
    {
        let v = counts[k];
        if v > maxf {
            maxf = v;
            imax = k;
        }
        k = k + 1;
    }
    let ghost target = flow_field_spec(*hm, sea_level_norm);
    let mut out: Vec<i64> = Vec::new();
    let mut i: usize = 0;
    while i < n
        invariant
            n == counts.len(),
            n == hm.values.len(),
            n <= MAX_CELLS,
            0 <= i <= n,
            1 <= maxf <= n,
            forall|j: int| 0 <= j < n ==> #[trigger] counts[j] <= maxf,
            forall|j: int| 0 <= j < counts.len() ==> 1 <= #[trigger] counts[j] <= n,
            maxf == fmax_upto(counts@, n as int),
            counts@ == accumulate_spec(
                hm.values@,
                ds_full_spec(
                    hm.values@,
                    hm.width as int,
                    hm.height as int,
                    Option::Some(sea_level_norm),
                ),
                n as nat,
            ),
            target == flow_field_spec(*hm, sea_level_norm),
            target.len() == n,
            out.len() == i,
            forall|j: int| 0 <= j < i ==> out[j] == target[j],
            forall|j: int| 0 <= j < out.len() ==> 1 <= #[trigger] out[j] <= FP_ONE,
        decreases n - i,
    {
        let c = counts[i];
        proof {
            assert(c * (FP_ONE as u64) + (maxf - 1) <= 0x400_0000 * 0x1_0000 + 0x400_0000)
                by (nonlinear_arith)
                requires
                    0 <= c <= 0x400_0000,
                    1 <= maxf <= 0x400_0000,
            ;
            assert(1 <= ((c as int) * (FP_ONE as int) + maxf - 1) / (maxf as int) <= FP_ONE)
                by (nonlinear_arith)
                requires
                    1 <= maxf,
                    1 <= c <= maxf,
            ;
        }
        let v = ((c * (FP_ONE as u64) + (maxf - 1)) / maxf) as i64;
        proof {
            assert(target[i as int] == v);
        }
        out.push(v);
        i = i + 1;
    }
    proof {
        assert(out@ =~= target);
        // The maximum-flow cell normalizes to exactly FP_ONE.
        assert(((maxf as int) * (FP_ONE as int) + maxf - 1) / (maxf as int) == FP_ONE)
            by (nonlinear_arith)
            requires
                1 <= maxf,
        ;
        assert(out[imax as int] == FP_ONE);
    }
    out
}

/// Conservation of routed flow on a finished heightmap: with cells at or
/// below sea level acting as sinks, the flow collected at cells without a
/// downslope target is exactly the cell count, and every cell keeps at
/// least its own unit. This holds of the counts that
/// [`compute_flow_accumulation`] normalizes.
pub proof fn lemma_flow_field_conservation(hm: Heightmap, sea_level_norm: i64)
    requires
        hm.wf(),
        hm.width > 0,
        hm.height > 0,
    ensures
        ({
            let ds = ds_full_spec(
                hm.values@,
                hm.width as int,
                hm.height as int,
                Option::Some(sea_level_norm),
            );
            let counts = accumulate_spec(hm.values@, ds, hm.values.len() as nat);
            &&& crate::flow::sink_sum(counts, ds, hm.values.len() as int) == hm.values.len()
            &&& forall|i: int| 0 <= i < hm.values.len() ==> 1 <= #[trigger] counts[i]
        }),
{
    let ds = ds_full_spec(
        hm.values@,
        hm.width as int,
        hm.height as int,
        Option::Some(sea_level_norm),
    );
    crate::flow::lemma_ds_full_closed(
        hm.values@,
        hm.width as int,
        hm.height as int,
        Option::Some(sea_level_norm),
    );
    crate::flow::lemma_flow_conservation(hm.values@, ds, hm.values.len() as nat);
    crate::flow::lemma_accumulate_props(hm.values@, ds, hm.values.len() as nat);
}

/// Determinism of terrain generation: the heightmap contents are a
/// function of the configuration and dimensions alone, so two generated
/// maps for identical inputs are bit-identical.
pub proof fn lemma_heightmap_deterministic(
    cfg: WorldGenConfig,
    width: u32,
    height: u32,
    a: Heightmap,
    b: Heightmap,
)
    requires
        a.values@ == heightmap_values_spec(cfg, width, height),
        b.values@ == heightmap_values_spec(cfg, width, height),
    ensures
        a.values@ == b.values@,
{
}

} // verus!
