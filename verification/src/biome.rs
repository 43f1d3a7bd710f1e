use vstd::prelude::*;

verus! {

use crate::fixed::{FP_ONE, clamp_spec, clamp64, fp_mul_spec, fp_mul, mul_div_spec, mul_div,
    mul_div_s_spec, mul_div_s};
use crate::grid::{gidx, in_grid, lemma_gidx_bounds, MAX_CELLS};
use crate::config::{WorldGenConfig, BiomeDefinition};
use crate::climate::{ClimateSample, temperature_spec, humidity_spec, precipitation_spec,
    sample_climate};
use crate::terrain::Heightmap;

/// Per-cell biome assignment for a generated world: an optional small index
/// into the configuration's ordered biome list, `None` for water or
/// indeterminate cells.
pub struct BiomeMap {
    pub width: u32,
    pub height: u32,
    /// Row-major optional biome indices.
    pub indices: Vec<Option<u8>>,
}

/// An optional wide index narrowed to the map's byte-sized storage.
pub open spec fn narrow_index(bi: Option<usize>) -> Option<u8> {
    match bi {
        Option::None => Option::None,
        Option::Some(v) => Option::Some(v as u8),
    }
}

/// An optional stored index widened back for callers.
pub open spec fn widen_index(bi: Option<u8>) -> Option<usize> {
    match bi {
        Option::None => Option::None,
        Option::Some(v) => Option::Some(v as usize),
    }
}

impl BiomeMap {
    /// Structural invariant: the flat vector matches the dimensions.
    pub open spec fn wf(self) -> bool {
        &&& self.indices.len() == (self.width as int) * (self.height as int)
        &&& (self.width as int) * (self.height as int) <= MAX_CELLS
    }

    /// An empty (all `None`) map of the given dimensions.
    pub fn new(width: u32, height: u32) -> (r: BiomeMap)
        requires
            (width as int) * (height as int) <= MAX_CELLS,
        ensures
            r.wf(),
            r.width == width,
            r.height == height,
            forall|i: int| 0 <= i < r.indices.len() ==> (#[trigger] r.indices[i]) is None,
    {
        let n = (width as usize) * (height as usize);
        let mut indices: Vec<Option<u8>> = Vec::new();
        while indices.len() < n
            invariant
                indices.len() <= n,
                forall|i: int| 0 <= i < indices.len() ==> (#[trigger] indices[i]) is None,
            decreases n - indices.len(),
        {
            indices.push(None);
        }
        BiomeMap { width, height, indices }
    }

    /// Linear index of cell `(x, y)`.
    pub fn idx(&self, x: u32, y: u32) -> (r: usize)
        requires
            self.wf(),
            x < self.width,
            y < self.height,
        ensures
            r == gidx(self.width as int, x as int, y as int),
            r < self.indices.len(),
    {
        proof {
            lemma_gidx_bounds(self.width as int, self.height as int, x as int, y as int);
        }
        (y as usize) * (self.width as usize) + (x as usize)
    }

    /// Store an optional biome index at `(x, y)`.
    pub fn set_index(&mut self, x: u32, y: u32, bi: Option<usize>)
        requires
            old(self).wf(),
            x < old(self).width,
            y < old(self).height,
            bi matches Some(v) ==> v < 256,
        ensures
            final(self).wf(),
            final(self).width == old(self).width,
            final(self).height == old(self).height,
            final(self).indices@ == old(self).indices@.update(
                gidx(old(self).width as int, x as int, y as int),
                narrow_index(bi),
            ),
    {
        let i = self.idx(x, y);
        let v: Option<u8> = match bi {
            Some(v) => Some(v as u8),
            None => None,
        };
        self.indices.set(i, v);
    }

    /// Read the optional biome index at `(x, y)`.
    pub fn get_index(&self, x: u32, y: u32) -> (r: Option<usize>)
        requires
            self.wf(),
            x < self.width,
            y < self.height,
        ensures
            r == widen_index(self.indices[gidx(self.width as int, x as int, y as int)]),
    {
        let i = self.idx(x, y);
        match self.indices[i] {
            Some(v) => Some(v as usize),
            None => None,
        }
    }
}

/// Normalized deviation of a sample value from the midpoint of a range,
/// in units of the half-range (with a floor against degenerate ranges),
/// clamped to 64 half-ranges.
pub open spec fn dev_spec(value: int, lo: int, hi: int, floor: int) -> int {
    let center = lo + (hi - lo) / 2;
    let half = (hi - lo) / 2;
    let span = if half > floor {
        half
    } else {
        floor
    };
    clamp_spec(mul_div_s_spec(value - center, FP_ONE as int, span), -4194304, 4194304)
}

/// Fixed penalty added when the sample value falls strictly outside the
/// range.
pub open spec fn penalty_spec(value: int, lo: int, hi: int, p: int) -> int {
    if value < lo || value > hi {
        p
    } else {
        0
    }
}

/// How badly a biome's declared climate fits a sample: squared deviations
/// from each range's midpoint in units of the half-range (floored at
/// 0.5 degrees, 0.025 humidity, 25 m and 25 mm/year against degenerate
/// ranges), weighted 1.0 for temperature and humidity, 0.5 for elevation
/// and 0.25 for precipitation, plus a fixed penalty per dimension whose
/// range the sample leaves (0.5 for temperature and humidity, 0.3 for the
/// other two). Lower is better; an exactly centered in-range sample scores
/// zero.
pub open spec fn biome_score_spec(b: BiomeDefinition, s: ClimateSample) -> int {
    let dt = dev_spec(s.temperature_c as int, b.temperature_min_c as int, b.temperature_max_c as int, 32768);
    let dh = dev_spec(s.humidity as int, b.humidity_min as int, b.humidity_max as int, 1638);
    let de = dev_spec(s.elevation_m as int, b.elevation_min_m as int, b.elevation_max_m as int, 1638400);
    let dp = dev_spec(
        s.precipitation_mm_per_year as int,
        b.precipitation_min_mm as int,
        b.precipitation_max_mm as int,
        1638400,
    );
    fp_mul_spec(dt, dt) + fp_mul_spec(dh, dh) + fp_mul_spec(de, de) / 2 + fp_mul_spec(dp, dp) / 4
        + penalty_spec(s.temperature_c as int, b.temperature_min_c as int, b.temperature_max_c as int, 32768)
        + penalty_spec(s.humidity as int, b.humidity_min as int, b.humidity_max as int, 32768)
        + penalty_spec(s.elevation_m as int, b.elevation_min_m as int, b.elevation_max_m as int, 19661)
        + penalty_spec(
        s.precipitation_mm_per_year as int,
        b.precipitation_min_mm as int,
        b.precipitation_max_mm as int,
        19661,
    )
}

/// Numeric bounds on a sample under which scoring cannot overflow.
pub open spec fn sample_bounded(s: ClimateSample) -> bool {
    &&& -0x100_0000_0000 <= s.temperature_c <= 0x100_0000_0000
    &&& -0x100_0000_0000 <= s.humidity <= 0x100_0000_0000
    &&& -0x100_0000_0000 <= s.elevation_m <= 0x100_0000_0000
    &&& -0x100_0000_0000 <= s.precipitation_mm_per_year <= 0x100_0000_0000
}

/// One normalized deviation.
fn dev(value: i64, lo: i64, hi: i64, floor: i64) -> (r: i64)
    requires
        -0x100_0000_0000 <= value <= 0x100_0000_0000,
        -0x100_0000_0000 <= lo <= hi <= 0x100_0000_0000,
        0 < floor <= 0x400_0000,
    ensures
        r == dev_spec(value as int, lo as int, hi as int, floor as int),
        -4194304 <= r <= 4194304,
{
    let center = lo + (hi - lo) / 2;
    let half = (hi - lo) / 2;
    let span = if half > floor {
        half
    } else {
        floor
    };
    proof {
        assert(0 <= (hi - lo) / 2 <= hi - lo) by (nonlinear_arith)
            requires
                hi - lo >= 0,
        ;
    }
    clamp64(mul_div_s(value - center, FP_ONE, span), -4194304, 4194304)
}

/// Squared deviation rescaled to the fixed-point grid.
fn sqdev(d: i64) -> (r: i64)
    requires
        -4194304 <= d <= 4194304,
    ensures
        r == fp_mul_spec(d as int, d as int),
        0 <= r <= 0x1000_0000_0000,
{
    proof {
        assert(0 <= fp_mul_spec(d as int, d as int) <= 0x1000_0000_0000) by (nonlinear_arith)
            requires
                -4194304 <= d <= 4194304,
        ;
    }
    fp_mul(d, d)
}

/// Score one biome against one sample.
pub fn biome_score(b: &BiomeDefinition, s: &ClimateSample) -> (r: i64)
    requires
        b.valid(),
        sample_bounded(*s),
    ensures
        r == biome_score_spec(*b, *s),
        0 <= r,
{
    let dt = dev(s.temperature_c, b.temperature_min_c, b.temperature_max_c, 32768);
    let dh = dev(s.humidity, b.humidity_min, b.humidity_max, 1638);
    let de = dev(s.elevation_m, b.elevation_min_m, b.elevation_max_m, 1638400);
    let dp = dev(
        s.precipitation_mm_per_year,
        b.precipitation_min_mm,
        b.precipitation_max_mm,
        1638400,
    );
    let mut score = sqdev(dt) + sqdev(dh) + sqdev(de) / 2 + sqdev(dp) / 4;
    if s.temperature_c < b.temperature_min_c || s.temperature_c > b.temperature_max_c {
        score = score + 32768;
    }
    if s.humidity < b.humidity_min || s.humidity > b.humidity_max {
        score = score + 32768;
    }
    if s.elevation_m < b.elevation_min_m || s.elevation_m > b.elevation_max_m {
        score = score + 19661;
    }
    if s.precipitation_mm_per_year < b.precipitation_min_mm || s.precipitation_mm_per_year
        > b.precipitation_max_mm {
        score = score + 19661;
    }
    score
}

/// The best (lowest-scoring) biome among the first `k`, the first such
/// index winning ties: a pair of the best score and its index.
pub open spec fn best_upto(biomes: Seq<BiomeDefinition>, s: ClimateSample, k: int) -> (int, int)
    decreases k,
{
    if k <= 1 {
        (biome_score_spec(biomes[0], s), 0)
    } else {
        let p = best_upto(biomes, s, k - 1);
        let sc = biome_score_spec(biomes[k - 1], s);
        if sc < p.0 {
            (sc, k - 1)
        } else {
            p
        }
    }
}

/// The classifier's choice: `None` for cells below the climate sea level
/// or when no biome is configured, otherwise the first biome attaining the
/// minimal score.
pub open spec fn choose_biome_spec(
    biomes: Seq<BiomeDefinition>,
    s: ClimateSample,
    sea_level_m: int,
) -> Option<usize> {
    if s.elevation_m < sea_level_m || biomes.len() == 0 {
        Option::None
    } else {
        Option::Some(best_upto(biomes, s, biomes.len() as int).1 as usize)
    }
}

/// The scan state names a real index whose score it carries, no earlier
/// biome scores lower or equal, and no scanned biome scores lower.
pub proof fn lemma_best_upto(biomes: Seq<BiomeDefinition>, s: ClimateSample, k: int)
    requires
        1 <= k <= biomes.len(),
    ensures
        0 <= best_upto(biomes, s, k).1 < k,
        best_upto(biomes, s, k).0 == biome_score_spec(biomes[best_upto(biomes, s, k).1], s),
        forall|j: int|
            0 <= j < k ==> best_upto(biomes, s, k).0 <= biome_score_spec(#[trigger] biomes[j], s),
        forall|j: int|
            0 <= j < best_upto(biomes, s, k).1 ==> biome_score_spec(#[trigger] biomes[j], s)
                > best_upto(biomes, s, k).0,
    decreases k,
{
    if k > 1 {
        lemma_best_upto(biomes, s, k - 1);
    }
}

/// The best-match law: a cell assigned by the classifier never carries a
/// biome while another biome in the list scores strictly lower on the
/// cell's climate sample, and among equal scores the earliest biome wins.
pub proof fn lemma_choose_biome_best_match(
    biomes: Seq<BiomeDefinition>,
    s: ClimateSample,
    sea_level_m: int,
    b: usize,
)
    requires
        biomes.len() <= 0x1_0000,
        choose_biome_spec(biomes, s, sea_level_m) == Option::Some(b),
    ensures
        0 <= b < biomes.len(),
        forall|j: int|
            0 <= j < biomes.len() ==> biome_score_spec(biomes[b as int], s) <= biome_score_spec(
                #[trigger] biomes[j],
                s,
            ),
        forall|j: int|
            0 <= j < b ==> biome_score_spec(#[trigger] biomes[j], s) > biome_score_spec(
                biomes[b as int],
                s,
            ),
{
    lemma_best_upto(biomes, s, biomes.len() as int);
}

/// Pick the best-matching biome for a sample, or `None` below the climate
/// sea level or with an empty biome list.
pub fn choose_biome(biomes: &Vec<BiomeDefinition>, s: &ClimateSample, sea_level_m: i64) -> (r:
    Option<usize>)
    requires
        forall|i: int| 0 <= i < biomes.len() ==> (#[trigger] biomes[i]).valid(),
        sample_bounded(*s),
    ensures
        r == choose_biome_spec(biomes@, *s, sea_level_m as int),
        r matches Some(v) ==> v < biomes.len(),
{
    if s.elevation_m < sea_level_m {
        return None;
    }
    if biomes.len() == 0 {
        return None;
    }
    let mut best_score = biome_score(&biomes[0], s);
    let mut best: usize = 0;
    let mut k: usize = 1;
    while k < biomes.len()
        invariant
            forall|i: int| 0 <= i < biomes.len() ==> (#[trigger] biomes[i]).valid(),
            sample_bounded(*s),
            1 <= k <= biomes.len(),
            best < k,
            (best_score as int, best as int) == best_upto(biomes@, *s, k as int),
        decreases biomes.len() - k,
    {
        let sc = biome_score(&biomes[k], s);
        if sc < best_score {
            best_score = sc;
            best = k;
        }
        k = k + 1;
    }
    Some(best)
}


/// Denominator used to turn a row index into a normalized latitude.
pub open spec fn h1_of(h: int) -> int {
    if h <= 1 {
        1
    } else {
        h - 1
    }
}

/// Normalized latitude of a row: -1 at the top edge, 1 at the bottom.
pub open spec fn lat_of_row(y: int, h1: int) -> int {
    2 * mul_div_spec(y, FP_ONE as int, h1) - FP_ONE
}

/// The synthetic climate sample of a cell: relative elevation above the
/// normalized sea level converted to meters, and the row's latitude fed to
/// the climate model.
pub open spec fn cell_sample_spec(cfg: WorldGenConfig, hval: int, y: int, h1: int) -> ClimateSample {
    let rel = clamp_spec(
        mul_div_spec(hval - cfg.sea_level, FP_ONE as int, FP_ONE - cfg.sea_level),
        0,
        FP_ONE as int,
    );
    let elev = mul_div_spec(rel, cfg.max_relief_m as int, FP_ONE as int);
    let lat = lat_of_row(y, h1);
    let hum = humidity_spec(cfg, lat, elev);
    ClimateSample {
        temperature_c: temperature_spec(cfg, lat, elev) as i64,
        humidity: hum as i64,
        precipitation_mm_per_year: precipitation_spec(cfg, hum) as i64,
        elevation_m: elev as i64,
    }
}

/// Classification of one cell before spatial smoothing: water (at or below
/// the normalized sea level plus a small epsilon) gets no biome; land gets
/// the best-matching biome for its synthetic climate, derived from the
/// cell's relative elevation and its row's latitude.
#[verifier::opaque]
pub open spec fn classify_cell_spec(cfg: WorldGenConfig, hval: int, y: int, h1: int) -> Option<
    u8,
> {
    if hval <= cfg.sea_level + 131 {
        Option::None
    } else {
        narrow_index(
            choose_biome_spec(cfg.biomes@, cell_sample_spec(cfg, hval, y, h1), cfg.sea_level_m as int),
        )
    }
}

/// The best-match law at the classification layer: whenever a land cell is
/// assigned biome `b`, no configured biome scores strictly lower on that
/// cell's climate sample, and among equal scores the earliest biome in the
/// list wins.
pub proof fn lemma_classify_cell_best_match(
    cfg: WorldGenConfig,
    hval: int,
    y: int,
    h1: int,
    b: u8,
)
    requires
        cfg.valid(),
        classify_cell_spec(cfg, hval, y, h1) == Option::Some(b),
    ensures
        b < cfg.biomes.len(),
        forall|j: int|
            0 <= j < cfg.biomes.len() ==> biome_score_spec(
                cfg.biomes[b as int],
                cell_sample_spec(cfg, hval, y, h1),
            ) <= biome_score_spec(#[trigger] cfg.biomes@[j], cell_sample_spec(cfg, hval, y, h1)),
        forall|j: int|
            0 <= j < b ==> biome_score_spec(#[trigger] cfg.biomes@[j], cell_sample_spec(cfg, hval, y, h1))
                > biome_score_spec(cfg.biomes[b as int], cell_sample_spec(cfg, hval, y, h1)),
{
    reveal(classify_cell_spec);
    let s = cell_sample_spec(cfg, hval, y, h1);
    let chosen = choose_biome_spec(cfg.biomes@, s, cfg.sea_level_m as int);
    lemma_best_upto(cfg.biomes@, s, cfg.biomes.len() as int);
    let v = chosen->Some_0;
    lemma_choose_biome_best_match(cfg.biomes@, s, cfg.sea_level_m as int, v);
    assert(b as int == v as int);
}

/// Classify one cell.
pub fn classify_cell(cfg: &WorldGenConfig, hval: i64, y: u32, h1: i64) -> (r: Option<u8>)
    requires
        cfg.valid(),
        0 <= hval <= FP_ONE,
        1 <= h1,
        y <= h1,
    ensures
        r == classify_cell_spec(*cfg, hval as int, y as int, h1 as int),
{
    proof {
        reveal(classify_cell_spec);
    }
    if hval <= cfg.sea_level + 131 {
        return None;
    }
    let rel = clamp64(
        mul_div(hval - cfg.sea_level, FP_ONE, FP_ONE - cfg.sea_level),
        0,
        FP_ONE,
    );
    proof {
        assert(0 <= rel * cfg.max_relief_m <= 0x7fff_ffff_ffff_ffff) by (nonlinear_arith)
            requires
                0 <= rel <= FP_ONE,
                0 <= cfg.max_relief_m <= 0x5000_0000,
        ;
    }
    let elev = mul_div(rel, cfg.max_relief_m, FP_ONE);
    let lat = 2 * mul_div(y as i64, FP_ONE, h1) - FP_ONE;
    let s = sample_climate(cfg, lat, elev);
    match choose_biome(&cfg.biomes, &s, cfg.sea_level_m) {
        Some(v) => Some(v as u8),
        None => None,
    }
}

/// The whole classification layer, cell by cell.
pub open spec fn classify_map_spec(cfg: WorldGenConfig, hvals: Seq<i64>, w: int, h: int) -> Seq<
    Option<u8>,
> {
    Seq::new(hvals.len(), |i: int| classify_cell_spec(cfg, hvals[i] as int, i / w, h1_of(h)))
}

/// Count of cells carrying `v` among the first `k` positions of the 3x3
/// neighborhood of `(x, y)`, the cell itself included; positions outside
/// the grid are skipped.
pub open spec fn vote_count_upto(
    ind: Seq<Option<u8>>,
    w: int,
    h: int,
    x: int,
    y: int,
    v: Option<u8>,
    k: int,
) -> int
    decreases k,
{
    if k <= 0 {
        0
    } else {
        let dx = (k - 1) % 3 - 1;
        let dy = (k - 1) / 3 - 1;
        vote_count_upto(ind, w, h, x, y, v, k - 1) + if in_grid(w, h, x + dx, y + dy) && ind[gidx(
            w,
            x + dx,
            y + dy,
        )] == v {
            1int
        } else {
            0
        }
    }
}

/// Best-voted biome index among indices below `m`: the pair of its vote
/// count and the index, the earliest index winning ties; the index is -1
/// while no biome has any vote.
pub open spec fn best_vote_upto(
    ind: Seq<Option<u8>>,
    w: int,
    h: int,
    x: int,
    y: int,
    m: int,
) -> (int, int)
    decreases m,
{
    if m <= 0 {
        (0, -1)
    } else {
        let p = best_vote_upto(ind, w, h, x, y, m - 1);
        let c = vote_count_upto(ind, w, h, x, y, Option::Some((m - 1) as u8), 9);
        if c > p.0 {
            (c, m - 1)
        } else {
            p
        }
    }
}

/// Majority vote for one cell: the most frequent biome index in the cell's
/// 3x3 neighborhood (itself included), the lowest index winning ties;
/// "no biome" wins only where no biome is present at all or where it is
/// strictly more frequent than every single index.
pub open spec fn vote_cell_spec(ind: Seq<Option<u8>>, w: int, h: int, x: int, y: int) -> Option<
    u8,
> {
    let bv = best_vote_upto(ind, w, h, x, y, 256);
    if bv.0 == 0 {
        Option::None
    } else if vote_count_upto(ind, w, h, x, y, Option::None, 9) > bv.0 {
        Option::None
    } else {
        Option::Some(bv.1 as u8)
    }
}

/// One majority-filter pass over the whole map.
pub open spec fn vote_pass_spec(ind: Seq<Option<u8>>, w: int, h: int) -> Seq<Option<u8>> {
    Seq::new(ind.len(), |i: int| vote_cell_spec(ind, w, h, i % w, i / w))
}

/// `n` majority-filter passes.
pub open spec fn smooth_biome_spec(ind: Seq<Option<u8>>, w: int, h: int, n: nat) -> Seq<
    Option<u8>,
>
    decreases n,
{
    if n == 0 {
        ind
    } else {
        vote_pass_spec(smooth_biome_spec(ind, w, h, (n - 1) as nat), w, h)
    }
}

/// Whether scan position `j` of the 3x3 neighborhood of `(x, y)` is an
/// in-grid cell holding exactly `v`.
pub open spec fn neighborhood_holds(
    ind: Seq<Option<u8>>,
    w: int,
    h: int,
    x: int,
    y: int,
    j: int,
    v: Option<u8>,
) -> bool {
    &&& in_grid(w, h, x + (j % 3 - 1), y + (j / 3 - 1))
    &&& ind[gidx(w, x + (j % 3 - 1), y + (j / 3 - 1))] == v
}

/// Vote counts are tallies and never negative.
proof fn lemma_vote_count_nonneg(
    ind: Seq<Option<u8>>,
    w: int,
    h: int,
    x: int,
    y: int,
    v: Option<u8>,
    k: int,
)
    requires
        0 <= k,
    ensures
        vote_count_upto(ind, w, h, x, y, v, k) >= 0,
    decreases k,
{
    if k > 0 {
        lemma_vote_count_nonneg(ind, w, h, x, y, v, k - 1);
    }
}

/// The winning vote names a real count: whenever the scan reports a
/// positive best count, it belongs to the index the scan carries.
proof fn lemma_best_vote_sound(ind: Seq<Option<u8>>, w: int, h: int, x: int, y: int, m: int)
    requires
        0 <= m <= 256,
    ensures
        best_vote_upto(ind, w, h, x, y, m).0 >= 0,
        best_vote_upto(ind, w, h, x, y, m).0 > 0 ==> {
            let bv = best_vote_upto(ind, w, h, x, y, m);
            &&& 0 <= bv.1 < m
            &&& bv.0 == vote_count_upto(ind, w, h, x, y, Option::Some(bv.1 as u8), 9)
        },
    decreases m,
{
    if m > 0 {
        lemma_best_vote_sound(ind, w, h, x, y, m - 1);
        lemma_vote_count_nonneg(ind, w, h, x, y, Option::Some((m - 1) as u8), 9);
    }
}

/// A positive count has a witness: some scanned in-grid position of the
/// neighborhood holds the counted value.
proof fn lemma_count_witness(
    ind: Seq<Option<u8>>,
    w: int,
    h: int,
    x: int,
    y: int,
    v: Option<u8>,
    k: int,
)
    requires
        0 <= k <= 9,
        vote_count_upto(ind, w, h, x, y, v, k) >= 1,
    ensures
        exists|j: int| 0 <= j < k && #[trigger] neighborhood_holds(ind, w, h, x, y, j, v),
    decreases k,
{
    let dx = (k - 1) % 3 - 1;
    let dy = (k - 1) / 3 - 1;
    if in_grid(w, h, x + dx, y + dy) && ind[gidx(w, x + dx, y + dy)] == v {
        assert(neighborhood_holds(ind, w, h, x, y, k - 1, v));
    } else {
        lemma_count_witness(ind, w, h, x, y, v, k - 1);
    }
}

/// The majority filter invents nothing: a biome index it writes into a cell
/// was already present somewhere in that cell's 3x3 neighborhood.
pub proof fn lemma_vote_cell_no_new_index(
    ind: Seq<Option<u8>>,
    w: int,
    h: int,
    x: int,
    y: int,
    b: u8,
)
    requires
        vote_cell_spec(ind, w, h, x, y) == Option::Some(b),
    ensures
        exists|j: int|
            0 <= j < 9 && #[trigger] neighborhood_holds(ind, w, h, x, y, j, Option::Some(b)),
{
    let bv = best_vote_upto(ind, w, h, x, y, 256);
    lemma_best_vote_sound(ind, w, h, x, y, 256);
    assert(b == bv.1 as u8);
    lemma_count_witness(ind, w, h, x, y, Option::Some(b), 9);
}

/// Counting facts over a unanimous neighborhood: every other value counts
/// zero, and once the scan has passed the center the cell's own value
/// counts at least one.
proof fn lemma_uniform_counts(
    ind: Seq<Option<u8>>,
    w: int,
    h: int,
    x: int,
    y: int,
    b: Option<u8>,
    v: Option<u8>,
    k: int,
)
    requires
        in_grid(w, h, x, y),
        ind.len() == w * h,
        forall|i: int| 0 <= i < ind.len() ==> #[trigger] ind[i] == b,
        0 <= k <= 9,
    ensures
        vote_count_upto(ind, w, h, x, y, v, k) >= 0,
        v != b ==> vote_count_upto(ind, w, h, x, y, v, k) == 0,
        v == b && k >= 5 ==> vote_count_upto(ind, w, h, x, y, v, k) >= 1,
    decreases k,
{
    if k > 0 {
        lemma_uniform_counts(ind, w, h, x, y, b, v, k - 1);
        let dx = (k - 1) % 3 - 1;
        let dy = (k - 1) / 3 - 1;
        if in_grid(w, h, x + dx, y + dy) {
            lemma_gidx_bounds(w, h, x + dx, y + dy);
        }
    }
}

/// With no biome votes at all, the scan never leaves its empty state.
proof fn lemma_best_vote_empty(ind: Seq<Option<u8>>, w: int, h: int, x: int, y: int, m: int)
    requires
        0 <= m <= 256,
        forall|v: u8|
            #[trigger] vote_count_upto(ind, w, h, x, y, Option::Some(v), 9) == 0,
    ensures
        best_vote_upto(ind, w, h, x, y, m) == (0int, -1int),
    decreases m,
{
    if m > 0 {
        lemma_best_vote_empty(ind, w, h, x, y, m - 1);
    }
}

/// With every vote going to one index, the scan settles on that index as
/// soon as it passes it.
proof fn lemma_best_vote_unanimous(
    ind: Seq<Option<u8>>,
    w: int,
    h: int,
    x: int,
    y: int,
    bb: u8,
    c: int,
    m: int,
)
    requires
        0 <= m <= 256,
        c >= 1,
        vote_count_upto(ind, w, h, x, y, Option::Some(bb), 9) == c,
        forall|v: u8|
            v != bb ==> #[trigger] vote_count_upto(ind, w, h, x, y, Option::Some(v), 9) == 0,
    ensures
        m <= bb ==> best_vote_upto(ind, w, h, x, y, m) == (0int, -1int),
        m > bb ==> best_vote_upto(ind, w, h, x, y, m) == (c, bb as int),
    decreases m,
{
    if m > 0 {
        lemma_best_vote_unanimous(ind, w, h, x, y, bb, c, m - 1);
    }
}

/// A uniformly assigned map is a fixed point of the majority filter: with
/// the same assignment everywhere every neighborhood votes unanimously, so
/// a further pass changes nothing. This is the stability behind the
/// filter's convergence on settled regions.
pub proof fn lemma_vote_pass_uniform(ind: Seq<Option<u8>>, w: int, h: int, b: Option<u8>)
    requires
        ind.len() == w * h,
        0 < w,
        0 < h,
        forall|i: int| 0 <= i < ind.len() ==> #[trigger] ind[i] == b,
    ensures
        vote_pass_spec(ind, w, h) == ind,
{
    let out = vote_pass_spec(ind, w, h);
    assert forall|i: int| 0 <= i < ind.len() implies #[trigger] out[i] == b by {
        let x = i % w;
        let y = i / w;
        assert(0 <= x < w && 0 <= y < h && gidx(w, x, y) == i) by (nonlinear_arith)
            requires
                0 <= i < w * h,
                0 < w,
                0 < h,
                x == i % w,
                y == i / w,
        ;
        match b {
            Option::None => {
                assert forall|v: u8|
                    #[trigger] vote_count_upto(ind, w, h, x, y, Option::Some(v), 9) == 0 by {
                    lemma_uniform_counts(ind, w, h, x, y, b, Option::Some(v), 9);
                }
                lemma_best_vote_empty(ind, w, h, x, y, 256);
            },
            Option::Some(bb) => {
                lemma_uniform_counts(ind, w, h, x, y, b, Option::Some(bb), 9);
                lemma_uniform_counts(ind, w, h, x, y, b, Option::None, 9);
                let c = vote_count_upto(ind, w, h, x, y, Option::Some(bb), 9);
                assert forall|v: u8|
                    v != bb implies #[trigger] vote_count_upto(ind, w, h, x, y, Option::Some(v), 9)
                    == 0 by {
                    lemma_uniform_counts(ind, w, h, x, y, b, Option::Some(v), 9);
                }
                lemma_best_vote_unanimous(ind, w, h, x, y, bb, c, 256);
            },
        }
    }
    assert(out =~= ind);
}

/// Majority vote for one cell.
fn vote_cell(ind: &Vec<Option<u8>>, width: u32, height: u32, x: u32, y: u32) -> (r: Option<u8>)
    requires
        ind.len() == (width as int) * (height as int),
        (width as int) * (height as int) <= MAX_CELLS,
        x < width,
        y < height,
    ensures
        r == vote_cell_spec(ind@, width as int, height as int, x as int, y as int),
{
    let mut counts: Vec<i64> = Vec::new();
    while counts.len() < 256
        invariant
            counts.len() <= 256,
            forall|v: int| 0 <= v < counts.len() ==> #[trigger] counts[v] == 0,
        decreases 256 - counts.len(),
    {
        counts.push(0);
    }
    let mut nc: i64 = 0;
    let mut k: usize = 0;
    while k < 9
        invariant
            ind.len() == (width as int) * (height as int),
            (width as int) * (height as int) <= MAX_CELLS,
            x < width,
            y < height,
            0 <= k <= 9,
            counts.len() == 256,
            forall|v: u8|
                #[trigger] counts@[v as int] == vote_count_upto(
                    ind@,
                    width as int,
                    height as int,
                    x as int,
                    y as int,
                    Option::Some(v),
                    k as int,
                ),
            nc == vote_count_upto(
                ind@,
                width as int,
                height as int,
                x as int,
                y as int,
                Option::None,
                k as int,
            ),
            0 <= nc <= k,
            forall|v: int| 0 <= v < 256 ==> 0 <= #[trigger] counts@[v] <= k,
        decreases 9 - k,
    {
        let dx = (k as i64) % 3 - 1;
        let dy = (k as i64) / 3 - 1;
        let nx = x as i64 + dx;
        let ny = y as i64 + dy;
        if nx >= 0 && ny >= 0 && nx < width as i64 && ny < height as i64 {
            proof {
                lemma_gidx_bounds(width as int, height as int, nx as int, ny as int);
            }
            let t = (ny as usize) * (width as usize) + (nx as usize);
            match ind[t] {
                Some(b) => {
                    let c = counts[b as usize];
                    counts.set(b as usize, c + 1);
                },
                None => {
                    nc = nc + 1;
                },
            }
        }
        k = k + 1;
    }
    let mut bc: i64 = 0;
    let mut bi: i64 = -1;
    let mut m: usize = 0;
    while m < 256
        invariant
            ind.len() == (width as int) * (height as int),
            x < width,
            y < height,
            0 <= m <= 256,
            counts.len() == 256,
            forall|v: u8|
                #[trigger] counts@[v as int] == vote_count_upto(
                    ind@,
                    width as int,
                    height as int,
                    x as int,
                    y as int,
                    Option::Some(v),
                    9,
                ),
            (bc as int, bi as int) == best_vote_upto(
                ind@,
                width as int,
                height as int,
                x as int,
                y as int,
                m as int,
            ),
            bc > 0 ==> 0 <= bi < m,
        decreases 256 - m,
    {
        let c = counts[m];
        proof {
            assert(counts@[m as int] == vote_count_upto(
                ind@,
                width as int,
                height as int,
                x as int,
                y as int,
                Option::Some(m as u8),
                9,
            ));
        }
        if c > bc {
            bc = c;
            bi = m as i64;
        }
        m = m + 1;
    }
    if bc == 0 {
        None
    } else if nc > bc {
        None
    } else {
        Some(bi as u8)
    }
}

/// One majority-filter pass.
fn vote_pass(ind: &Vec<Option<u8>>, width: u32, height: u32) -> (r: Vec<Option<u8>>)
    requires
        ind.len() == (width as int) * (height as int),
        (width as int) * (height as int) <= MAX_CELLS,
    ensures
        r@ == vote_pass_spec(ind@, width as int, height as int),
        r.len() == ind.len(),
{
    let ghost target = vote_pass_spec(ind@, width as int, height as int);
    let mut out: Vec<Option<u8>> = Vec::new();
    let mut y: u32 = 0;
    while y < height
        invariant
            ind.len() == (width as int) * (height as int),
            (width as int) * (height as int) <= MAX_CELLS,
            target == vote_pass_spec(ind@, width as int, height as int),
            0 <= y <= height,
            out.len() == y * width,
            forall|i: int| 0 <= i < out.len() ==> out[i] == target[i],
        decreases height - y,
    {
        let mut x: u32 = 0;
        while x < width
            invariant
                ind.len() == (width as int) * (height as int),
                (width as int) * (height as int) <= MAX_CELLS,
                target == vote_pass_spec(ind@, width as int, height as int),
                0 <= x <= width,
                y < height,
                out.len() == y * width + x,
                forall|i: int| 0 <= i < out.len() ==> out[i] == target[i],
            decreases width - x,
        {
            proof {
                lemma_gidx_bounds(width as int, height as int, x as int, y as int);
            }
            let v = vote_cell(ind, width, height, x, y);
            proof {
                let i = gidx(width as int, x as int, y as int);
                assert(i % (width as int) == x as int && i / (width as int) == y as int)
                    by (nonlinear_arith)
                    requires
                        i == (y as int) * (width as int) + x,
                        0 <= x < width,
                        0 <= y,
                ;
                assert(target[i] == v);
            }
            out.push(v);
            x = x + 1;
        }
        proof {
            assert((y as int + 1) * width == y * width + width) by (nonlinear_arith);
        }
        y = y + 1;
    }
    proof {
        assert(out.len() == target.len()) by (nonlinear_arith)
            requires
                out.len() == (height as int) * (width as int),
                target.len() == (width as int) * (height as int),
        ;
        assert(out@ =~= target);
    }
    out
}

/// Spatial smoothing of a biome map: a fixed number of majority-filter
/// passes that replace each cell with the most frequent assignment of its
/// 3x3 neighborhood, removing single-cell salt-and-pepper noise at biome
/// boundaries.
pub fn smooth_biome_map(src: &BiomeMap, iterations: u32) -> (r: BiomeMap)
    requires
        src.wf(),
    ensures
        r.wf(),
        r.width == src.width,
        r.height == src.height,
        r.indices@ == smooth_biome_spec(
            src.indices@,
            src.width as int,
            src.height as int,
            iterations as nat,
        ),
{
    let mut indices = src.indices.clone();
    proof {
        assert(indices@ =~= src.indices@);
    }
    let mut it: u32 = 0;
    while it < iterations
        invariant
            src.wf(),
            0 <= it <= iterations,
            indices.len() == src.indices.len(),
            indices@ == smooth_biome_spec(
                src.indices@,
                src.width as int,
                src.height as int,
                it as nat,
            ),
        decreases iterations - it,
    {
        let next = vote_pass(&indices, src.width, src.height);
        indices = next;
        it = it + 1;
    }
    BiomeMap { width: src.width, height: src.height, indices }
}

/// The finished biome map: classification, the fixed two majority-filter
/// passes, and a final water mask that keeps every sea-level cell at
/// "no biome".
pub open spec fn biome_map_spec(cfg: WorldGenConfig, hm: Heightmap) -> Seq<Option<u8>> {
    let w = hm.width as int;
    let h = hm.height as int;
    let base = classify_map_spec(cfg, hm.values@, w, h);
    let sm = smooth_biome_spec(base, w, h, 2);
    Seq::new(
        hm.values.len() as nat,
        |i: int|
            if hm.values[i] <= cfg.sea_level + 131 {
                Option::<u8>::None
            } else {
                sm[i]
            },
    )
}

/// Generate the biome map for a finished heightmap: per-cell nearest-match
/// classification against the configured biome list, followed by spatial
/// smoothing, with water cells always left unassigned. An empty biome list
/// degrades to a map with no biome anywhere.
pub fn generate_biome_map_from_config(cfg: &WorldGenConfig, hm: &Heightmap) -> (r: BiomeMap)
    requires
        cfg.valid(),
        hm.wf(),
    ensures
        r.wf(),
        r.width == hm.width,
        r.height == hm.height,
        r.indices@ == biome_map_spec(*cfg, *hm),
        forall|i: int|
            0 <= i < r.indices.len() && hm.values[i] <= cfg.sea_level + 131 ==> (
            #[trigger] r.indices[i]) is None,
{
    let width = hm.width;
    let height = hm.height;
    let h1: i64 = if height <= 1 {
        1
    } else {
        (height - 1) as i64
    };
    let ghost base_target = classify_map_spec(*cfg, hm.values@, width as int, height as int);
    let mut base: Vec<Option<u8>> = Vec::new();
    let mut y: u32 = 0;
    while y < height
        invariant
            cfg.valid(),
            hm.wf(),
            width == hm.width,
            height == hm.height,
            h1 as int == h1_of(height as int),
            1 <= h1,
            base_target == classify_map_spec(*cfg, hm.values@, width as int, height as int),
            0 <= y <= height,
            base.len() == y * width,
            forall|i: int| 0 <= i < base.len() ==> base[i] == base_target[i],
        decreases height - y,
    {
        let mut x: u32 = 0;
        while x < width
            invariant
                cfg.valid(),
                hm.wf(),
                width == hm.width,
                height == hm.height,
                h1 as int == h1_of(height as int),
                1 <= h1,
                base_target == classify_map_spec(*cfg, hm.values@, width as int, height as int),
                0 <= x <= width,
                y < height,
                base.len() == y * width + x,
                forall|i: int| 0 <= i < base.len() ==> base[i] == base_target[i],
            decreases width - x,
        {
            proof {
                lemma_gidx_bounds(width as int, height as int, x as int, y as int);
            }
            let hv = hm.get(x, y);
            let v = classify_cell(cfg, hv, y, h1);
            proof {
                let i = gidx(width as int, x as int, y as int);
                assert(i % (width as int) == x as int && i / (width as int) == y as int)
                    by (nonlinear_arith)
                    requires
                        i == (y as int) * (width as int) + x,
                        0 <= x < width,
                        0 <= y,
                ;
                assert(base_target[i] == v);
            }
            base.push(v);
            x = x + 1;
        }
        proof {
            assert((y as int + 1) * width == y * width + width) by (nonlinear_arith);
        }
        y = y + 1;
    }
    proof {
        assert(base.len() == base_target.len()) by (nonlinear_arith)
            requires
                base.len() == (height as int) * (width as int),
                base_target.len() == (width as int) * (height as int),
        ;
        assert(base@ =~= base_target);
    }
    let base_map = BiomeMap { width, height, indices: base };
    let smoothed = smooth_biome_map(&base_map, 2);
    let ghost target = biome_map_spec(*cfg, *hm);
    let mut out: Vec<Option<u8>> = Vec::new();
    let mut i: usize = 0;
    let n = hm.values.len();
    while i < n
        invariant
            cfg.valid(),
            hm.wf(),
            n == hm.values.len(),
            n == smoothed.indices.len(),
            smoothed.indices@ == smooth_biome_spec(
                classify_map_spec(*cfg, hm.values@, hm.width as int, hm.height as int),
                hm.width as int,
                hm.height as int,
                2,
            ),
            target == biome_map_spec(*cfg, *hm),
            target.len() == n,
            0 <= i <= n,
            out.len() == i,
            forall|j: int| 0 <= j < i ==> out[j] == target[j],
        decreases n - i,
    {
        let hv = hm.values[i];
        let v: Option<u8> = if hv <= cfg.sea_level + 131 {
            None
        } else {
            smoothed.indices[i]
        };
        proof {
            assert(target[i as int] == v);
        }
        out.push(v);
        i = i + 1;
    }
    proof {
        assert(out@ =~= target);
    }
    BiomeMap { width, height, indices: out }
}

/// Determinism of classification: the biome map contents are a function of
/// the configuration and the heightmap alone, so two maps generated for
/// identical inputs are bit-identical.
pub proof fn lemma_biome_map_deterministic(
    cfg: WorldGenConfig,
    hm: Heightmap,
    a: BiomeMap,
    b: BiomeMap,
)
    requires
        a.indices@ == biome_map_spec(cfg, hm),
        b.indices@ == biome_map_spec(cfg, hm),
    ensures
        a.indices@ == b.indices@,
{
}

} // verus!
