use vstd::prelude::*;

verus! {

use crate::fixed::{RAW_MIN, RAW_MAX};

/// Largest number of cells a grid may hold (2^26); keeps every sum and
/// product the pipeline forms comfortably inside 64 bits.
pub const MAX_CELLS: u32 = 0x400_0000;

/// Row-major linear index of cell `(x, y)` in a grid of width `w`.
pub open spec fn gidx(w: int, x: int, y: int) -> int {
    y * w + x
}

/// Whether `(x, y)` lies inside a `w` by `h` grid.
pub open spec fn in_grid(w: int, h: int, x: int, y: int) -> bool {
    0 <= x < w && 0 <= y < h
}

/// Cells inside the grid have linear indices inside `[0, w * h)`.
pub proof fn lemma_gidx_bounds(w: int, h: int, x: int, y: int)
    requires
        in_grid(w, h, x, y),
    ensures
        0 <= gidx(w, x, y) < w * h,
        gidx(w, x, y) < (y + 1) * w <= h * w,
{
    assert(0 <= y * w + x < w * h && y * w + x < (y + 1) * w && (y + 1) * w <= h * w)
        by (nonlinear_arith)
        requires
            0 <= x < w,
            0 <= y < h,
    ;
}

/// The working grid of unbounded (raw) elevations that the synthesizer
/// produces and every erosion stage transforms in place. Values are
/// fixed-point scalars kept inside the saturation window
/// `[RAW_MIN, RAW_MAX]`; the grid is row-major.
pub struct RawElevationField {
    pub width: u32,
    pub height: u32,
    pub values: Vec<i64>,
}

impl RawElevationField {
    /// Structural invariant: the flat vector matches the dimensions, the
    /// cell count is bounded, and every value sits in the saturation window.
    pub open spec fn wf(self) -> bool {
        &&& self.values.len() == (self.width as int) * (self.height as int)
        &&& (self.width as int) * (self.height as int) <= MAX_CELLS
        &&& forall|i: int|
            0 <= i < self.values.len() ==> RAW_MIN <= #[trigger] self.values[i] <= RAW_MAX
    }

    /// Linear index of `(x, y)`.
    pub fn index(&self, x: u32, y: u32) -> (r: usize)
        requires
            self.wf(),
            x < self.width,
            y < self.height,
        ensures
            r == gidx(self.width as int, x as int, y as int),
            r < self.values.len(),
    {
        proof {
            lemma_gidx_bounds(self.width as int, self.height as int, x as int, y as int);
        }
        (y as usize) * (self.width as usize) + (x as usize)
    }

    /// The value at `(x, y)`.
    pub fn get(&self, x: u32, y: u32) -> (r: i64)
        requires
            self.wf(),
            x < self.width,
            y < self.height,
        ensures
            r == self.values[gidx(self.width as int, x as int, y as int)],
            RAW_MIN <= r <= RAW_MAX,
    {
        let i = self.index(x, y);
        self.values[i]
    }
}

} // verus!
