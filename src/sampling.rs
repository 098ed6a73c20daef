use vstd::prelude::*;
use crate::grid::Grid;

verus! {

/// The four grid cells that bilinear sampling blends: columns `x0`, `x1`
/// and rows `y0`, `y1`. The blend weights are the query point's offsets from
/// `x0` and `y0`.
#[derive(Debug, Clone, Copy, PartialEq, Eq, Structural)]
pub struct Corners {
    pub x0: usize,
    pub x1: usize,
    pub y0: usize,
    pub y1: usize,
}

pub open spec fn clamp_int(v: int, lo: int, hi: int) -> int {
    if v < lo {
        lo
    } else if v > hi {
        hi
    } else {
        v
    }
}

pub open spec fn min_int(a: int, b: int) -> int {
    if a < b {
        a
    } else {
        b
    }
}

/// Clamps `v` into `[0, dim - 1]`.
fn clamp_to_dim(v: i64, dim: usize) -> (r: usize)
    requires
        dim >= 1,
    ensures
        r == clamp_int(v as int, 0, dim - 1),
{
    if v < 0 {
        0
    } else if (v as u64) > ((dim - 1) as u64) {
        dim - 1
    } else {
        v as usize
    }
}

/// Chooses the cells around a query point whose floored coordinates are
/// `(fx, fy)`: the base cell is clamped into the grid, and the next cell on
/// each axis is one further on, clamped to the last column or row.
/// A point on an in-range cell gets that cell as its base.
pub fn sample_corners(grid: &Grid, fx: i64, fy: i64) -> (r: Corners)
    requires
        grid.wf(),
    ensures
        r.x0 == clamp_int(fx as int, 0, grid.spec_width() - 1),
        r.y0 == clamp_int(fy as int, 0, grid.spec_height() - 1),
        r.x1 == min_int(r.x0 + 1, grid.spec_width() - 1),
        r.y1 == min_int(r.y0 + 1, grid.spec_height() - 1),
        grid.in_bounds(r.x0 as int, r.y0 as int),
        grid.in_bounds(r.x1 as int, r.y1 as int),
        grid.in_bounds(fx as int, fy as int) ==> r.x0 == fx && r.y0 == fy,
{
    let w = grid.width();
    let h = grid.height();
    let x0 = clamp_to_dim(fx, w);
    let y0 = clamp_to_dim(fy, h);
    let x1 = if x0 + 1 < w - 1 { x0 + 1 } else { w - 1 };
    let y1 = if y0 + 1 < h - 1 { y0 + 1 } else { h - 1 };
    Corners { x0, x1, y0, y1 }
}

} // verus!
