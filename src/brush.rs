use vstd::prelude::*;
use crate::grid::{cell_pos, Grid};

verus! {

/// Grid cell under a pointer at pixel `(mx, my)` when each cell is drawn
/// as a `precision` x `precision` block of pixels.
pub fn pointer_cell(mx: usize, my: usize, precision: usize) -> (r: (usize, usize))
    requires
        precision > 0,
    ensures
        r.0 == mx / precision,
        r.1 == my / precision,
{
    (mx / precision, my / precision)
}

/// Brush radius in cells for a radius given in pixels; a precision of zero
/// counts as one.
pub fn brush_radius(pixel_radius: usize, precision: usize) -> (r: usize)
    ensures
        r == pixel_radius / (if precision > 1 { precision } else { 1 }),
{
    let p = if precision > 1 { precision } else { 1 };
    pixel_radius / p
}

/// The brush acts only when its centre lies beyond the first two columns and
/// rows and inside the last interior column and row.
pub open spec fn brush_active(grid: &Grid, gx: int, gy: int) -> bool {
    1 < gx < grid.spec_width() - 1 && 1 < gy < grid.spec_height() - 1
}

/// Cell `(x, y)` is painted by a brush of `radius` centred on `(gx, gy)`:
/// it lies in the disc around the centre and is an interior cell.
pub open spec fn in_brush(grid: &Grid, gx: int, gy: int, radius: int, x: int, y: int) -> bool {
    &&& brush_active(grid, gx, gy)
    &&& gx - radius <= x <= gx + radius
    &&& gy - radius <= y <= gy + radius
    &&& (x - gx) * (x - gx) + (y - gy) * (y - gy) <= radius * radius
    &&& grid.is_interior_cell(x, y)
}

/// Whether offsets `(dx, dy)` lie within `radius` of the origin.
fn within_radius(dx: usize, dy: usize, radius: usize) -> (r: bool)
    requires
        dy <= radius,
    ensures
        r == (dx * dx + dy * dy <= radius * radius),
{
    let limit: u64 = 0xffff_ffff_ffff_ffff;
    assert(dx <= limit && dy <= limit && radius <= limit);
    let dx = dx as u128;
    let dy = dy as u128;
    let radius = radius as u128;
    proof {
        assert(dx * dx <= limit * limit && radius * radius <= limit * limit) by (nonlinear_arith)
            requires
                dx <= limit,
                radius <= limit,
        ;
        assert(dy * dy <= radius * radius) by (nonlinear_arith)
            requires
                dy <= radius,
        ;
    }
    dx * dx <= radius * radius - dy * dy
}

/// The cells that a brush centred on `(gx, gy)` paints, each once, in
/// column-major order: the interior cells within `radius` of the centre. Empty when the centre is too close to an edge.
pub fn brush_cells(grid: &Grid, gx: usize, gy: usize, radius: usize) -> (r: Vec<(usize, usize)>)
    requires
        grid.wf(),
    ensures
        forall|c: (usize, usize)|
            r@.contains(c) <==> in_brush(grid, gx as int, gy as int, radius as int, c.0 as int, c.1 as int),
        forall|i: int, j: int| 0 <= i < j < r@.len() ==> Grid::cell_before(cell_pos(r@[i]), cell_pos(r@[j])),
{
    let w = grid.width();
    let h = grid.height();
    let mut r: Vec<(usize, usize)> = Vec::new();
    if !(gx > 1 && gx < w - 1 && gy > 1 && gy < h - 1) {
        proof {
            assert forall|c: (usize, usize)|
                !in_brush(grid, gx as int, gy as int, radius as int, c.0 as int, c.1 as int) by {}
        }
        return r;
    }
    let x_lo = if gx > radius { gx - radius } else { 1 };
    let x_hi = if radius > w - 2 - gx { w - 2 } else { gx + radius };
    let y_lo = if gy > radius { gy - radius } else { 1 };
    let y_hi = if radius > h - 2 - gy { h - 2 } else { gy + radius };
    let mut x: usize = x_lo;
    while x <= x_hi
        invariant
            grid.wf(),
            w == grid.spec_width(),
            h == grid.spec_height(),
            brush_active(grid, gx as int, gy as int),
            1 <= x_lo <= x <= x_hi + 1,
            x_hi <= w - 2,
            1 <= y_lo,
            y_hi <= h - 2,
            x_lo == (if gx - radius >= 1 { gx - radius } else { 1 }),
            x_hi == (if gx + radius <= w - 2 { gx + radius } else { w - 2 }),
            y_lo == (if gy - radius >= 1 { gy - radius } else { 1 }),
            y_hi == (if gy + radius <= h - 2 { gy + radius } else { h - 2 }),
            forall|c: (usize, usize)|
                r@.contains(c) <==> (in_brush(grid, gx as int, gy as int, radius as int, c.0 as int, c.1 as int)
                    && c.0 < x),
            forall|i: int, j: int| 0 <= i < j < r@.len() ==> Grid::cell_before(cell_pos(r@[i]), cell_pos(r@[j])),
            forall|i: int| 0 <= i < r@.len() ==> r@[i].0 < x,
        decreases x_hi + 1 - x,
    {
        let mut y: usize = y_lo;
        while y <= y_hi
            invariant
                grid.wf(),
                w == grid.spec_width(),
                h == grid.spec_height(),
                brush_active(grid, gx as int, gy as int),
                x_lo <= x <= x_hi,
                x_hi <= w - 2,
                1 <= y_lo <= y <= y_hi + 1,
                y_hi <= h - 2,
                x_lo == (if gx - radius >= 1 { gx - radius } else { 1 }),
                x_hi == (if gx + radius <= w - 2 { gx + radius } else { w - 2 }),
                y_lo == (if gy - radius >= 1 { gy - radius } else { 1 }),
                y_hi == (if gy + radius <= h - 2 { gy + radius } else { h - 2 }),
                forall|c: (usize, usize)|
                    r@.contains(c) <==> (in_brush(grid, gx as int, gy as int, radius as int, c.0 as int, c.1 as int)
                        && (c.0 < x || (c.0 == x && c.1 < y))),
                forall|i: int, j: int| 0 <= i < j < r@.len() ==> Grid::cell_before(cell_pos(r@[i]), cell_pos(r@[j])),
                forall|i: int| 0 <= i < r@.len() ==> Grid::cell_before(cell_pos(r@[i]), (x as int, y as int)),
            decreases y_hi + 1 - y,
        {
            let dx = if x >= gx { x - gx } else { gx - x };
            let dy = if y >= gy { y - gy } else { gy - y };
            proof {
                assert((x - gx) * (x - gx) == dx * dx) by (nonlinear_arith)
                    requires
                        dx == x - gx || dx == gx - x,
                ;
                assert((y - gy) * (y - gy) == dy * dy) by (nonlinear_arith)
                    requires
                        dy == y - gy || dy == gy - y,
                ;
            }
            if within_radius(dx, dy, radius) {
                let ghost before = r@;
                r.push((x, y));
                proof {
                    assert(in_brush(grid, gx as int, gy as int, radius as int, x as int, y as int));
                    assert forall|c: (usize, usize)|
                        r@.contains(c) <==> (before.contains(c) || c == (x, y)) by {
                        if c == (x, y) {
                            assert(r@[before.len() as int] == c);
                        }
                        if before.contains(c) {
                            let i = choose|i: int| 0 <= i < before.len() && before[i] == c;
                            assert(r@[i] == c);
                        }
                        if r@.contains(c) {
                            let i = choose|i: int| 0 <= i < r@.len() && r@[i] == c;
                            if i < before.len() {
                                assert(before[i] == c);
                            }
                        }
                    }
                    assert forall|c: (usize, usize)|
                        r@.contains(c) <==> (in_brush(grid, gx as int, gy as int, radius as int, c.0 as int, c.1 as int)
                            && (c.0 < x || (c.0 == x && c.1 < y + 1))) by {
                        assert(r@.contains(c) <==> (before.contains(c) || c == (x, y)));
                        assert(before.contains(c) <==> (in_brush(grid, gx as int, gy as int, radius as int, c.0 as int, c.1 as int)
                            && (c.0 < x || (c.0 == x && c.1 < y))));
                    }
                }
            }
            y += 1;
        }
        x += 1;
    }
    r
}

} // verus!
