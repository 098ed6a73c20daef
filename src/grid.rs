use vstd::prelude::*;
use vstd::arithmetic::div_mod::{
    lemma_div_is_ordered,
    lemma_div_pos_is_pos,
    lemma_fundamental_div_mod,
    lemma_fundamental_div_mod_converse,
    lemma_mod_pos_bound,
};

verus! {

/// Why a grid could not be built.
#[derive(Debug, Clone, Copy, PartialEq, Eq, Structural)]
pub enum GridError {
    /// A side is shorter than three cells, so the grid has no interior cell.
    TooSmall,
    /// The number of cells does not fit in `usize`.
    TooLarge,
}

/// Dimensions that a grid may have: at least one interior cell on each axis,
/// and a cell count that can be addressed.
pub open spec fn dims_valid(width: int, height: int) -> bool {
    width >= 3 && height >= 3 && width * height <= usize::MAX
}

/// A cell as a pair of mathematical integers.
pub open spec fn cell_pos(c: (usize, usize)) -> (int, int) {
    (c.0 as int, c.1 as int)
}

/// The shape of a `width` x `height` field of cells. Every field of the
/// simulation is stored as one flat buffer of `width * height` values, with
/// cell `(x, y)` at offset `x * height + y`.
#[derive(Debug, Clone, Copy)]
pub struct Grid {
    width: usize,
    height: usize,
}

/// The flat offsets of a cell and of its four axis neighbours.
#[derive(Debug, Clone, Copy, PartialEq, Eq, Structural)]
pub struct Stencil {
    pub center: usize,
    /// Cell `(x + 1, y)`.
    pub x_next: usize,
    /// Cell `(x - 1, y)`.
    pub x_prev: usize,
    /// Cell `(x, y + 1)`.
    pub y_next: usize,
    /// Cell `(x, y - 1)`.
    pub y_prev: usize,
}

impl Grid {
    pub closed spec fn spec_width(&self) -> int {
        self.width as int
    }

    pub closed spec fn spec_height(&self) -> int {
        self.height as int
    }

    pub open spec fn wf(&self) -> bool {
        dims_valid(self.spec_width(), self.spec_height())
    }

    pub open spec fn spec_len(&self) -> int {
        self.spec_width() * self.spec_height()
    }

    pub open spec fn in_bounds(&self, x: int, y: int) -> bool {
        0 <= x < self.spec_width() && 0 <= y < self.spec_height()
    }

    /// Cells whose four neighbours all lie inside the grid.
    pub open spec fn is_interior_cell(&self, x: int, y: int) -> bool {
        1 <= x < self.spec_width() - 1 && 1 <= y < self.spec_height() - 1
    }

    pub open spec fn cell_index(&self, x: int, y: int) -> int {
        x * self.spec_height() + y
    }

    /// The `k`-th interior cell when they are walked column by column.
    pub open spec fn interior_cell_at(&self, k: int) -> (int, int) {
        (1 + k / (self.spec_height() - 2), 1 + k % (self.spec_height() - 2))
    }

    pub open spec fn interior_count(&self) -> int {
        (self.spec_width() - 2) * (self.spec_height() - 2)
    }

    /// Column-major order on cells.
    pub open spec fn cell_before(a: (int, int), b: (int, int)) -> bool {
        a.0 < b.0 || (a.0 == b.0 && a.1 < b.1)
    }

    /// Builds a grid; it is refused when either side is below three cells.
    pub fn new(width: usize, height: usize) -> (r: Result<Grid, GridError>)
        ensures
            r is Ok <==> dims_valid(width as int, height as int),
            width < 3 || height < 3 ==> r == Err::<Grid, GridError>(GridError::TooSmall),
            width >= 3 && height >= 3 && width * height > usize::MAX ==> r == Err::<
                Grid,
                GridError,
            >(GridError::TooLarge),
            r is Ok ==> r->Ok_0.wf() && r->Ok_0.spec_width() == width && r->Ok_0.spec_height()
                == height,
    {
        if width < 3 || height < 3 {
            return Err(GridError::TooSmall);
        }
        match width.checked_mul(height) {
            None => Err(GridError::TooLarge),
            Some(_) => Ok(Grid { width, height }),
        }
    }

    pub fn width(&self) -> (r: usize)
        ensures
            r == self.spec_width(),
    {
        self.width
    }

    pub fn height(&self) -> (r: usize)
        ensures
            r == self.spec_height(),
    {
        self.height
    }

    /// Number of cells, which is the length of every field buffer.
    pub fn len(&self) -> (r: usize)
        requires
            self.wf(),
        ensures
            r == self.spec_len(),
    {
        self.width * self.height
    }

    /// Flat offset of an in-range cell.
    pub fn index(&self, x: usize, y: usize) -> (r: usize)
        requires
            self.wf(),
            self.in_bounds(x as int, y as int),
        ensures
            r == self.cell_index(x as int, y as int),
            r < self.spec_len(),
    {
        let w = self.width;
        let h = self.height;
        proof {
            assert(x * h + y < w * h) by (nonlinear_arith)
                requires
                    x < w,
                    y < h,
            ;
        }
        x * h + y
    }

    /// Flat offset of a cell, or `None` when the cell lies outside the grid.
    pub fn checked_index(&self, x: usize, y: usize) -> (r: Option<usize>)
        requires
            self.wf(),
        ensures
            r is Some <==> self.in_bounds(x as int, y as int),
            r is Some ==> r->Some_0 == self.cell_index(x as int, y as int),
    {
        if x < self.width && y < self.height {
            Some(self.index(x, y))
        } else {
            None
        }
    }

    pub fn is_interior(&self, x: usize, y: usize) -> (r: bool)
        requires
            self.wf(),
        ensures
            r == self.is_interior_cell(x as int, y as int),
    {
        1 <= x && x < self.width - 1 && 1 <= y && y < self.height - 1
    }

    /// Whether an in-range cell lies on one of the four edges.
    pub fn is_border(&self, x: usize, y: usize) -> (r: bool)
        requires
            self.wf(),
        ensures
            r == (self.in_bounds(x as int, y as int) && !self.is_interior_cell(
                x as int,
                y as int,
            )),
    {
        x < self.width && y < self.height && !self.is_interior(x, y)
    }

    /// Offsets of an interior cell and of its four neighbours.
    pub fn stencil(&self, x: usize, y: usize) -> (r: Stencil)
        requires
            self.wf(),
            self.is_interior_cell(x as int, y as int),
        ensures
            r.center == self.cell_index(x as int, y as int),
            r.x_next == self.cell_index(x + 1, y as int),
            r.x_prev == self.cell_index(x - 1, y as int),
            r.y_next == self.cell_index(x as int, y + 1),
            r.y_prev == self.cell_index(x as int, y - 1),
    {
        Stencil {
            center: self.index(x, y),
            x_next: self.index(x + 1, y),
            x_prev: self.index(x - 1, y),
            y_next: self.index(x, y + 1),
            y_prev: self.index(x, y - 1),
        }
    }

    /// Every interior cell once, column by column: `x` ascending, and `y`
    /// ascending within a column.
    pub fn interior_cells(&self) -> (r: Vec<(usize, usize)>)
        requires
            self.wf(),
        ensures
            r@.len() == self.interior_count(),
            forall|k: int|
                0 <= k < r@.len() ==> cell_pos(r@[k]) == self.interior_cell_at(k),
            forall|x: usize, y: usize|
                self.is_interior_cell(x as int, y as int) ==> r@.contains((x, y)),
            forall|k: int| 0 <= k < r@.len() ==> self.is_interior_cell(r@[k].0 as int, r@[k].1 as int),
            forall|i: int, j: int|
                0 <= i < j < r@.len() ==> Self::cell_before(cell_pos(r@[i]), cell_pos(r@[j])),
    {
        let w = self.width;
        let h = self.height;
        let ghost ih = h - 2;
        let mut r: Vec<(usize, usize)> = Vec::new();
        let mut x: usize = 1;
        while x < w - 1
            invariant
                w == self.spec_width(),
                h == self.spec_height(),
                ih == h - 2,
                self.wf(),
                1 <= x <= w - 1,
                r@.len() == (x - 1) * ih,
                forall|k: int|
                    0 <= k < r@.len() ==> (r@[k].0 as int, r@[k].1 as int)
                        == self.interior_cell_at(k),
            decreases w - 1 - x,
        {
            let mut y: usize = 1;
            while y < h - 1
                invariant
                    w == self.spec_width(),
                    h == self.spec_height(),
                    ih == h - 2,
                    self.wf(),
                    1 <= x < w - 1,
                    1 <= y <= h - 1,
                    r@.len() == (x - 1) * ih + (y - 1),
                    forall|k: int|
                        0 <= k < r@.len() ==> (r@[k].0 as int, r@[k].1 as int)
                            == self.interior_cell_at(k),
                decreases h - 1 - y,
            {
                proof {
                    lemma_fundamental_div_mod_converse(
                        r@.len() as int,
                        ih,
                        x - 1,
                        y - 1,
                    );
                }
                r.push((x, y));
                y += 1;
            }
            proof {
                assert((x - 1) * ih + ih == x * ih) by (nonlinear_arith);
            }
            x += 1;
        }
        proof {
            assert(r@.len() == (w - 2) * (h - 2));
            assert forall|x: usize, y: usize|
                self.is_interior_cell(x as int, y as int) implies r@.contains((x, y)) by {
                let k = (x - 1) * ih + (y - 1);
                lemma_fundamental_div_mod_converse(k, ih, x - 1, y - 1);
                assert(k < (w - 2) * ih) by (nonlinear_arith)
                    requires
                        x - 1 < w - 2,
                        y - 1 < ih,
                        k == (x - 1) * ih + (y - 1),
                ;
                assert(0 <= k) by (nonlinear_arith)
                    requires
                        x >= 1,
                        y >= 1,
                        ih > 0,
                        k == (x - 1) * ih + (y - 1),
                ;
                assert((r@[k].0 as int, r@[k].1 as int) == self.interior_cell_at(k));
                assert(r@[k] == (x, y));
            }
            assert forall|k: int| 0 <= k < r@.len() implies self.is_interior_cell(
                r@[k].0 as int,
                r@[k].1 as int,
            ) by {
                assert((r@[k].0 as int, r@[k].1 as int) == self.interior_cell_at(k));
                lemma_fundamental_div_mod(k, ih);
                lemma_div_pos_is_pos(k, ih);
                lemma_mod_pos_bound(k, ih);
                assert(k / ih < w - 2) by {
                    if k / ih >= w - 2 {
                        assert(ih * (k / ih) >= ih * (w - 2)) by (nonlinear_arith)
                            requires
                                k / ih >= w - 2,
                                ih > 0,
                        ;
                    }
                }
            }
            assert forall|i: int, j: int| 0 <= i < j < r@.len() implies Self::cell_before(
                (r@[i].0 as int, r@[i].1 as int),
                (r@[j].0 as int, r@[j].1 as int),
            ) by {
                assert((r@[i].0 as int, r@[i].1 as int) == self.interior_cell_at(i));
                assert((r@[j].0 as int, r@[j].1 as int) == self.interior_cell_at(j));
                lemma_div_is_ordered(i, j, ih);
                lemma_fundamental_div_mod(i, ih);
                lemma_fundamental_div_mod(j, ih);
            }
        }
        r
    }
}

} // verus!
