use vstd::prelude::*;
use vstd::arithmetic::div_mod::{
    lemma_div_is_ordered_by_denominator,
    lemma_fundamental_div_mod,
    lemma_fundamental_div_mod_converse,
};
use vstd::arithmetic::mul::lemma_mul_inequality;
use crate::grid::{Grid, GridError};

verus! {

/// Why a frame could not be set up.
#[derive(Debug, Clone, Copy, PartialEq, Eq, Structural)]
pub enum FrameError {
    /// A cell must cover at least one pixel.
    ZeroPrecision,
    /// The number of pixels does not fit in `usize`.
    TooLarge,
}

/// A `width` x `height` pixel buffer, stored row by row, on which each grid
/// cell is drawn as a `precision` x `precision` block.
#[derive(Debug, Clone, Copy)]
pub struct Frame {
    width: usize,
    height: usize,
    precision: usize,
}

/// Packs three 8-bit channels into `0x00HHMMLL`.
pub open spec fn packed(hi: int, mid: int, lo: int) -> int {
    hi * 65536 + mid * 256 + lo
}

/// Packs three 8-bit channels into one pixel value, `hi` in bits 16..24,
/// `mid` in bits 8..16 and `lo` in bits 0..8.
pub fn pack_channels(hi: u8, mid: u8, lo: u8) -> (r: u32)
    ensures
        r == packed(hi as int, mid as int, lo as int),
{
    let h = hi as u32;
    let m = mid as u32;
    let l = lo as u32;
    proof {
        assert(((h << 16u32) | (m << 8u32) | l) == h * 65536 + m * 256 + l) by (bit_vector)
            requires
                h < 256,
                m < 256,
                l < 256,
        ;
    }
    (h << 16u32) | (m << 8u32) | l
}

/// The three low bytes of a pixel value: bits 0..8, 8..16 and 16..24.
pub fn unpack_channels(color: u32) -> (r: (u8, u8, u8))
    ensures
        r.0 == color % 256,
        r.1 == (color / 256) % 256,
        r.2 == (color / 65536) % 256,
{
    proof {
        assert((color & 0xffu32) == color % 256) by (bit_vector);
        assert(((color >> 8u32) & 0xffu32) == (color / 256) % 256) by (bit_vector);
        assert(((color >> 16u32) & 0xffu32) == (color / 65536) % 256) by (bit_vector);
    }
    ((color & 0xff) as u8, ((color >> 8u32) & 0xff) as u8, ((color >> 16u32) & 0xff) as u8)
}

impl Frame {
    pub closed spec fn spec_width(&self) -> int {
        self.width as int
    }

    pub closed spec fn spec_height(&self) -> int {
        self.height as int
    }

    pub closed spec fn spec_precision(&self) -> int {
        self.precision as int
    }

    pub open spec fn wf(&self) -> bool {
        self.spec_precision() > 0 && self.spec_width() * self.spec_height() <= usize::MAX
    }

    pub open spec fn grid_width(&self) -> int {
        self.spec_width() / self.spec_precision()
    }

    pub open spec fn grid_height(&self) -> int {
        self.spec_height() / self.spec_precision()
    }

    /// Buffer offset of the `k`-th pixel of the block of cell `(x, y)`,
    /// the block being walked row by row.
    pub open spec fn block_pixel(&self, x: int, y: int, k: int) -> int {
        let p = self.spec_precision();
        (y * p + k / p) * self.spec_width() + (x * p + k % p)
    }

    pub fn new(width: usize, height: usize, precision: usize) -> (r: Result<Frame, FrameError>)
        ensures
            r is Ok <==> precision > 0 && width * height <= usize::MAX,
            precision == 0 ==> r == Err::<Frame, FrameError>(FrameError::ZeroPrecision),
            precision > 0 && width * height > usize::MAX ==> r == Err::<Frame, FrameError>(
                FrameError::TooLarge,
            ),
            r is Ok ==> r->Ok_0.wf() && r->Ok_0.spec_width() == width && r->Ok_0.spec_height()
                == height && r->Ok_0.spec_precision() == precision,
    {
        if precision == 0 {
            return Err(FrameError::ZeroPrecision);
        }
        match width.checked_mul(height) {
            None => Err(FrameError::TooLarge),
            Some(_) => Ok(Frame { width, height, precision }),
        }
    }

    pub fn width(&self) -> (r: usize)
        ensures
            r == self.spec_width(),
    {
        self.width
    }

    pub fn height(&self) -> (r: usize)
        ensures
            r == self.spec_height(),
    {
        self.height
    }

    pub fn precision(&self) -> (r: usize)
        ensures
            r == self.spec_precision(),
    {
        self.precision
    }

    /// Number of pixels in the buffer.
    pub fn len(&self) -> (r: usize)
        requires
            self.wf(),
        ensures
            r == self.spec_width() * self.spec_height(),
    {
        self.width * self.height
    }

    /// The simulation grid that this frame shows: one cell per whole block.
    pub fn grid(&self) -> (r: Result<Grid, GridError>)
        requires
            self.wf(),
        ensures
            r is Ok <==> crate::grid::dims_valid(self.grid_width(), self.grid_height()),
            self.grid_width() < 3 || self.grid_height() < 3 ==> r == Err::<Grid, GridError>(
                GridError::TooSmall,
            ),
            self.grid_width() >= 3 && self.grid_height() >= 3 ==> r is Ok,
            r is Ok ==> r->Ok_0.wf() && r->Ok_0.spec_width() == self.grid_width()
                && r->Ok_0.spec_height() == self.grid_height(),
    {
        let gw = self.width / self.precision;
        let gh = self.height / self.precision;
        proof {
            let w = self.width as int;
            let h = self.height as int;
            let p = self.precision as int;
            lemma_div_is_ordered_by_denominator(w, 1, p);
            lemma_div_is_ordered_by_denominator(h, 1, p);
            assert(gw * gh <= w * h) by (nonlinear_arith)
                requires
                    0 <= gw <= w,
                    0 <= gh <= h,
            ;
        }
        Grid::new(gw, gh)
    }

    /// Buffer offsets of the pixels that show cell `(x, y)`, row by row.
    pub fn block_pixels(&self, x: usize, y: usize) -> (r: Vec<usize>)
        requires
            self.wf(),
            x < self.grid_width(),
            y < self.grid_height(),
        ensures
            r@.len() == self.spec_precision() * self.spec_precision(),
            forall|k: int|
                0 <= k < r@.len() ==> r@[k] == self.block_pixel(x as int, y as int, k),
            forall|k: int| 0 <= k < r@.len() ==> r@[k] < self.spec_width() * self.spec_height(),
    {
        let w = self.width;
        let h = self.height;
        let p = self.precision;
        proof {
            lemma_fundamental_div_mod(w as int, p as int);
            lemma_fundamental_div_mod(h as int, p as int);
            lemma_mul_inequality(x + 1, w as int / p as int, p as int);
            lemma_mul_inequality(y + 1, h as int / p as int, p as int);
            assert((x + 1) * p == x * p + p) by (nonlinear_arith);
            assert((y + 1) * p == y * p + p) by (nonlinear_arith);
            assert(p * (w as int / p as int) == (w as int / p as int) * p) by (nonlinear_arith);
            assert(p * (h as int / p as int) == (h as int / p as int) * p) by (nonlinear_arith);
        }
        let mut r: Vec<usize> = Vec::new();
        let mut py: usize = 0;
        while py < p
            invariant
                w == self.spec_width(),
                h == self.spec_height(),
                p == self.spec_precision(),
                self.wf(),
                x * p + p <= w,
                y * p + p <= h,
                0 <= py <= p,
                r@.len() == py * p,
                forall|k: int|
                    0 <= k < r@.len() ==> r@[k] == self.block_pixel(x as int, y as int, k),
                forall|k: int| 0 <= k < r@.len() ==> r@[k] < w * h,
            decreases p - py,
        {
            let row = y * p + py;
            let mut px: usize = 0;
            while px < p
                invariant
                    w == self.spec_width(),
                    h == self.spec_height(),
                    p == self.spec_precision(),
                    self.wf(),
                    x * p + p <= w,
                    y * p + p <= h,
                    0 <= py < p,
                    row == y * p + py,
                    0 <= px <= p,
                    r@.len() == py * p + px,
                    forall|k: int|
                        0 <= k < r@.len() ==> r@[k] == self.block_pixel(x as int, y as int, k),
                    forall|k: int| 0 <= k < r@.len() ==> r@[k] < w * h,
                decreases p - px,
            {
                let col = x * p + px;
                proof {
                    lemma_fundamental_div_mod_converse(r@.len() as int, p as int, py as int, px as int);
                    assert(row * w + col < w * h) by (nonlinear_arith)
                        requires
                            row < h,
                            col < w,
                    ;
                }
                r.push(row * w + col);
                px += 1;
            }
            proof {
                assert(py * p + p == (py + 1) * p) by (nonlinear_arith);
            }
            py += 1;
        }
        r
    }
}

} // verus!
