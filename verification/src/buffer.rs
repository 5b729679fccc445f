//! The RGBA pixel buffer: dimensions, the size invariant, and coordinate
//! arithmetic shared by the whole pipeline.

use vstd::prelude::*;

verus! {

/// An owned RGBA raster: `width * height` pixels, four bytes each
/// (red, green, blue, alpha), stored row-major with the top row first.
pub struct PixelBuffer {
    pub width: u32,
    pub height: u32,
    pub pixels: Vec<u8>,
}

/// True when `(x, y)` lies inside a `w`-by-`h` raster.
pub open spec fn in_bounds(w: int, h: int, x: int, y: int) -> bool {
    0 <= x < w && 0 <= y < h
}

/// Byte index of the first channel of pixel `(x, y)` in a row-major
/// RGBA buffer of width `w`.
pub open spec fn index_of(w: int, x: int, y: int) -> int {
    (y * w + x) * 4
}

/// Channel `c` (0 = red, 1 = green, 2 = blue, 3 = alpha) of pixel
/// `(x, y)`, read as a mathematical integer.
pub open spec fn chan(p: Seq<u8>, w: int, x: int, y: int, c: int) -> int {
    p[index_of(w, x, y) + c] as int
}

impl PixelBuffer {
    /// The size invariant: exactly four bytes for every pixel, so an
    /// empty raster (zero width or height) has an empty byte array.
    pub open spec fn wf(self) -> bool {
        self.pixels@.len() == self.width as int * self.height as int * 4
    }

    /// Reads the four channel bytes (red, green, blue, alpha) of the
    /// in-bounds pixel `(x, y)`.
    pub fn pixel_at(&self, x: u32, y: u32) -> (r: (u8, u8, u8, u8))
        requires
            self.wf(),
            x < self.width,
            y < self.height,
        ensures
            r.0 as int == chan(self.pixels@, self.width as int, x as int, y as int, 0),
            r.1 as int == chan(self.pixels@, self.width as int, x as int, y as int, 1),
            r.2 as int == chan(self.pixels@, self.width as int, x as int, y as int, 2),
            r.3 as int == chan(self.pixels@, self.width as int, x as int, y as int, 3),
    {
        proof {
            lemma_index_in_range(
                self.width as int,
                self.height as int,
                x as int,
                y as int,
            );
        }
        let n = self.pixels.len();
        let idx = (y as usize * self.width as usize + x as usize) * 4;
        assert(idx + 4 <= n);
        (self.pixels[idx], self.pixels[idx + 1], self.pixels[idx + 2], self.pixels[idx + 3])
    }

    /// A raster with no pixels at all.
    pub fn empty() -> (r: PixelBuffer)
        ensures
            r.wf(),
            r.width == 0,
            r.height == 0,
            r.pixels@ == Seq::<u8>::empty(),
    {
        PixelBuffer { width: 0, height: 0, pixels: Vec::new() }
    }
}

/// Every channel index of an in-bounds pixel falls inside the buffer.
pub proof fn lemma_index_in_range(w: int, h: int, x: int, y: int)
    by (nonlinear_arith)
    requires
        in_bounds(w, h, x, y),
    ensures
        0 <= index_of(w, x, y),
        index_of(w, x, y) + 4 <= w * h * 4,
{
}

/// Distinct in-bounds channel coordinates map to distinct byte indices.
pub proof fn lemma_index_injective(
    w: int,
    x1: int,
    y1: int,
    c1: int,
    x2: int,
    y2: int,
    c2: int,
)
    by (nonlinear_arith)
    requires
        0 <= x1 < w,
        0 <= x2 < w,
        0 <= y1,
        0 <= y2,
        0 <= c1 < 4,
        0 <= c2 < 4,
        index_of(w, x1, y1) + c1 == index_of(w, x2, y2) + c2,
    ensures
        x1 == x2,
        y1 == y2,
        c1 == c2,
{
}

} // verus!
