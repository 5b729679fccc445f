//! The gradient-magnitude edge-detection filter: fixed 3-by-3 horizontal
//! and vertical gradient kernels, an integer square root for the
//! magnitude, and the filter pass that builds a fresh buffer.

use vstd::prelude::*;
use crate::buffer::{
    PixelBuffer, in_bounds, index_of, chan, lemma_index_in_range, lemma_index_injective,
};
use crate::gray::{gray_at, gray};

verus! {

/// Horizontal gradient estimate at `(x, y)`: the luminance of the
/// 3-by-3 neighborhood weighted by the kernel
/// `[[-1, 0, 1], [-2, 0, 2], [-1, 0, 1]]` (rows are `dy`, columns `dx`).
pub open spec fn gx_at(p: Seq<u8>, w: int, x: int, y: int) -> int {
    (gray_at(p, w, x + 1, y - 1) + 2 * gray_at(p, w, x + 1, y) + gray_at(p, w, x + 1, y + 1))
        - (gray_at(p, w, x - 1, y - 1) + 2 * gray_at(p, w, x - 1, y) + gray_at(p, w, x - 1, y + 1))
}

/// Vertical gradient estimate at `(x, y)`: the luminance of the
/// 3-by-3 neighborhood weighted by the kernel
/// `[[-1, -2, -1], [0, 0, 0], [1, 2, 1]]` (rows are `dy`, columns `dx`).
pub open spec fn gy_at(p: Seq<u8>, w: int, x: int, y: int) -> int {
    (gray_at(p, w, x - 1, y + 1) + 2 * gray_at(p, w, x, y + 1) + gray_at(p, w, x + 1, y + 1))
        - (gray_at(p, w, x - 1, y - 1) + 2 * gray_at(p, w, x, y - 1) + gray_at(p, w, x + 1, y - 1))
}

/// The largest `r` in `[0, m]` with `r * r <= s` (0 when there is none).
pub open spec fn isqrt_from(s: int, m: int) -> int
    decreases m,
{
    if m <= 0 {
        0
    } else if m * m <= s {
        m
    } else {
        isqrt_from(s, m - 1)
    }
}

/// Edge strength for a squared gradient sum `s`: the integer square
/// root of `s`, clamped to the 8-bit range.
pub open spec fn magnitude_of(s: int) -> int {
    isqrt_from(s, 255)
}

/// Edge strength at `(x, y)`: `min(255, floor(sqrt(gx^2 + gy^2)))`.
pub open spec fn mag_at(p: Seq<u8>, w: int, x: int, y: int) -> int {
    magnitude_of(gx_at(p, w, x, y) * gx_at(p, w, x, y) + gy_at(p, w, x, y) * gy_at(p, w, x, y))
}

/// True when `(x, y)` lies strictly inside a `w`-by-`h` raster: at
/// distance at least one from every edge.
pub open spec fn is_interior(w: int, h: int, x: int, y: int) -> bool {
    1 <= x <= w - 2 && 1 <= y <= h - 2
}

/// What the filter writes into channel `c` of output pixel `(x, y)`:
/// the magnitude in each color channel and a fully opaque alpha for
/// interior pixels, transparent black everywhere on the border.
pub open spec fn filtered_chan(p: Seq<u8>, w: int, h: int, x: int, y: int, c: int) -> int {
    if is_interior(w, h, x, y) {
        if c == 3 {
            255
        } else {
            mag_at(p, w, x, y)
        }
    } else {
        0
    }
}

proof fn lemma_isqrt_from_bounds(s: int, m: int)
    requires
        0 <= m,
    ensures
        0 <= isqrt_from(s, m) <= m,
    decreases m,
{
    if m > 0 && !(m * m <= s) {
        lemma_isqrt_from_bounds(s, m - 1);
    }
}

/// A clamped magnitude is always an 8-bit value.
pub proof fn lemma_magnitude_in_range(s: int)
    ensures
        0 <= magnitude_of(s) <= 255,
{
    lemma_isqrt_from_bounds(s, 255);
}

/// Integer square root of `s`, clamped to 255: walks down from 255 to
/// the largest `m` with `m * m <= s`.
fn isqrt_clamped(s: u32) -> (r: u8)
    ensures
        r as int == magnitude_of(s as int),
{
    let mut m: u32 = 255;
    loop
        invariant
            m <= 255,
            magnitude_of(s as int) == isqrt_from(s as int, m as int),
        ensures
            m <= 255,
            m as int == isqrt_from(s as int, m as int),
            m as int == magnitude_of(s as int),
        decreases m,
    {
        if m == 0 {
            break;
        }
        assert(m * m <= 255 * 255) by (nonlinear_arith)
            requires
                m <= 255,
        ;
        if m * m <= s {
            break;
        }
        m = m - 1;
    }
    m as u8
}

/// Computes the edge strength of the interior pixel `(x, y)`: the
/// 3-by-3 neighborhood is sampled through `gray`, combined with the
/// two gradient kernels, and the squared sum is reduced by the
/// clamped integer square root.
pub fn sobel_magnitude(buf: &PixelBuffer, x: u32, y: u32) -> (m: u8)
    requires
        buf.wf(),
        1 <= x && x + 1 < buf.width,
        1 <= y && y + 1 < buf.height,
    ensures
        m as int == mag_at(buf.pixels@, buf.width as int, x as int, y as int),
{
    let g00 = gray(buf, x - 1, y - 1) as i32;
    let g01 = gray(buf, x, y - 1) as i32;
    let g02 = gray(buf, x + 1, y - 1) as i32;
    let g10 = gray(buf, x - 1, y) as i32;
    let g12 = gray(buf, x + 1, y) as i32;
    let g20 = gray(buf, x - 1, y + 1) as i32;
    let g21 = gray(buf, x, y + 1) as i32;
    let g22 = gray(buf, x + 1, y + 1) as i32;

    let gx = (g02 + 2 * g12 + g22) - (g00 + 2 * g10 + g20);
    let gy = (g20 + 2 * g21 + g22) - (g00 + 2 * g01 + g02);
    assert(0 <= gx * gx <= 1020 * 1020) by (nonlinear_arith)
        requires
            -1020 <= gx <= 1020,
    ;
    assert(0 <= gy * gy <= 1020 * 1020) by (nonlinear_arith)
        requires
            -1020 <= gy <= 1020,
    ;
    let s = (gx * gx + gy * gy) as u32;
    isqrt_clamped(s)
}

/// No raster narrower or shorter than three pixels has an interior,
/// so the filter leaves such an output entirely transparent black.
pub proof fn lemma_degenerate_all_zero(p: Seq<u8>, w: int, h: int)
    requires
        w < 3 || h < 3,
    ensures
        forall|x: int, y: int, c: int|
            in_bounds(w, h, x, y) && 0 <= c < 4 ==> filtered_chan(p, w, h, x, y, c) == 0,
{
}

fn zeroed(n: usize) -> (r: Vec<u8>)
    ensures
        r@.len() == n,
        forall|i: int| 0 <= i < n ==> r@[i] == 0u8,
{
    let mut v: Vec<u8> = Vec::new();
    let mut i: usize = 0;
    while i < n
        invariant
            i <= n,
            v@.len() == i,
            forall|j: int| 0 <= j < i ==> v@[j] == 0u8,
        decreases n - i,
    {
        v.push(0);
        i = i + 1;
    }
    v
}

/// Runs the gradient filter over `buf` and returns a fresh buffer of
/// the same dimensions: every interior pixel becomes
/// `(m, m, m, 255)` with `m` its edge strength, and every border
/// pixel is transparent black. The input buffer is only read.
pub fn edge_filter(buf: &PixelBuffer) -> (out: PixelBuffer)
    requires
        buf.wf(),
    ensures
        out.wf(),
        out.width == buf.width,
        out.height == buf.height,
        forall|x: int, y: int, c: int|
            in_bounds(buf.width as int, buf.height as int, x, y) && 0 <= c < 4
                ==> chan(out.pixels@, buf.width as int, x, y, c) == filtered_chan(
                buf.pixels@,
                buf.width as int,
                buf.height as int,
                x,
                y,
                c,
            ),
{
    let w = buf.width;
    let h = buf.height;
    let n = buf.pixels.len();
    let mut out_pixels = zeroed(n);
    proof {
        assert forall|x2: int, y2: int, c2: int|
            in_bounds(w as int, h as int, x2, y2) && 0 <= c2 < 4 implies chan(
            out_pixels@,
            w as int,
            x2,
            y2,
            c2,
        ) == 0 by {
            lemma_index_in_range(w as int, h as int, x2, y2);
        }
    }

    if w >= 3 && h >= 3 {
        let mut y: u32 = 1;
        while y < h - 1
            invariant
                buf.wf(),
                w == buf.width,
                h == buf.height,
                3 <= w,
                3 <= h,
                w as int * h as int * 4 <= usize::MAX as int,
                1 <= y <= h - 1,
                out_pixels@.len() == w as int * h as int * 4,
                forall|x2: int, y2: int, c2: int|
                    in_bounds(w as int, h as int, x2, y2) && 0 <= c2 < 4
                        ==> chan(out_pixels@, w as int, x2, y2, c2) == (if y2 < y as int {
                        filtered_chan(buf.pixels@, w as int, h as int, x2, y2, c2)
                    } else {
                        0
                    }),
            decreases h - 1 - y,
        {
            let mut x: u32 = 1;
            while x < w - 1
                invariant
                    buf.wf(),
                    w == buf.width,
                    h == buf.height,
                    3 <= w,
                    3 <= h,
                    w as int * h as int * 4 <= usize::MAX as int,
                    1 <= y < h - 1,
                    1 <= x <= w - 1,
                    out_pixels@.len() == w as int * h as int * 4,
                    forall|x2: int, y2: int, c2: int|
                        in_bounds(w as int, h as int, x2, y2) && 0 <= c2 < 4
                            ==> chan(out_pixels@, w as int, x2, y2, c2) == (if y2 < y as int || (
                        y2 == y as int && x2 < x as int) {
                            filtered_chan(buf.pixels@, w as int, h as int, x2, y2, c2)
                        } else {
                            0
                        }),
                decreases w - 1 - x,
            {
                let m = sobel_magnitude(buf, x, y);
                proof {
                    lemma_index_in_range(w as int, h as int, x as int, y as int);
                }
                let idx = (y as usize * w as usize + x as usize) * 4;
                let ghost before = out_pixels@;
                out_pixels.set(idx, m);
                out_pixels.set(idx + 1, m);
                out_pixels.set(idx + 2, m);
                out_pixels.set(idx + 3, 255);
                proof {
                    assert forall|x2: int, y2: int, c2: int|
                        in_bounds(w as int, h as int, x2, y2) && 0 <= c2 < 4 implies chan(
                        out_pixels@,
                        w as int,
                        x2,
                        y2,
                        c2,
                    ) == (if y2 < y as int || (y2 == y as int && x2 < x as int + 1) {
                        filtered_chan(buf.pixels@, w as int, h as int, x2, y2, c2)
                    } else {
                        0
                    }) by {
                        let j = index_of(w as int, x2, y2) + c2;
                        lemma_index_in_range(w as int, h as int, x2, y2);
                        assert(idx as int == index_of(w as int, x as int, y as int));
                        assert(chan(before, w as int, x2, y2, c2) == (if y2 < y as int || (y2
                            == y as int && x2 < x as int) {
                            filtered_chan(buf.pixels@, w as int, h as int, x2, y2, c2)
                        } else {
                            0
                        }));
                        if x2 == x as int && y2 == y as int {
                            assert(is_interior(w as int, h as int, x2, y2));
                        } else {
                            if j == idx as int {
                                lemma_index_injective(w as int, x2, y2, c2, x as int, y as int, 0);
                            }
                            if j == idx as int + 1 {
                                lemma_index_injective(w as int, x2, y2, c2, x as int, y as int, 1);
                            }
                            if j == idx as int + 2 {
                                lemma_index_injective(w as int, x2, y2, c2, x as int, y as int, 2);
                            }
                            if j == idx as int + 3 {
                                lemma_index_injective(w as int, x2, y2, c2, x as int, y as int, 3);
                            }
                            assert(out_pixels@[j] == before[j]);
                        }
                    }
                }
                x = x + 1;
            }
            y = y + 1;
        }
    }
    PixelBuffer { width: w, height: h, pixels: out_pixels }
}

} // verus!
