//! Grayscale sampling: the luminance of a single pixel, used by the
//! gradient filter to weigh a 3-by-3 neighborhood.

use vstd::prelude::*;
use crate::buffer::{PixelBuffer, chan, lemma_index_in_range};

verus! {

/// Luminance of pixel `(x, y)`: the fixed weighting
/// `(299 R + 587 G + 114 B) / 1000` with truncating division, a
/// fixed-point form of the classical `0.299 R + 0.587 G + 0.114 B`.
/// The alpha channel is ignored.
pub open spec fn gray_at(p: Seq<u8>, w: int, x: int, y: int) -> int {
    (299 * chan(p, w, x, y, 0) + 587 * chan(p, w, x, y, 1) + 114 * chan(p, w, x, y, 2)) / 1000
}

/// Luminance is always an 8-bit value.
pub proof fn lemma_gray_in_range(p: Seq<u8>, w: int, x: int, y: int)
    ensures
        0 <= gray_at(p, w, x, y) <= 255,
{
    assert(0 <= chan(p, w, x, y, 0) <= 255);
    assert(0 <= chan(p, w, x, y, 1) <= 255);
    assert(0 <= chan(p, w, x, y, 2) <= 255);
}

/// Computes the luminance of the in-bounds pixel `(x, y)`.
///
/// The weighted sum is computed in integer arithmetic and truncated,
/// exactly as `gray_at` states.
pub fn gray(buf: &PixelBuffer, x: u32, y: u32) -> (g: u8)
    requires
        buf.wf(),
        x < buf.width,
        y < buf.height,
    ensures
        g as int == gray_at(buf.pixels@, buf.width as int, x as int, y as int),
{
    proof {
        lemma_index_in_range(buf.width as int, buf.height as int, x as int, y as int);
    }
    let n = buf.pixels.len();
    let idx = (y as usize * buf.width as usize + x as usize) * 4;
    assert(idx + 4 <= n);
    let r = buf.pixels[idx] as u32;
    let g = buf.pixels[idx + 1] as u32;
    let b = buf.pixels[idx + 2] as u32;
    ((299 * r + 587 * g + 114 * b) / 1000) as u8
}

} // verus!
