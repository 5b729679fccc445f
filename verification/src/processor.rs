//! The orchestrator: owns the pixel buffer across its lifetime and
//! sequences decoding and filtering. Presentation reads the buffer
//! through the public fields and accessors and is left to the caller.

use vstd::prelude::*;
use crate::buffer::{PixelBuffer, in_bounds, chan};
use crate::codec::{decoded_of, decode_rgba};
use crate::filter::{edge_filter, filtered_chan, is_interior, mag_at};

verus! {

/// The input bytes are not a well-formed image in a supported format;
/// raised only by `decode`, which then leaves the buffer untouched.
pub struct DecodeError {
    pub message: String,
}

/// Decodes compressed images into an RGBA buffer and runs the
/// edge-detection filter over it, holding the latest result.
pub struct ImageProcessor {
    pub buffer: PixelBuffer,
}

impl ImageProcessor {
    /// The processor's buffer always satisfies the size invariant.
    pub open spec fn wf(self) -> bool {
        self.buffer.wf()
    }

    /// A processor in the empty state: zero dimensions, no pixels.
    pub fn new() -> (r: ImageProcessor)
        ensures
            r.wf(),
            r.buffer.width == 0,
            r.buffer.height == 0,
            r.buffer.pixels@ == Seq::<u8>::empty(),
    {
        ImageProcessor { buffer: PixelBuffer::empty() }
    }

    /// Decodes `bytes` and replaces the buffer wholesale with the
    /// decoded raster. Exactly the inputs the codec cannot parse are
    /// rejected, and a failed decode leaves the processor unchanged.
    pub fn decode(&mut self, bytes: &[u8]) -> (r: Result<(), DecodeError>)
        ensures
            r is Ok <==> decoded_of(bytes@) is Some,
            r is Ok ==> final(self).wf(),
            r is Ok ==> decoded_of(bytes@) == Some(
                (final(self).buffer.width, final(self).buffer.height, final(self).buffer.pixels@),
            ),
            r is Err ==> *final(self) == *old(self),
    {
        match decode_rgba(bytes) {
            Ok((w, h, pixels)) => {
                self.buffer = PixelBuffer { width: w, height: h, pixels };
                Ok(())
            },
            Err(message) => Err(DecodeError { message }),
        }
    }

    /// Replaces the buffer with the edge-filtered raster, reading the
    /// old buffer in full and building the new one afresh. The
    /// dimensions never change. Every interior pixel of the new buffer
    /// holds its edge strength in all three color channels under a
    /// fully opaque alpha; every border pixel is transparent black, so
    /// a raster with no interior (width or height under 3) comes out
    /// all zero.
    pub fn edge_detect(&mut self)
        requires
            old(self).wf(),
        ensures
            final(self).wf(),
            final(self).buffer.width == old(self).buffer.width,
            final(self).buffer.height == old(self).buffer.height,
            forall|x: int, y: int, c: int|
                in_bounds(final(self).buffer.width as int, final(self).buffer.height as int, x, y) && 0 <= c < 4
                    ==> chan(final(self).buffer.pixels@, final(self).buffer.width as int, x, y, c)
                        == filtered_chan(
                        old(self).buffer.pixels@,
                        final(self).buffer.width as int,
                        final(self).buffer.height as int,
                        x,
                        y,
                        c,
                    ),
            forall|x: int, y: int, c: int|
                in_bounds(final(self).buffer.width as int, final(self).buffer.height as int, x, y) && 0 <= c < 4
                    && !is_interior(final(self).buffer.width as int, final(self).buffer.height as int, x, y)
                    ==> chan(final(self).buffer.pixels@, final(self).buffer.width as int, x, y, c) == 0,
            forall|x: int, y: int|
                is_interior(final(self).buffer.width as int, final(self).buffer.height as int, x, y) ==> {
                    &&& chan(final(self).buffer.pixels@, final(self).buffer.width as int, x, y, 3) == 255
                    &&& chan(final(self).buffer.pixels@, final(self).buffer.width as int, x, y, 0) == mag_at(
                        old(self).buffer.pixels@,
                        final(self).buffer.width as int,
                        x,
                        y,
                    )
                    &&& chan(final(self).buffer.pixels@, final(self).buffer.width as int, x, y, 1) == chan(
                        final(self).buffer.pixels@,
                        final(self).buffer.width as int,
                        x,
                        y,
                        0,
                    )
                    &&& chan(final(self).buffer.pixels@, final(self).buffer.width as int, x, y, 2) == chan(
                        final(self).buffer.pixels@,
                        final(self).buffer.width as int,
                        x,
                        y,
                        0,
                    )
                },
            forall|x: int, y: int, c: int|
                is_interior(final(self).buffer.width as int, final(self).buffer.height as int, x, y) && 0 <= c < 4
                    ==> 0 <= #[trigger] chan(final(self).buffer.pixels@, final(self).buffer.width as int, x, y, c) <= 255,
    {
        let out = edge_filter(&self.buffer);
        self.buffer = out;
    }

    /// The current dimensions, as the two-element sequence
    /// `[width, height]`; both are zero in the empty state.
    pub fn get_dimensions(&self) -> (r: Vec<u32>)
        ensures
            r@.len() == 2,
            r@[0] == self.buffer.width,
            r@[1] == self.buffer.height,
    {
        let mut dims: Vec<u32> = Vec::new();
        dims.push(self.buffer.width);
        dims.push(self.buffer.height);
        dims
    }
}

} // verus!
