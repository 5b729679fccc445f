//! The decoder boundary: the one place where the pipeline calls the
//! external image codec.

use vstd::prelude::*;

verus! {

/// What the image codec returns for a byte sequence: `None` when the
/// bytes are not a well-formed image in a supported format, otherwise
/// the width, height, and row-major RGBA bytes of the decoded raster.
/// Decoding is a pure function of the input bytes; its value is named
/// here rather than spelled out, since no short definition exists.
pub uninterp spec fn decoded_of(bytes: Seq<u8>) -> Option<(u32, u32, Seq<u8>)>;

/// Relies on `image::load_from_memory` and
/// `image::DynamicImage::to_rgba8`: a parseable image decodes to its
/// dimensions and an RGBA buffer of exactly `width * height * 4` bytes
/// in row-major order, and malformed or truncated input fails with a
/// decoding error. The result depends on the input bytes alone.
#[verifier::external_body]
pub(crate) fn decode_rgba(bytes: &[u8]) -> (r: Result<(u32, u32, Vec<u8>), String>)
    ensures
        r is Ok <==> decoded_of(bytes@) is Some,
        r matches Ok(t) ==> decoded_of(bytes@) == Some((t.0, t.1, t.2@)),
        r matches Ok(t) ==> t.2@.len() == t.0 as int * t.1 as int * 4,
{
    match image::load_from_memory(bytes) {
        Ok(img) => {
            let rgba = img.to_rgba8();
            let (w, h) = rgba.dimensions();
            Ok((w, h, rgba.into_raw()))
        },
        Err(e) => Err(format!("{}", e)),
    }
}

} // verus!
