//! Raster-to-bytes encoding shared by the containers.

use crate::Error;
use crate::Raster;
use vstd::prelude::*;

verus! {

/// The PNG stream that image's PNG encoder emits for an RGBA buffer of the
/// given dimensions: a function of the pixels alone (the encoder is
/// deterministic, with fixed settings and no external input).
pub uninterp spec fn png_bytes(width: u32, height: u32, data: Seq<u8>) -> Seq<u8>;

/// Relies on image::codecs::png::PngEncoder::write_image: it accepts exactly
/// four RGBA bytes per pixel of a nonzero-sided image and writes one complete
/// PNG stream to an in-memory byte vector, which cannot fail. The stream
/// begins with the eight-byte PNG signature, whose first four bytes are
/// 0x89 'P' 'N' 'G'.
#[verifier::external_body]
fn png_encode_rgba(width: u32, height: u32, data: &Vec<u8>) -> (r: Result<Vec<u8>, Error>)
    requires
        1 <= width,
        1 <= height,
        data@.len() == 4 * (width as int) * (height as int),
    ensures
        r is Ok,
        r matches Ok(v) ==> v@ == png_bytes(width, height, data@) && v@.len() >= 8 && v@[0]
            == 0x89u8 && v@[1] == 0x50u8 && v@[2] == 0x4eu8 && v@[3] == 0x47u8,
{
    let mut out: Vec<u8> = Vec::new();
    let encoder = image::codecs::png::PngEncoder::new(&mut out);
    match image::ImageEncoder::write_image(
        encoder,
        data,
        width,
        height,
        image::ExtendedColorType::Rgba8,
    ) {
        Ok(()) => Ok(out),
        Err(_) => Err(Error::Encoding),
    }
}

/// Encodes a raster as one PNG byte stream: exactly the encoder's output for
/// the raster's pixels, beginning with the PNG signature. An empty raster is
/// no image and is rejected with `Error::Encoding`; every other well-formed
/// raster encodes successfully.
pub fn png(raster: &Raster) -> (r: Result<Vec<u8>, Error>)
    requires
        raster.wf(),
    ensures
        raster.spec_width() >= 1 && raster.spec_height() >= 1 ==> r is Ok,
        r matches Ok(v) ==> v@ == png_bytes(
            raster.spec_width(),
            raster.spec_height(),
            raster.spec_data(),
        ) && v@.len() >= 8 && v@[0] == 0x89u8 && v@[1] == 0x50u8 && v@[2] == 0x4eu8 && v@[3]
            == 0x47u8,
        raster.spec_width() == 0 || raster.spec_height() == 0 ==> r == Err::<Vec<u8>, Error>(
            Error::Encoding,
        ),
{
    let width = raster.width();
    let height = raster.height();
    if width == 0 || height == 0 {
        return Err(Error::Encoding);
    }
    png_encode_rgba(width, height, raster.data())
}

} // verus!
