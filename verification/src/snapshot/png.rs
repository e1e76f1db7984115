//! A rasterized screen's PNG encoding, in memory, for handing a capture
//! to the judge.
use vstd::prelude::*;

verus! {

/// Declares `image::ImageError` so an encoding failure can be carried.
#[verifier::external_type_specification]
#[verifier::external_body]
pub struct ExImageError(image::ImageError);

/// The bytes `image`'s PNG encoder (default compression and filter)
/// writes for a `width` x `height` image whose pixels are the RGBA bytes
/// `rgba`, row by row.
pub uninterp spec fn png_encoding(width: u32, height: u32, rgba: Seq<u8>) -> Seq<u8>;

/// Calls `image::write_buffer_with_format` with `ExtendedColorType::Rgba8`
/// and `ImageFormat::Png` into an in-memory cursor. Claimed: a success
/// holds `png_encoding(width, height, rgba@)`. Whether the encoder
/// reports a failure is left open. The encoder panics when the buffer's
/// length is not four bytes per pixel, which `requires` rules out.
#[verifier::external_body]
fn encode_png(width: u32, height: u32, rgba: &[u8]) -> (r: Result<Vec<u8>, image::ImageError>)
    requires
        rgba@.len() == width * height * 4,
    ensures
        r matches Ok(bytes) ==> bytes@ == png_encoding(width, height, rgba@),
{
    let mut out = std::io::Cursor::new(Vec::new());
    let rgba8 = image::ExtendedColorType::Rgba8;
    image::write_buffer_with_format(&mut out, rgba, width, height, rgba8, image::ImageFormat::Png)
        .map(|()| out.into_inner())
}

/// A failure encoding a frame as PNG, from the image encoder.
#[derive(Debug)]
pub struct PngError(pub image::ImageError);

/// The PNG encoding of a `width` x `height` frame whose pixels are the
/// RGBA bytes `rgba`, row by row; the encoder's failure otherwise.
pub fn frame_png(width: u32, height: u32, rgba: &[u8]) -> (r: Result<Vec<u8>, PngError>)
    requires
        rgba@.len() == width * height * 4,
    ensures
        r matches Ok(bytes) ==> bytes@ == png_encoding(width, height, rgba@),
{
    match encode_png(width, height, rgba) {
        Ok(bytes) => Ok(bytes),
        Err(e) => Err(PngError(e)),
    }
}

} // verus!
