//! Encoding the rendered tile buffer as a PNG file in memory.
use vstd::prelude::*;
use crate::tiles::{row_major_image, row_major_pixels, PixelData};

verus! {

#[verifier::external_type_specification]
#[verifier::external_body]
pub struct ExPngEncodingError(png::EncodingError);

/// The bytes of the PNG file, 8-bit RGB with the encoder's default options,
/// that `png` writes for a `width` x `height` image whose row-major RGB bytes
/// are `rgb`.
pub uninterp spec fn png_rgb8_file(width: u32, height: u32, rgb: Seq<u8>) -> Seq<u8>;

/// Encodes `rgb` through `png::Encoder` (`new`, `set_color(Rgb)`,
/// `set_depth(Eight)`, `write_header`, `write_image_data`) into memory.
/// Claimed of it: it fails exactly when a dimension is zero or `rgb` does not
/// hold `width * height * 3` bytes (the checks in `Writer::init` and
/// `write_image_data`; writes into a `Vec` cannot fail), and otherwise yields
/// the file named `png_rgb8_file`. Inputs on which the encoder's own size
/// arithmetic (`1 + width * 3` bytes per row, `width * 3 * height` bytes in
/// all) would overflow `usize` are left out.
#[verifier::external_body]
fn png_encode_rgb8(width: u32, height: u32, rgb: &[u8]) -> (result: Result<Vec<u8>, png::EncodingError>)
    requires
        width * 3 < usize::MAX,
        width * height * 3 <= usize::MAX,
    ensures
        result is Ok <==> (width > 0 && height > 0 && rgb@.len() == width * height * 3),
        result matches Ok(bytes) ==> bytes@ == png_rgb8_file(width, height, rgb@),
{
    let mut bytes: Vec<u8> = Vec::new();
    let mut encoder = png::Encoder::new(&mut bytes, width, height);
    encoder.set_color(png::ColorType::Rgb);
    encoder.set_depth(png::BitDepth::Eight);
    encoder.write_header()?.write_image_data(rgb)?;
    Ok(bytes)
}

/// Why a tile buffer could not be encoded.
#[derive(Clone, Copy, Debug, PartialEq, Eq)]
pub enum PngWriteError {
    /// The encoder refused the image: one of its dimensions is zero.
    Encoding,
}

/// Unshuffles a tile buffer into a row-major image and encodes it as a PNG
/// file, returned as bytes.
pub fn encode_png(width: u32, height: u32, tile_pixels: &[PixelData]) -> (result: Result<Vec<u8>, PngWriteError>)
    requires
        width * 3 < usize::MAX,
        width * height * 3 <= usize::MAX,
        tile_pixels@.len() > 0 ==> width > 0,
    ensures
        result is Ok <==> (width > 0 && height > 0),
        result matches Ok(bytes) ==> bytes@ == png_rgb8_file(
            width,
            height,
            row_major_image(tile_pixels@, width as int, height as int),
        ),
        result matches Err(e) ==> e == PngWriteError::Encoding,
{
    let image_pixels = row_major_pixels(width, height, tile_pixels);
    match png_encode_rgb8(width, height, image_pixels.as_slice()) {
        Ok(bytes) => Ok(bytes),
        Err(_) => Err(PngWriteError::Encoding),
    }
}

} // verus!
