//! Encoding eight-bit RGB images as PNG files.
use vstd::prelude::*;
use image::codecs::png::{CompressionType, FilterType, PngEncoder};
use image::{ColorType, ImageEncoder, ImageError};

verus! {

#[verifier::external_type_specification]
#[verifier::external_body]
pub struct ExImageError(ImageError);

/// The PNG file, at the best compression and without filtering, of the image
/// of `width` by `height` pixels whose red, green and blue channels are
/// `rgb`, pixel after pixel; `None` where the encoder refuses the image.
pub uninterp spec fn png_file(rgb: Seq<u8>, width: u32, height: u32) -> Option<Seq<u8>>;

/// Calls `image::codecs::png::PngEncoder::write_image` for an `Rgb8` image,
/// writing into memory. The encoder panics where the number of bytes is not
/// three per pixel, hence the `requires`. The contract claims only that the
/// bytes, or the refusal, are a function of the arguments; nothing is stated
/// of the PNG format itself.
#[verifier::external_body]
fn encode_png(rgb: &[u8], width: u32, height: u32) -> (r: Result<Vec<u8>, ImageError>)
    requires
        rgb@.len() == width * height * 3,
    ensures
        match r {
            Ok(bytes) => png_file(rgb@, width, height) == Some(bytes@),
            Err(_) => png_file(rgb@, width, height) is None,
        },
{
    let mut bytes: Vec<u8> = Vec::new();
    let encoder = PngEncoder::new_with_quality(&mut bytes, CompressionType::Best, FilterType::NoFilter);
    encoder.write_image(rgb, width, height, ColorType::Rgb8)?;
    Ok(bytes)
}

/// The encoder refused the image.
#[derive(Debug, PartialEq, Eq, Structural, Clone, Copy)]
pub enum PngError {
    Refused,
}

/// The PNG file of the image of `width` by `height` pixels with channels
/// `rgb`, or `Refused` where the encoder refuses it.
pub fn png_bytes(rgb: &Vec<u8>, width: u32, height: u32) -> (r: Result<Vec<u8>, PngError>)
    requires
        rgb@.len() == width * height * 3,
    ensures
        match png_file(rgb@, width, height) {
            Some(bytes) => r matches Ok(v) && v@ == bytes,
            None => r == Err::<Vec<u8>, PngError>(PngError::Refused),
        },
{
    match encode_png(rgb.as_slice(), width, height) {
        Ok(bytes) => Ok(bytes),
        Err(_) => Err(PngError::Refused),
    }
}

} // verus!
