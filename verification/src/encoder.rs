//! Encoding of pixel buffers as PNG files.

use crate::decoder::image_error_text;
use crate::error::Error;
use crate::pixel::PixelBuffer;
use image::codecs::png::{CompressionType, FilterType, PngEncoder};
use image::{ColorType, ImageEncoder, ImageError};
use vstd::prelude::*;

verus! {

/// The PNG file of an image with `channels` 8-bit channels; `None` where the
/// encoder fails.
pub uninterp spec fn png_encoded(width: u32, height: u32, channels: u8, samples: Seq<u8>) -> Option<
    Seq<u8>,
>;

/// The plain content of an encoding result.
pub open spec fn png_found(encoded: Result<Vec<u8>, ImageError>) -> Option<Seq<u8>> {
    match encoded {
        Ok(file) => Some(file@),
        Err(_) => None,
    }
}

/// The two sample layouts that are encoded.
pub enum Layout {
    Rgb,
    Rgba,
}

impl Layout {
    /// Number of samples per pixel.
    pub open spec fn channels(self) -> u8 {
        match self {
            Layout::Rgb => 3,
            Layout::Rgba => 4,
        }
    }
}

/// `PngEncoder::new_with_quality` with fast compression and the sub filter,
/// then `ImageEncoder::write_image`: writes the samples as a PNG file into a
/// fresh buffer. The file depends on the dimensions, the layout and the
/// samples alone. The encoder stops the program on a buffer whose length
/// does not match the dimensions, hence the precondition.
#[verifier::external_body]
fn write_png(width: u32, height: u32, layout: Layout, samples: &[u8]) -> (encoded: Result<
    Vec<u8>,
    ImageError,
>)
    requires
        samples@.len() == width * height * layout.channels(),
    ensures
        png_found(encoded) == png_encoded(width, height, layout.channels(), samples@),
{
    let mut file = Vec::new();
    let encoder = PngEncoder::new_with_quality(&mut file, CompressionType::Fast, FilterType::Sub);
    let color = match layout {
        Layout::Rgb => ColorType::Rgb8,
        Layout::Rgba => ColorType::Rgba8,
    };
    encoder.write_image(samples, width, height, color).map(|_| file)
}

/// Turns an encoding result into the file or the failure that it stands
/// for.
pub fn png_file(encoded: Result<Vec<u8>, ImageError>) -> (file: Result<Vec<u8>, Error>)
    ensures
        file matches Ok(f) ==> png_found(encoded) == Some(f@),
        file matches Err(e) ==> e is Image && png_found(encoded) is None,
{
    match encoded {
        Ok(f) => Ok(f),
        Err(failure) => Err(Error::Image(image_error_text(&failure))),
    }
}

/// Encodes an image as a PNG file.
pub fn encode_png(img: &PixelBuffer) -> (file: Result<Vec<u8>, Error>)
    requires
        img.wf(),
    ensures
        file matches Ok(f) ==> png_encoded(
            img@.width as u32,
            img@.height as u32,
            img@.channels as u8,
            img@.samples,
        ) == Some(f@),
        file matches Err(e) ==> e is Image && png_encoded(
            img@.width as u32,
            img@.height as u32,
            img@.channels as u8,
            img@.samples,
        ) is None,
{
    let layout: Layout = if img.channels() == 3 {
        Layout::Rgb
    } else {
        Layout::Rgba
    };
    png_file(write_png(img.width(), img.height(), layout, img.samples().as_slice()))
}

} // verus!
