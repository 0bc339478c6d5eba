//! Decoding of fetched image files into pixel buffers.
//!
//! What a file decodes to is not a function of its bytes: the codecs pick
//! their arithmetic by the processor they run on, and the samples they give
//! differ in the last bits from one machine to the next. So the contracts
//! here state what holds of every outcome, and everything that is made of a
//! decoded image is stated over the image that came out.

use crate::error::Error;
use crate::pixel::{PixelBuffer, Pixels};
use image::io::{Limits, Reader};
use image::ImageError;
use std::io::Cursor;
use vstd::prelude::*;
use vstd::string::StringExecFns;

verus! {

/// `image::ImageError`: a failure of a codec, opaque to the proofs.
#[verifier::external_type_specification]
#[verifier::external_body]
pub struct ExImageError(ImageError);

/// Dimensions and samples as a decoder hands them out.
pub struct Raster {
    pub width: u32,
    pub height: u32,
    pub samples: Vec<u8>,
}

/// The plain content of a decoding result.
pub open spec fn raster_found(decoded: Result<Raster, ImageError>) -> Option<(u32, u32, Seq<u8>)> {
    match decoded {
        Ok(r) => Some((r.width, r.height, r.samples@)),
        Err(_) => None,
    }
}

/// `image::load_from_memory`, then `DynamicImage::to_rgba8`: guesses the
/// format of an image file, decodes it and converts the pixels to 8-bit RGBA.
/// The converted buffer holds exactly four samples for each pixel. Whether
/// the file decodes and to which samples is the codec's to say.
#[verifier::external_body]
fn load_rgba(bytes: &[u8]) -> (decoded: Result<Raster, ImageError>)
    ensures
        decoded matches Ok(r) ==> r.samples@.len() == r.width * r.height * 4,
{
    image::load_from_memory(bytes).map(
        |img|
            {
                let rgba = img.to_rgba8();
                Raster { width: rgba.width(), height: rgba.height(), samples: rgba.into_raw() }
            },
    )
}

/// `Reader::with_guessed_format` and `Reader::decode` under `Limits` on
/// width and height, then `DynamicImage::to_rgba8`: guesses the format of an
/// image file, decodes it unless it is larger than the limits allow and
/// converts the pixels to 8-bit RGBA. An image that comes out is within the
/// limits, and the converted buffer holds exactly four samples for each
/// pixel. A failure to read the bytes counts as a failure of the codec.
#[verifier::external_body]
fn load_rgba_within(bytes: &[u8], max_width: u32, max_height: u32) -> (decoded: Result<
    Raster,
    ImageError,
>)
    ensures
        decoded matches Ok(r) ==> r.samples@.len() == r.width * r.height * 4,
        decoded matches Ok(r) ==> r.width <= max_width && r.height <= max_height,
{
    let mut limits = Limits::default();
    limits.max_image_width = Some(max_width);
    limits.max_image_height = Some(max_height);
    let mut reader = Reader::new(Cursor::new(bytes));
    reader.limits(limits);
    let img = reader.with_guessed_format().map_err(ImageError::IoError)?.decode()?;
    let rgba = img.to_rgba8();
    Ok(Raster { width: rgba.width(), height: rgba.height(), samples: rgba.into_raw() })
}

/// `to_string` of `ImageError`: the message of a codec failure, of which
/// nothing is claimed.
#[verifier::external_body]
pub(crate) fn image_error_text(failure: &ImageError) -> (text: String) {
    failure.to_string()
}

/// The image that a decoding result stands for, if its samples match its
/// dimensions.
pub open spec fn image_of(found: Option<(u32, u32, Seq<u8>)>) -> Option<Pixels> {
    match found {
        Some((width, height, samples)) => if samples.len() == width * height * 4 {
            Some(
                Pixels { width: width as nat, height: height as nat, channels: 4, samples },
            )
        } else {
            None
        },
        None => None,
    }
}

/// Turns a decoding result into a pixel buffer. A result whose samples do
/// not match its dimensions is rejected like a failure to decode.
pub fn rgba_image(decoded: Result<Raster, ImageError>) -> (img: Result<PixelBuffer, Error>)
    ensures
        img matches Ok(b) ==> b.wf() && image_of(raster_found(decoded)) == Some(b@),
        img matches Err(e) ==> e is Image && image_of(raster_found(decoded)) is None,
{
    match decoded {
        Ok(raster) => match PixelBuffer::from_raw(raster.width, raster.height, 4, raster.samples) {
            Some(b) => Ok(b),
            None => Err(Error::Image(String::from_str("samples do not match the dimensions"))),
        },
        Err(failure) => Err(Error::Image(image_error_text(&failure))),
    }
}

/// Decodes an image file into an RGBA pixel buffer. Bytes that the codecs do
/// not take for an image are refused.
pub fn decode_image(bytes: &[u8]) -> (img: Result<PixelBuffer, Error>)
    ensures
        img matches Ok(b) ==> b.wf() && b@.channels == 4,
        img matches Err(e) ==> e is Image,
{
    rgba_image(load_rgba(bytes))
}

/// Decodes an image file into an RGBA pixel buffer, unless the image is wider
/// than `max_width` or higher than `max_height`.
pub fn decode_image_within(bytes: &[u8], max_width: u32, max_height: u32) -> (img: Result<
    PixelBuffer,
    Error,
>)
    ensures
        img matches Ok(b) ==> b.wf() && b@.channels == 4 && b@.width <= max_width && b@.height
            <= max_height,
        img matches Err(e) ==> e is Image,
{
    rgba_image(load_rgba_within(bytes, max_width, max_height))
}

} // verus!
