//! The image operations: what each one makes of the bytes that were fetched.

use crate::decoder::{decode_image, decode_image_within};
use crate::encoder::{encode_png, png_encoded};
use crate::error::Error;
use crate::oil::{oil_paint, oil_painted, paintable};
use crate::pixel::{PixelBuffer, Pixels};
use crate::request::{OverlayStyle, MAX_BACKGROUND_SIDE, PROFILE_HEIGHT, PROFILE_WIDTH};
use image::imageops::FilterType;
use image::{ImageBuffer, Rgba, RgbaImage};
use vstd::prelude::*;
use vstd::string::StringExecFns;

verus! {

/// Side of the square that `pixelate` blows an image up to.
pub const PIXELATED_SIDE: u32 = 1024;

/// Neighbourhood radius of the oil-paint operation.
pub const OIL_RADIUS: u32 = 4;

/// Quantization factor of the oil-paint operation.
pub const OIL_INTENSITY: u16 = 55;

/// The sampling filters that images are resized with.
#[derive(Debug, Clone, Copy, PartialEq, Eq)]
pub enum Kernel {
    /// Every pixel is taken from the nearest pixel of the source.
    Nearest,
    /// Every pixel is a weighted mean of the pixels around its place in the
    /// source, with the weights of a windowed sinc function.
    Lanczos3,
}

/// The samples of an RGBA image resampled to `nwidth` by `nheight` pixels,
/// each taken from the nearest pixel of the source.
pub uninterp spec fn resampled_nearest(
    width: u32,
    height: u32,
    samples: Seq<u8>,
    nwidth: u32,
    nheight: u32,
) -> Seq<u8>;

/// `image::imageops::resize` on an RGBA buffer. The result holds four samples
/// for each pixel of the new size. With the nearest-neighbour filter it
/// depends on the arguments alone; the weights of the other filter come from
/// the machine's sine function, so nothing is said of the values it gives.
/// Between its two passes the function holds an image of the old width and
/// the new height in four-byte samples; that buffer and the one of the new
/// size must fit in memory, or the function stops the program.
#[verifier::external_body]
fn resample(
    width: u32,
    height: u32,
    samples: Vec<u8>,
    nwidth: u32,
    nheight: u32,
    kernel: Kernel,
) -> (out: Vec<u8>)
    requires
        samples@.len() == width * height * 4,
        width * nheight * 16 <= isize::MAX,
        nwidth * nheight * 16 <= isize::MAX,
    ensures
        out@.len() == nwidth * nheight * 4,
        kernel is Nearest ==> out@ == resampled_nearest(width, height, samples@, nwidth, nheight),
{
    let source = RgbaImage::from_raw(width, height, samples).unwrap();
    let filter = match kernel {
        Kernel::Nearest => FilterType::Nearest,
        Kernel::Lanczos3 => FilterType::Lanczos3,
    };
    image::imageops::resize(&source, nwidth, nheight, filter).into_raw()
}

/// The samples of the RGBA image `bottom` after the RGBA image `top` has been
/// blended over it with its top left corner at `(x, y)`.
pub uninterp spec fn overlaid(
    width: u32,
    height: u32,
    bottom: Seq<u8>,
    top_width: u32,
    top_height: u32,
    top: Seq<u8>,
    x: i64,
    y: i64,
) -> Seq<u8>;

/// `image::imageops::overlay` on RGBA buffers: blends the part of `top` that
/// falls on `bottom` over it, pixel by pixel. The result depends on the
/// arguments alone and has the size of `bottom`.
#[verifier::external_body]
fn overlay_rgba(
    width: u32,
    height: u32,
    bottom: Vec<u8>,
    top_width: u32,
    top_height: u32,
    top: &[u8],
    x: i64,
    y: i64,
) -> (out: Vec<u8>)
    requires
        bottom@.len() == width * height * 4,
        top@.len() == top_width * top_height * 4,
    ensures
        out@ == overlaid(width, height, bottom@, top_width, top_height, top@, x, y),
        out@.len() == bottom@.len(),
{
    let mut img = RgbaImage::from_raw(width, height, bottom).unwrap();
    let over = ImageBuffer::<Rgba<u8>, &[u8]>::from_raw(top_width, top_height, top).unwrap();
    image::imageops::overlay(&mut img, &over, x, y);
    img.into_raw()
}

/// The samples of an RGBA image with every colour channel inverted and the
/// alpha channel kept.
pub open spec fn inverted(samples: Seq<u8>) -> Seq<u8> {
    Seq::new(
        samples.len(),
        |k: int|
            if k % 4 == 3 {
                samples[k]
            } else {
                (255 - samples[k]) as u8
            },
    )
}

/// Inverts the colour channels of RGBA samples and keeps the alpha channel.
fn invert_rgba(samples: Vec<u8>) -> (out: Vec<u8>)
    ensures
        out@ == inverted(samples@),
{
    let mut out: Vec<u8> = samples;
    let ghost before = out@;
    let mut k: usize = 0;
    while k < out.len()
        invariant
            k <= out@.len(),
            out@.len() == before.len(),
            forall|j: int| 0 <= j < k ==> out@[j] == inverted(before)[j],
            forall|j: int| k <= j < out@.len() ==> out@[j] == before[j],
        decreases out@.len() - k,
    {
        if k % 4 != 3 {
            let v: u8 = out[k];
            out.set(k, 255 - v);
        }
        k = k + 1;
    }
    assert(out@ =~= inverted(before));
    out
}

/// The image blown up to a square of `side` pixels by nearest-neighbour
/// sampling.
pub open spec fn blown_up(p: Pixels, side: u32) -> Pixels {
    Pixels {
        width: side as nat,
        height: side as nat,
        channels: 4,
        samples: resampled_nearest(
            p.width as u32,
            p.height as u32,
            p.with_alpha().samples,
            side,
            side,
        ),
    }
}

/// The image with its colours inverted.
pub open spec fn negative(p: Pixels) -> Pixels {
    Pixels {
        width: p.width,
        height: p.height,
        channels: 4,
        samples: inverted(p.with_alpha().samples),
    }
}

/// Whether the buffers of the pixelate operation fit in this machine's
/// memory.
pub open spec fn fits(p: Pixels) -> bool {
    p.width * PIXELATED_SIDE * 16 <= isize::MAX
}

/// Decides whether the buffers of the pixelate operation fit in memory.
pub fn can_pixelate(img: &PixelBuffer) -> (yes: bool)
    ensures
        yes == fits(img@),
{
    let width: u64 = img.width() as u64;
    width * 16384 <= isize::MAX as u64
}

/// Blows an image up to 1024 by 1024 pixels, each taken from the nearest
/// pixel of the source.
pub fn pixelated(img: &PixelBuffer) -> (out: PixelBuffer)
    requires
        img.wf(),
        fits(img@),
    ensures
        out.wf(),
        out@ == blown_up(img@, PIXELATED_SIDE),
{
    let rgba: PixelBuffer = img.to_rgba();
    let width: u32 = rgba.width();
    let height: u32 = rgba.height();
    let samples: Vec<u8> = resample(
        width,
        height,
        rgba.into_raw(),
        PIXELATED_SIDE,
        PIXELATED_SIDE,
        Kernel::Nearest,
    );
    PixelBuffer::from_raw(PIXELATED_SIDE, PIXELATED_SIDE, 4, samples).unwrap()
}

/// Inverts the colours of an image and keeps its alpha channel; an image
/// without one gets a fully opaque one.
pub fn inverted_image(img: &PixelBuffer) -> (out: PixelBuffer)
    requires
        img.wf(),
    ensures
        out.wf(),
        out@ == negative(img@),
{
    let rgba: PixelBuffer = img.to_rgba();
    let width: u32 = rgba.width();
    let height: u32 = rgba.height();
    let samples: Vec<u8> = invert_rgba(rgba.into_raw());
    PixelBuffer::from_raw(width, height, 4, samples).unwrap()
}

/// The PNG file of an image, if the encoder accepts it.
pub open spec fn png_of(p: Pixels) -> Option<Seq<u8>> {
    png_encoded(p.width as u32, p.height as u32, p.channels as u8, p.samples)
}

/// Whether `file` reports what was made of an image: the file where one was
/// made, a failure of the codec where none was.
pub open spec fn reports(file: Result<Vec<u8>, Error>, made: Option<Seq<u8>>) -> bool {
    match made {
        Some(f) => file matches Ok(out) && out@ == f,
        None => file matches Err(e) && e is Image,
    }
}

/// What a stage of decoding hands on: an RGBA image with a sound layout.
pub open spec fn decoded(p: Pixels) -> bool {
    p.wf() && p.channels == 4
}

/// What the pixelate operation makes of an image: the PNG file of the image
/// blown up to 1024 by 1024 pixels; nothing where the image is too wide for
/// the buffers to fit in memory or the encoder fails.
pub open spec fn pixelate_file(p: Pixels) -> Option<Seq<u8>> {
    if fits(p) {
        png_of(blown_up(p, PIXELATED_SIDE))
    } else {
        None
    }
}

/// The pixelate operation on a decoded image.
pub fn pixelate_render(img: &PixelBuffer) -> (file: Result<Vec<u8>, Error>)
    requires
        img.wf(),
    ensures
        reports(file, pixelate_file(img@)),
{
    if can_pixelate(img) {
        encode_png(&pixelated(img))
    } else {
        Err(Error::Image(String::from_str("image too wide")))
    }
}

/// The pixelate operation: decodes the bytes, blows the image up to 1024 by
/// 1024 pixels and encodes the result as PNG. The file that comes out is
/// what the operation makes of some decoded image: which one the bytes
/// decode to is the codec's to say.
pub fn pixelate(bytes: &[u8]) -> (file: Result<Vec<u8>, Error>)
    ensures
        file matches Ok(f) ==> exists|p: Pixels|
            decoded(p) && #[trigger] pixelate_file(p) == Some(f@),
        file matches Err(e) ==> e is Image,
{
    match decode_image(bytes) {
        Ok(img) => {
            let file = pixelate_render(&img);
            assert(file is Ok ==> decoded(img@) && pixelate_file(img@) == Some(file->Ok_0@));
            file
        },
        Err(e) => Err(e),
    }
}

/// What the invert operation makes of an image: the PNG file of its
/// negative; nothing where the encoder fails.
pub open spec fn invert_file(p: Pixels) -> Option<Seq<u8>> {
    png_of(negative(p))
}

/// The invert operation on a decoded image.
pub fn invert_render(img: &PixelBuffer) -> (file: Result<Vec<u8>, Error>)
    requires
        img.wf(),
    ensures
        reports(file, invert_file(img@)),
{
    encode_png(&inverted_image(img))
}

/// The invert operation: decodes the bytes, inverts the colours and encodes
/// the result as PNG. The file that comes out is what the operation makes
/// of some decoded image.
pub fn invert_endpoint(bytes: &[u8]) -> (file: Result<Vec<u8>, Error>)
    ensures
        file matches Ok(f) ==> exists|p: Pixels|
            decoded(p) && #[trigger] invert_file(p) == Some(f@),
        file matches Err(e) ==> e is Image,
{
    match decode_image(bytes) {
        Ok(img) => {
            let file = invert_render(&img);
            assert(file is Ok ==> decoded(img@) && invert_file(img@) == Some(file->Ok_0@));
            file
        },
        Err(e) => Err(e),
    }
}

/// Side of the square that a chess board is rasterized to.
pub const BOARD_SIDE: u32 = 390;

/// The chess operation on a rasterized board: takes the samples for an RGBA
/// image of 390 by 390 pixels and encodes it as PNG. `None` says that the
/// samples are not those of such an image.
pub fn genchess(samples: Vec<u8>) -> (file: Option<Result<Vec<u8>, Error>>)
    ensures
        file is Some <==> samples@.len() == BOARD_SIDE * BOARD_SIDE * 4,
        file matches Some(Ok(f)) ==> png_encoded(BOARD_SIDE, BOARD_SIDE, 4, samples@) == Some(f@),
        file matches Some(Err(e)) ==> e is Image && png_encoded(
            BOARD_SIDE,
            BOARD_SIDE,
            4,
            samples@,
        ) is None,
{
    match PixelBuffer::from_raw(BOARD_SIDE, BOARD_SIDE, 4, samples) {
        Some(board) => Some(encode_png(&board)),
        None => None,
    }
}

/// Whether the oil-paint operation is defined on an image: it needs at least
/// two rows and two columns.
pub fn can_paint(img: &PixelBuffer) -> (yes: bool)
    requires
        img.wf(),
    ensures
        yes == paintable(img@, OIL_RADIUS as nat),
{
    img.width() >= 2 && img.height() >= 2
}

/// The oil-paint operation on a decoded image: paints it with radius 4 and
/// quantization factor 55 and encodes the result as PNG.
pub fn oil_image(img: &PixelBuffer) -> (file: Result<Vec<u8>, Error>)
    requires
        img.wf(),
        paintable(img@, OIL_RADIUS as nat),
    ensures
        file matches Ok(f) ==> png_of(oil_painted(img@, OIL_RADIUS as nat, OIL_INTENSITY as nat))
            == Some(f@),
        file matches Err(e) ==> e is Image && png_of(
            oil_painted(img@, OIL_RADIUS as nat, OIL_INTENSITY as nat),
        ) is None,
{
    encode_png(&oil_paint(img, OIL_RADIUS, OIL_INTENSITY))
}

/// What the oil-paint operation makes of an image: the PNG file of the
/// painted image; nothing where the image has fewer than two rows or columns
/// or the encoder fails.
pub open spec fn oil_file(p: Pixels) -> Option<Seq<u8>> {
    if paintable(p, OIL_RADIUS as nat) {
        png_of(oil_painted(p, OIL_RADIUS as nat, OIL_INTENSITY as nat))
    } else {
        None
    }
}

/// The oil-paint operation on a decoded image. An image of fewer than two
/// rows or columns has no neighbourhood to paint a pixel from: it is refused
/// before the filter runs.
pub fn oil_render(img: &PixelBuffer) -> (file: Result<Vec<u8>, Error>)
    requires
        img.wf(),
    ensures
        reports(file, oil_file(img@)),
{
    if can_paint(img) {
        oil_image(img)
    } else {
        Err(Error::Image(String::from_str("image of a single row or column")))
    }
}

/// The oil-paint operation: decodes the bytes, paints the image in oil and
/// encodes the result as PNG. The file that comes out is what the operation
/// makes of some decoded image.
pub fn oil_endpoint(bytes: &[u8]) -> (file: Result<Vec<u8>, Error>)
    ensures
        file matches Ok(f) ==> exists|p: Pixels|
            decoded(p) && #[trigger] oil_file(p) == Some(f@),
        file matches Err(e) ==> e is Image,
{
    match decode_image(bytes) {
        Ok(img) => {
            let file = oil_render(&img);
            assert(file is Ok ==> decoded(img@) && oil_file(img@) == Some(file->Ok_0@));
            file
        },
        Err(e) => Err(e),
    }
}

/// The image `bottom` after `top` has been blended over it with its top left
/// corner at `(x, y)`.
pub open spec fn laid_over(bottom: Pixels, top: Pixels, x: i64, y: i64) -> Pixels {
    Pixels {
        width: bottom.width,
        height: bottom.height,
        channels: 4,
        samples: overlaid(
            bottom.width as u32,
            bottom.height as u32,
            bottom.with_alpha().samples,
            top.width as u32,
            top.height as u32,
            top.with_alpha().samples,
            x,
            y,
        ),
    }
}

/// Blends `top` over `bottom` with its top left corner at `(x, y)`. What
/// falls beside `bottom` is cut off.
pub fn overlay(bottom: &PixelBuffer, top: &PixelBuffer, x: i64, y: i64) -> (out: PixelBuffer)
    requires
        bottom.wf(),
        top.wf(),
    ensures
        out.wf(),
        out@ == laid_over(bottom@, top@, x, y),
{
    let under: PixelBuffer = bottom.to_rgba();
    let over: PixelBuffer = top.to_rgba();
    let width: u32 = under.width();
    let height: u32 = under.height();
    let samples: Vec<u8> = overlay_rgba(
        width,
        height,
        under.into_raw(),
        over.width(),
        over.height(),
        over.samples().as_slice(),
        x,
        y,
    );
    PixelBuffer::from_raw(width, height, 4, samples).unwrap()
}

/// The background with the overlay of the style blended over it.
pub open spec fn styled(
    background: Pixels,
    style: OverlayStyle,
    dark: Pixels,
    light: Pixels,
) -> Pixels {
    match style {
        OverlayStyle::Dark => laid_over(background, dark, 0, 0),
        OverlayStyle::Light => laid_over(background, light, 0, 0),
        OverlayStyle::Plain => background,
    }
}

/// Finishes a profile background that has been brought to the size of the
/// template: blends the overlay of the style over it and encodes the result
/// as PNG.
pub fn overlay_background(
    background: PixelBuffer,
    style: OverlayStyle,
    dark: &PixelBuffer,
    light: &PixelBuffer,
) -> (file: Result<Vec<u8>, Error>)
    requires
        background.wf(),
        dark.wf(),
        light.wf(),
    ensures
        file matches Ok(f) ==> png_of(styled(background@, style, dark@, light@)) == Some(f@),
        file matches Err(e) ==> e is Image && png_of(styled(background@, style, dark@, light@))
            is None,
{
    match style {
        OverlayStyle::Dark => encode_png(&overlay(&background, dark, 0, 0)),
        OverlayStyle::Light => encode_png(&overlay(&background, light, 0, 0)),
        OverlayStyle::Plain => encode_png(&background),
    }
}

/// Whether the buffers for bringing an image to the size of the profile
/// template fit in this machine's memory.
pub open spec fn fits_template(p: Pixels) -> bool {
    p.width * PROFILE_HEIGHT * 16 <= isize::MAX
}

/// Decides whether the buffers for bringing an image to the size of the
/// profile template fit in memory.
pub fn can_fit_template(img: &PixelBuffer) -> (yes: bool)
    ensures
        yes == fits_template(img@),
{
    let width: u64 = img.width() as u64;
    width * 8528 <= isize::MAX as u64
}

/// Brings an image to the size of the profile template, 800 by 533 pixels,
/// with the Lanczos filter. The pixel values are those that the image
/// library computes on this machine.
pub fn fit_template(img: &PixelBuffer) -> (out: PixelBuffer)
    requires
        img.wf(),
        fits_template(img@),
    ensures
        out.wf(),
        out@.width == PROFILE_WIDTH,
        out@.height == PROFILE_HEIGHT,
        out@.channels == 4,
{
    let rgba: PixelBuffer = img.to_rgba();
    let width: u32 = rgba.width();
    let height: u32 = rgba.height();
    let samples: Vec<u8> = resample(
        width,
        height,
        rgba.into_raw(),
        PROFILE_WIDTH,
        PROFILE_HEIGHT,
        Kernel::Lanczos3,
    );
    PixelBuffer::from_raw(PROFILE_WIDTH, PROFILE_HEIGHT, 4, samples).unwrap()
}

/// An RGBA image of the size of the profile template.
pub open spec fn template_sized(q: Pixels) -> bool {
    q.wf() && q.width == PROFILE_WIDTH && q.height == PROFILE_HEIGHT && q.channels == 4
}

/// What the overlay operation makes of a background that has been brought to
/// the size of the template: the PNG file of the background with the overlay
/// of the style blended over it; nothing where the encoder fails.
pub open spec fn overlay_file(
    q: Pixels,
    style: OverlayStyle,
    dark: Pixels,
    light: Pixels,
) -> Option<Seq<u8>> {
    png_of(styled(q, style, dark, light))
}

/// The overlay operation on a decoded image: brings it to the size of the
/// profile template, blends the overlay of the style over it and encodes the
/// result as PNG. The resampled background is the image library's to say, so
/// the file, or the encoder's refusal, is that of some image of the size of
/// the template.
pub fn overlay_render(
    img: &PixelBuffer,
    style: OverlayStyle,
    dark: &PixelBuffer,
    light: &PixelBuffer,
) -> (file: Result<Vec<u8>, Error>)
    requires
        img.wf(),
        fits_template(img@),
        dark.wf(),
        light.wf(),
    ensures
        exists|q: Pixels|
            template_sized(q) && reports(file, #[trigger] overlay_file(q, style, dark@, light@)),
{
    let background: PixelBuffer = fit_template(img);
    let ghost q = background@;
    let file = overlay_background(background, style, dark, light);
    assert(template_sized(q) && reports(file, overlay_file(q, style, dark@, light@)));
    file
}

/// The overlay operation: decodes the bytes unless the image is larger than
/// 2000 by 2000 pixels, brings it to the size of the profile template, blends
/// the overlay of the style over it and encodes the result as PNG. The file
/// that comes out is that of some image of the size of the template with the
/// overlay over it.
pub fn genoverlay(
    bytes: &[u8],
    style: OverlayStyle,
    dark: &PixelBuffer,
    light: &PixelBuffer,
) -> (file: Result<Vec<u8>, Error>)
    requires
        dark.wf(),
        light.wf(),
    ensures
        file matches Ok(f) ==> exists|q: Pixels|
            template_sized(q) && #[trigger] overlay_file(q, style, dark@, light@) == Some(f@),
        file matches Err(e) ==> e is Image,
{
    match decode_image_within(bytes, MAX_BACKGROUND_SIDE, MAX_BACKGROUND_SIDE) {
        Ok(img) => {
            assert(img@.width * PROFILE_HEIGHT * 16 <= 2000 * 533 * 16) by (nonlinear_arith)
                requires
                    img@.width <= 2000,
                    PROFILE_HEIGHT == 533,
            ;
            overlay_render(&img, style, dark, light)
        },
        Err(e) => Err(e),
    }
}

} // verus!
