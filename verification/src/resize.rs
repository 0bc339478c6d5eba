//! Resizing of images by convolution, with alpha premultiplied for the
//! duration of the resampling.

use crate::pixel::PixelBuffer;
use fast_image_resize::{FilterType, Image, MulDiv, PixelType, ResizeAlg, Resizer};
use std::num::NonZeroU32;
use vstd::prelude::*;

verus! {

/// `fast_image_resize::FilterType`: the choice of a convolution filter,
/// handed through to the resizer.
#[verifier::external_type_specification]
#[verifier::external_body]
pub struct ExFilterType(FilterType);

/// `Image::from_vec_u8`, then `MulDiv::multiply_alpha_inplace`: multiplies
/// the colour channels of every pixel of an RGBA buffer by its alpha. The
/// resizing library refuses a buffer that does not start at the address of
/// a four-byte word; the result is `None` then. The samples that come out
/// are as many as went in; their values depend on the instruction set that
/// the library selects on the machine.
#[verifier::external_body]
fn premultiplied(width: u32, height: u32, samples: Vec<u8>) -> (out: Option<Vec<u8>>)
    requires
        width > 0,
        height > 0,
        width * height <= u32::MAX,
        samples@.len() == width * height * 4,
    ensures
        out matches Some(s) ==> s@.len() == samples@.len(),
{
    let w = NonZeroU32::new(width)?;
    let h = NonZeroU32::new(height)?;
    let mut img = Image::from_vec_u8(w, h, samples, PixelType::U8x4).ok()?;
    MulDiv::default().multiply_alpha_inplace(&mut img.view_mut()).ok()?;
    Some(img.into_vec())
}

/// `Image::from_vec_u8`, then `MulDiv::divide_alpha_inplace`: divides the
/// colour channels of every pixel of an RGBA buffer by its alpha. `None`
/// where the library refuses the buffer for its address. The samples that
/// come out are as many as went in.
#[verifier::external_body]
fn unpremultiplied(width: u32, height: u32, samples: Vec<u8>) -> (out: Option<Vec<u8>>)
    requires
        width > 0,
        height > 0,
        width * height <= u32::MAX,
        samples@.len() == width * height * 4,
    ensures
        out matches Some(s) ==> s@.len() == samples@.len(),
{
    let w = NonZeroU32::new(width)?;
    let h = NonZeroU32::new(height)?;
    let mut img = Image::from_vec_u8(w, h, samples, PixelType::U8x4).ok()?;
    MulDiv::default().divide_alpha_inplace(&mut img.view_mut()).ok()?;
    Some(img.into_vec())
}

/// `Image::from_vec_u8` on both buffers, then `Resizer::resize` with the
/// convolution algorithm: resamples the RGBA image `samples` into `target`,
/// the buffer of the new size. `None` where the library refuses one of the
/// buffers for its address. The buffer that comes out is as long as
/// `target`. Between its two passes the resizer holds an image of the new
/// width and up to the old height, whose pixels it counts in 32 bits and
/// whose bytes it counts in the machine's word: hence the last two
/// preconditions.
#[verifier::external_body]
fn convolved(
    width: u32,
    height: u32,
    samples: Vec<u8>,
    nwidth: u32,
    nheight: u32,
    target: Vec<u8>,
    filter: FilterType,
) -> (out: Option<Vec<u8>>)
    requires
        width > 0,
        height > 0,
        nwidth > 0,
        nheight > 0,
        width * height <= u32::MAX,
        nwidth * nheight * 4 <= u32::MAX,
        nwidth * height <= u32::MAX,
        nwidth * height * 4 + 4 <= usize::MAX,
        samples@.len() == width * height * 4,
        target@.len() == nwidth * nheight * 4,
    ensures
        out matches Some(s) ==> s@.len() == target@.len(),
{
    let (w, h) = (NonZeroU32::new(width)?, NonZeroU32::new(height)?);
    let src = Image::from_vec_u8(w, h, samples, PixelType::U8x4).ok()?;
    let (nw, nh) = (NonZeroU32::new(nwidth)?, NonZeroU32::new(nheight)?);
    let mut dst = Image::from_vec_u8(nw, nh, target, PixelType::U8x4).ok()?;
    let mut resizer = Resizer::new(ResizeAlg::Convolution(filter));
    resizer.resize(&src.view(), &mut dst.view_mut()).ok()?;
    Some(dst.into_vec())
}

/// A buffer of `n` zero samples.
fn blank(n: usize) -> (buffer: Vec<u8>)
    ensures
        buffer@.len() == n,
{
    let mut buffer: Vec<u8> = Vec::new();
    let mut i: usize = 0;
    while i < n
        invariant
            i <= n,
            buffer@.len() == i,
        decreases n - i,
    {
        buffer.push(0);
        i = i + 1;
    }
    buffer
}

/// The sizes that can be resized from and to: neither image is empty, the
/// pixels of each can be counted in 32 bits, and so can those of the image
/// of the new width and the old height that the resizer holds between its
/// passes, whose bytes must fit in memory.
pub open spec fn resizable(width: nat, height: nat, nwidth: u32, nheight: u32) -> bool {
    &&& width > 0
    &&& height > 0
    &&& nwidth > 0
    &&& nheight > 0
    &&& width * height <= u32::MAX
    &&& nwidth * nheight * 4 <= u32::MAX
    &&& nwidth * height <= u32::MAX
    &&& nwidth * height * 4 + 4 <= usize::MAX
}

/// Decides whether an image can be resized to `nwidth` by `nheight` pixels.
pub fn can_resize(image: &PixelBuffer, nwidth: u32, nheight: u32) -> (yes: bool)
    requires
        image.wf(),
    ensures
        yes == resizable(image@.width, image@.height, nwidth, nheight),
{
    let width: u64 = image.width() as u64;
    let height: u64 = image.height() as u64;
    let new_width: u64 = nwidth as u64;
    let new_height: u64 = nheight as u64;
    assert(width * height <= 0xffff_ffff * 0xffff_ffff) by (nonlinear_arith)
        requires
            0 <= width <= 0xffff_ffff,
            0 <= height <= 0xffff_ffff,
    ;
    assert(new_width * new_height <= 0xffff_ffff * 0xffff_ffff) by (nonlinear_arith)
        requires
            0 <= new_width <= 0xffff_ffff,
            0 <= new_height <= 0xffff_ffff,
    ;
    assert(new_width * height <= 0xffff_ffff * 0xffff_ffff) by (nonlinear_arith)
        requires
            0 <= new_width <= 0xffff_ffff,
            0 <= height <= 0xffff_ffff,
    ;
    if width == 0 || height == 0 || nwidth == 0 || nheight == 0 {
        return false;
    }
    if width * height > u32::MAX as u64 || new_width * new_height > (u32::MAX / 4) as u64 {
        return false;
    }
    let between: u64 = new_width * height;
    between <= u32::MAX as u64 && between * 4 + 4 <= usize::MAX as u64
}

/// Resizes an image to `nwidth` by `nheight` pixels with the given filter.
/// The result is an RGBA image; an image without an alpha channel counts as
/// fully opaque. The pixel values are those that the resizing library
/// computes on this machine. The library works on buffers that start at the
/// address of a four-byte word and refuses others: the result is `None`
/// where the allocator hands out one that does not.
pub fn resize(image: &PixelBuffer, nwidth: u32, nheight: u32, filter: FilterType) -> (out: Option<
    PixelBuffer,
>)
    requires
        image.wf(),
        resizable(image@.width, image@.height, nwidth, nheight),
    ensures
        out matches Some(b) ==> b.wf() && b@.width == nwidth && b@.height == nheight
            && b@.channels == 4,
{
    let rgba: PixelBuffer = image.to_rgba();
    let width: u32 = rgba.width();
    let height: u32 = rgba.height();
    assert(nwidth * nheight * 4 == (nwidth * nheight) * 4) by (nonlinear_arith);
    assert(0 <= nwidth * nheight <= nwidth * nheight * 4) by (nonlinear_arith)
        requires
            0 <= nwidth,
            0 <= nheight,
    ;
    let target: Vec<u8> = blank((nwidth as usize) * (nheight as usize) * 4);
    let source: Vec<u8> = match premultiplied(width, height, rgba.into_raw()) {
        Some(s) => s,
        None => {
            return None;
        },
    };
    let resampled: Vec<u8> = match convolved(
        width,
        height,
        source,
        nwidth,
        nheight,
        target,
        filter,
    ) {
        Some(s) => s,
        None => {
            return None;
        },
    };
    match unpremultiplied(nwidth, nheight, resampled) {
        Some(samples) => PixelBuffer::from_raw(nwidth, nheight, 4, samples),
        None => None,
    }
}

} // verus!
