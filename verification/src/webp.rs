//! Layout of decoded WebP images: what must be known of a WebP file before
//! the bytes that a decoder hands out may be taken for pixels.

use crate::pixel::{PixelBuffer, Pixels};
use vstd::prelude::*;

verus! {

/// What the header of a WebP file says of the image.
#[derive(Debug, Clone, Copy, PartialEq, Eq)]
pub struct WebpFeatures {
    pub width: i32,
    pub height: i32,
    /// 1 if the image has an alpha channel.
    pub has_alpha: i32,
    /// 1 if the file holds an animation.
    pub has_animation: i32,
}

/// Dimensions, channel count and number of samples of a decoded image.
#[derive(Debug, Clone, Copy, PartialEq, Eq)]
pub struct WebpLayout {
    pub width: u32,
    pub height: u32,
    pub channels: u8,
    pub len: usize,
}

impl WebpFeatures {
    /// Number of channels that the image decodes to.
    pub open spec fn channels(self) -> u8 {
        if self.has_alpha == 1 {
            4
        } else {
            3
        }
    }

    /// Whether the image can be decoded into one pixel buffer: it is a still
    /// image, its dimensions are not negative and its samples are no more
    /// than one buffer can hold.
    pub open spec fn decodable(self) -> bool {
        &&& self.has_animation != 1
        &&& self.width >= 0
        &&& self.height >= 0
        &&& self.width * self.height * self.channels() <= isize::MAX
    }

    /// The layout of the decoded image, where the image can be decoded.
    pub fn layout(&self) -> (layout: Option<WebpLayout>)
        ensures
            layout is Some <==> self.decodable(),
            layout matches Some(l) ==> l.width == self.width && l.height == self.height
                && l.channels == self.channels() && l.len == self.width * self.height
                * self.channels(),
    {
        if self.has_animation == 1 || self.width < 0 || self.height < 0 {
            return None;
        }
        let channels: u8 = if self.has_alpha == 1 {
            4
        } else {
            3
        };
        let width: u64 = self.width as u64;
        let height: u64 = self.height as u64;
        assert(width * height <= 0x7fff_ffff * 0x7fff_ffff) by (nonlinear_arith)
            requires
                0 <= width <= 0x7fff_ffff,
                0 <= height <= 0x7fff_ffff,
        ;
        let area: u64 = width * height;
        assert(area * channels <= 0x7fff_ffff * 0x7fff_ffff * 4) by (nonlinear_arith)
            requires
                0 <= area <= 0x7fff_ffff * 0x7fff_ffff,
                0 <= channels <= 4,
        ;
        let len: u64 = area * (channels as u64);
        if len > isize::MAX as u64 {
            return None;
        }
        Some(
            WebpLayout {
                width: self.width as u32,
                height: self.height as u32,
                channels,
                len: len as usize,
            },
        )
    }
}

impl WebpLayout {
    /// Takes decoded samples for the pixels of this layout, if they are as
    /// many as the layout needs.
    pub fn buffer(&self, samples: Vec<u8>) -> (img: Option<PixelBuffer>)
        ensures
            img is Some <==> ((self.channels == 3 || self.channels == 4) && samples@.len()
                == self.width * self.height * self.channels),
            img matches Some(b) ==> b.wf() && b@ == (Pixels {
                width: self.width as nat,
                height: self.height as nat,
                channels: self.channels as nat,
                samples: samples@,
            }),
    {
        PixelBuffer::from_raw(self.width, self.height, self.channels, samples)
    }
}

/// What a WebP file decodes to, given what its header says and the samples
/// that the codec handed out: the image of that layout. Nothing where the
/// image cannot be decoded into one buffer or the samples are not as many as
/// the layout needs.
pub fn decode(features: &WebpFeatures, samples: Vec<u8>) -> (img: Option<PixelBuffer>)
    ensures
        img is Some <==> features.decodable() && samples@.len() == features.width
            * features.height * features.channels(),
        img matches Some(b) ==> b.wf() && b@ == (Pixels {
            width: features.width as nat,
            height: features.height as nat,
            channels: features.channels() as nat,
            samples: samples@,
        }),
{
    match features.layout() {
        Some(layout) => layout.buffer(samples),
        None => None,
    }
}

} // verus!
