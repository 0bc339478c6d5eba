//! Rectangular grids of interleaved 8-bit samples.

use vstd::prelude::*;

verus! {

/// Mathematical model of a pixel buffer: its dimensions, the number of
/// channels per pixel and the row-major, channel-interleaved samples.
pub struct Pixels {
    pub width: nat,
    pub height: nat,
    pub channels: nat,
    pub samples: Seq<u8>,
}

impl Pixels {
    /// The layout invariant: three or four channels, and exactly
    /// `width * height * channels` samples.
    pub open spec fn wf(self) -> bool {
        &&& (self.channels == 3 || self.channels == 4)
        &&& self.samples.len() == self.width * self.height * self.channels
    }

    /// Position of channel `c` of pixel `(x, y)` in the sample sequence.
    pub open spec fn offset(self, x: int, y: int, c: int) -> int {
        (y * self.width + x) * self.channels + c
    }

    /// Channel `c` of pixel `(x, y)`.
    pub open spec fn sample(self, x: int, y: int, c: int) -> u8 {
        self.samples[self.offset(x, y, c)]
    }

    /// The same image with an alpha channel: an image without one gets a
    /// fully opaque one.
    pub open spec fn with_alpha(self) -> Pixels {
        if self.channels == 4 {
            self
        } else {
            Pixels {
                width: self.width,
                height: self.height,
                channels: 4,
                samples: Seq::new(
                    self.width * self.height * 4,
                    |k: int|
                        if k % 4 == 3 {
                            255u8
                        } else {
                            self.samples[(k / 4) * 3 + k % 4]
                        },
                ),
            }
        }
    }

    /// Whether `(x, y)` names a pixel of the grid.
    pub open spec fn contains(self, x: int, y: int) -> bool {
        0 <= x < self.width && 0 <= y < self.height
    }
}

/// The samples of a pixel inside the grid lie inside the sample sequence,
/// and the pixel's number lies below the number of pixels.
pub proof fn lemma_offset_in_bounds(p: Pixels, x: int, y: int, c: int)
    requires
        p.wf(),
        p.contains(x, y),
        0 <= c < p.channels,
    ensures
        0 <= p.offset(x, y, c) < p.samples.len(),
        0 <= y * p.width + x < p.width * p.height,
{
    let w = p.width as int;
    let h = p.height as int;
    let ch = p.channels as int;
    assert(y * w + x < w * h) by (nonlinear_arith)
        requires
            0 <= x < w,
            0 <= y < h,
    ;
    assert(0 <= y * w + x) by (nonlinear_arith)
        requires
            0 <= x < w,
            0 <= y < h,
    ;
    let k = y * w + x;
    assert(0 <= k * ch + c < (w * h) * ch) by (nonlinear_arith)
        requires
            0 <= k < w * h,
            0 <= c < ch,
    ;
}

/// A rectangular image: `width * height` pixels of `channels` 8-bit samples
/// each, stored row by row.
pub struct PixelBuffer {
    width: u32,
    height: u32,
    channels: u8,
    samples: Vec<u8>,
}

impl View for PixelBuffer {
    type V = Pixels;

    closed spec fn view(&self) -> Pixels {
        Pixels {
            width: self.width as nat,
            height: self.height as nat,
            channels: self.channels as nat,
            samples: self.samples@,
        }
    }
}

impl PixelBuffer {
    /// The layout invariant of the buffer; its dimensions are 32-bit.
    pub open spec fn wf(&self) -> bool {
        &&& self@.wf()
        &&& self@.width <= u32::MAX
        &&& self@.height <= u32::MAX
    }

    /// Builds a buffer from raw samples. The layout is validated first: the
    /// channel count must be 3 or 4 and the number of samples must be exactly
    /// `width * height * channels`, computed without overflow.
    pub fn from_raw(width: u32, height: u32, channels: u8, samples: Vec<u8>) -> (r: Option<
        PixelBuffer,
    >)
        ensures
            r is Some <==> ((channels == 3 || channels == 4) && samples@.len() == width * height
                * channels),
            r matches Some(b) ==> b.wf() && b@ == (Pixels {
                width: width as nat,
                height: height as nat,
                channels: channels as nat,
                samples: samples@,
            }),
    {
        if channels != 3 && channels != 4 {
            return None;
        }
        assert((width as u64) * (height as u64) <= 0xffff_fffe_0000_0001) by (nonlinear_arith)
            requires
                width <= 0xffff_ffff,
                height <= 0xffff_ffff,
        ;
        let area: u64 = (width as u64) * (height as u64);
        let needed: Option<u64> = area.checked_mul(channels as u64);
        let len: usize = samples.len();
        match needed {
            Some(n) => {
                if len as u64 == n {
                    assert(samples@.len() == width * height * channels);
                    Some(PixelBuffer { width, height, channels, samples })
                } else {
                    None
                }
            },
            None => {
                assert(area * channels > len);
                None
            },
        }
    }

    /// Channel `c` of the pixel in column `x` of row `y`.
    pub fn get(&self, x: u32, y: u32, c: u8) -> (s: u8)
        requires
            self.wf(),
            self@.contains(x as int, y as int),
            c < self@.channels,
        ensures
            s == self@.sample(x as int, y as int, c as int),
    {
        let len: usize = self.samples.len();
        proof {
            lemma_offset_in_bounds(self@, x as int, y as int, c as int);
            let k = y * self.width + x;
            let ch = self.channels as int;
            assert(0 <= y * self.width <= k) by (nonlinear_arith)
                requires
                    0 <= y,
                    0 <= self.width,
                    0 <= x,
                    k == y * self.width + x,
            ;
            assert(k <= k * ch) by (nonlinear_arith)
                requires
                    0 <= k,
                    1 <= ch,
            ;
            assert(k * ch + c < len);
        }
        let pixel: usize = (y as usize) * (self.width as usize) + (x as usize);
        let at: usize = pixel * (self.channels as usize) + (c as usize);
        self.samples[at]
    }

    /// Number of pixels.
    pub fn area(&self) -> (n: usize)
        requires
            self.wf(),
        ensures
            n == self@.width * self@.height,
    {
        let len: usize = self.samples.len();
        proof {
            let a = self.width * self.height;
            let ch = self.channels as int;
            assert(0 <= a) by (nonlinear_arith)
                requires
                    a == self.width * self.height,
                    0 <= self.width,
                    0 <= self.height,
            ;
            assert(a <= a * ch) by (nonlinear_arith)
                requires
                    0 <= a,
                    1 <= ch,
            ;
        }
        (self.width as usize) * (self.height as usize)
    }

    /// A copy of the image with four channels: an image without an alpha
    /// channel gets a fully opaque one.
    pub fn to_rgba(&self) -> (out: PixelBuffer)
        requires
            self.wf(),
        ensures
            out.wf(),
            out@ == self@.with_alpha(),
    {
        let n: usize = self.area();
        let mut samples: Vec<u8> = Vec::new();
        if self.channels == 4 {
            let mut i: usize = 0;
            while i < self.samples.len()
                invariant
                    i <= self.samples@.len(),
                    samples@ == self.samples@.subrange(0, i as int),
                decreases self.samples@.len() - i,
            {
                samples.push(self.samples[i]);
                i = i + 1;
                assert(samples@ =~= self.samples@.subrange(0, i as int));
            }
            assert(samples@ =~= self.samples@);
            return PixelBuffer {
                width: self.width,
                height: self.height,
                channels: 4,
                samples,
            };
        }
        let ghost wanted = self@.with_alpha().samples;
        let len: usize = self.samples.len();
        let mut k: usize = 0;
        while k < n
            invariant
                self.wf(),
                len == self.samples@.len(),
                self.channels == 3,
                n == self@.width * self@.height,
                wanted == self@.with_alpha().samples,
                k <= n,
                samples@.len() == 4 * k,
                forall|j: int| 0 <= j < 4 * k ==> samples@[j] == wanted[j],
            decreases n - k,
        {
            assert(3 * k + 2 < len) by (nonlinear_arith)
                requires
                    k < n,
                    len == n * 3,
            ;
            samples.push(self.samples[3 * k]);
            samples.push(self.samples[3 * k + 1]);
            samples.push(self.samples[3 * k + 2]);
            samples.push(255);
            k = k + 1;
        }
        assert(samples@ =~= wanted);
        PixelBuffer { width: self.width, height: self.height, channels: 4, samples }
    }

    /// The samples, row by row, the channels of each pixel side by side.
    pub fn samples(&self) -> (s: &Vec<u8>)
        ensures
            s@ == self@.samples,
    {
        &self.samples
    }

    /// Gives the samples up.
    pub fn into_raw(self) -> (s: Vec<u8>)
        ensures
            s@ == self@.samples,
    {
        self.samples
    }

    pub fn width(&self) -> (w: u32)
        ensures
            w == self@.width,
    {
        self.width
    }

    pub fn height(&self) -> (h: u32)
        ensures
            h == self@.height,
    {
        self.height
    }

    pub fn channels(&self) -> (c: u8)
        ensures
            c == self@.channels,
    {
        self.channels
    }
}

} // verus!
