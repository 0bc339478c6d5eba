//! The oil-paint stylization filter: every output pixel takes the mean colour
//! of the most frequent intensity level in its neighbourhood.

use crate::pixel::{lemma_offset_in_bounds, PixelBuffer, Pixels};
use vstd::arithmetic::div_mod::{
    lemma_div_multiples_vanish, lemma_fundamental_div_mod, lemma_fundamental_div_mod_converse,
    lemma_multiply_divide_lt,
};
use std::collections::HashMap;
use vstd::prelude::*;

verus! {

/// Quantized intensity of a colour: the mean of its three channels scaled by
/// `intensity / 255` and rounded to the nearest integer. The scaled mean is
/// `(r + g + b) * intensity / 765`, which is never halfway between two
/// integers, so rounding is `floor(v + 1/2)`.
pub open spec fn level_of(r: u8, g: u8, b: u8, intensity: nat) -> nat {
    ((2 * (r + g + b) * intensity + 765) / 1530) as nat
}

/// The red, green and blue samples of pixel `(x, y)`.
pub open spec fn colour_at(p: Pixels, x: int, y: int) -> (u8, u8, u8) {
    (p.sample(x, y, 0), p.sample(x, y, 1), p.sample(x, y, 2))
}

/// Quantized intensity of pixel `(x, y)`.
pub open spec fn level_at(p: Pixels, intensity: nat, x: int, y: int) -> nat {
    level_of(p.sample(x, y, 0), p.sample(x, y, 1), p.sample(x, y, 2), intensity)
}

/// The quantities that are accumulated per intensity level.
pub enum Part {
    Count,
    Red,
    Green,
    Blue,
}

/// What pixel `(x, y)` adds to quantity `part` of the bucket of `level`:
/// nothing unless the pixel has that level.
pub open spec fn share(p: Pixels, intensity: nat, level: nat, part: Part, x: int, y: int) -> nat {
    if level_at(p, intensity, x, y) == level {
        match part {
            Part::Count => 1,
            Part::Red => p.sample(x, y, 0) as nat,
            Part::Green => p.sample(x, y, 1) as nat,
            Part::Blue => p.sample(x, y, 2) as nat,
        }
    } else {
        0
    }
}

/// Sum of `share` over the pixels `x_lo <= x < x_hi` of row `y`.
pub open spec fn row_total(
    p: Pixels,
    intensity: nat,
    level: nat,
    part: Part,
    y: int,
    x_lo: int,
    x_hi: int,
) -> nat
    decreases x_hi - x_lo,
{
    if x_hi <= x_lo {
        0
    } else {
        row_total(p, intensity, level, part, y, x_lo, x_hi - 1) + share(
            p,
            intensity,
            level,
            part,
            x_hi - 1,
            y,
        )
    }
}

/// Sum of `share` over the rectangle `x_lo <= x < x_hi`, `y_lo <= y < y_hi`.
pub open spec fn window_total(
    p: Pixels,
    intensity: nat,
    level: nat,
    part: Part,
    x_lo: int,
    x_hi: int,
    y_lo: int,
    y_hi: int,
) -> nat
    decreases y_hi - y_lo,
{
    if y_hi <= y_lo {
        0
    } else {
        window_total(p, intensity, level, part, x_lo, x_hi, y_lo, y_hi - 1) + row_total(
            p,
            intensity,
            level,
            part,
            y_hi - 1,
            x_lo,
            x_hi,
        )
    }
}

/// First coordinate of the neighbourhood of coordinate `c`. Row 0 and column 0
/// never count as neighbours.
pub open spec fn window_lo(c: int, radius: int) -> int {
    if c - radius > 1 {
        c - radius
    } else {
        1
    }
}

/// One past the last coordinate of the neighbourhood of coordinate `c` on an
/// axis of length `size`.
pub open spec fn window_hi(c: int, radius: int, size: int) -> int {
    if c + radius + 1 < size {
        c + radius + 1
    } else {
        size
    }
}

/// Quantity `part` of the bucket of `level` over the neighbourhood of pixel
/// `(x, y)`: the pixels `(x + dx, y + dy)` with `|dx|, |dy| <= radius` whose
/// coordinates are positive and inside the image.
pub open spec fn bucket(
    p: Pixels,
    radius: nat,
    intensity: nat,
    x: int,
    y: int,
    level: nat,
    part: Part,
) -> nat {
    window_total(
        p,
        intensity,
        level,
        part,
        window_lo(x, radius as int),
        window_hi(x, radius as int, p.width as int),
        window_lo(y, radius as int),
        window_hi(y, radius as int, p.height as int),
    )
}

/// The level among `0..=top` with the largest count around `(x, y)`; of
/// several such levels, the lowest.
pub open spec fn dominant_upto(
    p: Pixels,
    radius: nat,
    intensity: nat,
    x: int,
    y: int,
    top: nat,
) -> nat
    decreases top,
{
    if top == 0 {
        0
    } else {
        let below = dominant_upto(p, radius, intensity, x, y, (top - 1) as nat);
        if bucket(p, radius, intensity, x, y, top, Part::Count) > bucket(
            p,
            radius,
            intensity,
            x,
            y,
            below,
            Part::Count,
        ) {
            top
        } else {
            below
        }
    }
}

/// The most frequent level around `(x, y)`.
pub open spec fn dominant(p: Pixels, radius: nat, intensity: nat, x: int, y: int) -> nat {
    dominant_upto(p, radius, intensity, x, y, intensity)
}

/// The quantity that holds the sum of colour channel `c`.
pub open spec fn part_of(c: int) -> Part {
    if c == 0 {
        Part::Red
    } else if c == 1 {
        Part::Green
    } else {
        Part::Blue
    }
}

/// Channel `c` of the painted pixel `(x, y)`: the mean of that channel over the
/// dominant bucket; the alpha channel is fully opaque.
pub open spec fn painted_channel(
    p: Pixels,
    radius: nat,
    intensity: nat,
    x: int,
    y: int,
    c: int,
) -> u8 {
    if c == 3 {
        255u8
    } else {
        let level = dominant(p, radius, intensity, x, y);
        (bucket(p, radius, intensity, x, y, level, part_of(c)) / bucket(
            p,
            radius,
            intensity,
            x,
            y,
            level,
            Part::Count,
        )) as u8
    }
}

/// Sample `k` of the painted image.
pub open spec fn painted_sample(p: Pixels, radius: nat, intensity: nat, k: int) -> u8 {
    painted_channel(
        p,
        radius,
        intensity,
        (k / 4) % (p.width as int),
        (k / 4) / (p.width as int),
        k % 4,
    )
}

/// The oil-painted rendition of `p`: an RGBA image of the same dimensions.
pub open spec fn oil_painted(p: Pixels, radius: nat, intensity: nat) -> Pixels {
    Pixels {
        width: p.width,
        height: p.height,
        channels: 4,
        samples: Seq::new(
            p.width * p.height * 4,
            |k: int| painted_sample(p, radius, intensity, k),
        ),
    }
}

/// Images on which the filter is defined: every neighbourhood holds at least
/// one pixel.
pub open spec fn paintable(p: Pixels, radius: nat) -> bool {
    p.wf() && p.width >= 2 && p.height >= 2 && radius >= 1
}

/// A level never exceeds the quantization factor.
pub proof fn lemma_level_bound(r: u8, g: u8, b: u8, intensity: nat)
    ensures
        level_of(r, g, b, intensity) <= intensity,
{
    let s = r + g + b;
    assert(2 * s * intensity <= 1530 * intensity) by (nonlinear_arith)
        requires
            0 <= s <= 765,
            0 <= intensity,
    ;
    assert(0 <= 2 * s * intensity) by (nonlinear_arith)
        requires
            0 <= s <= 765,
            0 <= intensity,
    ;
}

/// Within one bucket a channel sum is at most 255 times the count, and the
/// count is at most the number of pixels in the row segment.
pub proof fn lemma_row_total_bound(
    p: Pixels,
    intensity: nat,
    level: nat,
    part: Part,
    y: int,
    x_lo: int,
    x_hi: int,
)
    requires
        x_lo <= x_hi,
    ensures
        row_total(p, intensity, level, part, y, x_lo, x_hi) <= 255 * row_total(
            p,
            intensity,
            level,
            Part::Count,
            y,
            x_lo,
            x_hi,
        ),
        row_total(p, intensity, level, Part::Count, y, x_lo, x_hi) <= x_hi - x_lo,
    decreases x_hi - x_lo,
{
    if x_lo < x_hi {
        lemma_row_total_bound(p, intensity, level, part, y, x_lo, x_hi - 1);
    }
}

/// Within one bucket a channel sum is at most 255 times the count, and the
/// count is at most the number of pixels in the rectangle.
pub proof fn lemma_window_total_bound(
    p: Pixels,
    intensity: nat,
    level: nat,
    part: Part,
    x_lo: int,
    x_hi: int,
    y_lo: int,
    y_hi: int,
)
    requires
        x_lo <= x_hi,
        y_lo <= y_hi,
    ensures
        window_total(p, intensity, level, part, x_lo, x_hi, y_lo, y_hi) <= 255 * window_total(
            p,
            intensity,
            level,
            Part::Count,
            x_lo,
            x_hi,
            y_lo,
            y_hi,
        ),
        window_total(p, intensity, level, Part::Count, x_lo, x_hi, y_lo, y_hi) <= (y_hi - y_lo) * (
        x_hi - x_lo),
    decreases y_hi - y_lo,
{
    if y_lo < y_hi {
        lemma_window_total_bound(p, intensity, level, part, x_lo, x_hi, y_lo, y_hi - 1);
        lemma_row_total_bound(p, intensity, level, part, y_hi - 1, x_lo, x_hi);
        assert((y_hi - 1 - y_lo) * (x_hi - x_lo) + (x_hi - x_lo) == (y_hi - y_lo) * (x_hi - x_lo))
            by (nonlinear_arith);
    } else {
        assert((y_hi - y_lo) * (x_hi - x_lo) == 0) by (nonlinear_arith)
            requires
                y_hi - y_lo == 0,
        ;
    }
}

/// A row total is at least the share of each pixel of the segment.
pub proof fn lemma_row_total_holds(
    p: Pixels,
    intensity: nat,
    level: nat,
    part: Part,
    y: int,
    x_lo: int,
    x_hi: int,
    x: int,
)
    requires
        x_lo <= x < x_hi,
    ensures
        share(p, intensity, level, part, x, y) <= row_total(
            p,
            intensity,
            level,
            part,
            y,
            x_lo,
            x_hi,
        ),
    decreases x_hi - x_lo,
{
    if x < x_hi - 1 {
        lemma_row_total_holds(p, intensity, level, part, y, x_lo, x_hi - 1, x);
    }
}

/// A window total is at least the share of each pixel of the rectangle.
pub proof fn lemma_window_total_holds(
    p: Pixels,
    intensity: nat,
    level: nat,
    part: Part,
    x_lo: int,
    x_hi: int,
    y_lo: int,
    y_hi: int,
    x: int,
    y: int,
)
    requires
        x_lo <= x < x_hi,
        y_lo <= y < y_hi,
    ensures
        share(p, intensity, level, part, x, y) <= window_total(
            p,
            intensity,
            level,
            part,
            x_lo,
            x_hi,
            y_lo,
            y_hi,
        ),
    decreases y_hi - y_lo,
{
    if y < y_hi - 1 {
        lemma_window_total_holds(p, intensity, level, part, x_lo, x_hi, y_lo, y_hi - 1, x, y);
    } else {
        lemma_row_total_holds(p, intensity, level, part, y, x_lo, x_hi, x);
    }
}

/// The dominant level among `0..=top` has the largest count of them, and a
/// strictly larger count than every lower level.
pub proof fn lemma_dominant_upto(
    p: Pixels,
    radius: nat,
    intensity: nat,
    x: int,
    y: int,
    top: nat,
    level: nat,
)
    requires
        level <= top,
    ensures
        dominant_upto(p, radius, intensity, x, y, top) <= top,
        bucket(p, radius, intensity, x, y, level, Part::Count) <= bucket(
            p,
            radius,
            intensity,
            x,
            y,
            dominant_upto(p, radius, intensity, x, y, top),
            Part::Count,
        ),
        level < dominant_upto(p, radius, intensity, x, y, top) ==> bucket(
            p,
            radius,
            intensity,
            x,
            y,
            level,
            Part::Count,
        ) < bucket(
            p,
            radius,
            intensity,
            x,
            y,
            dominant_upto(p, radius, intensity, x, y, top),
            Part::Count,
        ),
    decreases top,
{
    if top > 0 {
        let before = (top - 1) as nat;
        if level < top {
            lemma_dominant_upto(p, radius, intensity, x, y, before, level);
        } else {
            lemma_dominant_upto(p, radius, intensity, x, y, before, before);
        }
    }
}

/// The dominant level is a most frequent one, and the lowest of them: no
/// level has a larger count around the pixel, and every lower level has a
/// smaller one.
pub proof fn lemma_dominant_is_lowest_most_frequent(
    p: Pixels,
    radius: nat,
    intensity: nat,
    x: int,
    y: int,
    level: nat,
)
    requires
        level <= intensity,
    ensures
        dominant(p, radius, intensity, x, y) <= intensity,
        bucket(p, radius, intensity, x, y, level, Part::Count) <= bucket(
            p,
            radius,
            intensity,
            x,
            y,
            dominant(p, radius, intensity, x, y),
            Part::Count,
        ),
        level < dominant(p, radius, intensity, x, y) ==> bucket(
            p,
            radius,
            intensity,
            x,
            y,
            level,
            Part::Count,
        ) < bucket(
            p,
            radius,
            intensity,
            x,
            y,
            dominant(p, radius, intensity, x, y),
            Part::Count,
        ),
{
    lemma_dominant_upto(p, radius, intensity, x, y, intensity, level);
}

/// The neighbourhood of every pixel of a paintable image holds a pixel, so
/// the dominant bucket is not empty.
pub proof fn lemma_dominant_bucket_not_empty(
    p: Pixels,
    radius: nat,
    intensity: nat,
    x: int,
    y: int,
)
    requires
        paintable(p, radius),
        p.contains(x, y),
    ensures
        dominant(p, radius, intensity, x, y) <= intensity,
        bucket(
            p,
            radius,
            intensity,
            x,
            y,
            dominant(p, radius, intensity, x, y),
            Part::Count,
        ) > 0,
{
    let x_lo = window_lo(x, radius as int);
    let y_lo = window_lo(y, radius as int);
    let x_hi = window_hi(x, radius as int, p.width as int);
    let y_hi = window_hi(y, radius as int, p.height as int);
    let first = level_at(p, intensity, x_lo, y_lo);
    lemma_level_bound(
        p.sample(x_lo, y_lo, 0),
        p.sample(x_lo, y_lo, 1),
        p.sample(x_lo, y_lo, 2),
        intensity,
    );
    lemma_window_total_holds(p, intensity, first, Part::Count, x_lo, x_hi, y_lo, y_hi, x_lo, y_lo);
    lemma_dominant_upto(p, radius, intensity, x, y, intensity, first);
}

/// Running totals of one intensity level.
#[derive(Clone, Copy)]
struct Bucket {
    count: u128,
    red: u128,
    green: u128,
    blue: u128,
}

/// Quantity `part` of a bucket.
spec fn held(b: Bucket, part: Part) -> nat {
    match part {
        Part::Count => b.count as nat,
        Part::Red => b.red as nat,
        Part::Green => b.green as nat,
        Part::Blue => b.blue as nat,
    }
}

/// Total over the full rows `y_lo..y` and the pixels `x_lo..x` of row `y`.
spec fn scanned(
    p: Pixels,
    intensity: nat,
    level: nat,
    part: Part,
    x_lo: int,
    x_hi: int,
    y_lo: int,
    y: int,
    x: int,
) -> nat {
    window_total(p, intensity, level, part, x_lo, x_hi, y_lo, y) + row_total(
        p,
        intensity,
        level,
        part,
        y,
        x_lo,
        x,
    )
}

/// Quantity `part` of the bucket that the histogram holds for `level`;
/// nothing if it holds none.
spec fn tallied(hist: Map<usize, Bucket>, level: int, part: Part) -> nat {
    if hist.contains_key(level as usize) {
        held(hist[level as usize], part)
    } else {
        0
    }
}

/// The histogram holds for every level what has been scanned of it.
spec fn histogram_of(
    hist: Map<usize, Bucket>,
    p: Pixels,
    intensity: nat,
    x_lo: int,
    x_hi: int,
    y_lo: int,
    y: int,
    x: int,
) -> bool {
    forall|l: int, part: Part|
        0 <= l <= intensity ==> #[trigger] tallied(hist, l, part) == scanned(
            p,
            intensity,
            l as nat,
            part,
            x_lo,
            x_hi,
            y_lo,
            y,
            x,
        )
}

/// The table lists the level of every pixel, row by row.
spec fn level_table(lut: Seq<u16>, p: Pixels, intensity: nat) -> bool {
    &&& lut.len() == p.width * p.height
    &&& forall|k: int|
        0 <= k < lut.len() ==> #[trigger] lut[k] as nat == level_at(
            p,
            intensity,
            k % (p.width as int),
            k / (p.width as int),
        )
}

fn quantized(r: u8, g: u8, b: u8, intensity: u16) -> (l: u16)
    ensures
        l == level_of(r, g, b, intensity as nat),
{
    let sum: u32 = r as u32 + g as u32 + b as u32;
    proof {
        lemma_level_bound(r, g, b, intensity as nat);
        assert(0 <= 2 * sum * intensity <= 1530 * 65535) by (nonlinear_arith)
            requires
                0 <= sum <= 765,
                0 <= intensity <= 65535,
        ;
    }
    let scaled: u32 = 2 * sum * (intensity as u32) + 765;
    (scaled / 1530) as u16
}

/// Column and row of pixel number `k`.
fn position(img: &PixelBuffer, k: usize) -> (at: (u32, u32))
    requires
        img.wf(),
        k < img@.width * img@.height,
    ensures
        at.0 == (k as int) % (img@.width as int),
        at.1 == (k as int) / (img@.width as int),
        img@.contains(at.0 as int, at.1 as int),
{
    let w: u32 = img.width();
    proof {
        assert(w > 0) by (nonlinear_arith)
            requires
                k < w * img@.height,
                0 <= k,
                0 <= w,
        ;
        lemma_multiply_divide_lt(k as int, w as int, img@.height as int);
        assert(0 <= (k as int) / (w as int) < img@.height);
        assert(0 <= (k as int) % (w as int) < w);
    }
    let x: usize = k % (w as usize);
    let y: usize = k / (w as usize);
    (x as u32, y as u32)
}

/// The level of every pixel, computed once for the whole image.
fn quantize(img: &PixelBuffer, intensity: u16) -> (lut: Vec<u16>)
    requires
        img.wf(),
    ensures
        level_table(lut@, img@, intensity as nat),
{
    let n: usize = img.area();
    let mut lut: Vec<u16> = Vec::new();
    let mut k: usize = 0;
    while k < n
        invariant
            img.wf(),
            n == img@.width * img@.height,
            k <= n,
            lut@.len() == k,
            forall|j: int|
                0 <= j < k ==> #[trigger] lut@[j] as nat == level_at(
                    img@,
                    intensity as nat,
                    j % (img@.width as int),
                    j / (img@.width as int),
                ),
        decreases n - k,
    {
        let (x, y) = position(img, k);
        let r: u8 = img.get(x, y, 0);
        let g: u8 = img.get(x, y, 1);
        let b: u8 = img.get(x, y, 2);
        lut.push(quantized(r, g, b, intensity));
        k = k + 1;
    }
    lut
}

/// Accumulates the buckets of the levels that occur in a rectangle of the
/// image.
fn tally(
    img: &PixelBuffer,
    lut: &Vec<u16>,
    intensity: u16,
    x_lo: u32,
    x_hi: u32,
    y_lo: u32,
    y_hi: u32,
) -> (hist: HashMap<usize, Bucket>)
    requires
        img.wf(),
        level_table(lut@, img@, intensity as nat),
        x_lo <= x_hi <= img@.width,
        y_lo <= y_hi <= img@.height,
    ensures
        forall|l: int, part: Part|
            0 <= l <= intensity ==> #[trigger] tallied(hist@, l, part) == window_total(
                img@,
                intensity as nat,
                l as nat,
                part,
                x_lo as int,
                x_hi as int,
                y_lo as int,
                y_hi as int,
            ),
{
    let w: u32 = img.width();
    let n: usize = lut.len();
    let mut hist: HashMap<usize, Bucket> = HashMap::new();
    let mut y: u32 = y_lo;
    while y < y_hi
        invariant
            img.wf(),
            n == lut@.len(),
            w == img@.width,
            level_table(lut@, img@, intensity as nat),
            x_lo <= x_hi <= img@.width,
            y_lo <= y <= y_hi <= img@.height,
            histogram_of(
                hist@,
                img@,
                intensity as nat,
                x_lo as int,
                x_hi as int,
                y_lo as int,
                y as int,
                x_lo as int,
            ),
        decreases y_hi - y,
    {
        let mut x: u32 = x_lo;
        while x < x_hi
            invariant
                img.wf(),
                n == lut@.len(),
                w == img@.width,
                level_table(lut@, img@, intensity as nat),
                x_lo <= x <= x_hi <= img@.width,
                y_lo <= y < y_hi <= img@.height,
                histogram_of(
                    hist@,
                    img@,
                    intensity as nat,
                    x_lo as int,
                    x_hi as int,
                    y_lo as int,
                    y as int,
                    x as int,
                ),
            decreases x_hi - x,
        {
            proof {
                lemma_offset_in_bounds(img@, x as int, y as int, 0);
                assert(0 <= y * w) by (nonlinear_arith)
                    requires
                        0 <= y,
                        0 <= w,
                ;
                lemma_fundamental_div_mod_converse(y * w + x, w as int, y as int, x as int);
            }
            let k: usize = (y as usize) * (w as usize) + (x as usize);
            let level: usize = lut[k] as usize;
            let r: u8 = img.get(x, y, 0);
            let g: u8 = img.get(x, y, 1);
            let b: u8 = img.get(x, y, 2);
            proof {
                lemma_level_bound(r, g, b, intensity as nat);
                assert(level as nat == level_at(img@, intensity as nat, x as int, y as int));
                lemma_scanned_bound(
                    img@,
                    intensity as nat,
                    level as nat,
                    x_lo as int,
                    x_hi as int,
                    y_lo as int,
                    y as int,
                    x as int,
                );
                assert(tallied(hist@, level as int, Part::Count) == scanned(
                    img@,
                    intensity as nat,
                    level as nat,
                    Part::Count,
                    x_lo as int,
                    x_hi as int,
                    y_lo as int,
                    y as int,
                    x as int,
                ));
                assert(tallied(hist@, level as int, Part::Red) == scanned(
                    img@,
                    intensity as nat,
                    level as nat,
                    Part::Red,
                    x_lo as int,
                    x_hi as int,
                    y_lo as int,
                    y as int,
                    x as int,
                ));
                assert(tallied(hist@, level as int, Part::Green) == scanned(
                    img@,
                    intensity as nat,
                    level as nat,
                    Part::Green,
                    x_lo as int,
                    x_hi as int,
                    y_lo as int,
                    y as int,
                    x as int,
                ));
                assert(tallied(hist@, level as int, Part::Blue) == scanned(
                    img@,
                    intensity as nat,
                    level as nat,
                    Part::Blue,
                    x_lo as int,
                    x_hi as int,
                    y_lo as int,
                    y as int,
                    x as int,
                ));
            }
            let ghost before = hist@;
            let now: Bucket = match hist.get(&level) {
                Some(was) => Bucket {
                    count: was.count + 1,
                    red: was.red + r as u128,
                    green: was.green + g as u128,
                    blue: was.blue + b as u128,
                },
                None => Bucket { count: 1, red: r as u128, green: g as u128, blue: b as u128 },
            };
            hist.insert(level, now);
            proof {
                assert(hist@ == before.insert(level, now));
                assert forall|l: int, part: Part| 0 <= l <= intensity implies #[trigger] tallied(
                    hist@,
                    l,
                    part,
                ) == scanned(
                    img@,
                    intensity as nat,
                    l as nat,
                    part,
                    x_lo as int,
                    x_hi as int,
                    y_lo as int,
                    y as int,
                    x + 1,
                ) by {
                    assert(tallied(before, l, part) == scanned(
                        img@,
                        intensity as nat,
                        l as nat,
                        part,
                        x_lo as int,
                        x_hi as int,
                        y_lo as int,
                        y as int,
                        x as int,
                    ));
                    assert(row_total(
                        img@,
                        intensity as nat,
                        l as nat,
                        part,
                        y as int,
                        x_lo as int,
                        x + 1,
                    ) == row_total(
                        img@,
                        intensity as nat,
                        l as nat,
                        part,
                        y as int,
                        x_lo as int,
                        x as int,
                    ) + share(img@, intensity as nat, l as nat, part, x as int, y as int));
                    assert((l as usize == level) == (l == level));
                }
            }
            x = x + 1;
        }
        proof {
            assert forall|l: int, part: Part| 0 <= l <= intensity implies #[trigger] tallied(
                hist@,
                l,
                part,
            ) == scanned(
                img@,
                intensity as nat,
                l as nat,
                part,
                x_lo as int,
                x_hi as int,
                y_lo as int,
                y + 1,
                x_lo as int,
            ) by {
                assert(tallied(hist@, l, part) == scanned(
                    img@,
                    intensity as nat,
                    l as nat,
                    part,
                    x_lo as int,
                    x_hi as int,
                    y_lo as int,
                    y as int,
                    x_hi as int,
                ));
                assert(window_total(
                    img@,
                    intensity as nat,
                    l as nat,
                    part,
                    x_lo as int,
                    x_hi as int,
                    y_lo as int,
                    y + 1,
                ) == window_total(
                    img@,
                    intensity as nat,
                    l as nat,
                    part,
                    x_lo as int,
                    x_hi as int,
                    y_lo as int,
                    y as int,
                ) + row_total(
                    img@,
                    intensity as nat,
                    l as nat,
                    part,
                    y as int,
                    x_lo as int,
                    x_hi as int,
                ));
            }
        }
        y = y + 1;
    }
    proof {
        assert forall|l: int, part: Part| 0 <= l <= intensity implies #[trigger] tallied(
            hist@,
            l,
            part,
        ) == window_total(
            img@,
            intensity as nat,
            l as nat,
            part,
            x_lo as int,
            x_hi as int,
            y_lo as int,
            y_hi as int,
        ) by {
            assert(tallied(hist@, l, part) == scanned(
                img@,
                intensity as nat,
                l as nat,
                part,
                x_lo as int,
                x_hi as int,
                y_lo as int,
                y_hi as int,
                x_lo as int,
            ));
        }
    }
    hist
}

/// What has been scanned of a bucket stays far below the accumulators' range.
proof fn lemma_scanned_bound(
    p: Pixels,
    intensity: nat,
    level: nat,
    x_lo: int,
    x_hi: int,
    y_lo: int,
    y: int,
    x: int,
)
    requires
        0 <= x_lo <= x <= x_hi <= u32::MAX,
        0 <= y_lo <= y <= u32::MAX,
    ensures
        forall|part: Part|
            #[trigger] scanned(p, intensity, level, part, x_lo, x_hi, y_lo, y, x)
                < 0x1_0000_0000_0000_0000_0000,
{
    assert forall|part: Part|
        #[trigger] scanned(p, intensity, level, part, x_lo, x_hi, y_lo, y, x)
            < 0x1_0000_0000_0000_0000_0000 by {
        lemma_window_total_bound(p, intensity, level, part, x_lo, x_hi, y_lo, y);
        lemma_row_total_bound(p, intensity, level, part, y, x_lo, x);
        let rows = y - y_lo;
        let cols = x_hi - x_lo;
        assert(rows * cols <= 0x1_0000_0000 * 0x1_0000_0000) by (nonlinear_arith)
            requires
                0 <= rows <= 0x1_0000_0000,
                0 <= cols <= 0x1_0000_0000,
        ;
    }
}

/// The count that the histogram holds for a level.
fn count_of(hist: &HashMap<usize, Bucket>, level: usize) -> (count: u128)
    ensures
        count == tallied(hist@, level as int, Part::Count),
{
    match hist.get(&level) {
        Some(bucket) => bucket.count,
        None => 0,
    }
}

/// The lowest of the levels with the largest count in the histogram.
fn dominant_level(
    hist: &HashMap<usize, Bucket>,
    intensity: u16,
    Ghost(p): Ghost<Pixels>,
    Ghost(radius): Ghost<nat>,
    Ghost(x): Ghost<int>,
    Ghost(y): Ghost<int>,
) -> (best: usize)
    requires
        forall|l: int, part: Part|
            0 <= l <= intensity ==> #[trigger] tallied(hist@, l, part) == bucket(
                p,
                radius,
                intensity as nat,
                x,
                y,
                l as nat,
                part,
            ),
    ensures
        best == dominant(p, radius, intensity as nat, x, y),
        best <= intensity,
{
    let mut best: usize = 0;
    let mut most: u128 = count_of(hist, 0);
    let mut l: usize = 1;
    while l <= intensity as usize
        invariant
            1 <= l <= intensity + 1,
            best < l,
            best == dominant_upto(p, radius, intensity as nat, x, y, (l - 1) as nat),
            most == tallied(hist@, best as int, Part::Count),
            forall|l: int, part: Part|
                0 <= l <= intensity ==> #[trigger] tallied(hist@, l, part) == bucket(
                    p,
                    radius,
                    intensity as nat,
                    x,
                    y,
                    l as nat,
                    part,
                ),
        decreases intensity + 1 - l,
    {
        let count: u128 = count_of(hist, l);
        proof {
            assert(tallied(hist@, l as int, Part::Count) == bucket(
                p,
                radius,
                intensity as nat,
                x,
                y,
                l as nat,
                Part::Count,
            ));
            assert(tallied(hist@, best as int, Part::Count) == bucket(
                p,
                radius,
                intensity as nat,
                x,
                y,
                best as nat,
                Part::Count,
            ));
        }
        if count > most {
            best = l;
            most = count;
        }
        l = l + 1;
    }
    best
}

/// First row or column of the neighbourhood.
fn lower(c: u32, radius: u32) -> (lo: u32)
    ensures
        lo == window_lo(c as int, radius as int),
{
    if c > radius && c - radius > 1 {
        c - radius
    } else {
        1
    }
}

/// One past the last row or column of the neighbourhood.
fn upper(c: u32, radius: u32, size: u32) -> (hi: u32)
    ensures
        hi == window_hi(c as int, radius as int, size as int),
{
    let reach: u64 = c as u64 + radius as u64 + 1;
    if reach < size as u64 {
        reach as u32
    } else {
        size
    }
}

/// Mean of a channel over a bucket.
fn mean(sum: u128, count: u128) -> (m: u8)
    requires
        count > 0,
        sum <= 255 * count,
    ensures
        m == sum / count,
{
    proof {
        assert(sum as int / count as int <= 255) by (nonlinear_arith)
            requires
                count > 0,
                0 <= sum <= 255 * count,
        ;
    }
    (sum / count) as u8
}

/// Paints `img` in oil. Every pixel of the result takes the mean colour of
/// the most frequent intensity level among its neighbours within `radius`
/// (of several equally frequent levels, the lowest) and is fully opaque.
/// Neighbours outside the image are left out, and so are row 0 and column 0.
///
/// The image must have at least two rows and two columns and the radius must
/// be at least 1, so that no neighbourhood is empty.
pub fn oil_paint(img: &PixelBuffer, radius: u32, intensity: u16) -> (out: PixelBuffer)
    requires
        img.wf(),
        paintable(img@, radius as nat),
    ensures
        out.wf(),
        out@ == oil_painted(img@, radius as nat, intensity as nat),
{
    let n: usize = img.area();
    let w: u32 = img.width();
    let h: u32 = img.height();
    let lut: Vec<u16> = quantize(img, intensity);
    let mut out: Vec<u8> = Vec::new();
    let mut k: usize = 0;
    while k < n
        invariant
            img.wf(),
            paintable(img@, radius as nat),
            n == img@.width * img@.height,
            w == img@.width,
            h == img@.height,
            k <= n,
            level_table(lut@, img@, intensity as nat),
            out@.len() == 4 * k,
            forall|j: int|
                0 <= j < 4 * k ==> #[trigger] out@[j] == painted_sample(
                    img@,
                    radius as nat,
                    intensity as nat,
                    j,
                ),
        decreases n - k,
    {
        let (x, y) = position(img, k);
        let x_lo: u32 = lower(x, radius);
        let x_hi: u32 = upper(x, radius, w);
        let y_lo: u32 = lower(y, radius);
        let y_hi: u32 = upper(y, radius, h);
        let hist: HashMap<usize, Bucket> = tally(img, &lut, intensity, x_lo, x_hi, y_lo, y_hi);
        let best: usize = dominant_level(
            &hist,
            intensity,
            Ghost(img@),
            Ghost(radius as nat),
            Ghost(x as int),
            Ghost(y as int),
        );
        proof {
            lemma_dominant_bucket_not_empty(
                img@,
                radius as nat,
                intensity as nat,
                x as int,
                y as int,
            );
            assert(tallied(hist@, best as int, Part::Count) > 0);
        }
        let found: Option<&Bucket> = hist.get(&best);
        let chosen: Bucket = *found.unwrap();
        proof {
            assert(held(chosen, Part::Count) == tallied(hist@, best as int, Part::Count));
            assert(held(chosen, Part::Red) == tallied(hist@, best as int, Part::Red));
            assert(held(chosen, Part::Green) == tallied(hist@, best as int, Part::Green));
            assert(held(chosen, Part::Blue) == tallied(hist@, best as int, Part::Blue));
            lemma_window_total_bound(
                img@,
                intensity as nat,
                best as nat,
                Part::Red,
                x_lo as int,
                x_hi as int,
                y_lo as int,
                y_hi as int,
            );
            lemma_window_total_bound(
                img@,
                intensity as nat,
                best as nat,
                Part::Green,
                x_lo as int,
                x_hi as int,
                y_lo as int,
                y_hi as int,
            );
            lemma_window_total_bound(
                img@,
                intensity as nat,
                best as nat,
                Part::Blue,
                x_lo as int,
                x_hi as int,
                y_lo as int,
                y_hi as int,
            );
        }
        let red: u8 = mean(chosen.red, chosen.count);
        let green: u8 = mean(chosen.green, chosen.count);
        let blue: u8 = mean(chosen.blue, chosen.count);
        let ghost before = out@;
        out.push(red);
        out.push(green);
        out.push(blue);
        out.push(255);
        proof {
            assert forall|j: int| 0 <= j < 4 * (k + 1) implies #[trigger] out@[j] == painted_sample(
                img@,
                radius as nat,
                intensity as nat,
                j,
            ) by {
                if j < 4 * k {
                    assert(out@[j] == before[j]);
                } else {
                    assert(j / 4 == k);
                    assert(part_of(0) == Part::Red);
                    assert(part_of(1) == Part::Green);
                    assert(part_of(2) == Part::Blue);
                }
            }
        }
        k = k + 1;
    }
    proof {
        assert(out@ =~= oil_painted(img@, radius as nat, intensity as nat).samples);
        assert(4 * (img@.width * img@.height) == img@.width * img@.height * 4);
    }
    let painted: Option<PixelBuffer> = PixelBuffer::from_raw(w, h, 4, out);
    painted.unwrap()
}

/// Every pixel of the image has the colour `(r, g, b)`.
pub open spec fn flat(p: Pixels, r: u8, g: u8, b: u8) -> bool {
    forall|x: int, y: int| p.contains(x, y) ==> #[trigger] colour_at(p, x, y) == (r, g, b)
}

/// What each pixel of an image of the single colour `(r, g, b)` adds to a
/// bucket.
pub open spec fn flat_share(r: u8, g: u8, b: u8, intensity: nat, level: nat, part: Part) -> nat {
    if level_of(r, g, b, intensity) == level {
        match part {
            Part::Count => 1,
            Part::Red => r as nat,
            Part::Green => g as nat,
            Part::Blue => b as nat,
        }
    } else {
        0
    }
}

proof fn lemma_flat_row(
    p: Pixels,
    intensity: nat,
    level: nat,
    part: Part,
    y: int,
    x_lo: int,
    x_hi: int,
    r: u8,
    g: u8,
    b: u8,
)
    requires
        flat(p, r, g, b),
        0 <= x_lo <= x_hi <= p.width,
        0 <= y < p.height,
    ensures
        row_total(p, intensity, level, part, y, x_lo, x_hi) == (x_hi - x_lo) * flat_share(
            r,
            g,
            b,
            intensity,
            level,
            part,
        ),
    decreases x_hi - x_lo,
{
    let each = flat_share(r, g, b, intensity, level, part);
    if x_lo < x_hi {
        lemma_flat_row(p, intensity, level, part, y, x_lo, x_hi - 1, r, g, b);
        assert(p.contains(x_hi - 1, y));
        assert(colour_at(p, x_hi - 1, y) == (r, g, b));
        assert(share(p, intensity, level, part, x_hi - 1, y) == each);
        assert((x_hi - 1 - x_lo) * each + each == (x_hi - x_lo) * each) by (nonlinear_arith);
    } else {
        assert((x_hi - x_lo) * each == 0) by (nonlinear_arith)
            requires
                x_hi - x_lo == 0,
        ;
    }
}

proof fn lemma_flat_window(
    p: Pixels,
    intensity: nat,
    level: nat,
    part: Part,
    x_lo: int,
    x_hi: int,
    y_lo: int,
    y_hi: int,
    r: u8,
    g: u8,
    b: u8,
)
    requires
        flat(p, r, g, b),
        0 <= x_lo <= x_hi <= p.width,
        0 <= y_lo <= y_hi <= p.height,
    ensures
        window_total(p, intensity, level, part, x_lo, x_hi, y_lo, y_hi) == ((y_hi - y_lo) * (x_hi
            - x_lo)) * flat_share(r, g, b, intensity, level, part),
    decreases y_hi - y_lo,
{
    let each = flat_share(r, g, b, intensity, level, part);
    let cols = x_hi - x_lo;
    if y_lo < y_hi {
        lemma_flat_window(p, intensity, level, part, x_lo, x_hi, y_lo, y_hi - 1, r, g, b);
        lemma_flat_row(p, intensity, level, part, y_hi - 1, x_lo, x_hi, r, g, b);
        assert(((y_hi - 1 - y_lo) * cols) * each + cols * each == ((y_hi - y_lo) * cols) * each)
            by (nonlinear_arith);
    } else {
        assert(((y_hi - y_lo) * cols) * each == 0) by (nonlinear_arith)
            requires
                y_hi - y_lo == 0,
        ;
    }
}

/// Painting an image of a single colour gives every pixel that colour, fully
/// opaque.
pub proof fn lemma_flat_pixel_keeps_colour(
    p: Pixels,
    radius: nat,
    intensity: nat,
    r: u8,
    g: u8,
    b: u8,
    x: int,
    y: int,
)
    requires
        paintable(p, radius),
        flat(p, r, g, b),
        p.contains(x, y),
    ensures
        painted_channel(p, radius, intensity, x, y, 0) == r,
        painted_channel(p, radius, intensity, x, y, 1) == g,
        painted_channel(p, radius, intensity, x, y, 2) == b,
        painted_channel(p, radius, intensity, x, y, 3) == 255,
{
    let x_lo = window_lo(x, radius as int);
    let y_lo = window_lo(y, radius as int);
    let x_hi = window_hi(x, radius as int, p.width as int);
    let y_hi = window_hi(y, radius as int, p.height as int);
    let size = (y_hi - y_lo) * (x_hi - x_lo);
    let own = level_of(r, g, b, intensity);
    let best = dominant(p, radius, intensity, x, y);
    assert(size > 0) by (nonlinear_arith)
        requires
            size == (y_hi - y_lo) * (x_hi - x_lo),
            y_hi - y_lo > 0,
            x_hi - x_lo > 0,
    ;
    lemma_level_bound(r, g, b, intensity);
    lemma_dominant_upto(p, radius, intensity, x, y, intensity, own);
    lemma_flat_window(p, intensity, own, Part::Count, x_lo, x_hi, y_lo, y_hi, r, g, b);
    lemma_flat_window(p, intensity, best, Part::Count, x_lo, x_hi, y_lo, y_hi, r, g, b);
    assert(bucket(p, radius, intensity, x, y, own, Part::Count) == size) by (nonlinear_arith)
        requires
            bucket(p, radius, intensity, x, y, own, Part::Count) == size * 1,
    ;
    if best != own {
        assert(bucket(p, radius, intensity, x, y, best, Part::Count) == 0) by (nonlinear_arith)
            requires
                bucket(p, radius, intensity, x, y, best, Part::Count) == size * 0,
        ;
    }
    assert(best == own);
    lemma_flat_window(p, intensity, own, Part::Red, x_lo, x_hi, y_lo, y_hi, r, g, b);
    lemma_flat_window(p, intensity, own, Part::Green, x_lo, x_hi, y_lo, y_hi, r, g, b);
    lemma_flat_window(p, intensity, own, Part::Blue, x_lo, x_hi, y_lo, y_hi, r, g, b);
    lemma_div_multiples_vanish(r as int, size);
    lemma_div_multiples_vanish(g as int, size);
    lemma_div_multiples_vanish(b as int, size);
    assert(part_of(0) == Part::Red);
    assert(part_of(1) == Part::Green);
    assert(part_of(2) == Part::Blue);
}

/// An opaque RGBA image of a single colour is left unchanged by the filter,
/// whatever its size, the radius and the quantization factor.
pub proof fn lemma_flat_image_unchanged(
    p: Pixels,
    radius: nat,
    intensity: nat,
    r: u8,
    g: u8,
    b: u8,
)
    requires
        paintable(p, radius),
        p.channels == 4,
        flat(p, r, g, b),
        forall|x: int, y: int| p.contains(x, y) ==> #[trigger] p.sample(x, y, 3) == 255,
    ensures
        oil_painted(p, radius, intensity) == p,
{
    let q = oil_painted(p, radius, intensity);
    let w = p.width as int;
    assert(q.samples.len() == p.samples.len());
    assert forall|k: int| 0 <= k < p.samples.len() implies q.samples[k] == p.samples[k] by {
        let pixel = k / 4;
        let c = k % 4;
        let x = pixel % w;
        let y = pixel / w;
        assert(pixel < w * p.height);
        lemma_fundamental_div_mod(pixel, w);
        lemma_multiply_divide_lt(pixel, w, p.height as int);
        assert(w * y == y * w) by (nonlinear_arith);
        assert(p.contains(x, y));
        assert(p.offset(x, y, c) == k);
        lemma_flat_pixel_keeps_colour(p, radius, intensity, r, g, b, x, y);
        assert(colour_at(p, x, y) == (r, g, b));
        assert(p.sample(x, y, 3) == 255);
    }
    assert(q.samples =~= p.samples);
}

/// The painted image depends on nothing but the samples and dimensions of the
/// input and the two parameters: equal inputs give equal outputs.
pub proof fn lemma_filter_deterministic(
    a: Pixels,
    b: Pixels,
    radius: nat,
    intensity: nat,
)
    requires
        a.width == b.width,
        a.height == b.height,
        a.channels == b.channels,
        a.samples =~= b.samples,
    ensures
        oil_painted(a, radius, intensity) == oil_painted(b, radius, intensity),
{
    assert(a == b);
}

} // verus!
