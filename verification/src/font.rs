//! Placement of rasterized glyphs on a canvas.

use vstd::prelude::*;

verus! {

/// Where coverage sample `(gx, gy)` of a glyph lands: the glyph's bounding
/// box starts at `(left, top)` relative to the text origin `(x, y)`.
pub open spec fn landing(gx: u32, gy: u32, left: i32, top: i32, x: u32, y: u32) -> (int, int) {
    (gx + left + x, gy + top + y)
}

/// The canvas pixel that coverage sample `(gx, gy)` of a glyph is blended
/// into, if it lands on the canvas of `width` by `height` pixels.
pub fn glyph_pixel(
    gx: u32,
    gy: u32,
    left: i32,
    top: i32,
    x: u32,
    y: u32,
    width: u32,
    height: u32,
) -> (at: Option<(u32, u32)>)
    ensures
        at is Some <==> 0 <= landing(gx, gy, left, top, x, y).0 < width && 0 <= landing(
            gx,
            gy,
            left,
            top,
            x,
            y,
        ).1 < height,
        at matches Some(p) ==> (p.0 as int, p.1 as int) == landing(gx, gy, left, top, x, y),
{
    let image_x: i64 = gx as i64 + left as i64 + x as i64;
    let image_y: i64 = gy as i64 + top as i64 + y as i64;
    if image_x >= 0 && image_x < width as i64 && image_y >= 0 && image_y < height as i64 {
        Some((image_x as u32, image_y as u32))
    } else {
        None
    }
}

/// Whether a line whose last glyph ends at `right` must be squeezed to fit
/// into `max_width` pixels.
pub fn overflows(right: i32, max_width: i32) -> (yes: bool)
    ensures
        yes == (right > max_width),
{
    right > max_width
}

} // verus!
