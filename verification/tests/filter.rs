use std::collections::HashMap;

use okapi::oil::oil_paint;
use okapi::pixel::PixelBuffer;

fn flat_rgba(width: u32, height: u32, colour: [u8; 4]) -> PixelBuffer {
    let mut samples = Vec::new();
    for _ in 0..(width * height) {
        samples.extend_from_slice(&colour);
    }
    PixelBuffer::from_raw(width, height, 4, samples).unwrap()
}

#[test]
fn flat_image_is_unchanged() {
    let img = flat_rgba(9, 9, [10, 200, 30, 255]);
    let out = oil_paint(&img, 4, 55);
    assert_eq!(out.width(), 9);
    assert_eq!(out.height(), 9);
    assert_eq!(out.channels(), 4);
    assert_eq!(out.samples(), img.samples());
}

#[test]
fn flat_image_becomes_opaque() {
    let img = flat_rgba(12, 10, [1, 2, 3, 7]);
    let out = oil_paint(&img, 4, 55);
    for y in 0..10 {
        for x in 0..12 {
            assert_eq!(out.get(x, y, 0), 1);
            assert_eq!(out.get(x, y, 1), 2);
            assert_eq!(out.get(x, y, 2), 3);
            assert_eq!(out.get(x, y, 3), 255);
        }
    }
}

#[test]
fn filter_is_deterministic() {
    let mut samples = Vec::new();
    for i in 0..(7 * 5 * 4) {
        samples.push(((i * 37 + 11) % 256) as u8);
    }
    let a = PixelBuffer::from_raw(7, 5, 4, samples.clone()).unwrap();
    let b = PixelBuffer::from_raw(7, 5, 4, samples).unwrap();
    assert_eq!(oil_paint(&a, 4, 55).into_raw(), oil_paint(&b, 4, 55).into_raw());
}

#[test]
fn first_row_and_column_are_never_neighbours() {
    // 2x2 image: the only neighbour of every pixel is pixel (1, 1).
    let samples = vec![
        255, 0, 0, 255, 0, 255, 0, 255, //
        0, 0, 255, 255, 9, 8, 7, 0,
    ];
    let img = PixelBuffer::from_raw(2, 2, 4, samples).unwrap();
    let out = oil_paint(&img, 1, 55);
    assert_eq!(
        out.into_raw(),
        vec![9, 8, 7, 255, 9, 8, 7, 255, 9, 8, 7, 255, 9, 8, 7, 255]
    );
}

#[test]
fn most_frequent_level_wins() {
    // 3x3 RGB image, radius 1. The neighbours of the centre are the four
    // pixels with positive coordinates: three dark ones and a bright one.
    let dark = [10u8, 20, 30];
    let bright = [250u8, 250, 250];
    let mut samples = Vec::new();
    for k in 0..9 {
        samples.extend_from_slice(if k == 8 { &bright } else { &dark });
    }
    let img = PixelBuffer::from_raw(3, 3, 3, samples).unwrap();
    let out = oil_paint(&img, 1, 55);
    assert_eq!(out.channels(), 4);
    assert_eq!(out.get(1, 1, 0), 10);
    assert_eq!(out.get(1, 1, 1), 20);
    assert_eq!(out.get(1, 1, 2), 30);
    assert_eq!(out.get(1, 1, 3), 255);
    // The neighbours of the last pixel are the same four.
    assert_eq!(out.get(2, 2, 0), 10);
}

#[test]
fn tie_goes_to_the_lowest_level() {
    // 2 columns, 3 rows; the neighbours of (1, 1) are (1, 1) and (1, 2).
    let mut samples = vec![0u8; 2 * 3 * 3];
    let bright = [200u8, 200, 200];
    let dark = [40u8, 50, 60];
    samples[(1 * 2 + 1) * 3..(1 * 2 + 1) * 3 + 3].copy_from_slice(&bright);
    samples[(2 * 2 + 1) * 3..(2 * 2 + 1) * 3 + 3].copy_from_slice(&dark);
    let img = PixelBuffer::from_raw(2, 3, 3, samples).unwrap();
    let out = oil_paint(&img, 1, 55);
    assert_eq!(out.get(1, 1, 0), 40);
    assert_eq!(out.get(1, 1, 1), 50);
    assert_eq!(out.get(1, 1, 2), 60);
}

#[test]
fn bucket_mean_is_rounded_down() {
    // Same level (55 * 3 / 765 rounds to 0 for both), different colours.
    let mut samples = vec![0u8; 2 * 3 * 3];
    samples[(1 * 2 + 1) * 3..(1 * 2 + 1) * 3 + 3].copy_from_slice(&[1, 0, 0]);
    samples[(2 * 2 + 1) * 3..(2 * 2 + 1) * 3 + 3].copy_from_slice(&[2, 3, 0]);
    let img = PixelBuffer::from_raw(2, 3, 3, samples).unwrap();
    let out = oil_paint(&img, 1, 55);
    assert_eq!(out.get(0, 0, 0), 1);
    assert_eq!(out.get(1, 1, 0), 1);
    assert_eq!(out.get(1, 1, 1), 1);
    assert_eq!(out.get(1, 1, 2), 0);
}

#[test]
fn from_raw_rejects_wrong_layouts() {
    assert!(PixelBuffer::from_raw(2, 2, 4, vec![0; 16]).is_some());
    assert!(PixelBuffer::from_raw(2, 2, 3, vec![0; 12]).is_some());
    assert!(PixelBuffer::from_raw(2, 2, 4, vec![0; 15]).is_none());
    assert!(PixelBuffer::from_raw(2, 2, 4, vec![0; 17]).is_none());
    assert!(PixelBuffer::from_raw(2, 2, 2, vec![0; 8]).is_none());
    assert!(PixelBuffer::from_raw(2, 2, 5, vec![0; 20]).is_none());
    assert!(PixelBuffer::from_raw(0, 7, 4, vec![]).is_some());
    assert!(PixelBuffer::from_raw(u32::MAX, u32::MAX, 4, vec![0; 4]).is_none());
}

fn column_image(colours: &[[u8; 3]]) -> PixelBuffer {
    // Two columns; column 1 holds the colours, column 0 is black.
    let mut samples = Vec::new();
    for colour in colours {
        samples.extend_from_slice(&[0, 0, 0]);
        samples.extend_from_slice(colour);
    }
    PixelBuffer::from_raw(2, colours.len() as u32, 3, samples).unwrap()
}

#[test]
fn levels_round_to_nearest() {
    // With factor 55 a channel sum of 6 scales to 0.43 and one of 7 to 0.50:
    // the first is level 0, the second level 1.
    let img = column_image(&[[9, 9, 9], [2, 2, 2], [0, 0, 0], [3, 2, 2]]);
    let out = oil_paint(&img, 1, 55);
    // Neighbours of (1, 2): rows 1, 2 and 3 of column 1. Level 0 holds two.
    assert_eq!(out.get(1, 2, 0), 1);
    assert_eq!(out.get(1, 2, 1), 1);
    assert_eq!(out.get(1, 2, 2), 1);
    // Neighbours of (1, 3): rows 2 and 3; a tie, which level 0 wins.
    assert_eq!(out.get(1, 3, 0), 0);
}

#[test]
fn factor_zero_puts_all_pixels_in_one_bucket() {
    let img = column_image(&[[9, 9, 9], [10, 20, 30], [50, 60, 70], [0, 1, 2]]);
    let out = oil_paint(&img, 1, 0);
    // Neighbours of (0, 2): rows 1, 2 and 3 of column 1.
    assert_eq!(out.get(0, 2, 0), 20);
    assert_eq!(out.get(0, 2, 1), 27);
    assert_eq!(out.get(0, 2, 2), 34);
}

#[test]
fn large_factor_keeps_distinct_colours_apart() {
    let img = column_image(&[[9, 9, 9], [10, 20, 30], [10, 20, 31], [10, 20, 30]]);
    let out = oil_paint(&img, 1, u16::MAX);
    assert_eq!(out.get(1, 2, 0), 10);
    assert_eq!(out.get(1, 2, 1), 20);
    assert_eq!(out.get(1, 2, 2), 30);
}

#[test]
fn radius_beyond_the_image_takes_all_but_the_first_row_and_column() {
    let img = column_image(&[[200, 200, 200], [10, 20, 30], [10, 20, 30], [90, 90, 90]]);
    let out = oil_paint(&img, u32::MAX, 55);
    for y in 0..4 {
        for x in 0..2 {
            assert_eq!(out.get(x, y, 0), 10);
            assert_eq!(out.get(x, y, 1), 20);
            assert_eq!(out.get(x, y, 2), 30);
            assert_eq!(out.get(x, y, 3), 255);
        }
    }
}

/// The filter as it is usually written: levels by floating-point rounding,
/// buckets in a hash map. Of equally frequent levels the lowest is taken.
fn by_the_book(img: &PixelBuffer, radius: i64, intensity: f64) -> Vec<u8> {
    let width = img.width() as i64;
    let height = img.height() as i64;
    let mut out = Vec::new();
    for y in 0..height {
        for x in 0..width {
            let mut buckets: HashMap<usize, (u64, u64, u64, u64)> = HashMap::new();
            for yy in -radius..=radius {
                for xx in -radius..=radius {
                    let (nx, ny) = (x + xx, y + yy);
                    if ny > 0 && ny < height && nx > 0 && nx < width {
                        let r = img.get(nx as u32, ny as u32, 0);
                        let g = img.get(nx as u32, ny as u32, 1);
                        let b = img.get(nx as u32, ny as u32, 2);
                        let avg = f64::from(i32::from(r) + i32::from(g) + i32::from(b)) / 3.0;
                        let level = ((avg * intensity) / 255.0).round() as usize;
                        let bucket = buckets.entry(level).or_insert((0, 0, 0, 0));
                        bucket.0 += 1;
                        bucket.1 += u64::from(r);
                        bucket.2 += u64::from(g);
                        bucket.3 += u64::from(b);
                    }
                }
            }
            let most = buckets.values().map(|b| b.0).max().unwrap();
            let level = buckets
                .iter()
                .filter(|(_, b)| b.0 == most)
                .map(|(l, _)| *l)
                .min()
                .unwrap();
            let chosen = buckets[&level];
            out.push((chosen.1 / chosen.0) as u8);
            out.push((chosen.2 / chosen.0) as u8);
            out.push((chosen.3 / chosen.0) as u8);
            out.push(255);
        }
    }
    out
}

fn noise(width: u32, height: u32, channels: u8, seed: u64, shades: u64) -> PixelBuffer {
    let mut state = seed;
    let mut samples = Vec::new();
    for _ in 0..(width * height * channels as u32) {
        state = state
            .wrapping_mul(6364136223846793005)
            .wrapping_add(1442695040888963407);
        samples.push((((state >> 33) % shades) * (255 / (shades - 1))) as u8);
    }
    PixelBuffer::from_raw(width, height, channels, samples).unwrap()
}

#[test]
fn agrees_with_the_filter_by_the_book() {
    for (width, height, channels, seed, shades) in [
        (13u32, 9u32, 4u8, 1u64, 256u64),
        (9, 13, 3, 2, 4),
        (2, 2, 4, 3, 2),
        (17, 3, 3, 4, 3),
        (3, 17, 4, 5, 16),
    ] {
        let img = noise(width, height, channels, seed, shades);
        for (radius, intensity) in [(4u32, 55u16), (1, 55), (2, 7), (6, 255), (3, 1000)] {
            assert_eq!(
                oil_paint(&img, radius, intensity).into_raw(),
                by_the_book(&img, i64::from(radius), f64::from(intensity)),
                "{}x{}x{} radius {} factor {}",
                width,
                height,
                channels,
                radius,
                intensity
            );
        }
    }
}

#[test]
fn levels_agree_with_floating_point_rounding() {
    for intensity in [0u16, 1, 2, 55, 254, 255, 256, 1000, 65535] {
        for sum in 0..=765u32 {
            let r = sum.min(255) as u8;
            let g = (sum - u32::from(r)).min(255) as u8;
            let b = (sum - u32::from(r) - u32::from(g)) as u8;
            // Rows 1 and 2 of column 1 hold the colour in question and one
            // that differs by one step; they share a bucket exactly if their
            // levels agree.
            let next = if b < 255 { [r, g, b + 1] } else { [r, g, b] };
            let img = column_image(&[[0, 0, 0], [r, g, b], next]);
            assert_eq!(
                oil_paint(&img, 1, intensity).into_raw(),
                by_the_book(&img, 1, f64::from(intensity)),
                "sum {} factor {}",
                sum,
                intensity
            );
        }
    }
}
