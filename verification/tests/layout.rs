use fast_image_resize::FilterType;
use okapi::cache::{image_url, ImageCache};
use okapi::fetcher::Fetcher;
use okapi::font::{glyph_pixel, overflows};
use okapi::pixel::PixelBuffer;
use okapi::request::wants_default_background;
use okapi::resize::{can_resize, resize};
use okapi::text::{same_bytes, same_text};
use okapi::webp::{WebpFeatures, WebpLayout};

fn features(width: i32, height: i32, has_alpha: i32, has_animation: i32) -> WebpFeatures {
    WebpFeatures {
        width,
        height,
        has_alpha,
        has_animation,
    }
}

#[test]
fn webp_layout_follows_the_alpha_flag() {
    assert_eq!(
        features(3, 2, 1, 0).layout(),
        Some(WebpLayout {
            width: 3,
            height: 2,
            channels: 4,
            len: 24
        })
    );
    assert_eq!(
        features(3, 2, 0, 0).layout(),
        Some(WebpLayout {
            width: 3,
            height: 2,
            channels: 3,
            len: 18
        })
    );
    assert_eq!(features(3, 2, 2, 0).layout().unwrap().channels, 3);
}

#[test]
fn webp_animations_and_negative_sizes_are_refused() {
    assert_eq!(features(3, 2, 1, 1).layout(), None);
    assert_eq!(features(-1, 2, 1, 0).layout(), None);
    assert_eq!(features(3, -2, 0, 0).layout(), None);
    assert!(features(3, 2, 0, 2).layout().is_some());
    assert_eq!(features(0, 0, 0, 0).layout().unwrap().len, 0);
    // More samples than one buffer can hold.
    assert_eq!(features(i32::MAX, i32::MAX, 1, 0).layout(), None);
    let limit = isize::MAX as u128;
    for (width, height) in [(i32::MAX, 1), (i32::MAX, 2), (1 << 15, 1 << 15), (1 << 30, 1 << 30)] {
        let samples = (width as u128) * (height as u128) * 4;
        assert_eq!(
            features(width, height, 1, 0).layout().is_some(),
            samples <= limit
        );
    }
}

#[test]
fn webp_samples_must_match_the_layout() {
    let layout = features(2, 2, 1, 0).layout().unwrap();
    assert!(layout.buffer(vec![0; 16]).is_some());
    assert!(layout.buffer(vec![0; 15]).is_none());
    assert!(layout.buffer(vec![0; 12]).is_none());
    let img = features(1, 2, 0, 0).layout().unwrap().buffer(vec![1, 2, 3, 4, 5, 6]).unwrap();
    assert_eq!(img.channels(), 3);
    assert_eq!(img.get(0, 1, 2), 6);
}

#[test]
fn webp_image_takes_header_and_samples() {
    let img = okapi::webp::decode(&features(2, 1, 1, 0), vec![1, 2, 3, 4, 5, 6, 7, 8]).unwrap();
    assert_eq!((img.width(), img.height(), img.channels()), (2, 1, 4));
    assert_eq!(img.get(1, 0, 3), 8);
    let img = okapi::webp::decode(&features(2, 1, 0, 0), vec![1, 2, 3, 4, 5, 6]).unwrap();
    assert_eq!(img.channels(), 3);
    assert!(okapi::webp::decode(&features(2, 1, 0, 0), vec![1, 2, 3, 4, 5]).is_none());
    assert!(okapi::webp::decode(&features(2, 1, 1, 0), vec![1, 2, 3, 4, 5, 6]).is_none());
    assert!(okapi::webp::decode(&features(2, 1, 1, 1), vec![0; 8]).is_none());
    assert!(okapi::webp::decode(&features(-2, 1, 1, 0), vec![0; 8]).is_none());
}

#[test]
fn glyph_samples_land_where_the_box_and_origin_put_them() {
    assert_eq!(glyph_pixel(0, 0, 0, 0, 0, 0, 10, 10), Some((0, 0)));
    assert_eq!(glyph_pixel(2, 3, 4, 5, 6, 7, 100, 100), Some((12, 15)));
    assert_eq!(glyph_pixel(2, 3, -2, -3, 0, 0, 10, 10), Some((0, 0)));
    assert_eq!(glyph_pixel(2, 3, -3, -3, 0, 0, 10, 10), None);
    assert_eq!(glyph_pixel(2, 3, -2, -4, 0, 0, 10, 10), None);
    assert_eq!(glyph_pixel(5, 5, 0, 0, 4, 4, 10, 10), Some((9, 9)));
    assert_eq!(glyph_pixel(5, 5, 0, 0, 5, 4, 10, 10), None);
    assert_eq!(glyph_pixel(5, 5, 0, 0, 4, 5, 10, 10), None);
    assert_eq!(glyph_pixel(0, 0, 0, 0, 0, 0, 0, 0), None);
    assert_eq!(glyph_pixel(u32::MAX, 0, i32::MAX, 0, u32::MAX, 0, u32::MAX, 1), None);
    assert_eq!(
        glyph_pixel(0, 0, -1, 0, u32::MAX, 0, u32::MAX, 1),
        Some((u32::MAX - 1, 0))
    );
}

#[test]
fn line_is_squeezed_only_when_too_wide() {
    assert!(overflows(101, 100));
    assert!(!overflows(100, 100));
    assert!(!overflows(-5, 100));
}

#[test]
fn image_urls() {
    assert_eq!(
        image_url("http://localhost:3000", "17"),
        "http://localhost:3000/image?image=17"
    );
    assert_eq!(image_url("", ""), "/image?image=");
    let mut cache = ImageCache::default();
    let token = cache.insert(vec![1], 0);
    assert_eq!(
        image_url("https://okapi.example", &token),
        "https://okapi.example/image?image=1"
    );
}

#[test]
fn default_fetcher_is_the_direct_one() {
    let fetcher = Fetcher::default();
    assert!(fetcher.fetch("https://i.imgur.com/a.png").is_ok());
    assert!(fetcher.fetch("https://evil.example/a.png").is_err());
}

#[test]
fn default_background_is_named_zero() {
    assert!(wants_default_background("0"));
    assert!(!wants_default_background(""));
    assert!(!wants_default_background("00"));
    assert!(!wants_default_background("https://i.imgur.com/0"));
}

#[test]
fn texts_and_bytes_compare_by_content() {
    assert!(same_text("", ""));
    assert!(same_text("dark", "dark"));
    assert!(!same_text("dark", "Dark"));
    assert!(!same_text("dark", "dar"));
    assert!(same_bytes(b"", b""));
    assert!(same_bytes(b"abc", b"abc"));
    assert!(!same_bytes(b"abc", b"abd"));
    assert!(!same_bytes(b"abc", b"ab"));
    assert!(!same_bytes(b"ab", b"abc"));
}

fn flat(width: u32, height: u32, channels: u8, colour: &[u8]) -> PixelBuffer {
    let mut samples = Vec::new();
    for _ in 0..(width * height) {
        samples.extend_from_slice(colour);
    }
    PixelBuffer::from_raw(width, height, channels, samples).unwrap()
}

#[test]
fn resize_gives_the_size_asked_for() {
    let img = flat(8, 6, 4, &[10, 20, 30, 255]);
    assert!(can_resize(&img, 4, 3));
    let out = resize(&img, 4, 3, FilterType::Lanczos3).unwrap();
    assert_eq!(out.width(), 4);
    assert_eq!(out.height(), 3);
    assert_eq!(out.channels(), 4);
    assert_eq!(out.samples().len(), 4 * 3 * 4);
    let up = resize(&img, 16, 9, FilterType::Bilinear).unwrap();
    assert_eq!(up.samples().len(), 16 * 9 * 4);
}

#[test]
fn resize_takes_images_without_alpha() {
    let img = flat(5, 5, 3, &[10, 20, 30]);
    let out = resize(&img, 5, 5, FilterType::Box).unwrap();
    assert_eq!(out.channels(), 4);
    assert_eq!(out.samples(), flat(5, 5, 4, &[10, 20, 30, 255]).samples());
}

#[test]
fn sizes_that_cannot_be_resized() {
    let img = flat(8, 6, 4, &[0, 0, 0, 0]);
    assert!(!can_resize(&img, 0, 3));
    assert!(!can_resize(&img, 4, 0));
    assert!(!can_resize(&img, 65536, 65536));
    assert!(!can_resize(&img, 32768, 32768));
    assert!(can_resize(&img, 32767, 32767));
    let empty = PixelBuffer::from_raw(0, 6, 4, Vec::new()).unwrap();
    assert!(!can_resize(&empty, 4, 3));
    // Between its passes the resizer holds the new width by the old height.
    let tall = PixelBuffer::from_raw(1, 65536, 3, vec![0; 3 * 65536]).unwrap();
    assert!(!can_resize(&tall, 65537, 1));
    assert!(can_resize(&tall, 65535, 1));
    assert!(resize(&tall, 3, 2, FilterType::Box).is_some());
}
