use ascii_shadow::charset::{AnyCharset, StandardCharset};
use ascii_shadow::converter::{adjust_pixel, convert, ConverterConfig};
use ascii_shadow::image::{calculate_dimensions, ResizeMode, RgbaImage};

#[test]
fn test_calculate_dimensions() {
    // Create a simple 100x100 image
    let img = RgbaImage::new_rgb8(100, 100);

    let (w, h) = calculate_dimensions(&img, 80, 40);
    assert!(w <= 80);
    assert!(h <= 40);
}

#[test]
fn test_resize_mode_from_str() {
    assert_eq!(ResizeMode::from_str("fit").unwrap(), ResizeMode::Fit);
    assert_eq!(ResizeMode::from_str("fill").unwrap(), ResizeMode::Fill);
    assert_eq!(ResizeMode::from_str("stretch").unwrap(), ResizeMode::Stretch);
    assert_eq!(ResizeMode::from_str("crop").unwrap(), ResizeMode::Crop);
}

#[test]
fn test_convert_simple() {
    let config = ConverterConfig::new(AnyCharset::Standard(StandardCharset));
    let img = RgbaImage::new_rgb8(2, 2);
    let result = convert(&config, &img);
    // Should have 2x2 characters + 2 newlines = 6
    assert_eq!(result.len(), 6);
    assert_eq!(result[2].char, '\n'); // First newline (after 2 chars)
    assert_eq!(result[4].char, ' '); // Character at (1,1) - black maps to space
}

#[test]
fn test_adjust_pixel_no_changes() {
    let config = ConverterConfig::new(AnyCharset::Standard(StandardCharset));
    let pixel = (128, 128, 128, 255);
    let adjusted = adjust_pixel(&config, pixel);
    assert_eq!(adjusted.color, (128, 128, 128));
}

#[test]
fn test_adjust_pixel_invert() {
    let config = ConverterConfig {
        invert: true,
        ..ConverterConfig::new(AnyCharset::Standard(StandardCharset))
    };
    let pixel = (100, 100, 100, 255);
    let adjusted = adjust_pixel(&config, pixel);
    // Grayscale of 100,100,100 is 100, inverted should be ~155
    assert!(adjusted.brightness > 150);
}
