use ascii_shadow::charset::blocks::BlocksCharset;
use ascii_shadow::charset::braille::{pixels_to_braille, BrailleCharset};
use ascii_shadow::charset::numbers::NumbersCharset;
use ascii_shadow::charset::{standard, Charset, CustomCharset, StandardCharset};

#[test]
fn test_blocks_charset() {
    let charset = BlocksCharset;
    assert_eq!(charset.len(), 5);
    assert_eq!(charset.map_brightness(0), ' ');
    assert_eq!(charset.map_brightness(255), '█');
}

#[test]
fn test_braille_charset() {
    let charset = BrailleCharset;
    assert_eq!(charset.len(), 256);
    assert_eq!(charset.map_brightness(0), '⠀'); // U+2800 - first character
    assert_eq!(charset.map_brightness(255), '⣿'); // U+28FF - last character
}

#[test]
fn test_pixels_to_braille_empty() {
    let pixels = [[false; 2]; 4];
    assert_eq!(pixels_to_braille(pixels), '⠀');
}

#[test]
fn test_pixels_to_braille_full() {
    let pixels = [[true; 2]; 4];
    assert_eq!(pixels_to_braille(pixels), '⣿');
}

#[test]
fn test_pixels_to_braille_partial() {
    // Just the top-left dot
    let mut pixels = [[false; 2]; 4];
    pixels[0][0] = true;
    assert_eq!(pixels_to_braille(pixels), '⠁');
}

#[test]
fn mod_test_standard_charset() {
    let charset = StandardCharset;
    assert_eq!(charset.len(), 10);
    assert_eq!(charset.map_brightness(0), ' ');
    assert_eq!(charset.map_brightness(255), '@');
}

#[test]
fn test_custom_charset() {
    let charset = CustomCharset::new(".#").unwrap();
    assert_eq!(charset.len(), 2);
    assert_eq!(charset.map_brightness(127), '.'); // Index 0 for ~50% brightness
    assert_eq!(charset.map_brightness(255), '#'); // Index 1 for 100% brightness
}

#[test]
fn test_custom_charset_empty() {
    assert!(CustomCharset::new("").is_err());
}

#[test]
fn test_numbers_charset() {
    let charset = NumbersCharset;
    assert!(charset.len() > 10);
    assert_eq!(charset.map_brightness(0), ' ');
    assert_eq!(charset.map_brightness(255), '$');
}

#[test]
fn standard_test_standard_charset() {
    let charset = standard::StandardCharset;
    assert_eq!(charset.len(), 10);
    assert_eq!(charset.map_brightness(0), ' ');
    assert_eq!(charset.map_brightness(255), '@');
    assert_eq!(charset.map_brightness(127), '='); // Index 4 for ~50% brightness
    assert_eq!(charset.map_brightness(200), '#'); // Index 7 for ~80% brightness
}
