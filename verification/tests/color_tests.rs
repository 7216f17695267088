use ascii_shadow::color::{rgb_to_256_code, rgb_to_grayscale, ColorMode};
use ascii_shadow::converter::ColoredChar;
use ascii_shadow::output::format_colored;
use std::str::FromStr;

#[test]
fn test_rgb_to_grayscale() {
    assert_eq!(rgb_to_grayscale(0, 0, 0), 0);
    assert_eq!(rgb_to_grayscale(255, 255, 255), 255);
    // Green has highest weight
    assert!(rgb_to_grayscale(0, 255, 0) > rgb_to_grayscale(255, 0, 0));
}

#[test]
fn test_rgb_to_256_code() {
    // Black (all equal) goes to grayscale range
    assert_eq!(rgb_to_256_code(0, 0, 0), 232); // Black in grayscale
    // White (all equal) goes to grayscale range
    assert_eq!(rgb_to_256_code(255, 255, 255), 255); // White in grayscale
    // Red in color cube (not all equal)
    assert_eq!(rgb_to_256_code(255, 0, 0), 196);
}

#[test]
fn test_color_mode_from_str() {
    assert_eq!(ColorMode::from_str("truecolor").unwrap(), ColorMode::Truecolor);
    assert_eq!(ColorMode::from_str("256").unwrap(), ColorMode::Color256);
    assert_eq!(ColorMode::from_str("grayscale").unwrap(), ColorMode::Grayscale);
    assert_eq!(ColorMode::from_str("none").unwrap(), ColorMode::NoColor);
}

#[test]
fn test_format_colored_no_color() {
    let chars = vec![
        ColoredChar {
            char: 'A',
            color: None,
            bg: None,
        },
        ColoredChar {
            char: '\n',
            color: None,
            bg: None,
        },
        ColoredChar {
            char: 'B',
            color: None,
            bg: None,
        },
    ];
    let output = format_colored(&chars, ColorMode::NoColor);
    assert!(output.contains('A'));
    assert!(output.contains('B'));
    assert!(output.contains('\n'));
}

#[test]
fn test_format_colored_simple() {
    let chars = vec![
        ColoredChar {
            char: '@',
            color: Some((255, 0, 0)),
            bg: None,
        },
        ColoredChar {
            char: '#',
            color: Some((0, 255, 0)),
            bg: None,
        },
    ];
    let output = format_colored(&chars, ColorMode::Truecolor);
    assert!(output.contains('@'));
    assert!(output.contains('#'));
    assert!(output.contains("\x1b[38;2;")); // ANSI truecolor prefix
    assert!(output.contains("\x1b[0m")); // Reset code
}
