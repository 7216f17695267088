use ascii_shadow::charset::blocks::BlocksCharset;
use ascii_shadow::charset::braille::{pixels_to_braille, BrailleCharset, BRAILLE_EMPTY, BRAILLE_FULL};
use ascii_shadow::charset::{
    from_custom, from_str, AlphanumericCharset, AnyCharset, Charset, CharsetError,
    ExtendedStandardCharset, NumbersCharset, StandardCharset,
};
use ascii_shadow::cli::{Args, InputSource};
use ascii_shadow::color::{
    grayscale_to_bg, grayscale_to_fg, reset_color, rgb_to_256_bg, rgb_to_256_code, rgb_to_256_fg,
    rgb_to_grayscale, rgb_to_truecolor_bg, rgb_to_truecolor_fg, ColorMode,
};
use ascii_shadow::converter::{adjust_pixel, convert, ColoredChar, ConverterConfig};
use ascii_shadow::image::RgbaImage;
use ascii_shadow::output::{bg_ansi, fg_ansi, format_colored};

fn all_charsets() -> Vec<AnyCharset> {
    vec![
        AnyCharset::Standard(StandardCharset),
        AnyCharset::Extended(ExtendedStandardCharset),
        AnyCharset::Alphanumeric(AlphanumericCharset),
        AnyCharset::Numbers(NumbersCharset),
        AnyCharset::Blocks(BlocksCharset),
        AnyCharset::Braille(BrailleCharset),
        from_custom("ab").unwrap(),
    ]
}

#[test]
fn brightness_extremes_select_first_and_last() {
    for cs in all_charsets() {
        let chars = cs.characters();
        assert_eq!(cs.map_brightness(0), chars[0]);
        assert_eq!(cs.map_brightness(255), chars[chars.len() - 1]);
    }
}

#[test]
fn brightness_mapping_is_monotonic() {
    let distinct = [from_custom("0123456789abcdefghij").unwrap(), AnyCharset::Standard(StandardCharset)];
    for cs in distinct.iter() {
        let chars = cs.characters();
        let index = |c: char| chars.iter().position(|&x| x == c).unwrap();
        let mut last = 0;
        for b in 0..=255u8 {
            let i = index(cs.map_brightness(b));
            assert!(i >= last);
            last = i;
        }
        assert_eq!(last, chars.len() - 1);
    }
}

#[test]
fn brightness_rounds_to_nearest_index() {
    // 127 / 255 * 9 = 4.48 -> 4; 128 / 255 * 9 = 4.52 -> 5
    let cs = StandardCharset;
    assert_eq!(cs.map_brightness(127), '=');
    assert_eq!(cs.map_brightness(128), '+');
    assert_eq!(cs.map_brightness(14), ' ');
    assert_eq!(cs.map_brightness(15), '.');
}

#[test]
fn single_character_charset_always_selected() {
    let cs = from_custom("#").unwrap();
    for b in [0u8, 1, 127, 254, 255] {
        assert_eq!(cs.map_brightness(b), '#');
    }
}

#[test]
fn braille_pattern_bits_follow_pixels() {
    for code in 0u32..256 {
        let mut p = [[false; 2]; 4];
        for row in 0..4 {
            for col in 0..2 {
                let bit = if row == 3 { 6 + col } else { 3 * col + row };
                p[row][col] = (code >> bit) & 1 == 1;
            }
        }
        assert_eq!(pixels_to_braille(p) as u32, 0x2800 + code);
    }
    assert_eq!(pixels_to_braille([[false; 2]; 4]), BRAILLE_EMPTY);
    assert_eq!(pixels_to_braille([[true; 2]; 4]), BRAILLE_FULL);
    let mut top_right = [[false; 2]; 4];
    top_right[0][1] = true;
    assert_eq!(pixels_to_braille(top_right), '\u{2808}');
    let mut second_left = [[false; 2]; 4];
    second_left[1][0] = true;
    assert_eq!(pixels_to_braille(second_left), '\u{2802}');
    let mut bottom_left = [[false; 2]; 4];
    bottom_left[3][0] = true;
    assert_eq!(pixels_to_braille(bottom_left), '\u{2840}');
}

#[test]
fn braille_charset_is_in_density_order() {
    let chars = BrailleCharset.characters();
    assert_eq!(chars.len(), 256);
    let dots = |c: char| (c as u32 - 0x2800).count_ones();
    for w in chars.windows(2) {
        assert!(dots(w[0]) <= dots(w[1]));
    }
    let mut seen = [false; 256];
    for c in chars {
        let code = *c as u32 - 0x2800;
        assert!(code < 256);
        assert!(!seen[code as usize]);
        seen[code as usize] = true;
    }
    assert_eq!(chars[0], BRAILLE_EMPTY);
    assert_eq!(chars[255], BRAILLE_FULL);
}

#[test]
fn braille_dots_count_set_pixels() {
    for code in 0u32..256 {
        let mut p = [[false; 2]; 4];
        for i in 0..8 {
            p[i / 2][i % 2] = (code >> i) & 1 == 1;
        }
        let lit = p.iter().flatten().filter(|b| **b).count() as u32;
        assert_eq!((pixels_to_braille(p) as u32 - 0x2800).count_ones(), lit);
    }
}

#[test]
fn charset_names_ignore_case() {
    assert!(matches!(from_str("Standard"), Ok(AnyCharset::Standard(_))));
    assert!(matches!(from_str("BRAILLE"), Ok(AnyCharset::Braille(_))));
    assert!(matches!(from_str("alpha"), Ok(AnyCharset::Alphanumeric(_))));
    assert!(matches!(from_str("num"), Ok(AnyCharset::Numbers(_))));
    assert!(matches!(from_str("block"), Ok(AnyCharset::Blocks(_))));
    assert!(matches!(from_str("extended"), Ok(AnyCharset::Extended(_))));
}

#[test]
fn unknown_charset_error() {
    match from_str("fancy") {
        Err(e @ CharsetError::UnknownCharset(_)) => {
            assert_eq!(e.message(), "Unknown charset: fancy");
        }
        _ => panic!("expected an unknown charset error"),
    }
    match from_custom("") {
        Err(e @ CharsetError::EmptyCharset) => {
            assert_eq!(e.message(), "Custom charset cannot be empty");
        }
        _ => panic!("expected an empty charset error"),
    }
}

#[test]
fn custom_charset_keeps_characters() {
    let cs = from_custom(" .oO0@").unwrap();
    assert_eq!(cs.characters(), &[' ', '.', 'o', 'O', '0', '@']);
    assert_eq!(cs.len(), 6);
}

#[test]
fn grayscale_formula_values() {
    assert_eq!(rgb_to_grayscale(255, 0, 0), 76);
    assert_eq!(rgb_to_grayscale(0, 255, 0), 149);
    assert_eq!(rgb_to_grayscale(0, 0, 255), 29);
    for v in 0..=255u8 {
        assert_eq!(rgb_to_grayscale(v, v, v), v);
    }
}

#[test]
fn palette_code_ranges() {
    for v in (0..=255u8).step_by(5) {
        let c = rgb_to_256_code(v, v, v);
        assert!((232..=255).contains(&c));
    }
    assert_eq!(rgb_to_256_code(0, 0, 255), 21);
    assert_eq!(rgb_to_256_code(0, 255, 0), 46);
    assert_eq!(rgb_to_256_code(128, 64, 0), 16 + 36 * 3 + 6 * 1);
    assert_eq!(rgb_to_256_code(10, 20, 10), 16);
    assert_eq!(rgb_to_256_code(10, 17, 10), 232);
}

#[test]
fn escape_sequences() {
    assert_eq!(rgb_to_truecolor_fg(1, 22, 255), "\x1b[38;2;1;22;255m");
    assert_eq!(rgb_to_truecolor_bg(0, 0, 0), "\x1b[48;2;0;0;0m");
    assert_eq!(rgb_to_256_fg(255, 0, 0), "\x1b[38;5;196m");
    assert_eq!(rgb_to_256_bg(255, 255, 255), "\x1b[48;5;255m");
    assert_eq!(grayscale_to_fg(0), "\x1b[38;5;232m");
    assert_eq!(grayscale_to_bg(255), "\x1b[48;5;255m");
    assert_eq!(grayscale_to_fg(128), "\x1b[38;5;243m");
    assert_eq!(reset_color(), "\x1b[0m");
    assert_eq!(fg_ansi((10, 20, 30), ColorMode::NoColor), "");
    assert_eq!(bg_ansi((100, 100, 100), ColorMode::Grayscale), "\x1b[48;5;241m");
    assert_eq!(fg_ansi((255, 0, 0), ColorMode::Color256), "\x1b[38;5;196m");
}

#[test]
fn color_mode_names() {
    assert_eq!(ColorMode::from_str("RGB").unwrap(), ColorMode::Truecolor);
    assert_eq!(ColorMode::from_str("24bit").unwrap(), ColorMode::Truecolor);
    assert_eq!(ColorMode::from_str("8BIT").unwrap(), ColorMode::Color256);
    assert_eq!(ColorMode::from_str("grey").unwrap(), ColorMode::Grayscale);
    assert_eq!(ColorMode::from_str("Off").unwrap(), ColorMode::NoColor);
    assert_eq!(
        ColorMode::from_str("sepia").unwrap_err(),
        "Unknown color mode: sepia"
    );
    assert_eq!(ColorMode::default(), ColorMode::Grayscale);
}

fn cell(c: char, color: Option<(u8, u8, u8)>, bg: Option<(u8, u8, u8)>) -> ColoredChar {
    ColoredChar { char: c, color, bg }
}

#[test]
fn uncolored_output_is_plain_text() {
    let chars = vec![
        cell('a', None, None),
        cell('b', None, None),
        cell('\n', None, None),
        cell('c', None, None),
    ];
    assert_eq!(format_colored(&chars, ColorMode::Truecolor), "ab\nc\x1b[0m");
    assert_eq!(format_colored(&[], ColorMode::Truecolor), "\x1b[0m");
}

#[test]
fn colors_switch_only_on_change_and_reset_at_line_end() {
    let red = Some((255, 0, 0));
    let chars = vec![
        cell('a', red, None),
        cell('b', red, None),
        cell('\n', None, None),
        cell('c', red, Some((0, 0, 0))),
    ];
    let out = format_colored(&chars, ColorMode::Truecolor);
    assert_eq!(
        out,
        "\x1b[0m\x1b[38;2;255;0;0mab\n\x1b[0m\x1b[0m\x1b[48;2;0;0;0m\x1b[38;2;255;0;0mc\x1b[0m"
    );
    assert!(out.ends_with("\x1b[0m"));
}

#[test]
fn invert_mirrors_brightness() {
    let plain = ConverterConfig::new(AnyCharset::Standard(StandardCharset));
    let inverted = ConverterConfig {
        invert: true,
        ..ConverterConfig::new(AnyCharset::Standard(StandardCharset))
    };
    for p in [(0, 0, 0, 255), (100, 150, 200, 255), (255, 255, 255, 10), (3, 0, 0, 85)] {
        let a = adjust_pixel(&plain, p).brightness;
        let b = adjust_pixel(&inverted, p).brightness;
        assert_eq!(a as u16 + b as u16, 255);
    }
    assert_eq!(adjust_pixel(&inverted, (100, 100, 100, 255)).brightness, 155);
}

#[test]
fn neutral_adjustment_is_grayscale() {
    let config = ConverterConfig::new(AnyCharset::Standard(StandardCharset));
    let a = adjust_pixel(&config, (10, 200, 30, 255));
    assert_eq!(a.brightness, rgb_to_grayscale(10, 200, 30));
    assert_eq!(a.color, (10, 200, 30));
}

#[test]
fn transparency_blends_over_background() {
    let over_white = ConverterConfig::new(AnyCharset::Standard(StandardCharset));
    // fully transparent black shows the white behind it
    assert_eq!(adjust_pixel(&over_white, (0, 0, 0, 0)).color, (255, 255, 255));
    // exact thirds: 3 * 170 / 255 = 2
    let over_gray = ConverterConfig {
        background: Some((3, 3, 3)),
        ..ConverterConfig::new(AnyCharset::Standard(StandardCharset))
    };
    assert_eq!(adjust_pixel(&over_gray, (0, 0, 0, 85)).color, (2, 2, 2));
    assert_eq!(adjust_pixel(&over_gray, (200, 100, 0, 128)).color, (101, 51, 1));
}

#[test]
fn contrast_and_brightness_adjustments() {
    let base = || ConverterConfig::new(AnyCharset::Standard(StandardCharset));
    let more = ConverterConfig { contrast: 50, ..base() };
    // (200 - 128) * 2 + 128 = 272 -> 255; (100 - 128) * 2 + 128 = 72
    assert_eq!(adjust_pixel(&more, (200, 200, 200, 255)).brightness, 255);
    assert_eq!(adjust_pixel(&more, (100, 100, 100, 255)).brightness, 72);
    let flat = ConverterConfig { contrast: -50, ..base() };
    assert_eq!(adjust_pixel(&flat, (10, 10, 10, 255)).brightness, 128);
    let brighter = ConverterConfig { brightness: 20, ..base() };
    assert_eq!(adjust_pixel(&brighter, (100, 100, 100, 255)).brightness, 140);
    let darker = ConverterConfig { brightness: -100, ..base() };
    assert_eq!(adjust_pixel(&darker, (100, 100, 100, 255)).brightness, 0);
}

#[test]
fn plain_picture_rows() {
    let data = vec![
        0, 0, 0, 255, 255, 255, 255, 255, //
        255, 255, 255, 255, 0, 0, 0, 255,
    ];
    let img = RgbaImage::from_raw(2, 2, data).unwrap();
    let config = ConverterConfig {
        color_mode: ColorMode::NoColor,
        ..ConverterConfig::new(AnyCharset::Standard(StandardCharset))
    };
    let cells = convert(&config, &img);
    assert!(cells.iter().all(|c| c.color.is_none() && c.bg.is_none()));
    assert_eq!(format_colored(&cells, ColorMode::NoColor), " @\n@ \n\x1b[0m");
}

#[test]
fn colored_cells_carry_background() {
    let img = RgbaImage::filled(1, 1, (9, 8, 7, 255));
    let config = ConverterConfig {
        color_mode: ColorMode::Truecolor,
        background: Some((1, 2, 3)),
        ..ConverterConfig::new(AnyCharset::Standard(StandardCharset))
    };
    let cells = convert(&config, &img);
    assert_eq!(cells.len(), 2);
    assert_eq!(cells[0].color, Some((9, 8, 7)));
    assert_eq!(cells[0].bg, Some((1, 2, 3)));
    assert_eq!(cells[1], ColoredChar { char: '\n', color: None, bg: None });
}

#[test]
fn background_parsing_round_trips() {
    let parse = |s: &str| {
        Args {
            background: Some(s.to_string()),
            ..Default::default()
        }
        .parse_background()
    };
    for (r, g, b) in [(0u8, 0u8, 0u8), (255, 255, 255), (0x1a, 0x1a, 0x2e), (1, 2, 3)] {
        let hex = format!("{:02x}{:02x}{:02x}", r, g, b);
        assert_eq!(parse(&hex).unwrap(), Some((r, g, b)));
        assert_eq!(parse(&format!("#{}", hex)).unwrap(), Some((r, g, b)));
    }
    assert_eq!(parse("ABCDEF").unwrap(), Some((0xab, 0xcd, 0xef)));
    assert_eq!(parse("##ff0000").unwrap(), Some((255, 0, 0)));
    assert_eq!(parse("NONE").unwrap(), None);
    assert_eq!(parse("none").unwrap(), None);
}

#[test]
fn background_parsing_errors() {
    let parse = |s: &str| {
        Args {
            background: Some(s.to_string()),
            ..Default::default()
        }
        .parse_background()
    };
    assert_eq!(parse("fff").unwrap_err(), "Background color must be 6 hex digits");
    assert_eq!(parse("#ff00001").unwrap_err(), "Background color must be 6 hex digits");
    assert_eq!(
        parse("gg0000").unwrap_err(),
        "Invalid hex color: invalid digit found in string"
    );
    assert_eq!(
        parse("ff00-1").unwrap_err(),
        "Invalid hex color: invalid digit found in string"
    );
    // each field is exactly two hexadecimal digits: no sign
    assert_eq!(
        parse("+f+f+f").unwrap_err(),
        "Invalid hex color: invalid digit found in string"
    );
    assert_eq!(
        parse("ff+f00").unwrap_err(),
        "Invalid hex color: invalid digit found in string"
    );
    // two-byte characters: six bytes, cut on character boundaries
    assert_eq!(
        parse("éé00").unwrap_err(),
        "Invalid hex color: invalid digit found in string"
    );
}

#[test]
fn input_sources() {
    let url = InputSource::from_str("https://example.com/a.png".to_string());
    assert!(url.is_url() && !url.is_file());
    assert_eq!(url.display(), "https://example.com/a.png");
    let plain = InputSource::from_str("http://x".to_string());
    assert!(plain.is_url());
    let file = InputSource::from_str("pictures/http://a.png".to_string());
    assert!(file.is_file() && !file.is_url());
    assert_eq!(file.display(), "pictures/http://a.png");
    assert_eq!(file, InputSource::File("pictures/http://a.png".to_string()));
}

#[test]
fn default_arguments() {
    let a = Args::default();
    assert_eq!(a.input, "test.png");
    assert_eq!(a.charset, "standard");
    assert_eq!(a.color_mode, "truecolor");
    assert_eq!(a.resize, "fit");
    assert!(a.color && a.preserve_aspect_ratio && !a.invert);
    assert_eq!((a.contrast, a.brightness), (0, 0));
    assert!(a.output.is_none() && a.background.is_none() && a.custom_charset.is_none());
}

#[test]
fn lookups_by_lower_case_name() {
    assert_eq!(ascii_shadow::color::color_mode_named("grey"), Some(ColorMode::Grayscale));
    assert_eq!(ascii_shadow::color::color_mode_named("off"), Some(ColorMode::NoColor));
    assert_eq!(ascii_shadow::color::color_mode_named("Grey"), None);
    assert_eq!(ascii_shadow::image::resize_mode_named("crop"), Some(ascii_shadow::image::ResizeMode::Crop));
    assert_eq!(ascii_shadow::image::resize_mode_named("Crop"), None);
    assert!(matches!(ascii_shadow::charset::charset_named("block"), Some(AnyCharset::Blocks(_))));
    assert!(matches!(ascii_shadow::charset::charset_named("num"), Some(AnyCharset::Numbers(_))));
    assert!(ascii_shadow::charset::charset_named("BLOCK").is_none());
}

#[test]
fn numbers_charset_holds_digits_and_punctuation() {
    let chars = NumbersCharset.characters();
    assert!(chars.len() > 10);
    assert_eq!(chars[0], ' ');
    assert_eq!(chars[chars.len() - 1], '$');
    for c in chars {
        assert!(*c == ' ' || c.is_ascii_digit() || c.is_ascii_punctuation());
    }
}
