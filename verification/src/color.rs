//! Color conversion and ANSI escape codes.

use vstd::prelude::*;
use crate::text::{
    all_ascii, ascii_lowered, decimal, lemma_lowers_to_word, same_ignoring_ascii_case, lowercase, push_decimal, str_eq, to_lowercase,
};

verus! {

/// Color modes supported by the converter.
#[derive(Debug, Clone, Copy, PartialEq, Eq, Structural)]
pub enum ColorMode {
    /// 24-bit truecolor (16.7 million colors)
    Truecolor,
    /// 256-color palette
    Color256,
    /// Grayscale only
    Grayscale,
    /// No color
    NoColor,
}

impl Default for ColorMode {
    fn default() -> (m: Self)
        ensures
            m == ColorMode::Grayscale,
    {
        ColorMode::Grayscale
    }
}

/// The color mode an already lower-cased name selects, if any.
pub open spec fn named_color_mode(lower: Seq<char>) -> Option<ColorMode> {
    if lower == "truecolor"@ || lower == "24bit"@ || lower == "rgb"@ {
        Some(ColorMode::Truecolor)
    } else if lower == "256"@ || lower == "8bit"@ {
        Some(ColorMode::Color256)
    } else if lower == "grayscale"@ || lower == "gray"@ || lower == "grey"@ {
        Some(ColorMode::Grayscale)
    } else if lower == "none"@ || lower == "off"@ {
        Some(ColorMode::NoColor)
    } else {
        Option::None
    }
}

/// Every color mode name selects its mode, in any ASCII case:
/// `truecolor`/`24bit`/`rgb`, `256`/`8bit`, `grayscale`/`gray`/`grey` and
/// `none`/`off`.
pub proof fn lemma_color_mode_names(s: Seq<char>)
    ensures
        same_ignoring_ascii_case(s, "truecolor"@) ==> all_ascii(s) && named_color_mode(ascii_lowered(s)) == Some(ColorMode::Truecolor),
        same_ignoring_ascii_case(s, "24bit"@) ==> all_ascii(s) && named_color_mode(ascii_lowered(s)) == Some(ColorMode::Truecolor),
        same_ignoring_ascii_case(s, "rgb"@) ==> all_ascii(s) && named_color_mode(ascii_lowered(s)) == Some(ColorMode::Truecolor),
        same_ignoring_ascii_case(s, "256"@) ==> all_ascii(s) && named_color_mode(ascii_lowered(s)) == Some(ColorMode::Color256),
        same_ignoring_ascii_case(s, "8bit"@) ==> all_ascii(s) && named_color_mode(ascii_lowered(s)) == Some(ColorMode::Color256),
        same_ignoring_ascii_case(s, "grayscale"@) ==> all_ascii(s) && named_color_mode(ascii_lowered(s)) == Some(ColorMode::Grayscale),
        same_ignoring_ascii_case(s, "gray"@) ==> all_ascii(s) && named_color_mode(ascii_lowered(s)) == Some(ColorMode::Grayscale),
        same_ignoring_ascii_case(s, "grey"@) ==> all_ascii(s) && named_color_mode(ascii_lowered(s)) == Some(ColorMode::Grayscale),
        same_ignoring_ascii_case(s, "none"@) ==> all_ascii(s) && named_color_mode(ascii_lowered(s)) == Some(ColorMode::NoColor),
        same_ignoring_ascii_case(s, "off"@) ==> all_ascii(s) && named_color_mode(ascii_lowered(s)) == Some(ColorMode::NoColor),
{
    reveal_strlit("truecolor");
    reveal_strlit("24bit");
    reveal_strlit("rgb");
    reveal_strlit("256");
    reveal_strlit("8bit");
    reveal_strlit("grayscale");
    reveal_strlit("gray");
    reveal_strlit("grey");
    reveal_strlit("none");
    reveal_strlit("off");
    if same_ignoring_ascii_case(s, "24bit"@) {
        assert(ascii_lowered("24bit"@) =~= "24bit"@);
        lemma_lowers_to_word(s, "24bit"@);
        assert("24bit"@.len() != "truecolor"@.len());
        assert("24bit"@.len() != "rgb"@.len());
        assert("24bit"@.len() != "256"@.len());
        assert("24bit"@.len() != "8bit"@.len());
        assert("24bit"@.len() != "grayscale"@.len());
        assert("24bit"@.len() != "gray"@.len());
        assert("24bit"@.len() != "grey"@.len());
        assert("24bit"@.len() != "none"@.len());
        assert("24bit"@.len() != "off"@.len());
    }
    if same_ignoring_ascii_case(s, "256"@) {
        assert(ascii_lowered("256"@) =~= "256"@);
        lemma_lowers_to_word(s, "256"@);
        assert("256"@.len() != "truecolor"@.len());
        assert("256"@.len() != "24bit"@.len());
        assert("256"@[0] != "rgb"@[0]);
        assert("256"@.len() != "8bit"@.len());
        assert("256"@.len() != "grayscale"@.len());
        assert("256"@.len() != "gray"@.len());
        assert("256"@.len() != "grey"@.len());
        assert("256"@.len() != "none"@.len());
        assert("256"@[0] != "off"@[0]);
    }
    if same_ignoring_ascii_case(s, "8bit"@) {
        assert(ascii_lowered("8bit"@) =~= "8bit"@);
        lemma_lowers_to_word(s, "8bit"@);
        assert("8bit"@.len() != "truecolor"@.len());
        assert("8bit"@.len() != "24bit"@.len());
        assert("8bit"@.len() != "rgb"@.len());
        assert("8bit"@.len() != "256"@.len());
        assert("8bit"@.len() != "grayscale"@.len());
        assert("8bit"@[0] != "gray"@[0]);
        assert("8bit"@[0] != "grey"@[0]);
        assert("8bit"@[0] != "none"@[0]);
        assert("8bit"@.len() != "off"@.len());
    }
    if same_ignoring_ascii_case(s, "gray"@) {
        assert(ascii_lowered("gray"@) =~= "gray"@);
        lemma_lowers_to_word(s, "gray"@);
        assert("gray"@.len() != "truecolor"@.len());
        assert("gray"@.len() != "24bit"@.len());
        assert("gray"@.len() != "rgb"@.len());
        assert("gray"@.len() != "256"@.len());
        assert("gray"@[0] != "8bit"@[0]);
        assert("gray"@.len() != "grayscale"@.len());
        assert("gray"@[2] != "grey"@[2]);
        assert("gray"@[0] != "none"@[0]);
        assert("gray"@.len() != "off"@.len());
    }
    if same_ignoring_ascii_case(s, "grayscale"@) {
        assert(ascii_lowered("grayscale"@) =~= "grayscale"@);
        lemma_lowers_to_word(s, "grayscale"@);
        assert("grayscale"@[0] != "truecolor"@[0]);
        assert("grayscale"@.len() != "24bit"@.len());
        assert("grayscale"@.len() != "rgb"@.len());
        assert("grayscale"@.len() != "256"@.len());
        assert("grayscale"@.len() != "8bit"@.len());
        assert("grayscale"@.len() != "gray"@.len());
        assert("grayscale"@.len() != "grey"@.len());
        assert("grayscale"@.len() != "none"@.len());
        assert("grayscale"@.len() != "off"@.len());
    }
    if same_ignoring_ascii_case(s, "grey"@) {
        assert(ascii_lowered("grey"@) =~= "grey"@);
        lemma_lowers_to_word(s, "grey"@);
        assert("grey"@.len() != "truecolor"@.len());
        assert("grey"@.len() != "24bit"@.len());
        assert("grey"@.len() != "rgb"@.len());
        assert("grey"@.len() != "256"@.len());
        assert("grey"@[0] != "8bit"@[0]);
        assert("grey"@.len() != "grayscale"@.len());
        assert("grey"@[2] != "gray"@[2]);
        assert("grey"@[0] != "none"@[0]);
        assert("grey"@.len() != "off"@.len());
    }
    if same_ignoring_ascii_case(s, "none"@) {
        assert(ascii_lowered("none"@) =~= "none"@);
        lemma_lowers_to_word(s, "none"@);
        assert("none"@.len() != "truecolor"@.len());
        assert("none"@.len() != "24bit"@.len());
        assert("none"@.len() != "rgb"@.len());
        assert("none"@.len() != "256"@.len());
        assert("none"@[0] != "8bit"@[0]);
        assert("none"@.len() != "grayscale"@.len());
        assert("none"@[0] != "gray"@[0]);
        assert("none"@[0] != "grey"@[0]);
        assert("none"@.len() != "off"@.len());
    }
    if same_ignoring_ascii_case(s, "off"@) {
        assert(ascii_lowered("off"@) =~= "off"@);
        lemma_lowers_to_word(s, "off"@);
        assert("off"@.len() != "truecolor"@.len());
        assert("off"@.len() != "24bit"@.len());
        assert("off"@[0] != "rgb"@[0]);
        assert("off"@[0] != "256"@[0]);
        assert("off"@.len() != "8bit"@.len());
        assert("off"@.len() != "grayscale"@.len());
        assert("off"@.len() != "gray"@.len());
        assert("off"@.len() != "grey"@.len());
        assert("off"@.len() != "none"@.len());
    }
    if same_ignoring_ascii_case(s, "rgb"@) {
        assert(ascii_lowered("rgb"@) =~= "rgb"@);
        lemma_lowers_to_word(s, "rgb"@);
        assert("rgb"@.len() != "truecolor"@.len());
        assert("rgb"@.len() != "24bit"@.len());
        assert("rgb"@[0] != "256"@[0]);
        assert("rgb"@.len() != "8bit"@.len());
        assert("rgb"@.len() != "grayscale"@.len());
        assert("rgb"@.len() != "gray"@.len());
        assert("rgb"@.len() != "grey"@.len());
        assert("rgb"@.len() != "none"@.len());
        assert("rgb"@[0] != "off"@[0]);
    }
    if same_ignoring_ascii_case(s, "truecolor"@) {
        assert(ascii_lowered("truecolor"@) =~= "truecolor"@);
        lemma_lowers_to_word(s, "truecolor"@);
        assert("truecolor"@.len() != "24bit"@.len());
        assert("truecolor"@.len() != "rgb"@.len());
        assert("truecolor"@.len() != "256"@.len());
        assert("truecolor"@.len() != "8bit"@.len());
        assert("truecolor"@[0] != "grayscale"@[0]);
        assert("truecolor"@.len() != "gray"@.len());
        assert("truecolor"@.len() != "grey"@.len());
        assert("truecolor"@.len() != "none"@.len());
        assert("truecolor"@.len() != "off"@.len());
    }
}

/// The color mode a lower-case name selects, if any.
pub fn color_mode_named(lower: &str) -> (r: Option<ColorMode>)
    ensures
        r == named_color_mode(lower@),
{
    if str_eq(lower, "truecolor") || str_eq(lower, "24bit") || str_eq(lower, "rgb") {
        Some(ColorMode::Truecolor)
    } else if str_eq(lower, "256") || str_eq(lower, "8bit") {
        Some(ColorMode::Color256)
    } else if str_eq(lower, "grayscale") || str_eq(lower, "gray") || str_eq(lower, "grey") {
        Some(ColorMode::Grayscale)
    } else if str_eq(lower, "none") || str_eq(lower, "off") {
        Some(ColorMode::NoColor)
    } else {
        Option::None
    }
}

impl ColorMode {
    /// Parses a color mode name, ignoring case.
    pub fn from_str(s: &str) -> (r: Result<ColorMode, String>)
        ensures
            all_ascii(s@) ==> lowercase(s@) == ascii_lowered(s@),
            match named_color_mode(lowercase(s@)) {
                Some(m) => r == Ok::<ColorMode, String>(m),
                Option::None => r matches Err(e) && e@ == "Unknown color mode: "@ + s@,
            },
    {
        let lower = to_lowercase(s);
        match color_mode_named(lower.as_str()) {
            Some(m) => Ok(m),
            Option::None => {
                let mut e = String::from_str("Unknown color mode: ");
                e.append(s);
                Err(e)
            },
        }
    }
}

impl std::str::FromStr for ColorMode {
    type Err = String;

    fn from_str(s: &str) -> (r: Result<Self, Self::Err>)
        ensures
            all_ascii(s@) ==> lowercase(s@) == ascii_lowered(s@),
            match named_color_mode(lowercase(s@)) {
                Some(m) => r == Ok::<ColorMode, String>(m),
                Option::None => r matches Err(e) && e@ == "Unknown color mode: "@ + s@,
            },
    {
        ColorMode::from_str(s)
    }
}

/// Perceived brightness `0.299*R + 0.587*G + 0.114*B`, rounded down.
pub open spec fn grayscale_value(r: u8, g: u8, b: u8) -> int {
    (299 * r + 587 * g + 114 * b) / 1000
}

/// Convert RGB to grayscale using human eye perception weights.
///
/// Uses the formula: 0.299*R + 0.587*G + 0.114*B (rounded down).
pub fn rgb_to_grayscale(r: u8, g: u8, b: u8) -> (v: u8)
    ensures
        v == grayscale_value(r, g, b),
{
    ((299 * (r as u32) + 587 * (g as u32) + 114 * (b as u32)) / 1000) as u8
}

/// `prefix`, then the three components in decimal separated by `;`, then `m`.
pub open spec fn sgr_rgb(prefix: Seq<char>, r: u8, g: u8, b: u8) -> Seq<char> {
    prefix + decimal(r as nat) + ";"@ + decimal(g as nat) + ";"@ + decimal(b as nat) + "m"@
}

/// `prefix`, then `code` in decimal, then `m`.
pub open spec fn sgr_code(prefix: Seq<char>, code: int) -> Seq<char> {
    prefix + decimal(code as nat) + "m"@
}

/// The escape sequence that selects 24-bit foreground color `(r, g, b)`.
pub open spec fn truecolor_fg_seq(r: u8, g: u8, b: u8) -> Seq<char> {
    sgr_rgb("\x1b[38;2;"@, r, g, b)
}

/// The escape sequence that selects 24-bit background color `(r, g, b)`.
pub open spec fn truecolor_bg_seq(r: u8, g: u8, b: u8) -> Seq<char> {
    sgr_rgb("\x1b[48;2;"@, r, g, b)
}

/// The escape sequence that selects palette entry `code` as foreground.
pub open spec fn palette_fg_seq(code: int) -> Seq<char> {
    sgr_code("\x1b[38;5;"@, code)
}

/// The escape sequence that selects palette entry `code` as background.
pub open spec fn palette_bg_seq(code: int) -> Seq<char> {
    sgr_code("\x1b[48;5;"@, code)
}

fn sgr_rgb_string(prefix: &str, r: u8, g: u8, b: u8) -> (s: String)
    ensures
        s@ == sgr_rgb(prefix@, r, g, b),
{
    let mut s = String::from_str(prefix);
    push_decimal(&mut s, r as u32);
    s.append(";");
    push_decimal(&mut s, g as u32);
    s.append(";");
    push_decimal(&mut s, b as u32);
    s.append("m");
    s
}

fn sgr_code_string(prefix: &str, code: u32) -> (s: String)
    ensures
        s@ == sgr_code(prefix@, code as int),
{
    let mut s = String::from_str(prefix);
    push_decimal(&mut s, code);
    s.append("m");
    s
}

/// Convert RGB to 24-bit ANSI truecolor escape sequence (foreground).
pub fn rgb_to_truecolor_fg(r: u8, g: u8, b: u8) -> (s: String)
    ensures
        s@ == truecolor_fg_seq(r, g, b),
{
    sgr_rgb_string("\x1b[38;2;", r, g, b)
}

/// Convert RGB to 24-bit ANSI truecolor escape sequence (background).
pub fn rgb_to_truecolor_bg(r: u8, g: u8, b: u8) -> (s: String)
    ensures
        s@ == truecolor_bg_seq(r, g, b),
{
    sgr_rgb_string("\x1b[48;2;", r, g, b)
}

/// Convert RGB to 256-color ANSI escape sequence (foreground).
pub fn rgb_to_256_fg(r: u8, g: u8, b: u8) -> (s: String)
    ensures
        s@ == palette_fg_seq(palette_code(r, g, b)),
{
    let code = rgb_to_256_code(r, g, b);
    sgr_code_string("\x1b[38;5;", code as u32)
}

/// Convert RGB to 256-color ANSI escape sequence (background).
pub fn rgb_to_256_bg(r: u8, g: u8, b: u8) -> (s: String)
    ensures
        s@ == palette_bg_seq(palette_code(r, g, b)),
{
    let code = rgb_to_256_code(r, g, b);
    sgr_code_string("\x1b[48;5;", code as u32)
}

/// The grayscale ramp entry (232-255) for a gray level.
pub open spec fn gray_ramp_code(gray: u8) -> int {
    232 + gray * 23 / 255
}

/// Convert a gray level to a grayscale ANSI escape sequence (foreground).
pub fn grayscale_to_fg(gray: u8) -> (s: String)
    ensures
        s@ == palette_fg_seq(gray_ramp_code(gray)),
{
    let code: u32 = 232 + (gray as u32 * 23 / 255);
    sgr_code_string("\x1b[38;5;", code)
}

/// Convert a gray level to a grayscale ANSI escape sequence (background).
pub fn grayscale_to_bg(gray: u8) -> (s: String)
    ensures
        s@ == palette_bg_seq(gray_ramp_code(gray)),
{
    let code: u32 = 232 + (gray as u32 * 23 / 255);
    sgr_code_string("\x1b[48;5;", code)
}

/// The escape sequence that resets all attributes.
pub open spec fn reset_seq() -> Seq<char> {
    "\x1b[0m"@
}

/// Reset ANSI color to default.
pub fn reset_color() -> (s: &'static str)
    ensures
        s@ == reset_seq(),
{
    "\x1b[0m"
}

/// Distance between two components.
pub open spec fn component_distance(a: u8, b: u8) -> int {
    if a >= b { a - b } else { b - a }
}

/// Level 0-5 of a component on the 6x6x6 color cube: `v * 5 / 255` rounded.
pub open spec fn cube_level(v: u8) -> int {
    (10 * v + 255) / 510
}

/// Whether a color is close enough to gray to use the grayscale ramp.
pub open spec fn is_near_gray(r: u8, g: u8, b: u8) -> bool {
    component_distance(r, g) < 8 && component_distance(r, b) < 8
}

/// The 256-color palette code of `(r, g, b)`.
pub open spec fn palette_code(r: u8, g: u8, b: u8) -> int {
    if is_near_gray(r, g, b) {
        gray_ramp_code(r)
    } else {
        16 + 36 * cube_level(r) + 6 * cube_level(g) + cube_level(b)
    }
}

fn cube_level_of(v: u8) -> (l: u32)
    ensures
        l == cube_level(v),
        l <= 5,
{
    (10 * (v as u32) + 255) / 510
}

/// Convert RGB to 256-color palette code (0-255).
///
/// The 256-color palette consists of:
/// - 0-15: 16 basic colors
/// - 16-231: 216 colors (6x6x6 RGB cube)
/// - 232-255: 24 grayscale colors
pub fn rgb_to_256_code(r: u8, g: u8, b: u8) -> (code: u8)
    ensures
        code == palette_code(r, g, b),
{
    let d_rg: u8 = if r >= g { r - g } else { g - r };
    let d_rb: u8 = if r >= b { r - b } else { b - r };
    if d_rg < 8 && d_rb < 8 {
        let gray: u32 = 232 + (r as u32 * 23 / 255);
        return gray as u8;
    }
    let idx: u32 = 16 + 36 * cube_level_of(r) + 6 * cube_level_of(g) + cube_level_of(b);
    idx as u8
}

/// A color close to gray is coded on the grayscale ramp, any other color on
/// the color cube.
pub proof fn lemma_palette_code_ranges(r: u8, g: u8, b: u8)
    ensures
        is_near_gray(r, g, b) ==> 232 <= palette_code(r, g, b) <= 255,
        !is_near_gray(r, g, b) ==> 16 <= palette_code(r, g, b) <= 231,
{
}

/// A gray color keeps its level: the weights sum to one.
pub proof fn lemma_gray_is_fixed(v: u8)
    ensures
        grayscale_value(v, v, v) == v,
{
}

/// The grayscale value of a color lies between its smallest and largest
/// component.
pub proof fn lemma_grayscale_between_components(r: u8, g: u8, b: u8)
    ensures
        grayscale_value(r, g, b) <= 255,
        (r <= g && r <= b) ==> r <= grayscale_value(r, g, b),
        (g <= r && g <= b) ==> g <= grayscale_value(r, g, b),
        (b <= r && b <= g) ==> b <= grayscale_value(r, g, b),
        (r >= g && r >= b) ==> grayscale_value(r, g, b) <= r,
        (g >= r && g >= b) ==> grayscale_value(r, g, b) <= g,
        (b >= r && b >= g) ==> grayscale_value(r, g, b) <= b,
{
}

} // verus!
