//! Charsets and the mapping from brightness to characters.

use vstd::prelude::*;
use crate::text::{
    all_ascii, ascii_lowered, chars_of, lemma_lowers_to_word, same_ignoring_ascii_case, str_eq, to_lowercase, lowercase,
};

pub mod blocks;
pub mod braille;
pub mod numbers;
pub mod standard;

verus! {

/// Errors of charset construction and lookup.
#[derive(Debug)]
pub enum CharsetError {
    /// No charset has the given name.
    UnknownCharset(String),
    /// A custom charset needs at least one character.
    EmptyCharset,
}

impl CharsetError {
    /// The human-readable message of this error.
    pub fn message(&self) -> (m: String)
        ensures
            m@ == self.message_spec(),
    {
        match self {
            CharsetError::UnknownCharset(name) => {
                let mut m = String::from_str("Unknown charset: ");
                m.append(name.as_str());
                m
            },
            CharsetError::EmptyCharset => String::from_str("Custom charset cannot be empty"),
        }
    }

    /// The message of this error.
    pub open spec fn message_spec(&self) -> Seq<char> {
        match self {
            CharsetError::UnknownCharset(name) => "Unknown charset: "@ + name@,
            CharsetError::EmptyCharset => "Custom charset cannot be empty"@,
        }
    }
}

/// Index of the character that brightness `b` selects in a charset of `n`
/// characters: `b / 255 * (n - 1)` rounded to the nearest integer.
pub open spec fn glyph_index(n: nat, b: u8) -> int {
    (2 * b * (n - 1) + 255) / 510
}

/// The character that brightness `b` selects from `chars` (a space when
/// `chars` is empty).
pub open spec fn brightness_glyph(chars: Seq<char>, b: u8) -> char {
    if chars.len() == 0 {
        ' '
    } else {
        chars[glyph_index(chars.len(), b)]
    }
}

/// `glyph_index` stays within the charset.
pub proof fn lemma_glyph_index_bounds(n: nat, b: u8)
    requires
        n > 0,
    ensures
        0 <= glyph_index(n, b) < n,
{
    let k = n - 1;
    assert(0 <= 2 * b * k + 255) by (nonlinear_arith)
        requires
            k >= 0,
    ;
    assert(2 * b * k + 255 < 510 * (k + 1)) by (nonlinear_arith)
        requires
            k >= 0,
            b <= 255,
    ;
    assert((2 * b * k + 255) / 510 < k + 1) by (nonlinear_arith)
        requires
            2 * b * k + 255 < 510 * (k + 1),
            0 <= 2 * b * k + 255,
    ;
}

/// Brightness 0 selects the first (darkest) character and brightness 255 the
/// last (lightest) one, for every non-empty charset.
pub proof fn lemma_brightness_extremes(chars: Seq<char>)
    requires
        chars.len() > 0,
    ensures
        brightness_glyph(chars, 0) == chars[0],
        brightness_glyph(chars, 255) == chars.last(),
{
    let k = chars.len() - 1;
    assert((2 * 0 * k + 255) / 510 == 0) by (nonlinear_arith);
    assert((2 * 255 * k + 255) / 510 == k) by (nonlinear_arith)
        requires
            k >= 0,
    ;
}

/// A brighter pixel never selects an earlier (darker) character.
pub proof fn lemma_glyph_index_monotonic(n: nat, b1: u8, b2: u8)
    requires
        n > 0,
        b1 <= b2,
    ensures
        glyph_index(n, b1) <= glyph_index(n, b2),
{
    let k = n - 1;
    assert(2 * b1 * k + 255 <= 2 * b2 * k + 255) by (nonlinear_arith)
        requires
            b1 <= b2,
            k >= 0,
    ;
    vstd::arithmetic::div_mod::lemma_div_is_ordered(2 * b1 * k + 255, 2 * b2 * k + 255, 510);
}

/// A set of characters ordered from darkest to lightest.
pub trait Charset {
    /// The characters of the charset, darkest first.
    spec fn glyphs(&self) -> Seq<char>;

    /// The characters of the charset, darkest first.
    fn characters(&self) -> (r: &[char])
        ensures
            r@ == self.glyphs(),
    ;

    /// Maps a brightness value (0-255) to a character.
    fn map_brightness(&self, brightness: u8) -> (c: char)
        ensures
            c == brightness_glyph(self.glyphs(), brightness),
    {
        let chars = self.characters();
        let n = chars.len();
        if n == 0 {
            return ' ';
        }
        proof {
            lemma_glyph_index_bounds(n as nat, brightness);
        }
        let wide: u128 = (2 * (brightness as u128) * ((n - 1) as u128) + 255) / 510;
        let idx: usize = wide as usize;
        chars[idx]
    }

    /// The number of characters in this charset.
    fn len(&self) -> (n: usize)
        ensures
            n == self.glyphs().len(),
    {
        self.characters().len()
    }
}

/// Standard ASCII charset.
#[derive(Debug)]
pub struct StandardCharset;

impl Charset for StandardCharset {
    open spec fn glyphs(&self) -> Seq<char> {
        standard::STANDARD_GLYPHS@
    }

    fn characters(&self) -> (r: &[char]) {
        &standard::STANDARD_GLYPHS
    }
}

/// The characters of the extended charset, darkest first.
pub const EXTENDED_GLYPHS: [char; 67] = [
    ' ', '`', '^', ',', ':', ';', 'I', 'l', '!', 'i', '>', '<', '~', '+', '_', '-', '?',
    ']', '[', '}', '{', '1', ')', '(', '|', '\\', '/', 't', 'f', 'j', 'r', 'x', 'n', 'u',
    'v', 'c', 'z', 'X', 'Y', 'U', 'J', 'C', 'L', 'Q', '0', 'O', 'Z', 'm', 'w', 'q', 'p',
    'd', 'b', 'k', 'h', 'a', 'o', '*', '#', 'M', 'W', '&', '8', '%', 'B', '@', '$',
];

/// Extended standard ASCII charset with more density levels.
#[derive(Debug)]
pub struct ExtendedStandardCharset;

impl Charset for ExtendedStandardCharset {
    open spec fn glyphs(&self) -> Seq<char> {
        EXTENDED_GLYPHS@
    }

    fn characters(&self) -> (r: &[char]) {
        &EXTENDED_GLYPHS
    }
}

/// The characters of the alphanumeric charset, darkest first.
pub const ALPHANUMERIC_GLYPHS: [char; 63] = [
    ' ', '.', ':', 'i', '|', '!', '>', '?', '<', '+', '-', ']', '[', ')', '(', '}', '{',
    '1', 'l', 'I', '/', 'J', 'L', 't', 'f', 'j', 'r', 'x', 'n', 'u', 'v', 'c', 'z', 'X',
    'Y', 'U', 'J', 'C', 'L', 'Q', '0', 'O', 'Z', 'm', 'w', 'q', 'p', 'd', 'b', 'k', 'h',
    'a', 'o', '*', '#', 'M', 'W', '&', '8', '%', 'B', '@', '$',
];

/// Alphanumeric charset.
#[derive(Debug)]
pub struct AlphanumericCharset;

impl Charset for AlphanumericCharset {
    open spec fn glyphs(&self) -> Seq<char> {
        ALPHANUMERIC_GLYPHS@
    }

    fn characters(&self) -> (r: &[char]) {
        &ALPHANUMERIC_GLYPHS
    }
}

/// Numbers-only charset.
#[derive(Debug)]
pub struct NumbersCharset;

impl Charset for NumbersCharset {
    open spec fn glyphs(&self) -> Seq<char> {
        numbers::NUMBERS_GLYPHS@
    }

    fn characters(&self) -> (r: &[char]) {
        &numbers::NUMBERS_GLYPHS
    }
}

/// Custom user-defined charset.
#[derive(Debug)]
pub struct CustomCharset {
    chars: Vec<char>,
}

impl CustomCharset {
    /// Builds a charset from the characters of `s`; fails on an empty string.
    pub fn new(s: &str) -> (r: Result<Self, CharsetError>)
        ensures
            s@.len() == 0 <==> r matches Err(CharsetError::EmptyCharset),
            r is Err ==> r matches Err(CharsetError::EmptyCharset),
            r matches Ok(c) ==> c.glyphs() == s@,
    {
        if s.is_empty() {
            return Err(CharsetError::EmptyCharset);
        }
        Ok(CustomCharset { chars: chars_of(s) })
    }
}

impl Charset for CustomCharset {
    closed spec fn glyphs(&self) -> Seq<char> {
        self.chars@
    }

    fn characters(&self) -> (r: &[char]) {
        self.chars.as_slice()
    }
}

/// Any of the charsets that can be selected by name or built from a string.
#[derive(Debug)]
pub enum AnyCharset {
    Standard(StandardCharset),
    Extended(ExtendedStandardCharset),
    Alphanumeric(AlphanumericCharset),
    Numbers(NumbersCharset),
    Blocks(blocks::BlocksCharset),
    Braille(braille::BrailleCharset),
    Custom(CustomCharset),
}

impl Charset for AnyCharset {
    open spec fn glyphs(&self) -> Seq<char> {
        match self {
            AnyCharset::Standard(c) => c.glyphs(),
            AnyCharset::Extended(c) => c.glyphs(),
            AnyCharset::Alphanumeric(c) => c.glyphs(),
            AnyCharset::Numbers(c) => c.glyphs(),
            AnyCharset::Blocks(c) => c.glyphs(),
            AnyCharset::Braille(c) => c.glyphs(),
            AnyCharset::Custom(c) => c.glyphs(),
        }
    }

    fn characters(&self) -> (r: &[char]) {
        match self {
            AnyCharset::Standard(c) => c.characters(),
            AnyCharset::Extended(c) => c.characters(),
            AnyCharset::Alphanumeric(c) => c.characters(),
            AnyCharset::Numbers(c) => c.characters(),
            AnyCharset::Blocks(c) => c.characters(),
            AnyCharset::Braille(c) => c.characters(),
            AnyCharset::Custom(c) => c.characters(),
        }
    }
}

/// The charset selected by an already lower-cased name, if any.
pub open spec fn named_charset(lower: Seq<char>) -> Option<AnyCharset> {
    if lower == "standard"@ {
        Some(AnyCharset::Standard(StandardCharset))
    } else if lower == "extended"@ {
        Some(AnyCharset::Extended(ExtendedStandardCharset))
    } else if lower == "alphanumeric"@ || lower == "alpha"@ {
        Some(AnyCharset::Alphanumeric(AlphanumericCharset))
    } else if lower == "numbers"@ || lower == "num"@ {
        Some(AnyCharset::Numbers(NumbersCharset))
    } else if lower == "blocks"@ || lower == "block"@ {
        Some(AnyCharset::Blocks(blocks::BlocksCharset))
    } else if lower == "braille"@ {
        Some(AnyCharset::Braille(braille::BrailleCharset))
    } else {
        None
    }
}

/// Every name of the charset table selects its charset, in any ASCII case:
/// `standard`, `extended`, `alphanumeric`/`alpha`, `numbers`/`num`,
/// `blocks`/`block` and `braille`. (`from_str` reads ASCII names lowered this way.)
pub proof fn lemma_charset_names(s: Seq<char>)
    ensures
        same_ignoring_ascii_case(s, "standard"@) ==> all_ascii(s) && (named_charset(ascii_lowered(s)) matches Some(c) && c.glyphs() == standard::STANDARD_GLYPHS@),
        same_ignoring_ascii_case(s, "extended"@) ==> all_ascii(s) && (named_charset(ascii_lowered(s)) matches Some(c) && c.glyphs() == EXTENDED_GLYPHS@),
        same_ignoring_ascii_case(s, "alphanumeric"@) ==> all_ascii(s) && (named_charset(ascii_lowered(s)) matches Some(c) && c.glyphs() == ALPHANUMERIC_GLYPHS@),
        same_ignoring_ascii_case(s, "alpha"@) ==> all_ascii(s) && (named_charset(ascii_lowered(s)) matches Some(c) && c.glyphs() == ALPHANUMERIC_GLYPHS@),
        same_ignoring_ascii_case(s, "numbers"@) ==> all_ascii(s) && (named_charset(ascii_lowered(s)) matches Some(c) && c.glyphs() == numbers::NUMBERS_GLYPHS@),
        same_ignoring_ascii_case(s, "num"@) ==> all_ascii(s) && (named_charset(ascii_lowered(s)) matches Some(c) && c.glyphs() == numbers::NUMBERS_GLYPHS@),
        same_ignoring_ascii_case(s, "blocks"@) ==> all_ascii(s) && (named_charset(ascii_lowered(s)) matches Some(c) && c.glyphs() == blocks::BLOCK_GLYPHS@),
        same_ignoring_ascii_case(s, "block"@) ==> all_ascii(s) && (named_charset(ascii_lowered(s)) matches Some(c) && c.glyphs() == blocks::BLOCK_GLYPHS@),
        same_ignoring_ascii_case(s, "braille"@) ==> all_ascii(s) && (named_charset(ascii_lowered(s)) matches Some(c) && c.glyphs() == braille::BRAILLE_GLYPHS@),
{
    reveal_strlit("standard");
    reveal_strlit("extended");
    reveal_strlit("alphanumeric");
    reveal_strlit("alpha");
    reveal_strlit("numbers");
    reveal_strlit("num");
    reveal_strlit("blocks");
    reveal_strlit("block");
    reveal_strlit("braille");
    if same_ignoring_ascii_case(s, "alpha"@) {
        assert(ascii_lowered("alpha"@) =~= "alpha"@);
        lemma_lowers_to_word(s, "alpha"@);
        assert("alpha"@.len() != "standard"@.len());
        assert("alpha"@.len() != "extended"@.len());
        assert("alpha"@.len() != "alphanumeric"@.len());
        assert("alpha"@.len() != "numbers"@.len());
        assert("alpha"@.len() != "num"@.len());
        assert("alpha"@.len() != "blocks"@.len());
        assert("alpha"@[0] != "block"@[0]);
        assert("alpha"@.len() != "braille"@.len());
    }
    if same_ignoring_ascii_case(s, "alphanumeric"@) {
        assert(ascii_lowered("alphanumeric"@) =~= "alphanumeric"@);
        lemma_lowers_to_word(s, "alphanumeric"@);
        assert("alphanumeric"@.len() != "standard"@.len());
        assert("alphanumeric"@.len() != "extended"@.len());
        assert("alphanumeric"@.len() != "alpha"@.len());
        assert("alphanumeric"@.len() != "numbers"@.len());
        assert("alphanumeric"@.len() != "num"@.len());
        assert("alphanumeric"@.len() != "blocks"@.len());
        assert("alphanumeric"@.len() != "block"@.len());
        assert("alphanumeric"@.len() != "braille"@.len());
    }
    if same_ignoring_ascii_case(s, "block"@) {
        assert(ascii_lowered("block"@) =~= "block"@);
        lemma_lowers_to_word(s, "block"@);
        assert("block"@.len() != "standard"@.len());
        assert("block"@.len() != "extended"@.len());
        assert("block"@.len() != "alphanumeric"@.len());
        assert("block"@[0] != "alpha"@[0]);
        assert("block"@.len() != "numbers"@.len());
        assert("block"@.len() != "num"@.len());
        assert("block"@.len() != "blocks"@.len());
        assert("block"@.len() != "braille"@.len());
    }
    if same_ignoring_ascii_case(s, "blocks"@) {
        assert(ascii_lowered("blocks"@) =~= "blocks"@);
        lemma_lowers_to_word(s, "blocks"@);
        assert("blocks"@.len() != "standard"@.len());
        assert("blocks"@.len() != "extended"@.len());
        assert("blocks"@.len() != "alphanumeric"@.len());
        assert("blocks"@.len() != "alpha"@.len());
        assert("blocks"@.len() != "numbers"@.len());
        assert("blocks"@.len() != "num"@.len());
        assert("blocks"@.len() != "block"@.len());
        assert("blocks"@.len() != "braille"@.len());
    }
    if same_ignoring_ascii_case(s, "braille"@) {
        assert(ascii_lowered("braille"@) =~= "braille"@);
        lemma_lowers_to_word(s, "braille"@);
        assert("braille"@.len() != "standard"@.len());
        assert("braille"@.len() != "extended"@.len());
        assert("braille"@.len() != "alphanumeric"@.len());
        assert("braille"@.len() != "alpha"@.len());
        assert("braille"@[0] != "numbers"@[0]);
        assert("braille"@.len() != "num"@.len());
        assert("braille"@.len() != "blocks"@.len());
        assert("braille"@.len() != "block"@.len());
    }
    if same_ignoring_ascii_case(s, "extended"@) {
        assert(ascii_lowered("extended"@) =~= "extended"@);
        lemma_lowers_to_word(s, "extended"@);
        assert("extended"@[0] != "standard"@[0]);
        assert("extended"@.len() != "alphanumeric"@.len());
        assert("extended"@.len() != "alpha"@.len());
        assert("extended"@.len() != "numbers"@.len());
        assert("extended"@.len() != "num"@.len());
        assert("extended"@.len() != "blocks"@.len());
        assert("extended"@.len() != "block"@.len());
        assert("extended"@.len() != "braille"@.len());
    }
    if same_ignoring_ascii_case(s, "num"@) {
        assert(ascii_lowered("num"@) =~= "num"@);
        lemma_lowers_to_word(s, "num"@);
        assert("num"@.len() != "standard"@.len());
        assert("num"@.len() != "extended"@.len());
        assert("num"@.len() != "alphanumeric"@.len());
        assert("num"@.len() != "alpha"@.len());
        assert("num"@.len() != "numbers"@.len());
        assert("num"@.len() != "blocks"@.len());
        assert("num"@.len() != "block"@.len());
        assert("num"@.len() != "braille"@.len());
    }
    if same_ignoring_ascii_case(s, "numbers"@) {
        assert(ascii_lowered("numbers"@) =~= "numbers"@);
        lemma_lowers_to_word(s, "numbers"@);
        assert("numbers"@.len() != "standard"@.len());
        assert("numbers"@.len() != "extended"@.len());
        assert("numbers"@.len() != "alphanumeric"@.len());
        assert("numbers"@.len() != "alpha"@.len());
        assert("numbers"@.len() != "num"@.len());
        assert("numbers"@.len() != "blocks"@.len());
        assert("numbers"@.len() != "block"@.len());
        assert("numbers"@[0] != "braille"@[0]);
    }
    if same_ignoring_ascii_case(s, "standard"@) {
        assert(ascii_lowered("standard"@) =~= "standard"@);
        lemma_lowers_to_word(s, "standard"@);
        assert("standard"@[0] != "extended"@[0]);
        assert("standard"@.len() != "alphanumeric"@.len());
        assert("standard"@.len() != "alpha"@.len());
        assert("standard"@.len() != "numbers"@.len());
        assert("standard"@.len() != "num"@.len());
        assert("standard"@.len() != "blocks"@.len());
        assert("standard"@.len() != "block"@.len());
        assert("standard"@.len() != "braille"@.len());
    }
}

/// The charset a lower-case name selects, if any.
pub fn charset_named(lower: &str) -> (r: Option<AnyCharset>)
    ensures
        r == named_charset(lower@),
{
    if str_eq(lower, "standard") {
        Some(AnyCharset::Standard(StandardCharset))
    } else if str_eq(lower, "extended") {
        Some(AnyCharset::Extended(ExtendedStandardCharset))
    } else if str_eq(lower, "alphanumeric") || str_eq(lower, "alpha") {
        Some(AnyCharset::Alphanumeric(AlphanumericCharset))
    } else if str_eq(lower, "numbers") || str_eq(lower, "num") {
        Some(AnyCharset::Numbers(NumbersCharset))
    } else if str_eq(lower, "blocks") || str_eq(lower, "block") {
        Some(AnyCharset::Blocks(blocks::BlocksCharset))
    } else if str_eq(lower, "braille") {
        Some(AnyCharset::Braille(braille::BrailleCharset))
    } else {
        None
    }
}

/// Selects a charset by name, ignoring case.
pub fn from_str(name: &str) -> (r: Result<AnyCharset, CharsetError>)
    ensures
        all_ascii(name@) ==> lowercase(name@) == ascii_lowered(name@),
        match named_charset(lowercase(name@)) {
            Some(c) => r == Ok::<AnyCharset, CharsetError>(c),
            None => r matches Err(CharsetError::UnknownCharset(n)) && n@ == name@,
        },
{
    let lower = to_lowercase(name);
    match charset_named(lower.as_str()) {
        Some(c) => Ok(c),
        None => Err(CharsetError::UnknownCharset(String::from_str(name))),
    }
}

/// Builds a charset from the characters of a custom string.
pub fn from_custom(s: &str) -> (r: Result<AnyCharset, CharsetError>)
    ensures
        s@.len() == 0 <==> r matches Err(CharsetError::EmptyCharset),
        r is Err ==> r matches Err(CharsetError::EmptyCharset),
        r matches Ok(c) ==> c.glyphs() == s@,
{
    let c = CustomCharset::new(s)?;
    Ok(AnyCharset::Custom(c))
}

impl std::str::FromStr for AnyCharset {
    type Err = CharsetError;

    fn from_str(s: &str) -> (r: Result<Self, Self::Err>)
        ensures
            all_ascii(s@) ==> lowercase(s@) == ascii_lowered(s@),
            match named_charset(lowercase(s@)) {
                Some(c) => r == Ok::<AnyCharset, CharsetError>(c),
                None => r matches Err(CharsetError::UnknownCharset(n)) && n@ == s@,
            },
    {
        from_str(s)
    }
}

} // verus!
