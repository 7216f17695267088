//! Command-line arguments and the input source they name.

use vstd::prelude::*;
use vstd::utf8::encode_utf8;
use crate::text::{all_ascii, eq_ignore_ascii_case, has_prefix, same_ignoring_ascii_case, starts_with};

verus! {

/// Input source for the image conversion.
#[derive(Debug, Clone, PartialEq)]
pub enum InputSource {
    /// Local file path
    File(String),
    /// Remote URL (http:// or https://)
    Url(String),
}

/// Whether `s` names a remote URL.
pub open spec fn is_url_text(s: Seq<char>) -> bool {
    has_prefix(s, "http://"@) || has_prefix(s, "https://"@)
}

impl InputSource {
    /// The text the source was made from.
    pub open spec fn text(&self) -> Seq<char> {
        match self {
            InputSource::File(p) => p@,
            InputSource::Url(u) => u@,
        }
    }

    /// Create an InputSource from a string.
    /// Detects URLs starting with http:// or https://
    pub fn from_str(s: String) -> (r: Self)
        ensures
            r.text() == s@,
            r is Url <==> is_url_text(s@),
    {
        if starts_with(s.as_str(), "http://") || starts_with(s.as_str(), "https://") {
            InputSource::Url(s)
        } else {
            InputSource::File(s)
        }
    }

    /// Check if this is a file source.
    pub fn is_file(&self) -> (b: bool)
        ensures
            b == self is File,
    {
        matches!(self, InputSource::File(_))
    }

    /// Check if this is a URL source.
    pub fn is_url(&self) -> (b: bool)
        ensures
            b == self is Url,
    {
        matches!(self, InputSource::Url(_))
    }

    /// Get display string for error messages.
    pub fn display(&self) -> (s: String)
        ensures
            s@ == self.text(),
    {
        match self {
            InputSource::File(p) => p.clone(),
            InputSource::Url(u) => u.clone(),
        }
    }
}

/// Command-line arguments.
#[derive(Debug, Clone)]
pub struct Args {
    /// Input image path or URL
    pub input: String,
    /// Output file (optional, prints to stdout if not specified)
    pub output: Option<String>,
    /// Charset to use: standard, extended, alphanumeric, numbers, blocks, braille
    pub charset: String,
    /// Custom charset string
    pub custom_charset: Option<String>,
    /// Character width (auto-detected from terminal if not specified)
    pub width: Option<usize>,
    /// Character height (auto-calculated based on aspect ratio if not specified)
    pub height: Option<usize>,
    /// Enable color output
    pub color: bool,
    /// Color mode: truecolor, 256, grayscale, none
    pub color_mode: String,
    /// Contrast adjustment (-100 to 100)
    pub contrast: i32,
    /// Brightness adjustment (-100 to 100)
    pub brightness: i32,
    /// Invert colors
    pub invert: bool,
    /// Background color in hex format (e.g., 1a1a2e) or "none"
    pub background: Option<String>,
    /// Resize mode: fit, fill, stretch, crop
    pub resize: String,
    /// Preserve aspect ratio
    pub preserve_aspect_ratio: bool,
}

impl Default for Args {
    fn default() -> (a: Self)
        ensures
            a.input@ == "test.png"@,
            a.output is None,
            a.charset@ == "standard"@,
            a.custom_charset is None,
            a.width is None,
            a.height is None,
            a.color,
            a.color_mode@ == "truecolor"@,
            a.contrast == 0,
            a.brightness == 0,
            !a.invert,
            a.background is None,
            a.resize@ == "fit"@,
            a.preserve_aspect_ratio,
    {
        Args {
            input: String::from_str("test.png"),
            output: None,
            charset: String::from_str("standard"),
            custom_charset: None,
            width: None,
            height: None,
            color: true,
            color_mode: String::from_str("truecolor"),
            contrast: 0,
            brightness: 0,
            invert: false,
            background: None,
            resize: String::from_str("fit"),
            preserve_aspect_ratio: true,
        }
    }
}

/// `bytes` without its leading `#` bytes.
pub open spec fn strip_hashes(bytes: Seq<u8>) -> Seq<u8>
    decreases bytes.len(),
{
    if bytes.len() > 0 && bytes[0] == 0x23u8 {
        strip_hashes(bytes.drop_first())
    } else {
        bytes
    }
}

/// The value of a hexadecimal digit byte, if it is one.
pub open spec fn hex_digit(b: u8) -> Option<u8> {
    if 0x30 <= b <= 0x39 {
        Some((b - 0x30) as u8)
    } else if 0x61 <= b <= 0x66 {
        Some((b - 0x61 + 10) as u8)
    } else if 0x41 <= b <= 0x46 {
        Some((b - 0x41 + 10) as u8)
    } else {
        None
    }
}

/// The value of two hexadecimal digit bytes, if both are digits.
pub open spec fn hex_pair(hi: u8, lo: u8) -> Option<u8> {
    match (hex_digit(hi), hex_digit(lo)) {
        (Some(a), Some(b)) => Some((16 * a + b) as u8),
        _ => None,
    }
}

/// Whether `u8::from_str_radix` reads two bytes as a base-16 number: two
/// hexadecimal digits, or a `+` sign followed by one.
pub open spec fn radix_reads_pair(hi: u8, lo: u8) -> bool {
    if hi == 0x2bu8 {
        hex_digit(lo) is Some
    } else {
        hex_pair(hi, lo) is Some
    }
}

/// Whether byte offset `k` of UTF-8 text `bytes` starts a character or ends the text.
pub open spec fn utf8_boundary(bytes: Seq<u8>, k: int) -> bool {
    k == 0 || k == bytes.len() || (0 < k < bytes.len() && !(0x80 <= bytes[k] < 0xc0))
}

/// The message when the color is not six bytes long.
pub open spec fn bad_length_message() -> Seq<char> {
    "Background color must be 6 hex digits"@
}

/// The message when the color holds something other than hexadecimal digits.
pub open spec fn bad_digit_message() -> Seq<char> {
    "Invalid hex color: invalid digit found in string"@
}

/// The background color that `--background` text `s` denotes.
pub open spec fn background_from_text(s: Seq<char>) -> Result<Option<(u8, u8, u8)>, Seq<char>> {
    if same_ignoring_ascii_case(s, "none"@) {
        Ok(None)
    } else {
        let t = strip_hashes(encode_utf8(s));
        if t.len() != 6 {
            Err(bad_length_message())
        } else {
            match (hex_pair(t[0], t[1]), hex_pair(t[2], t[3]), hex_pair(t[4], t[5])) {
                (Some(r), Some(g), Some(b)) => Ok(Some((r, g, b))),
                _ => Err(bad_digit_message()),
            }
        }
    }
}

/// Whether slicing `--background` text `s` into its two-byte fields would cut
/// a character in two: at byte offset 2, or at offset 4 once the first field
/// reads as a base-16 number.
pub open spec fn background_splits_char(s: Seq<char>) -> bool {
    let t = strip_hashes(encode_utf8(s));
    &&& !same_ignoring_ascii_case(s, "none"@)
    &&& t.len() == 6
    &&& (!utf8_boundary(t, 2) || (radix_reads_pair(t[0], t[1]) && !utf8_boundary(t, 4)))
}

/// The lowercase hexadecimal digit for `d < 16`.
pub open spec fn hex_char(d: int) -> char {
    if d < 10 {
        (48 + d) as char
    } else {
        (87 + d) as char
    }
}

/// `(r, g, b)` written as six lowercase hexadecimal digits, e.g. `1a2b3c`.
pub open spec fn hex_text(r: u8, g: u8, b: u8) -> Seq<char> {
    seq![
        hex_char(r as int / 16),
        hex_char(r as int % 16),
        hex_char(g as int / 16),
        hex_char(g as int % 16),
        hex_char(b as int / 16),
        hex_char(b as int % 16),
    ]
}

/// ASCII text is encoded as one byte per character.
pub proof fn lemma_ascii_utf8(s: Seq<char>)
    requires
        all_ascii(s),
    ensures
        encode_utf8(s) == s.map_values(|c: char| (c as u32) as u8),
    decreases s.len(),
{
    if s.len() > 0 {
        let v = s[0] as u32;
        assert(v < 0x80);
        assert(v & 0x7F == v) by (bit_vector)
            requires
                v < 0x80,
        ;
        assert(all_ascii(s.drop_first())) by {
            assert forall|i: int| 0 <= i < s.drop_first().len() implies (#[trigger] s.drop_first()[i]
                as u32) < 0x80 by {
                assert(s.drop_first()[i] == s[i + 1]);
            }
        }
        lemma_ascii_utf8(s.drop_first());
        assert(encode_utf8(s) =~= s.map_values(|c: char| (c as u32) as u8));
    } else {
        assert(encode_utf8(s) =~= s.map_values(|c: char| (c as u32) as u8));
    }
}

/// Six hexadecimal digits, with or without a leading `#`, read back as the
/// color they spell.
pub proof fn lemma_hex_round_trip(r: u8, g: u8, b: u8)
    ensures
        background_from_text(hex_text(r, g, b)) == Ok::<Option<(u8, u8, u8)>, Seq<char>>(
            Some((r, g, b)),
        ),
        background_from_text(seq!['#'] + hex_text(r, g, b)) == Ok::<
            Option<(u8, u8, u8)>,
            Seq<char>,
        >(Some((r, g, b))),
{
    let t = hex_text(r, g, b);
    let h = seq!['#'] + t;
    assert(all_ascii(t));
    assert(all_ascii(h)) by {
        assert forall|i: int| 0 <= i < h.len() implies (#[trigger] h[i] as u32) < 0x80 by {
            if i > 0 {
                assert(h[i] == t[i - 1]);
            }
        }
    }
    lemma_ascii_utf8(t);
    lemma_ascii_utf8(h);
    let bt = encode_utf8(t);
    let bh = encode_utf8(h);
    assert(bt.len() == 6);
    assert(bh.len() == 7);
    assert(bh[0] == 0x23u8);
    assert(bh.drop_first() =~= bt);
    assert(bt[0] != 0x23u8);
    assert(strip_hashes(bt) == bt);
    assert(strip_hashes(bh) == strip_hashes(bt));
    assert(!same_ignoring_ascii_case(t, "none"@)) by {
        reveal_strlit("none");
    }
    assert(!same_ignoring_ascii_case(h, "none"@)) by {
        reveal_strlit("none");
    }
    assert(hex_pair(bt[0], bt[1]) == Some(r));
    assert(hex_pair(bt[2], bt[3]) == Some(g));
    assert(hex_pair(bt[4], bt[5]) == Some(b));
}

fn hex_digit_of(b: u8) -> (r: Option<u8>)
    ensures
        r == hex_digit(b),
{
    if 0x30 <= b && b <= 0x39 {
        Some(b - 0x30)
    } else if 0x61 <= b && b <= 0x66 {
        Some(b - 0x61 + 10)
    } else if 0x41 <= b && b <= 0x46 {
        Some(b - 0x41 + 10)
    } else {
        None
    }
}

fn hex_pair_of(hi: u8, lo: u8) -> (r: Option<u8>)
    ensures
        r == hex_pair(hi, lo),
{
    match (hex_digit_of(hi), hex_digit_of(lo)) {
        (Some(a), Some(b)) => Some(16 * a + b),
        _ => None,
    }
}

proof fn lemma_strip_hashes_suffix(bytes: Seq<u8>, m: int)
    requires
        0 <= m <= bytes.len(),
        forall|j: int| 0 <= j < m ==> bytes[j] == 0x23u8,
    ensures
        strip_hashes(bytes) == strip_hashes(bytes.subrange(m, bytes.len() as int)),
    decreases m,
{
    if m > 0 {
        assert(bytes.drop_first().subrange(m - 1, bytes.drop_first().len() as int) =~= bytes.subrange(
            m,
            bytes.len() as int,
        ));
        lemma_strip_hashes_suffix(bytes.drop_first(), m - 1);
    } else {
        assert(bytes.subrange(0, bytes.len() as int) =~= bytes);
    }
}

impl Args {
    /// Parse background color from hex string.
    pub fn parse_background(&self) -> (r: Result<Option<(u8, u8, u8)>, String>)
        requires
            self.background matches Some(s) ==> !background_splits_char(s@),
        ensures
            match self.background {
                None => r == Ok::<Option<(u8, u8, u8)>, String>(None),
                Some(s) => match background_from_text(s@) {
                    Ok(v) => r == Ok::<Option<(u8, u8, u8)>, String>(v),
                    Err(m) => r matches Err(e) && e@ == m,
                },
            },
    {
        match &self.background {
            None => Ok(None),
            Some(bg) => {
                if eq_ignore_ascii_case(bg.as_str(), "none") {
                    return Ok(None);
                }
                let bytes = bg.as_str().as_bytes();
                let n = bytes.len();
                let mut m: usize = 0;
                while m < n && bytes[m] == 0x23
                    invariant
                        n == bytes@.len(),
                        m <= n,
                        forall|j: int| 0 <= j < m ==> bytes@[j] == 0x23u8,
                    decreases n - m,
                {
                    m = m + 1;
                }
                let ghost t = bytes@.subrange(m as int, n as int);
                proof {
                    lemma_strip_hashes_suffix(bytes@, m as int);
                    assert(t.len() == 0 || t[0] != 0x23u8);
                    assert(strip_hashes(t) == t);
                }
                if n - m != 6 {
                    return Err(String::from_str("Background color must be 6 hex digits"));
                }
                let mut hex: Vec<u8> = Vec::new();
                let mut k: usize = m;
                while k < n
                    invariant
                        n == bytes@.len(),
                        m <= k <= n,
                        t == bytes@.subrange(m as int, n as int),
                        hex@ == bytes@.subrange(m as int, k as int),
                    decreases n - k,
                {
                    hex.push(bytes[k]);
                    assert(bytes@.subrange(m as int, k + 1) =~= bytes@.subrange(m as int, k as int).push(
                        bytes@[k as int],
                    ));
                    k = k + 1;
                }
                assert(hex@ == t);
                let hex = hex.as_slice();
                let r = match hex_pair_of(hex[0], hex[1]) {
                    Some(v) => v,
                    None => {
                        return Err(String::from_str("Invalid hex color: invalid digit found in string"));
                    },
                };
                let g = match hex_pair_of(hex[2], hex[3]) {
                    Some(v) => v,
                    None => {
                        return Err(String::from_str("Invalid hex color: invalid digit found in string"));
                    },
                };
                let b = match hex_pair_of(hex[4], hex[5]) {
                    Some(v) => v,
                    None => {
                        return Err(String::from_str("Invalid hex color: invalid digit found in string"));
                    },
                };
                Ok(Some((r, g, b)))
            },
        }
    }
}

} // verus!
