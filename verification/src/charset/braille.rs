//! Braille pattern charset using Unicode Braille characters.
//!
//! Braille patterns (U+2800 to U+28FF) provide a 2x4 dot matrix,
//! allowing for much finer detail than single character charsets.

use vstd::prelude::*;
use super::Charset;

verus! {

/// The Braille pattern whose dots are the bits of `code` (U+2800 + code).
pub open spec fn braille_glyph(code: int) -> char {
    (0x2800 + code) as char
}

/// The number of raised dots of pattern code `code` (its set bits, for `code < 256`).
pub open spec fn dot_count(code: int) -> int {
    code % 2 + (code / 2) % 2 + (code / 4) % 2 + (code / 8) % 2 + (code / 16) % 2 + (code / 32) % 2
        + (code / 64) % 2 + (code / 128) % 2
}

/// The pattern code of a Braille character.
pub open spec fn glyph_code(c: char) -> int {
    c as int - 0x2800
}

/// All 256 Braille patterns (U+2800 to U+28FF), by number of raised dots and,
/// among those with as many dots, by code.
pub const BRAILLE_GLYPHS: [char; 256] = [
    '⠀', '⠁', '⠂', '⠄', '⠈', '⠐', '⠠', '⡀', '⢀', '⠃', '⠅', '⠆', '⠉', '⠊', '⠌', '⠑',
    '⠒', '⠔', '⠘', '⠡', '⠢', '⠤', '⠨', '⠰', '⡁', '⡂', '⡄', '⡈', '⡐', '⡠', '⢁', '⢂',
    '⢄', '⢈', '⢐', '⢠', '⣀', '⠇', '⠋', '⠍', '⠎', '⠓', '⠕', '⠖', '⠙', '⠚', '⠜', '⠣',
    '⠥', '⠦', '⠩', '⠪', '⠬', '⠱', '⠲', '⠴', '⠸', '⡃', '⡅', '⡆', '⡉', '⡊', '⡌', '⡑',
    '⡒', '⡔', '⡘', '⡡', '⡢', '⡤', '⡨', '⡰', '⢃', '⢅', '⢆', '⢉', '⢊', '⢌', '⢑', '⢒',
    '⢔', '⢘', '⢡', '⢢', '⢤', '⢨', '⢰', '⣁', '⣂', '⣄', '⣈', '⣐', '⣠', '⠏', '⠗', '⠛',
    '⠝', '⠞', '⠧', '⠫', '⠭', '⠮', '⠳', '⠵', '⠶', '⠹', '⠺', '⠼', '⡇', '⡋', '⡍', '⡎',
    '⡓', '⡕', '⡖', '⡙', '⡚', '⡜', '⡣', '⡥', '⡦', '⡩', '⡪', '⡬', '⡱', '⡲', '⡴', '⡸',
    '⢇', '⢋', '⢍', '⢎', '⢓', '⢕', '⢖', '⢙', '⢚', '⢜', '⢣', '⢥', '⢦', '⢩', '⢪', '⢬',
    '⢱', '⢲', '⢴', '⢸', '⣃', '⣅', '⣆', '⣉', '⣊', '⣌', '⣑', '⣒', '⣔', '⣘', '⣡', '⣢',
    '⣤', '⣨', '⣰', '⠟', '⠯', '⠷', '⠻', '⠽', '⠾', '⡏', '⡗', '⡛', '⡝', '⡞', '⡧', '⡫',
    '⡭', '⡮', '⡳', '⡵', '⡶', '⡹', '⡺', '⡼', '⢏', '⢗', '⢛', '⢝', '⢞', '⢧', '⢫', '⢭',
    '⢮', '⢳', '⢵', '⢶', '⢹', '⢺', '⢼', '⣇', '⣋', '⣍', '⣎', '⣓', '⣕', '⣖', '⣙', '⣚',
    '⣜', '⣣', '⣥', '⣦', '⣩', '⣪', '⣬', '⣱', '⣲', '⣴', '⣸', '⠿', '⡟', '⡯', '⡷', '⡻',
    '⡽', '⡾', '⢟', '⢯', '⢷', '⢻', '⢽', '⢾', '⣏', '⣗', '⣛', '⣝', '⣞', '⣧', '⣫', '⣭',
    '⣮', '⣳', '⣵', '⣶', '⣹', '⣺', '⣼', '⡿', '⢿', '⣟', '⣯', '⣷', '⣻', '⣽', '⣾', '⣿',
];

/// The position of each pattern code in `BRAILLE_GLYPHS`.
pub const BRAILLE_POSITIONS: [u8; 256] = [
    0, 1, 2, 9, 3, 10, 11, 37, 4, 12, 13, 38, 14, 39, 40, 93,
    5, 15, 16, 41, 17, 42, 43, 94, 18, 44, 45, 95, 46, 96, 97, 163,
    6, 19, 20, 47, 21, 48, 49, 98, 22, 50, 51, 99, 52, 100, 101, 164,
    23, 53, 54, 102, 55, 103, 104, 165, 56, 105, 106, 166, 107, 167, 168, 219,
    7, 24, 25, 57, 26, 58, 59, 108, 27, 60, 61, 109, 62, 110, 111, 169,
    28, 63, 64, 112, 65, 113, 114, 170, 66, 115, 116, 171, 117, 172, 173, 220,
    29, 67, 68, 118, 69, 119, 120, 174, 70, 121, 122, 175, 123, 176, 177, 221,
    71, 124, 125, 178, 126, 179, 180, 222, 127, 181, 182, 223, 183, 224, 225, 247,
    8, 30, 31, 72, 32, 73, 74, 128, 33, 75, 76, 129, 77, 130, 131, 184,
    34, 78, 79, 132, 80, 133, 134, 185, 81, 135, 136, 186, 137, 187, 188, 226,
    35, 82, 83, 138, 84, 139, 140, 189, 85, 141, 142, 190, 143, 191, 192, 227,
    86, 144, 145, 193, 146, 194, 195, 228, 147, 196, 197, 229, 198, 230, 231, 248,
    36, 87, 88, 148, 89, 149, 150, 199, 90, 151, 152, 200, 153, 201, 202, 232,
    91, 154, 155, 203, 156, 204, 205, 233, 157, 206, 207, 234, 208, 235, 236, 249,
    92, 158, 159, 209, 160, 210, 211, 237, 161, 212, 213, 238, 214, 239, 240, 250,
    162, 215, 216, 241, 217, 242, 243, 251, 218, 244, 245, 252, 246, 253, 254, 255,
];

/// Braille charset.
///
/// Uses Unicode Braille patterns where each character represents a 2x4 pixel
/// block: all 256 patterns, ordered by visual density (number of raised dots).
#[derive(Debug)]
pub struct BrailleCharset;

impl Charset for BrailleCharset {
    open spec fn glyphs(&self) -> Seq<char> {
        BRAILLE_GLYPHS@
    }

    fn characters(&self) -> (r: &[char]) {
        &BRAILLE_GLYPHS
    }
}

/// The Braille charset runs from darkest to lightest: from the empty pattern
/// to the full one, never fewer raised dots after more, and it holds every
/// pattern U+2800..U+28FF (each exactly once, as there are 256).
pub proof fn lemma_braille_density_order()
    ensures
        BRAILLE_GLYPHS@.len() == 256,
        BRAILLE_GLYPHS@[0] == BRAILLE_EMPTY,
        BRAILLE_GLYPHS@[255] == BRAILLE_FULL,
        forall|i: int, j: int|
            0 <= i <= j < 256 ==> dot_count(glyph_code(#[trigger] BRAILLE_GLYPHS@[i])) <= dot_count(
                glyph_code(#[trigger] BRAILLE_GLYPHS@[j]),
            ),
        forall|code: int|
            #![trigger braille_glyph(code)]
            0 <= code < 256 ==> exists|i: int|
                0 <= i < 256 && #[trigger] BRAILLE_GLYPHS@[i] == braille_glyph(code),
{
    lemma_density_sorted();
    lemma_every_pattern();
}

proof fn lemma_density_sorted()
    ensures
        forall|i: int, j: int|
            0 <= i <= j < 256 ==> dot_count(glyph_code(#[trigger] BRAILLE_GLYPHS@[i])) <= dot_count(
                glyph_code(#[trigger] BRAILLE_GLYPHS@[j]),
            ),
{
    lemma_density_steps();
    assert forall|i: int, j: int| 0 <= i <= j < 256 implies density_at(i) <= density_at(j) by {
        lemma_density_chain(i, j);
    }
    assert forall|i: int, j: int| 0 <= i <= j < 256 implies dot_count(
        glyph_code(#[trigger] BRAILLE_GLYPHS@[i]),
    ) <= dot_count(glyph_code(#[trigger] BRAILLE_GLYPHS@[j])) by {
        reveal(density_at);
        assert(density_at(i) <= density_at(j));
    }
}

proof fn lemma_every_pattern()
    ensures
        forall|code: int|
            #![trigger braille_glyph(code)]
            0 <= code < 256 ==> exists|i: int|
                0 <= i < 256 && #[trigger] BRAILLE_GLYPHS@[i] == braille_glyph(code),
{
    lemma_positions();
    assert forall|code: int|
        #![trigger braille_glyph(code)]
        0 <= code < 256 implies exists|i: int|
            0 <= i < 256 && #[trigger] BRAILLE_GLYPHS@[i] == braille_glyph(code) by {
        let i = BRAILLE_POSITIONS@[code] as int;
        assert(BRAILLE_GLYPHS@[i] == braille_glyph(code));
    }
}

/// The number of raised dots of the pattern at position `i`.
#[verifier::opaque]
spec fn density_at(i: int) -> int {
    dot_count(glyph_code(BRAILLE_GLYPHS@[i]))
}

/// Each pattern has no fewer dots than the one before it.
#[verifier::rlimit(60)]
proof fn lemma_density_steps()
    ensures
        forall|k: int| 0 <= k < 255 ==> #[trigger] density_at(k) <= density_at(k + 1),
{
    reveal(density_at);
    assert forall|k: int| 0 <= k < 255 implies #[trigger] density_at(k) <= density_at(k + 1) by {
        assert(0 <= k < 255);
    }
}

/// `BRAILLE_POSITIONS` gives the place of each pattern code.
#[verifier::rlimit(60)]
proof fn lemma_positions()
    ensures
        forall|code: int|
            0 <= code < 256 ==> BRAILLE_GLYPHS@[#[trigger] BRAILLE_POSITIONS@[code] as int]
                == braille_glyph(code),
{
    assert forall|code: int| 0 <= code < 256 implies BRAILLE_GLYPHS@[
        #[trigger] BRAILLE_POSITIONS@[code] as int
    ] == braille_glyph(code) by {
        assert(0 <= code < 256);
    }
}

proof fn lemma_density_chain(i: int, j: int)
    requires
        0 <= i <= j < 256,
        forall|k: int| 0 <= k < 255 ==> #[trigger] density_at(k) <= density_at(k + 1),
    ensures
        density_at(i) <= density_at(j),
    decreases j - i,
{
    if i < j {
        lemma_density_chain(i, j - 1);
        assert(density_at(j - 1) <= density_at(j));
    }
}

/// Starting character for empty Braille (U+2800).
pub const BRAILLE_EMPTY: char = '\u{2800}';

/// Ending character for full Braille (U+28FF).
pub const BRAILLE_FULL: char = '\u{28FF}';

/// The dot value of `on` at bit `bit`.
pub open spec fn dot(on: bool, bit: int) -> int {
    if on { pow2_bit(bit) } else { 0 }
}

/// `2^bit` for the eight dot positions.
pub open spec fn pow2_bit(bit: int) -> int {
    if bit == 0 { 1 } else if bit == 1 { 2 } else if bit == 2 { 4 } else if bit == 3 { 8 }
    else if bit == 4 { 16 } else if bit == 5 { 32 } else if bit == 6 { 64 } else { 128 }
}

/// The bit of the Unicode Braille dot at `(row, col)` of a 2x4 block: dots 1-3
/// run down the left column (bits 0-2), dots 4-6 down the right column
/// (bits 3-5), and dots 7 and 8 form the bottom row (bits 6 and 7).
pub open spec fn dot_bit(row: int, col: int) -> int {
    if row == 3 {
        6 + col
    } else {
        3 * col + row
    }
}

/// The Braille pattern code of a 2x4 block: pixel `(row, col)` raises dot `dot_bit(row, col)`.
pub open spec fn braille_code(p: [[bool; 2]; 4]) -> int {
    dot(p[0][0], 0) + dot(p[1][0], 1) + dot(p[2][0], 2) + dot(p[0][1], 3)
        + dot(p[1][1], 4) + dot(p[2][1], 5) + dot(p[3][0], 6) + dot(p[3][1], 7)
}

/// Converts a valid scalar value to a `char`.
///
/// Trusted: calls `char::from_u32`, documented to return `None` exactly when
/// the value is a surrogate (0xD800..=0xDFFF) or above 0x10FFFF, and the
/// char with that code otherwise.
#[verifier::external_body]
fn char_from_u32(v: u32) -> (r: Option<char>)
    ensures
        (v < 0xD800 || (0xE000 <= v && v <= 0x10FFFF)) ==> r == Some(v as char),
        !(v < 0xD800 || (0xE000 <= v && v <= 0x10FFFF)) ==> r is None,
{
    char::from_u32(v)
}

/// Convert a 2x4 pixel block to a Braille character.
///
/// Each cell in the 2x4 array represents a dot in the Braille character,
/// numbered as Unicode numbers the dots:
/// ```text
/// (0,0)=1 (0,1)=4
/// (1,0)=2 (1,1)=5
/// (2,0)=3 (2,1)=6
/// (3,0)=7 (3,1)=8
/// ```
pub fn pixels_to_braille(pixels: [[bool; 2]; 4]) -> (c: char)
    ensures
        c == braille_glyph(braille_code(pixels)),
{
    let mut code: u32 = 0;
    if pixels[0][0] {
        code = code + 1;
    }
    if pixels[1][0] {
        code = code + 2;
    }
    if pixels[2][0] {
        code = code + 4;
    }
    if pixels[0][1] {
        code = code + 8;
    }
    if pixels[1][1] {
        code = code + 16;
    }
    if pixels[2][1] {
        code = code + 32;
    }
    if pixels[3][0] {
        code = code + 64;
    }
    if pixels[3][1] {
        code = code + 128;
    }
    assert(code == braille_code(pixels));
    match char_from_u32(0x2800 + code) {
        Some(c) => c,
        None => '\u{2800}',
    }
}

/// No raised dot gives the empty pattern, all eight the full one.
pub proof fn lemma_braille_extremes(p: [[bool; 2]; 4])
    ensures
        (forall|row: int, col: int| 0 <= row < 4 && 0 <= col < 2 ==> !p[row][col])
            ==> braille_glyph(braille_code(p)) == BRAILLE_EMPTY,
        (forall|row: int, col: int| 0 <= row < 4 && 0 <= col < 2 ==> p[row][col])
            ==> braille_glyph(braille_code(p)) == BRAILLE_FULL,
{
    if forall|row: int, col: int| 0 <= row < 4 && 0 <= col < 2 ==> !p[row][col] {
        assert(!p[0][0] && !p[0][1] && !p[1][0] && !p[1][1]);
        assert(!p[2][0] && !p[2][1] && !p[3][0] && !p[3][1]);
    }
    if forall|row: int, col: int| 0 <= row < 4 && 0 <= col < 2 ==> p[row][col] {
        assert(p[0][0] && p[0][1] && p[1][0] && p[1][1]);
        assert(p[2][0] && p[2][1] && p[3][0] && p[3][1]);
    }
}

/// Whether dot `bit` is raised in pattern code `code`: bit `bit` of `code` is set.
pub open spec fn dot_raised(code: int, bit: int) -> bool {
    ((code as u32) >> (bit as u32)) & 1u32 == 1u32
}

/// The bits of a sum of distinct powers of two are its terms.
proof fn lemma_bits_of_sum(d0: u32, d1: u32, d2: u32, d3: u32, d4: u32, d5: u32, d6: u32, d7: u32)
    requires
        d0 <= 1 && d1 <= 1 && d2 <= 1 && d3 <= 1 && d4 <= 1 && d5 <= 1 && d6 <= 1 && d7 <= 1,
    ensures
        ({
            let c = (d0 + 2 * d1 + 4 * d2 + 8 * d3 + 16 * d4 + 32 * d5 + 64 * d6 + 128 * d7) as u32;
            &&& (c >> 0u32) & 1 == d0
            &&& (c >> 1u32) & 1 == d1
            &&& (c >> 2u32) & 1 == d2
            &&& (c >> 3u32) & 1 == d3
            &&& (c >> 4u32) & 1 == d4
            &&& (c >> 5u32) & 1 == d5
            &&& (c >> 6u32) & 1 == d6
            &&& (c >> 7u32) & 1 == d7
        }),
{
    let c: u32 = (d0 + 2 * d1 + 4 * d2 + 8 * d3 + 16 * d4 + 32 * d5 + 64 * d6 + 128 * d7) as u32;
    assert({
        &&& (c >> 0u32) & 1 == d0
        &&& (c >> 1u32) & 1 == d1
        &&& (c >> 2u32) & 1 == d2
        &&& (c >> 3u32) & 1 == d3
        &&& (c >> 4u32) & 1 == d4
        &&& (c >> 5u32) & 1 == d5
        &&& (c >> 6u32) & 1 == d6
        &&& (c >> 7u32) & 1 == d7
    }) by (bit_vector)
        requires
            d0 <= 1 && d1 <= 1 && d2 <= 1 && d3 <= 1 && d4 <= 1 && d5 <= 1 && d6 <= 1 && d7 <= 1,
            c == d0 + 2 * d1 + 4 * d2 + 8 * d3 + 16 * d4 + 32 * d5 + 64 * d6 + 128 * d7,
    ;
}

/// 1 for a set pixel, 0 otherwise.
pub open spec fn bit_of(b: bool) -> u32 {
    if b {
        1
    } else {
        0
    }
}

/// Every block gives a Braille pattern (U+2800..U+28FF) whose dot
/// `dot_bit(row, col)` is raised exactly when pixel `(row, col)` is set.
pub proof fn lemma_braille_dots(p: [[bool; 2]; 4])
    ensures
        0 <= braille_code(p) <= 255,
        BRAILLE_EMPTY <= braille_glyph(braille_code(p)) <= BRAILLE_FULL,
        forall|row: int, col: int|
            0 <= row < 4 && 0 <= col < 2 ==> dot_raised(braille_code(p), dot_bit(row, col))
                == p[row][col],
{
    let d0 = bit_of(p[0][0]);
    let d1 = bit_of(p[1][0]);
    let d2 = bit_of(p[2][0]);
    let d3 = bit_of(p[0][1]);
    let d4 = bit_of(p[1][1]);
    let d5 = bit_of(p[2][1]);
    let d6 = bit_of(p[3][0]);
    let d7 = bit_of(p[3][1]);
    lemma_bits_of_sum(d0, d1, d2, d3, d4, d5, d6, d7);
    assert(braille_code(p) == d0 + 2 * d1 + 4 * d2 + 8 * d3 + 16 * d4 + 32 * d5 + 64 * d6 + 128
        * d7);
    assert forall|row: int, col: int| 0 <= row < 4 && 0 <= col < 2 implies dot_raised(
        braille_code(p),
        dot_bit(row, col),
    ) == p[row][col] by {
        if row == 0 && col == 0 {
        } else if row == 0 && col == 1 {
        } else if row == 1 && col == 0 {
        } else if row == 1 && col == 1 {
        } else if row == 2 && col == 0 {
        } else if row == 2 && col == 1 {
        } else if row == 3 && col == 0 {
        } else {
        }
    }
}

/// How many pixels of a 2x4 block are set.
pub open spec fn lit_cells(p: [[bool; 2]; 4]) -> int {
    bit_of(p[0][0]) + bit_of(p[0][1]) + bit_of(p[1][0]) + bit_of(p[1][1]) + bit_of(p[2][0])
        + bit_of(p[2][1]) + bit_of(p[3][0]) + bit_of(p[3][1])
}

/// The Braille character of a block raises as many dots as the block has set pixels.
pub proof fn lemma_braille_dot_count(p: [[bool; 2]; 4])
    ensures
        dot_count(glyph_code(braille_glyph(braille_code(p)))) == lit_cells(p),
{
    let d0 = bit_of(p[0][0]);
    let d1 = bit_of(p[1][0]);
    let d2 = bit_of(p[2][0]);
    let d3 = bit_of(p[0][1]);
    let d4 = bit_of(p[1][1]);
    let d5 = bit_of(p[2][1]);
    let d6 = bit_of(p[3][0]);
    let d7 = bit_of(p[3][1]);
    let c: u32 = (d0 + 2 * d1 + 4 * d2 + 8 * d3 + 16 * d4 + 32 * d5 + 64 * d6 + 128 * d7) as u32;
    assert(braille_code(p) == c);
    assert({
        &&& c % 2 == d0
        &&& (c / 2) % 2 == d1
        &&& (c / 4) % 2 == d2
        &&& (c / 8) % 2 == d3
        &&& (c / 16) % 2 == d4
        &&& (c / 32) % 2 == d5
        &&& (c / 64) % 2 == d6
        &&& (c / 128) % 2 == d7
    }) by (bit_vector)
        requires
            d0 <= 1 && d1 <= 1 && d2 <= 1 && d3 <= 1 && d4 <= 1 && d5 <= 1 && d6 <= 1 && d7 <= 1,
            c == d0 + 2 * d1 + 4 * d2 + 8 * d3 + 16 * d4 + 32 * d5 + 64 * d6 + 128 * d7,
    ;
    assert(glyph_code(braille_glyph(c as int)) == c);
}

/// Different blocks give different characters.
pub proof fn lemma_braille_injective(p: [[bool; 2]; 4], q: [[bool; 2]; 4])
    requires
        braille_glyph(braille_code(p)) == braille_glyph(braille_code(q)),
    ensures
        forall|row: int, col: int| 0 <= row < 4 && 0 <= col < 2 ==> p[row][col] == q[row][col],
{
    lemma_braille_dots(p);
    lemma_braille_dots(q);
    assert(braille_code(p) == braille_code(q));
}

} // verus!
