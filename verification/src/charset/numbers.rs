//! Numbers-only charset.

use vstd::prelude::*;
use super::Charset;

verus! {

/// The characters of the numbers charset, darkest first: digits and
/// punctuation only.
pub const NUMBERS_GLYPHS: [char; 25] = [
    ' ', '.', ',', ':', ';', '\'', '-', '=', '+', '!', '1', '7', '/', '4', '3', '5', '2', '9',
    '6', '0', '%', '8', '#', '@', '$',
];

/// Whether `c` is a space, an ASCII digit or ASCII punctuation.
pub open spec fn digit_or_punctuation(c: char) -> bool {
    ||| c == ' '
    ||| ('0' <= c && c <= '9')
    ||| ('!' <= c && c <= '/')
    ||| (':' <= c && c <= '@')
    ||| ('[' <= c && c <= '`')
    ||| ('{' <= c && c <= '~')
}

/// The numbers charset holds digits and punctuation only, from a space (darkest)
/// to `$` (lightest).
pub proof fn lemma_numbers_only()
    ensures
        forall|i: int| 0 <= i < numbers_glyphs().len() ==> digit_or_punctuation(#[trigger] numbers_glyphs()[i]),
        numbers_glyphs()[0] == ' ',
        numbers_glyphs().last() == '$',
{
    assert forall|i: int| 0 <= i < numbers_glyphs().len() implies digit_or_punctuation(
        #[trigger] numbers_glyphs()[i],
    ) by {
        assert(0 <= i < 25);
    }
}

/// The characters of the numbers charset, darkest first.
pub open spec fn numbers_glyphs() -> Seq<char> {
    NUMBERS_GLYPHS@
}

/// Numbers-only charset ordered by visual density.
#[derive(Debug)]
pub struct NumbersCharset;

impl Charset for NumbersCharset {
    open spec fn glyphs(&self) -> Seq<char> {
        numbers_glyphs()
    }

    fn characters(&self) -> (r: &[char]) {
        &NUMBERS_GLYPHS
    }
}

} // verus!
