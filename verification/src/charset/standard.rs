//! Standard ASCII charset.

use vstd::prelude::*;
use super::Charset;

verus! {

/// The characters of the standard charset, darkest first.
pub const STANDARD_GLYPHS: [char; 10] = [' ', '.', ':', '-', '=', '+', '*', '#', '%', '@'];

/// Standard ASCII charset with simple density levels.
#[derive(Debug)]
pub struct StandardCharset;

impl Charset for StandardCharset {
    open spec fn glyphs(&self) -> Seq<char> {
        STANDARD_GLYPHS@
    }

    fn characters(&self) -> (r: &[char]) {
        &STANDARD_GLYPHS
    }
}

} // verus!
