//! Block character charset using Unicode block characters.

use vstd::prelude::*;
use super::Charset;

verus! {

/// The block characters, emptiest first.
pub const BLOCK_GLYPHS: [char; 5] = [' ', '░', '▒', '▓', '█'];

/// Block character charset.
#[derive(Debug)]
pub struct BlocksCharset;

impl Charset for BlocksCharset {
    open spec fn glyphs(&self) -> Seq<char> {
        BLOCK_GLYPHS@
    }

    fn characters(&self) -> (r: &[char]) {
        &BLOCK_GLYPHS
    }
}

} // verus!
