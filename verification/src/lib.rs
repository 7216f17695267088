use vstd::prelude::*;

pub mod charset;
pub mod cli;
pub mod color;
pub mod converter;
pub mod gif;
pub mod image;
pub mod output;
pub mod settings;
pub mod terminal;
pub mod text;

verus! {

} // verus!
