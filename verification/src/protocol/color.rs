use vstd::prelude::*;
use crate::protocol::{DefaultColor, Rgb};

verus! {

/// What a colour is: the terminal's default, one of the 256 indexed colours,
/// or a true colour.
#[derive(Clone, Copy, Debug, PartialEq, Eq, Structural)]
pub enum Value {
    DefaultColor(DefaultColor),
    Ansi256(u32),
    Rgb(Rgb),
}

} // verus!
