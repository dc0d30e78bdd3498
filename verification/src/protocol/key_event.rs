use vstd::prelude::*;

verus! {

/// The key of a key event: a Unicode scalar value, or the code of a special key.
#[derive(Clone, Copy, Debug, PartialEq, Eq, Structural)]
pub enum Key {
    UnicodeScalar(u32),
    Special(i32),
}

} // verus!
