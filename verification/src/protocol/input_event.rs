use vstd::prelude::*;
use crate::protocol::{KeyEvent, MouseEvent};

verus! {

/// What an input event carries.
#[derive(Clone, Debug, PartialEq, Eq)]
pub enum Payload {
    TextUtf8(Vec<u8>),
    Key(KeyEvent),
    RawBytes(Vec<u8>),
    Mouse(MouseEvent),
}

} // verus!
