use vstd::prelude::*;

verus! {

/// A width and a height in screen cells.
#[derive(Debug, Clone, Copy, PartialEq, Eq, Structural)]
pub struct Size {
    pub width: u16,
    pub height: u16,
}

} // verus!
