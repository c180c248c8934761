use vstd::prelude::*;

verus! {

/// A cell of the screen, counted from the top left corner.
#[derive(Debug, Clone, Copy, PartialEq, Eq, Structural)]
pub struct Position {
    pub x: u16,
    pub y: u16,
}

} // verus!
