use vstd::prelude::*;

use crate::position::Position;

verus! {

/// The cursor of the board: a column and a task within it.
pub struct Selector {
    pub block_ptr: u8,
    pub task_ptr: usize,
    pub position: Position,
}

impl Selector {
    /// The cursor on the first task of the first column.
    pub fn default() -> (r: Selector)
        ensures
            r.block_ptr == 0,
            r.task_ptr == 0,
            r.position == (Position { x: 0, y: 0 }),
    {
        Selector { block_ptr: 0, task_ptr: 0, position: Position { x: 0, y: 0 } }
    }
}

} // verus!
