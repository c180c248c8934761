use vstd::prelude::*;

use crate::position::Position;
use crate::size::Size;
use crate::task::Task;

verus! {

/// One column of the board: its title, where it is drawn, and its tasks in
/// display order.
pub struct Block {
    pub title: String,
    pub position: Position,
    pub size: Size,
    pub task_list: Vec<Task>,
}

} // verus!
