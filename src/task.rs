use vstd::prelude::*;

verus! {

/// Where a task stands; it always follows the column that holds the task.
#[derive(Debug, Clone, Copy, PartialEq, Eq, Structural)]
pub enum TaskStatus {
    Todo,
    Active,
    Completed,
}

/// The status that a task takes on in the column at `index`.
pub open spec fn status_of_column(index: int) -> TaskStatus {
    if index == 0 {
        TaskStatus::Todo
    } else if index == 1 {
        TaskStatus::Active
    } else {
        TaskStatus::Completed
    }
}

impl TaskStatus {
    /// The status for the column at `index` (0, 1 or 2).
    pub fn for_column(index: u8) -> (r: TaskStatus)
        requires
            index < 3,
        ensures
            r == status_of_column(index as int),
    {
        if index == 0 {
            TaskStatus::Todo
        } else if index == 1 {
            TaskStatus::Active
        } else {
            TaskStatus::Completed
        }
    }
}

/// A single card of the board.
#[derive(Debug)]
pub struct Task {
    pub status: TaskStatus,
    pub title: String,
    pub description: String,
}

} // verus!
