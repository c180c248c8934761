//! A keyboard-driven kanban board: three fixed columns of short tasks, a
//! selection cursor, a modal input controller, the drawing of each frame as a
//! list of terminal primitives, and the mapping to and from the board file.

pub mod block;
pub mod board;
pub mod persist;
pub mod position;
pub mod render;
pub mod selector;
pub mod size;
pub mod task;
pub mod terminalw;
mod text;

pub use block::Block;
pub use board::{Action, Board, InputMode, KeyCode, KeyInput, WritingTaskType};
pub use persist::{
    parse_status, status_name, task_from_record, task_record, task_records, tasks_from_records,
    BoardFile, LoadError, SaveError, TaskRecord,
};
pub use position::Position;
pub use render::{blank_line, counter_text, decimal_text, wrap_text};
pub use selector::Selector;
pub use size::Size;
pub use task::{Task, TaskStatus};
pub use terminalw::{Color, CursorStyle, DrawOp, TerminalW};
