use vstd::prelude::*;
use vstd::string::*;

use crate::block::Block;
use crate::position::Position;
use crate::selector::Selector;
use crate::size::Size;
use crate::task::{status_of_column, Task, TaskStatus};
use crate::terminalw::TerminalW;
use crate::text::{pop_char, push_char};

verus! {

/// Most characters a title (or a board name) may hold.
pub const TITLE_LIMIT: usize = 15;

/// Most characters a description may hold.
pub const DESCRIPTION_LIMIT: usize = 250;

/// Number of columns on every board.
pub const COLUMN_COUNT: u8 = 3;

/// What keystrokes mean at the moment.
#[derive(Debug, Clone, Copy, PartialEq, Eq, Structural)]
pub enum InputMode {
    Command,
    WritingTask,
    WritingBoard,
}

/// Which field of a task (or the board name) is being typed.
#[derive(Debug, Clone, Copy, PartialEq, Eq, Structural)]
pub enum WritingTaskType {
    WritingTitle,
    WritingDescription,
}

/// A key, as far as the board tells keys apart.
#[derive(Debug, Clone, Copy, PartialEq, Eq, Structural)]
pub enum KeyCode {
    Char(char),
    Enter,
    Backspace,
    Up,
    Down,
    Left,
    Right,
    Other,
}

/// One key stroke; `plain` holds when no modifier key was down.
#[derive(Debug, Clone, Copy, PartialEq, Eq, Structural)]
pub struct KeyInput {
    pub code: KeyCode,
    pub plain: bool,
}

/// What the caller of the event loop has to do after a key stroke.
#[derive(Debug, Clone, Copy, PartialEq, Eq, Structural)]
pub enum Action {
    Nothing,
    Save,
    Quit,
}

/// The cap on the field being typed.
pub open spec fn field_limit(field: WritingTaskType) -> nat {
    match field {
        WritingTaskType::WritingTitle => TITLE_LIMIT as nat,
        WritingTaskType::WritingDescription => DESCRIPTION_LIMIT as nat,
    }
}

/// Where column `i` is drawn.
pub open spec fn column_position(i: int) -> Position {
    Position { x: (15 + 32 * i) as u16, y: 5 }
}

/// How large every column is drawn.
pub open spec fn column_size() -> Size {
    Size { width: 30, height: 25 }
}

/// The title shown above column `i`.
pub open spec fn column_title(i: int) -> Seq<char> {
    if i == 0 {
        "To Do"@
    } else if i == 1 {
        "Active"@
    } else {
        "Completed"@
    }
}

/// The task that a finished draft becomes in column `col`.
pub open spec fn drafted_task(col: int, title: String, description: String) -> Task {
    Task { status: status_of_column(col), title, description }
}

/// The whole session: three columns, the cursor, the input mode and the
/// text under construction.
pub struct Board {
    pub quit: bool,
    pub term: TerminalW,
    pub is_modified: bool,
    pub board_name: String,
    pub block_list: Vec<Block>,
    pub selector: Selector,
    pub input_state: InputMode,
    pub showing_task: bool,
    pub writing_string: String,
    pub writing_count: WritingTaskType,
    pub tmp_task: Task,
    pub notice: String,
}

impl Board {
    /// The tasks of column `i`, in order.
    pub open spec fn tasks(&self, i: int) -> Seq<Task> {
        self.block_list@[i].task_list@
    }

    /// The selected column.
    pub open spec fn col(&self) -> int {
        self.selector.block_ptr as int
    }

    /// The cursor names a column, and a task of it where it has any.
    pub open spec fn selector_ok(&self) -> bool {
        &&& self.selector.block_ptr < COLUMN_COUNT
        &&& self.tasks(self.col()).len() == 0 ==> self.selector.task_ptr == 0
        &&& self.tasks(self.col()).len() > 0 ==> self.selector.task_ptr < self.tasks(self.col()).len()
    }

    /// The columns keep their fixed titles and geometry.
    pub open spec fn columns_ok(&self) -> bool {
        &&& self.block_list@.len() == 3
        &&& forall|i: int|
            0 <= i < 3 ==> {
                &&& #[trigger] self.block_list@[i].position == column_position(i)
                &&& self.block_list@[i].size == column_size()
                &&& self.block_list@[i].title@ == column_title(i)
            }
    }

    /// The invariant every observable state of the board meets.
    pub open spec fn wf(&self) -> bool {
        &&& self.columns_ok()
        &&& self.selector_ok()
        &&& self.writing_string@.len() <= field_limit(self.writing_count)
        &&& self.writing_count == WritingTaskType::WritingDescription ==> self.input_state
            == InputMode::WritingTask
    }

    /// The three columns hold the same tasks in `a` and `b`.
    pub open spec fn same_tasks(a: &Board, b: &Board) -> bool {
        forall|i: int|
            #![trigger a.tasks(i)]
            #![trigger b.tasks(i)]
            0 <= i < 3 ==> a.tasks(i) == b.tasks(i)
    }

    /// Nothing but the columns, the cursor and the modified flag differ
    /// between `a` and `b` (and what was drawn).
    pub open spec fn session_kept(a: &Board, b: &Board) -> bool {
        &&& a.block_list@.len() == b.block_list@.len()
        &&& a.input_state == b.input_state
        &&& a.writing_string == b.writing_string
        &&& a.writing_count == b.writing_count
        &&& a.board_name == b.board_name
        &&& a.quit == b.quit
        &&& a.showing_task == b.showing_task
        &&& a.tmp_task == b.tmp_task
    }

    /// Only the cursor may differ between `a` and `b` (and what was drawn).
    pub open spec fn only_cursor_moved(a: &Board, b: &Board) -> bool {
        &&& Board::same_tasks(a, b)
        &&& Board::session_kept(a, b)
        &&& a.is_modified == b.is_modified
    }

    /// `b` is `a` after a move to the left.
    pub open spec fn left_step(a: &Board, b: &Board) -> bool {
        &&& Board::only_cursor_moved(a, b)
        &&& a.selector.block_ptr > 0 ==> b.selector.block_ptr == a.selector.block_ptr - 1
            && b.selector.task_ptr == 0
        &&& a.selector.block_ptr == 0 ==> b.selector.block_ptr == 0 && b.selector.task_ptr
            == a.selector.task_ptr
    }

    /// `b` is `a` after a move to the right.
    pub open spec fn right_step(a: &Board, b: &Board) -> bool {
        &&& Board::only_cursor_moved(a, b)
        &&& a.selector.block_ptr < 2 ==> b.selector.block_ptr == a.selector.block_ptr + 1
            && b.selector.task_ptr == 0
        &&& a.selector.block_ptr >= 2 ==> b.selector.block_ptr == a.selector.block_ptr
            && b.selector.task_ptr == a.selector.task_ptr
    }

    /// `b` is `a` after a move up.
    pub open spec fn up_step(a: &Board, b: &Board) -> bool {
        &&& Board::only_cursor_moved(a, b)
        &&& b.selector.block_ptr == a.selector.block_ptr
        &&& b.selector.task_ptr == if a.selector.task_ptr > 0 {
            a.selector.task_ptr - 1
        } else {
            0
        }
    }

    /// `b` is `a` after a move down.
    pub open spec fn down_step(a: &Board, b: &Board) -> bool {
        &&& Board::only_cursor_moved(a, b)
        &&& b.selector.block_ptr == a.selector.block_ptr
        &&& b.selector.task_ptr == if a.selector.task_ptr + 1 < a.tasks(a.col()).len() {
            a.selector.task_ptr + 1
        } else {
            a.selector.task_ptr as int
        }
    }

    /// `t` as it stands once moved into column `col`.
    pub open spec fn relocated(t: Task, col: int) -> Task {
        Task { status: status_of_column(col), title: t.title, description: t.description }
    }

    /// `b` is `a` after the task under the cursor was moved to column `dest`;
    /// where `dest` is no column or the selected column is empty, nothing
    /// changes.
    pub open spec fn shift_step(a: &Board, b: &Board, dest: int) -> bool {
        let c = a.col();
        let src = a.tasks(c);
        let p = a.selector.task_ptr as int;
        &&& Board::session_kept(a, b)
        &&& b.selector.block_ptr == a.selector.block_ptr
        &&& if 0 <= dest < 3 && src.len() > 0 {
            &&& b.tasks(c) == src.remove(p)
            &&& b.tasks(dest) == a.tasks(dest).push(Board::relocated(src[p], dest))
            &&& forall|i: int| 0 <= i < 3 && i != c && i != dest ==> #[trigger] b.tasks(i) == a.tasks(i)
            &&& b.selector.task_ptr == Board::clamped(p, src.len() - 1)
            &&& b.is_modified
        } else {
            &&& Board::same_tasks(a, b)
            &&& b.selector.task_ptr == a.selector.task_ptr
            &&& b.is_modified == a.is_modified
        }
    }

    /// `b` is `a` after a delete that returned `r`.
    pub open spec fn delete_step(a: &Board, b: &Board, r: Option<Task>) -> bool {
        let c = a.col();
        let src = a.tasks(c);
        let p = a.selector.task_ptr as int;
        &&& Board::session_kept(a, b)
        &&& b.selector.block_ptr == a.selector.block_ptr
        &&& if src.len() > 0 {
            &&& r == Some(src[p])
            &&& b.tasks(c) == src.remove(p)
            &&& Board::others_unchanged(a, b, c)
            &&& b.selector.task_ptr == Board::clamped(p, src.len() - 1)
            &&& b.is_modified
        } else {
            &&& r.is_none()
            &&& Board::same_tasks(a, b)
            &&& b.selector.task_ptr == a.selector.task_ptr
            &&& b.is_modified == a.is_modified
        }
    }

    /// Nothing but the text under construction and the mode differ between
    /// `a` and `b` (and what was drawn).
    pub open spec fn board_kept(a: &Board, b: &Board) -> bool {
        &&& Board::same_tasks(a, b)
        &&& a.block_list@ == b.block_list@
        &&& a.selector == b.selector
        &&& a.is_modified == b.is_modified
        &&& a.quit == b.quit
        &&& a.showing_task == b.showing_task
    }

    /// `b` is `a` after `c` was typed: it is appended while the field is under
    /// its cap, and refused once the cap is reached.
    pub open spec fn typed_step(a: &Board, b: &Board, c: char) -> bool {
        &&& Board::board_kept(a, b)
        &&& b.input_state == a.input_state
        &&& b.writing_count == a.writing_count
        &&& b.board_name == a.board_name
        &&& b.tmp_task == a.tmp_task
        &&& b.writing_string@ == if a.writing_string@.len() < field_limit(a.writing_count) {
            a.writing_string@.push(c)
        } else {
            a.writing_string@
        }
    }

    /// `b` is `a` after a backspace.
    pub open spec fn erased_step(a: &Board, b: &Board) -> bool {
        &&& Board::board_kept(a, b)
        &&& b.input_state == a.input_state
        &&& b.writing_count == a.writing_count
        &&& b.board_name == a.board_name
        &&& b.tmp_task == a.tmp_task
        &&& b.writing_string@ == if a.writing_string@.len() > 0 {
            a.writing_string@.drop_last()
        } else {
            a.writing_string@
        }
    }

    /// `b` is `a` after Enter in a writing mode, with `r` asked of the caller.
    pub open spec fn confirm_step(a: &Board, b: &Board, r: Action) -> bool {
        &&& b.writing_string@.len() == 0
        &&& b.quit == a.quit
        &&& b.showing_task == a.showing_task
        &&& b.block_list@.len() == a.block_list@.len()
        &&& b.selector == a.selector
        &&& if a.input_state == InputMode::WritingTask && a.writing_count
            == WritingTaskType::WritingTitle {
            &&& Board::same_tasks(a, b)
            &&& b.is_modified == a.is_modified
            &&& b.tmp_task.title == a.writing_string
            &&& b.input_state == InputMode::WritingTask
            &&& b.writing_count == WritingTaskType::WritingDescription
            &&& b.board_name == a.board_name
            &&& r == Action::Nothing
        } else if a.input_state == InputMode::WritingTask {
            &&& b.tasks(a.col()) == a.tasks(a.col()).push(
                drafted_task(a.col(), a.tmp_task.title, a.writing_string),
            )
            &&& Board::others_unchanged(a, b, a.col())
            &&& b.is_modified
            &&& b.tmp_task.title@.len() == 0
            &&& b.tmp_task.description@.len() == 0
            &&& b.input_state == InputMode::Command
            &&& b.writing_count == WritingTaskType::WritingTitle
            &&& b.board_name == a.board_name
            &&& r == Action::Nothing
        } else {
            &&& Board::same_tasks(a, b)
            &&& b.is_modified == a.is_modified
            &&& b.board_name == a.writing_string
            &&& b.input_state == InputMode::Command
            &&& b.writing_count == WritingTaskType::WritingTitle
            &&& b.tmp_task == a.tmp_task
            &&& r == Action::Save
        }
    }

    /// `b` is `a` with the detail overlay switched.
    pub open spec fn toggle_step(a: &Board, b: &Board) -> bool {
        &&& Board::same_tasks(a, b)
        &&& a.block_list@.len() == b.block_list@.len()
        &&& b.selector == a.selector
        &&& b.is_modified == a.is_modified
        &&& b.quit == a.quit
        &&& b.showing_task == !a.showing_task
        &&& b.input_state == a.input_state
        &&& b.writing_string == a.writing_string
        &&& b.writing_count == a.writing_count
        &&& b.board_name == a.board_name
    }

    /// `b` is `a` once a new task was begun.
    pub open spec fn start_step(a: &Board, b: &Board) -> bool {
        &&& Board::board_kept(a, b)
        &&& b.input_state == InputMode::WritingTask
        &&& b.writing_count == WritingTaskType::WritingTitle
        &&& b.writing_string@.len() == 0
        &&& b.board_name == a.board_name
    }

    /// `b` is `a` after the save key, with `r` asked of the caller.
    pub open spec fn save_request_step(a: &Board, b: &Board, file_exists: bool, r: Action) -> bool {
        &&& Board::board_kept(a, b)
        &&& b.board_name == a.board_name
        &&& b.writing_string@.len() == 0
        &&& b.writing_count == WritingTaskType::WritingTitle
        &&& file_exists ==> r == Action::Save && b.input_state == InputMode::Command
        &&& !file_exists ==> r == Action::Nothing && b.input_state == InputMode::WritingBoard
    }

    /// `b` is `a` with only what was drawn changed.
    pub open spec fn unchanged(a: &Board, b: &Board) -> bool {
        &&& Board::board_kept(a, b)
        &&& b.input_state == a.input_state
        &&& b.writing_string == a.writing_string
        &&& b.writing_count == a.writing_count
        &&& b.board_name == a.board_name
    }

    /// `b` is `a` after `key` in command mode, with `r` asked of the caller.
    pub open spec fn command_step(a: &Board, b: &Board, key: KeyInput, file_exists: bool, r: Action) -> bool {
        let plain = key.plain;
        match key.code {
            KeyCode::Char('q') if plain => {
                &&& b.quit
                &&& r == Action::Quit
                &&& Board::same_tasks(a, b)
                &&& b.selector == a.selector
                &&& b.is_modified == a.is_modified
                &&& b.input_state == a.input_state
                &&& b.board_name == a.board_name
            },
            KeyCode::Char('s') if plain => Board::save_request_step(a, b, file_exists, r),
            KeyCode::Char('c') if plain => Board::start_step(a, b) && r == Action::Nothing,
            KeyCode::Char('d') if plain => {
                &&& r == Action::Nothing
                &&& exists|t: Option<Task>| Board::delete_step(a, b, t)
            },
            KeyCode::Enter if plain => Board::toggle_step(a, b) && r == Action::Nothing,
            KeyCode::Up => Board::up_step(a, b) && r == Action::Nothing,
            KeyCode::Down => Board::down_step(a, b) && r == Action::Nothing,
            KeyCode::Left => Board::left_step(a, b) && r == Action::Nothing,
            KeyCode::Right => Board::right_step(a, b) && r == Action::Nothing,
            KeyCode::Char('>') => Board::shift_step(a, b, a.col() + 1) && r == Action::Nothing,
            KeyCode::Char('<') => Board::shift_step(a, b, a.col() - 1) && r == Action::Nothing,
            _ => Board::unchanged(a, b) && r == Action::Nothing,
        }
    }

    /// `b` is `a` after `key` in a writing mode, with `r` asked of the caller.
    pub open spec fn writing_step(a: &Board, b: &Board, key: KeyInput, r: Action) -> bool {
        match key.code {
            KeyCode::Enter if key.plain => Board::confirm_step(a, b, r),
            KeyCode::Char(c) => Board::typed_step(a, b, c) && r == Action::Nothing,
            KeyCode::Backspace => Board::erased_step(a, b) && r == Action::Nothing,
            _ => Board::unchanged(a, b) && r == Action::Nothing,
        }
    }

    /// The invariant depends on the columns, the cursor and the text being
    /// typed alone, not on what was drawn.
    pub proof fn lemma_wf_kept(a: &Board, b: &Board)
        requires
            a.wf(),
            b.block_list@ == a.block_list@,
            b.selector == a.selector,
            b.writing_string@ == a.writing_string@,
            b.writing_count == a.writing_count,
            b.input_state == a.input_state,
        ensures
            b.wf(),
    {
        assert forall|i: int| 0 <= i < 3 implies #[trigger] b.block_list@[i].position == column_position(i)
            && b.block_list@[i].size == column_size() && b.block_list@[i].title@ == column_title(i) by {
            assert(a.block_list@[i].position == column_position(i));
        }
    }

    fn new_column(i: u8) -> (r: Block)
        requires
            i < 3,
        ensures
            r.position == column_position(i as int),
            r.size == column_size(),
            r.title@ == column_title(i as int),
            r.task_list@.len() == 0,
    {
        let title = if i == 0 {
            "To Do".to_string()
        } else if i == 1 {
            "Active".to_string()
        } else {
            "Completed".to_string()
        };
        let x: u16 = 15 + 32 * (i as u16);
        Block {
            title,
            position: Position { x, y: 5 },
            size: Size { width: 30, height: 25 },
            task_list: Vec::new(),
        }
    }

    /// A fresh board named `board_name`: three empty columns, the cursor on
    /// the first one, in command mode, drawn on a terminal of `cols` by `rows`.
    pub fn default(board_name: String, cols: u16, rows: u16) -> (r: Board)
        ensures
            r.wf(),
            r.board_name == board_name,
            forall|i: int| 0 <= i < 3 ==> (#[trigger] r.tasks(i)).len() == 0,
            r.selector.block_ptr == 0,
            r.selector.task_ptr == 0,
            r.input_state == InputMode::Command,
            r.writing_count == WritingTaskType::WritingTitle,
            r.writing_string@.len() == 0,
            r.is_modified,
            !r.quit,
            !r.showing_task,
    {
        let mut block_list: Vec<Block> = Vec::new();
        block_list.push(Board::new_column(0));
        block_list.push(Board::new_column(1));
        block_list.push(Board::new_column(2));
        Board {
            quit: false,
            term: TerminalW::default(cols, rows),
            is_modified: true,
            board_name,
            block_list,
            selector: Selector::default(),
            input_state: InputMode::Command,
            showing_task: false,
            writing_string: String::new(),
            writing_count: WritingTaskType::WritingTitle,
            tmp_task: Task { status: TaskStatus::Todo, title: String::new(), description: String::new() },
            notice: String::new(),
        }
    }

    /// Moves the cursor one column to the left, onto its first task; nothing
    /// happens on the leftmost column.
    pub fn move_left(&mut self)
        requires
            old(self).wf(),
        ensures
            final(self).wf(),
            Board::left_step(old(self), final(self)),
    {
        if self.selector.block_ptr > 0 {
            self.selector.block_ptr = self.selector.block_ptr - 1;
            self.selector.task_ptr = 0;
            self.term.clear_screen();
        }
    }

    /// Moves the cursor one column to the right, onto its first task; nothing
    /// happens on the rightmost column.
    pub fn move_right(&mut self)
        requires
            old(self).wf(),
        ensures
            final(self).wf(),
            Board::right_step(old(self), final(self)),
    {
        if self.selector.block_ptr < COLUMN_COUNT - 1 {
            self.selector.block_ptr = self.selector.block_ptr + 1;
            self.selector.task_ptr = 0;
            self.term.clear_screen();
        }
    }

    /// Moves the cursor one task up, stopping at the first.
    pub fn move_up(&mut self)
        requires
            old(self).wf(),
        ensures
            final(self).wf(),
            Board::up_step(old(self), final(self)),
    {
        if self.selector.task_ptr > 0 {
            self.selector.task_ptr = self.selector.task_ptr - 1;
            self.term.clear_screen();
        }
    }

    /// Moves the cursor one task down, stopping at the last.
    pub fn move_down(&mut self)
        requires
            old(self).wf(),
        ensures
            final(self).wf(),
            Board::down_step(old(self), final(self)),
    {
        let c = self.selector.block_ptr as usize;
        let len = self.block_list[c].task_list.len();
        if len != 0 && self.selector.task_ptr < len - 1 {
            self.selector.task_ptr = self.selector.task_ptr + 1;
            self.term.clear_screen();
        }
    }

    /// The cursor position after removing from a column that is left with
    /// `len` tasks.
    pub open spec fn clamped(ptr: int, len: int) -> int {
        if len <= 0 {
            0
        } else if ptr < len {
            ptr
        } else {
            len - 1
        }
    }

    /// Every column but `c` holds the same tasks in `a` and `b`.
    pub open spec fn others_unchanged(a: &Board, b: &Board, c: int) -> bool {
        forall|i: int|
            #![trigger a.tasks(i)]
            #![trigger b.tasks(i)]
            0 <= i < 3 && i != c ==> a.tasks(i) == b.tasks(i)
    }

    /// Appends the draft to the selected column, with the status of that
    /// column, and leaves the draft empty.
    pub fn create_task(&mut self)
        requires
            old(self).wf(),
        ensures
            final(self).wf(),
            final(self).tasks(old(self).col()) == old(self).tasks(old(self).col()).push(
                drafted_task(old(self).col(), old(self).tmp_task.title, old(self).tmp_task.description),
            ),
            Board::others_unchanged(old(self), final(self), old(self).col()),
            final(self).selector == old(self).selector,
            final(self).is_modified,
            final(self).tmp_task.title@.len() == 0,
            final(self).tmp_task.description@.len() == 0,
            final(self).input_state == old(self).input_state,
            final(self).writing_string == old(self).writing_string,
            final(self).writing_count == old(self).writing_count,
            final(self).board_name == old(self).board_name,
            final(self).quit == old(self).quit,
            final(self).showing_task == old(self).showing_task,
    {
        let c = self.selector.block_ptr;
        let mut title = String::new();
        let mut description = String::new();
        std::mem::swap(&mut title, &mut self.tmp_task.title);
        std::mem::swap(&mut description, &mut self.tmp_task.description);
        let status = TaskStatus::for_column(c);
        self.tmp_task.status = status;
        let task = Task { status, title, description };
        self.block_list[c as usize].task_list.push(task);
        self.is_modified = true;
        self.term.clear_screen();
    }

    /// Takes the task under the cursor out of the selected column, if the
    /// column has any, and keeps the cursor on a task of it.
    pub fn remove_task(&mut self) -> (r: Option<Task>)
        requires
            old(self).wf(),
        ensures
            final(self).wf(),
            Board::others_unchanged(old(self), final(self), old(self).col()),
            final(self).selector.block_ptr == old(self).selector.block_ptr,
            old(self).tasks(old(self).col()).len() == 0 ==> {
                &&& r.is_none()
                &&& final(self).tasks(old(self).col()) == old(self).tasks(old(self).col())
                &&& final(self).selector.task_ptr == old(self).selector.task_ptr
            },
            old(self).tasks(old(self).col()).len() > 0 ==> {
                &&& r == Some(old(self).tasks(old(self).col())[old(self).selector.task_ptr as int])
                &&& final(self).tasks(old(self).col()) == old(self).tasks(old(self).col()).remove(
                    old(self).selector.task_ptr as int,
                )
                &&& final(self).selector.task_ptr == Board::clamped(
                    old(self).selector.task_ptr as int,
                    old(self).tasks(old(self).col()).len() - 1,
                )
            },
            final(self).is_modified == old(self).is_modified,
            final(self).input_state == old(self).input_state,
            final(self).writing_string == old(self).writing_string,
            final(self).writing_count == old(self).writing_count,
            final(self).board_name == old(self).board_name,
            final(self).quit == old(self).quit,
            final(self).showing_task == old(self).showing_task,
            final(self).tmp_task == old(self).tmp_task,
    {
        let c = self.selector.block_ptr as usize;
        if self.block_list[c].task_list.len() != 0 {
            let t = self.block_list[c].task_list.remove(self.selector.task_ptr);
            let len = self.block_list[c].task_list.len();
            if self.selector.task_ptr >= len {
                self.selector.task_ptr = if len > 0 {
                    len - 1
                } else {
                    0
                };
            }
            Some(t)
        } else {
            None
        }
    }

    /// Removes the task under the cursor from the selected column and hands
    /// it back; on an empty column nothing changes.
    pub fn delete_task(&mut self) -> (r: Option<Task>)
        requires
            old(self).wf(),
        ensures
            final(self).wf(),
            Board::delete_step(old(self), final(self), r),
    {
        let r = self.remove_task();
        if r.is_some() {
            self.is_modified = true;
            self.term.clear_screen();
        }
        r
    }

    /// Moves the task under the cursor to the end of the column on the
    /// right, where it takes that column's status.
    pub fn shift_right(&mut self)
        requires
            old(self).wf(),
        ensures
            final(self).wf(),
            Board::shift_step(old(self), final(self), old(self).col() + 1),
    {
        let c = self.selector.block_ptr;
        if c + 1 < COLUMN_COUNT {
            match self.remove_task() {
                Some(t) => {
                    let dest = c + 1;
                    let moved = Task { status: TaskStatus::for_column(dest), title: t.title, description: t.description };
                    self.block_list[dest as usize].task_list.push(moved);
                    self.is_modified = true;
                },
                None => {},
            }
        }
        self.term.clear_screen();
    }

    /// Moves the task under the cursor to the end of the column on the
    /// left, where it takes that column's status.
    pub fn shift_left(&mut self)
        requires
            old(self).wf(),
        ensures
            final(self).wf(),
            Board::shift_step(old(self), final(self), old(self).col() - 1),
    {
        let c = self.selector.block_ptr;
        if c > 0 {
            match self.remove_task() {
                Some(t) => {
                    let dest = c - 1;
                    let moved = Task { status: TaskStatus::for_column(dest), title: t.title, description: t.description };
                    self.block_list[dest as usize].task_list.push(moved);
                    self.is_modified = true;
                },
                None => {},
            }
        }
        self.term.clear_screen();
    }

    /// Shows or hides the detail of the task under the cursor.
    pub fn toggle_detail(&mut self)
        requires
            old(self).wf(),
        ensures
            final(self).wf(),
            Board::toggle_step(old(self), final(self)),
    {
        self.showing_task = !self.showing_task;
        self.term.clear_screen();
    }

    /// Starts a new task: the title is typed first.
    pub fn start_task(&mut self)
        requires
            old(self).wf(),
            old(self).input_state == InputMode::Command,
        ensures
            final(self).wf(),
            Board::start_step(old(self), final(self)),
    {
        self.input_state = InputMode::WritingTask;
        self.writing_count = WritingTaskType::WritingTitle;
        self.writing_string = String::new();
    }

    /// Appends `c` to the text being typed, unless the field is full.
    pub fn type_char(&mut self, c: char)
        requires
            old(self).wf(),
        ensures
            final(self).wf(),
            Board::typed_step(old(self), final(self), c),
    {
        let len = self.writing_string.as_str().unicode_len();
        let limit = match self.writing_count {
            WritingTaskType::WritingTitle => TITLE_LIMIT,
            WritingTaskType::WritingDescription => DESCRIPTION_LIMIT,
        };
        if len < limit {
            push_char(&mut self.writing_string, c);
        }
    }

    /// Takes the last character off the text being typed.
    pub fn erase_char(&mut self)
        requires
            old(self).wf(),
        ensures
            final(self).wf(),
            Board::erased_step(old(self), final(self)),
    {
        let _ = pop_char(&mut self.writing_string);
    }

    /// Enter while writing: the title goes to the draft and the description
    /// is asked for; the description completes the task; a board name is
    /// taken and a save is asked of the caller.
    pub fn confirm(&mut self) -> (r: Action)
        requires
            old(self).wf(),
            old(self).input_state != InputMode::Command,
        ensures
            final(self).wf(),
            Board::confirm_step(old(self), final(self), r),
    {
        let mut text = String::new();
        std::mem::swap(&mut text, &mut self.writing_string);
        match self.input_state {
            InputMode::WritingTask => {
                match self.writing_count {
                    WritingTaskType::WritingTitle => {
                        self.tmp_task.title = text;
                        self.writing_count = WritingTaskType::WritingDescription;
                    },
                    WritingTaskType::WritingDescription => {
                        self.tmp_task.description = text;
                        self.writing_count = WritingTaskType::WritingTitle;
                        self.input_state = InputMode::Command;
                        self.create_task();
                    },
                }
                Action::Nothing
            },
            _ => {
                self.board_name = text;
                self.writing_count = WritingTaskType::WritingTitle;
                self.input_state = InputMode::Command;
                self.term.clear_screen();
                Action::Save
            },
        }
    }

    /// The save key: where the board's file exists already it is saved at
    /// once; otherwise its name is asked for first.
    pub fn request_save(&mut self, file_exists: bool) -> (r: Action)
        requires
            old(self).wf(),
            old(self).input_state == InputMode::Command,
        ensures
            final(self).wf(),
            Board::save_request_step(old(self), final(self), file_exists, r),
    {
        self.writing_string = String::new();
        self.writing_count = WritingTaskType::WritingTitle;
        self.term.clear_screen();
        if file_exists {
            Action::Save
        } else {
            self.input_state = InputMode::WritingBoard;
            Action::Nothing
        }
    }

    /// Handles one key stroke. In command mode: `q` quits, `s` saves, `c`
    /// starts a task, `d` deletes, Enter shows or hides the detail, the arrows
    /// move the cursor, `<` and `>` move the task under it. While writing:
    /// characters are typed, Backspace erases, Enter confirms.
    /// `file_exists` tells whether the board's file is there already.
    pub fn process_input(&mut self, key: KeyInput, file_exists: bool) -> (r: Action)
        requires
            old(self).wf(),
        ensures
            final(self).wf(),
            old(self).input_state == InputMode::Command ==> Board::command_step(
                old(self),
                final(self),
                key,
                file_exists,
                r,
            ),
            old(self).input_state != InputMode::Command ==> Board::writing_step(
                old(self),
                final(self),
                key,
                r,
            ),
    {
        if self.input_state == InputMode::Command {
            match key.code {
                KeyCode::Char('q') if key.plain => {
                    self.quit = true;
                    Action::Quit
                },
                KeyCode::Char('s') if key.plain => self.request_save(file_exists),
                KeyCode::Char('c') if key.plain => {
                    self.start_task();
                    Action::Nothing
                },
                KeyCode::Char('d') if key.plain => {
                    let _ = self.delete_task();
                    Action::Nothing
                },
                KeyCode::Enter if key.plain => {
                    self.toggle_detail();
                    Action::Nothing
                },
                KeyCode::Up => {
                    self.move_up();
                    Action::Nothing
                },
                KeyCode::Down => {
                    self.move_down();
                    Action::Nothing
                },
                KeyCode::Left => {
                    self.move_left();
                    Action::Nothing
                },
                KeyCode::Right => {
                    self.move_right();
                    Action::Nothing
                },
                KeyCode::Char('>') => {
                    self.shift_right();
                    Action::Nothing
                },
                KeyCode::Char('<') => {
                    self.shift_left();
                    Action::Nothing
                },
                _ => Action::Nothing,
            }
        } else {
            match key.code {
                KeyCode::Enter if key.plain => self.confirm(),
                KeyCode::Char(c) => {
                    self.type_char(c);
                    Action::Nothing
                },
                KeyCode::Backspace => {
                    self.erase_char();
                    Action::Nothing
                },
                _ => Action::Nothing,
            }
        }
    }
}

/// `b` is `a` after a move to the left (when `left`) or to the right.
pub open spec fn column_move(a: Board, b: Board, left: bool) -> bool {
    if left {
        Board::left_step(&a, &b)
    } else {
        Board::right_step(&a, &b)
    }
}

/// `b` is `a` after a move up (when `up`) or down.
pub open spec fn task_move(a: Board, b: Board, up: bool) -> bool {
    if up {
        Board::up_step(&a, &b)
    } else {
        Board::down_step(&a, &b)
    }
}

proof fn lemma_column_in_range_upto(states: Seq<Board>, lefts: Seq<bool>, n: int)
    requires
        states.len() == lefts.len() + 1,
        states[0].selector.block_ptr <= 2,
        forall|k: int| 0 <= k < lefts.len() ==> column_move(states[k], states[k + 1], #[trigger] lefts[k]),
        0 <= n < states.len(),
    ensures
        states[n].selector.block_ptr <= 2,
    decreases n,
{
    if n > 0 {
        lemma_column_in_range_upto(states, lefts, n - 1);
        assert(column_move(states[n - 1], states[n], lefts[n - 1]));
    }
}

/// However long a run of moves to the left and right (`lefts[k]` tells
/// which, `states[k]` is the board before move `k`), the cursor stays on one
/// of the three columns; a move past the first or the last column leaves it
/// where it is rather than wrapping around.
pub proof fn lemma_column_moves_stay_in_range(states: Seq<Board>, lefts: Seq<bool>)
    requires
        states.len() == lefts.len() + 1,
        states[0].selector.block_ptr <= 2,
        forall|k: int| 0 <= k < lefts.len() ==> column_move(states[k], states[k + 1], #[trigger] lefts[k]),
    ensures
        forall|k: int| 0 <= k < states.len() ==> (#[trigger] states[k]).selector.block_ptr <= 2,
        forall|k: int|
            0 <= k < lefts.len() ==> states[k + 1].selector.block_ptr == if #[trigger] lefts[k] {
                if states[k].selector.block_ptr > 0 {
                    states[k].selector.block_ptr - 1
                } else {
                    0
                }
            } else {
                if states[k].selector.block_ptr < 2 {
                    states[k].selector.block_ptr + 1
                } else {
                    2
                }
            },
{
    assert forall|k: int| 0 <= k < states.len() implies (#[trigger] states[k]).selector.block_ptr <= 2 by {
        lemma_column_in_range_upto(states, lefts, k);
    }
    assert forall|k: int| 0 <= k < lefts.len() implies states[k + 1].selector.block_ptr == if #[trigger] lefts[k] {
        if states[k].selector.block_ptr > 0 {
            states[k].selector.block_ptr - 1
        } else {
            0
        }
    } else {
        if states[k].selector.block_ptr < 2 {
            states[k].selector.block_ptr + 1
        } else {
            2
        }
    } by {
        lemma_column_in_range_upto(states, lefts, k);
        assert(column_move(states[k], states[k + 1], lefts[k]));
    }
}

proof fn lemma_task_in_range_upto(states: Seq<Board>, ups: Seq<bool>, n: int)
    requires
        states.len() == ups.len() + 1,
        states[0].selector_ok(),
        forall|k: int| 0 <= k < ups.len() ==> task_move(states[k], states[k + 1], #[trigger] ups[k]),
        0 <= n < states.len(),
    ensures
        states[n].selector_ok(),
        states[n].selector.block_ptr == states[0].selector.block_ptr,
        states[n].tasks(states[0].col()) == states[0].tasks(states[0].col()),
    decreases n,
{
    if n > 0 {
        lemma_task_in_range_upto(states, ups, n - 1);
        assert(task_move(states[n - 1], states[n], ups[n - 1]));
        assert(states[n].tasks(states[0].col()) == states[n - 1].tasks(states[0].col()));
    }
}

/// However long a run of moves up and down (`ups[k]` tells which,
/// `states[k]` is the board before move `k`), the cursor stays in its column
/// and on one of the column's `n` tasks, within `[0, n - 1]`, or on 0 when
/// the column has none; the column's tasks do not change.
pub proof fn lemma_task_moves_stay_in_range(states: Seq<Board>, ups: Seq<bool>)
    requires
        states.len() == ups.len() + 1,
        states[0].selector_ok(),
        forall|k: int| 0 <= k < ups.len() ==> task_move(states[k], states[k + 1], #[trigger] ups[k]),
    ensures
        forall|k: int|
            0 <= k < states.len() ==> {
                let n = states[0].tasks(states[0].col()).len();
                &&& (#[trigger] states[k]).selector.block_ptr == states[0].selector.block_ptr
                &&& states[k].tasks(states[0].col()) == states[0].tasks(states[0].col())
                &&& n == 0 ==> states[k].selector.task_ptr == 0
                &&& n > 0 ==> states[k].selector.task_ptr < n
            },
{
    assert forall|k: int| 0 <= k < states.len() implies {
        let n = states[0].tasks(states[0].col()).len();
        &&& (#[trigger] states[k]).selector.block_ptr == states[0].selector.block_ptr
        &&& states[k].tasks(states[0].col()) == states[0].tasks(states[0].col())
        &&& n == 0 ==> states[k].selector.task_ptr == 0
        &&& n > 0 ==> states[k].selector.task_ptr < n
    } by {
        lemma_task_in_range_upto(states, ups, k);
    }
}

} // verus!
