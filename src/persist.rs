use vstd::prelude::*;
use vstd::string::*;

use crate::board::{Board, InputMode, WritingTaskType};
use crate::task::{Task, TaskStatus};

verus! {

/// A task as the board file holds it: its status is written out as a word.
#[derive(Debug)]
pub struct TaskRecord {
    pub status: String,
    pub title: String,
    pub description: String,
}

/// The content of a board file: the board's name and the tasks of its three
/// columns ("todo", "active", "completed"), in order.
#[derive(Debug)]
pub struct BoardFile {
    pub board_name: String,
    pub todo: Vec<TaskRecord>,
    pub active: Vec<TaskRecord>,
    pub completed: Vec<TaskRecord>,
}

/// Why a board could not be loaded.
#[derive(Debug, Clone, Copy, PartialEq, Eq, Structural)]
pub enum LoadError {
    /// There is no such file.
    Missing,
    /// The file could not be read, or is not a board document.
    Unreadable,
    /// The document holds a value the board does not know (a status word).
    SchemaInvalid,
}

/// Why a board could not be saved.
#[derive(Debug, Clone, Copy, PartialEq, Eq, Structural)]
pub enum SaveError {
    /// The file could not be written.
    WriteFailed,
}

/// The word a status is written as.
pub open spec fn status_text(s: TaskStatus) -> Seq<char> {
    match s {
        TaskStatus::Todo => "Todo"@,
        TaskStatus::Active => "Active"@,
        TaskStatus::Completed => "Completed"@,
    }
}

/// The status a word stands for, if any.
pub open spec fn status_from_text(t: Seq<char>) -> Option<TaskStatus> {
    if t == "Todo"@ {
        Some(TaskStatus::Todo)
    } else if t == "Active"@ {
        Some(TaskStatus::Active)
    } else if t == "Completed"@ {
        Some(TaskStatus::Completed)
    } else {
        None
    }
}

/// `r` is how `t` is written to the file.
pub open spec fn encodes(t: Task, r: TaskRecord) -> bool {
    &&& r.status@ == status_text(t.status)
    &&& r.title == t.title
    &&& r.description == t.description
}

/// The task a record stands for, if its status word is known.
pub open spec fn decoded(r: TaskRecord) -> Option<Task> {
    match status_from_text(r.status@) {
        Some(s) => Some(Task { status: s, title: r.title, description: r.description }),
        None => None,
    }
}

/// `recs` is how the sequence `tasks` is written to the file.
pub open spec fn encodes_all(tasks: Seq<Task>, recs: Seq<TaskRecord>) -> bool {
    &&& recs.len() == tasks.len()
    &&& forall|j: int| 0 <= j < tasks.len() ==> encodes(#[trigger] tasks[j], recs[j])
}

/// Every record of `recs` has a known status word.
pub open spec fn all_known(recs: Seq<TaskRecord>) -> bool {
    forall|j: int| 0 <= j < recs.len() ==> (#[trigger] decoded(recs[j])).is_some()
}

/// `tasks` is what the records `recs` stand for, in order.
pub open spec fn decodes_all(recs: Seq<TaskRecord>, tasks: Seq<Task>) -> bool {
    &&& tasks.len() == recs.len()
    &&& forall|j: int| 0 <= j < recs.len() ==> decoded(#[trigger] recs[j]) == Some(tasks[j])
}

impl BoardFile {
    /// The records of column `i`.
    pub open spec fn records(&self, i: int) -> Seq<TaskRecord> {
        if i == 0 {
            self.todo@
        } else if i == 1 {
            self.active@
        } else {
            self.completed@
        }
    }

    /// Every status word of the file is known.
    pub open spec fn is_valid(&self) -> bool {
        forall|i: int| 0 <= i < 3 ==> all_known(#[trigger] self.records(i))
    }
}

/// The word for `s`.
pub fn status_name(s: TaskStatus) -> (r: String)
    ensures
        r@ == status_text(s),
{
    match s {
        TaskStatus::Todo => "Todo".to_string(),
        TaskStatus::Active => "Active".to_string(),
        TaskStatus::Completed => "Completed".to_string(),
    }
}

/// The status that the word `s` stands for; `None` for any other word.
pub fn parse_status(s: &String) -> (r: Option<TaskStatus>)
    ensures
        r == status_from_text(s@),
{
    let todo = "Todo".to_string();
    let active = "Active".to_string();
    let completed = "Completed".to_string();
    if s.eq(&todo) {
        Some(TaskStatus::Todo)
    } else if s.eq(&active) {
        Some(TaskStatus::Active)
    } else if s.eq(&completed) {
        Some(TaskStatus::Completed)
    } else {
        None
    }
}

/// How `t` is written to the file.
pub fn task_record(t: &Task) -> (r: TaskRecord)
    ensures
        encodes(*t, r),
{
    TaskRecord {
        status: status_name(t.status),
        title: t.title.clone(),
        description: t.description.clone(),
    }
}

/// How the tasks of one column are written to the file.
pub fn task_records(tasks: &Vec<Task>) -> (r: Vec<TaskRecord>)
    ensures
        encodes_all(tasks@, r@),
{
    let mut out: Vec<TaskRecord> = Vec::new();
    let mut j: usize = 0;
    while j < tasks.len()
        invariant
            j <= tasks@.len(),
            out@.len() == j,
            forall|k: int| 0 <= k < j ==> encodes(#[trigger] tasks@[k], out@[k]),
        decreases tasks@.len() - j,
    {
        out.push(task_record(&tasks[j]));
        j = j + 1;
    }
    out
}

/// The task a record stands for; a status word that is not known is a
/// schema error.
pub fn task_from_record(r: &TaskRecord) -> (res: Result<Task, LoadError>)
    ensures
        decoded(*r).is_some() ==> res == Ok::<Task, LoadError>(decoded(*r).unwrap()),
        decoded(*r).is_none() ==> res == Err::<Task, LoadError>(LoadError::SchemaInvalid),
{
    match parse_status(&r.status) {
        Some(status) => Ok(Task { status, title: r.title.clone(), description: r.description.clone() }),
        None => Err(LoadError::SchemaInvalid),
    }
}

/// The tasks that the records of one column stand for, in order; any unknown
/// status word makes the whole column a schema error.
pub fn tasks_from_records(recs: &Vec<TaskRecord>) -> (res: Result<Vec<Task>, LoadError>)
    ensures
        all_known(recs@) ==> (res matches Ok(v) && decodes_all(recs@, v@)),
        !all_known(recs@) ==> res == Err::<Vec<Task>, LoadError>(LoadError::SchemaInvalid),
{
    let mut out: Vec<Task> = Vec::new();
    let mut j: usize = 0;
    while j < recs.len()
        invariant
            j <= recs@.len(),
            out@.len() == j,
            forall|k: int| 0 <= k < j ==> decoded(#[trigger] recs@[k]) == Some(out@[k]),
        decreases recs@.len() - j,
    {
        match task_from_record(&recs[j]) {
            Ok(t) => out.push(t),
            Err(e) => {
                assert(!all_known(recs@));
                return Err(e);
            },
        }
        j = j + 1;
    }
    Ok(out)
}

/// Reading back the word of a status gives that status.
pub proof fn lemma_status_text_round_trip(s: TaskStatus)
    ensures
        status_from_text(status_text(s)) == Some(s),
{
    reveal_strlit("Todo");
    reveal_strlit("Active");
    reveal_strlit("Completed");
    assert("Active"@[0] != "Todo"@[0]);
    assert("Completed"@[0] != "Todo"@[0]);
    assert("Completed"@[0] != "Active"@[0]);
}

/// The message shown when loading failed with `e`.
pub open spec fn load_notice(e: LoadError) -> Seq<char> {
    match e {
        LoadError::Missing => "board file not found"@,
        LoadError::Unreadable => "board file could not be read"@,
        LoadError::SchemaInvalid => "board file holds an unknown value"@,
    }
}

/// The message shown when saving failed.
pub open spec fn save_notice() -> Seq<char> {
    "board could not be saved"@
}

impl Board {
    /// `f` holds the board's name and the tasks of its three columns.
    pub open spec fn saved_as(&self, f: &BoardFile) -> bool {
        &&& f.board_name == self.board_name
        &&& forall|i: int| 0 <= i < 3 ==> encodes_all(#[trigger] self.tasks(i), f.records(i))
    }

    /// The board's name and columns are what `f` holds.
    pub open spec fn loaded_from(&self, f: &BoardFile) -> bool {
        &&& self.board_name == f.board_name
        &&& forall|i: int| 0 <= i < 3 ==> decodes_all(f.records(i), #[trigger] self.tasks(i))
    }

    /// What is written to the board's file.
    pub fn save_file(&self) -> (r: BoardFile)
        requires
            self.wf(),
        ensures
            self.saved_as(&r),
    {
        let todo = task_records(&self.block_list[0].task_list);
        let active = task_records(&self.block_list[1].task_list);
        let completed = task_records(&self.block_list[2].task_list);
        let r = BoardFile { board_name: self.board_name.clone(), todo, active, completed };
        assert(forall|i: int| 0 <= i < 3 ==> encodes_all(#[trigger] self.tasks(i), r.records(i))) by {
            assert(self.tasks(0) == self.block_list@[0].task_list@);
        }
        r
    }

    /// The name of the board's file: the board's name with ".json".
    pub fn save_path(&self) -> (r: String)
        ensures
            r@ == self.board_name@ + ".json"@,
    {
        self.board_name.clone().concat(".json")
    }

    /// Takes the name and the columns from `file`, with the cursor on the
    /// first task of the first column; the board then counts as saved. A file
    /// with an unknown status word is refused and the columns, name and cursor
    /// left as they were. Either way the board ends in command mode, with no
    /// text under construction.
    pub fn load(&mut self, file: &BoardFile) -> (r: Result<(), LoadError>)
        requires
            old(self).wf(),
        ensures
            final(self).wf(),
            file.is_valid() ==> {
                &&& r == Ok::<(), LoadError>(())
                &&& final(self).loaded_from(file)
                &&& !final(self).is_modified
                &&& final(self).selector.block_ptr == 0
                &&& final(self).selector.task_ptr == 0
            },
            !file.is_valid() ==> {
                &&& r == Err::<(), LoadError>(LoadError::SchemaInvalid)
                &&& Board::same_tasks(old(self), final(self))
                &&& final(self).board_name == old(self).board_name
                &&& final(self).is_modified == old(self).is_modified
                &&& final(self).selector == old(self).selector
            },
            final(self).input_state == InputMode::Command,
            final(self).writing_count == WritingTaskType::WritingTitle,
            final(self).writing_string@.len() == 0,
    {
        self.input_state = InputMode::Command;
        self.writing_count = WritingTaskType::WritingTitle;
        self.writing_string = String::new();
        let todo = tasks_from_records(&file.todo);
        let active = tasks_from_records(&file.active);
        let completed = tasks_from_records(&file.completed);
        assert(file.records(0) == file.todo@);
        assert(file.records(1) == file.active@);
        assert(file.records(2) == file.completed@);
        match (todo, active, completed) {
            (Ok(t0), Ok(t1), Ok(t2)) => {
                self.block_list[0].task_list = t0;
                self.block_list[1].task_list = t1;
                self.block_list[2].task_list = t2;
                self.board_name = file.board_name.clone();
                self.selector.block_ptr = 0;
                self.selector.task_ptr = 0;
                self.is_modified = false;
                assert(self.tasks(0) == t0@);
                Ok(())
            },
            _ => Err(LoadError::SchemaInvalid),
        }
    }

    /// Records how a save that was asked for went: on success the board
    /// counts as saved; on failure it stays modified and says so.
    pub fn finish_save(&mut self, outcome: Result<(), SaveError>)
        requires
            old(self).wf(),
        ensures
            final(self).wf(),
            outcome is Ok ==> !final(self).is_modified && final(self).notice@.len() == 0,
            outcome is Err ==> final(self).is_modified == old(self).is_modified
                && final(self).notice@ == save_notice(),
            Board::same_tasks(old(self), final(self)),
            final(self).selector == old(self).selector,
            final(self).input_state == old(self).input_state,
            final(self).board_name == old(self).board_name,
    {
        match outcome {
            Ok(()) => {
                self.is_modified = false;
                self.notice = String::new();
            },
            Err(_) => {
                self.notice = "board could not be saved".to_string();
            },
        }
    }

    /// Shows why loading failed; the board itself is left as it was.
    pub fn report_load_error(&mut self, e: LoadError)
        requires
            old(self).wf(),
        ensures
            final(self).wf(),
            Board::unchanged(old(self), final(self)),
            final(self).notice@ == load_notice(e),
    {
        self.notice = match e {
            LoadError::Missing => "board file not found".to_string(),
            LoadError::Unreadable => "board file could not be read".to_string(),
            LoadError::SchemaInvalid => "board file holds an unknown value".to_string(),
        };
    }
}

/// Loading what was saved gives back the board's name and every column's
/// tasks, values and order; and such a file is never refused.
pub proof fn lemma_save_load_round_trip(b: &Board, f: &BoardFile, c: &Board)
    requires
        b.saved_as(f),
        c.loaded_from(f),
    ensures
        f.is_valid(),
        c.board_name == b.board_name,
        forall|i: int| 0 <= i < 3 ==> #[trigger] c.tasks(i) == b.tasks(i),
{
    assert forall|i: int| 0 <= i < 3 implies all_known(#[trigger] f.records(i)) && c.tasks(i) == b.tasks(i) by {
        let recs = f.records(i);
        assert(encodes_all(b.tasks(i), recs));
        assert(decodes_all(recs, c.tasks(i)));
        assert forall|j: int| 0 <= j < recs.len() implies decoded(#[trigger] recs[j]) == Some(b.tasks(i)[j]) by {
            lemma_status_text_round_trip(b.tasks(i)[j].status);
            assert(encodes(b.tasks(i)[j], recs[j]));
        }
        assert(c.tasks(i) =~= b.tasks(i));
    }
}

} // verus!
