use kanban::{
    parse_status, status_name, task_from_record, tasks_from_records, Board, BoardFile, KeyCode,
    KeyInput, LoadError, SaveError, TaskRecord, TaskStatus,
};
use serde_json::Value;

fn record(status: &str, title: &str, description: &str) -> TaskRecord {
    TaskRecord {
        status: status.to_string(),
        title: title.to_string(),
        description: description.to_string(),
    }
}

fn records_json(recs: &[TaskRecord]) -> Value {
    let mut items = Vec::new();
    for r in recs {
        let mut m = serde_json::Map::new();
        m.insert("status".to_string(), Value::String(r.status.clone()));
        m.insert("title".to_string(), Value::String(r.title.clone()));
        m.insert("description".to_string(), Value::String(r.description.clone()));
        items.push(Value::Object(m));
    }
    Value::Array(items)
}

fn file_json(f: &BoardFile) -> Value {
    let mut blocks = serde_json::Map::new();
    blocks.insert("todo".to_string(), records_json(&f.todo));
    blocks.insert("active".to_string(), records_json(&f.active));
    blocks.insert("completed".to_string(), records_json(&f.completed));
    let mut top = serde_json::Map::new();
    top.insert("board-name".to_string(), Value::String(f.board_name.clone()));
    top.insert("blocks".to_string(), Value::Object(blocks));
    Value::Object(top)
}

fn add_task(board: &mut Board, title: &str, description: &str) {
    board.process_input(KeyInput { code: KeyCode::Char('c'), plain: true }, false);
    for c in title.chars() {
        board.type_char(c);
    }
    board.confirm();
    for c in description.chars() {
        board.type_char(c);
    }
    board.confirm();
}

#[test]
fn empty_board_saves_as_empty_blocks() {
    let b = Board::default("sprint1".to_string(), 128, 36);
    assert_eq!(b.save_path(), "sprint1.json");
    let f = b.save_file();
    let expected: Value = serde_json::from_str(
        r#"{"board-name":"sprint1","blocks":{"todo":[],"active":[],"completed":[]}}"#,
    )
    .unwrap();
    assert_eq!(file_json(&f), expected);
}

#[test]
fn unknown_status_is_a_schema_error() {
    let mut b = Board::default("NONE".to_string(), 128, 36);
    let f = BoardFile {
        board_name: "x".to_string(),
        todo: vec![record("Todo", "a", "b")],
        active: vec![record("Blocked", "c", "d")],
        completed: vec![],
    };
    assert_eq!(b.load(&f), Err(LoadError::SchemaInvalid));
    assert_eq!(b.board_name, "NONE");
    assert_eq!(b.block_list[0].task_list.len(), 0);
    assert!(b.is_modified);
}

#[test]
fn save_then_load_gives_same_tasks() {
    let mut b = Board::default("plan".to_string(), 128, 36);
    add_task(&mut b, "one", "first");
    add_task(&mut b, "two", "second");
    b.move_right();
    add_task(&mut b, "three", "third");
    b.move_right();
    add_task(&mut b, "four", "");
    let f = b.save_file();
    assert_eq!(f.todo[0].status, "Todo");
    assert_eq!(f.active[0].status, "Active");
    assert_eq!(f.completed[0].status, "Completed");

    let mut c = Board::default("NONE".to_string(), 128, 36);
    assert_eq!(c.load(&f), Ok(()));
    assert!(!c.is_modified);
    assert_eq!(c.board_name, "plan");
    for i in 0..3 {
        let (a, d) = (&b.block_list[i].task_list, &c.block_list[i].task_list);
        assert_eq!(a.len(), d.len());
        for j in 0..a.len() {
            assert_eq!(a[j].status, d[j].status);
            assert_eq!(a[j].title, d[j].title);
            assert_eq!(a[j].description, d[j].description);
        }
    }
    assert_eq!(c.block_list[0].task_list[1].title, "two");
}

#[test]
fn status_words() {
    assert_eq!(status_name(TaskStatus::Todo), "Todo");
    assert_eq!(status_name(TaskStatus::Active), "Active");
    assert_eq!(status_name(TaskStatus::Completed), "Completed");
    assert_eq!(parse_status(&"Active".to_string()), Some(TaskStatus::Active));
    assert_eq!(parse_status(&"active".to_string()), None);
    assert_eq!(parse_status(&"".to_string()), None);
}

#[test]
fn record_decoding() {
    let t = task_from_record(&record("Completed", "t", "d")).unwrap();
    assert_eq!(t.status, TaskStatus::Completed);
    assert_eq!(t.title, "t");
    assert!(task_from_record(&record("Pending", "t", "d")).is_err());
    let ok = tasks_from_records(&vec![record("Todo", "a", ""), record("Active", "b", "")]).unwrap();
    assert_eq!(ok.len(), 2);
    assert_eq!(ok[1].status, TaskStatus::Active);
    assert!(tasks_from_records(&vec![record("Todo", "a", ""), record("?", "b", "")]).is_err());
}

#[test]
fn save_outcome_updates_modified_flag() {
    let mut b = Board::default("NONE".to_string(), 128, 36);
    b.finish_save(Err(SaveError::WriteFailed));
    assert!(b.is_modified);
    assert_eq!(b.notice, "board could not be saved");
    b.finish_save(Ok(()));
    assert!(!b.is_modified);
    assert_eq!(b.notice, "");
}

#[test]
fn load_error_is_reported() {
    let mut b = Board::default("NONE".to_string(), 128, 36);
    b.report_load_error(LoadError::Missing);
    assert_eq!(b.notice, "board file not found");
}

#[test]
fn load_returns_to_command_mode() {
    let mut b = Board::default("NONE".to_string(), 128, 36);
    b.process_input(KeyInput { code: KeyCode::Char('c'), plain: true }, false);
    b.type_char('x');
    let bad = BoardFile {
        board_name: "x".to_string(),
        todo: vec![record("Later", "a", "b")],
        active: vec![],
        completed: vec![],
    };
    assert_eq!(b.load(&bad), Err(LoadError::SchemaInvalid));
    assert_eq!(b.input_state, kanban::InputMode::Command);
    assert_eq!(b.writing_string, "");
    assert_eq!(b.block_list[0].task_list.len(), 0);
}
