use kanban::{Action, Board, InputMode, KeyCode, KeyInput, TaskStatus, WritingTaskType};

fn key(code: KeyCode) -> KeyInput {
    KeyInput { code, plain: true }
}

fn press(board: &mut Board, code: KeyCode) -> Action {
    board.process_input(key(code), false)
}

fn type_text(board: &mut Board, text: &str) {
    for c in text.chars() {
        board.process_input(KeyInput { code: KeyCode::Char(c), plain: false }, false);
    }
}

fn add_task(board: &mut Board, title: &str, description: &str) {
    press(board, KeyCode::Char('c'));
    type_text(board, title);
    press(board, KeyCode::Enter);
    type_text(board, description);
    press(board, KeyCode::Enter);
}

fn fresh() -> Board {
    Board::default("NONE".to_string(), 128, 36)
}

#[test]
fn buy_milk_created_then_shifted_right() {
    let mut b = fresh();
    add_task(&mut b, "Buy milk", "2%, organic");
    assert_eq!(b.block_list[0].task_list.len(), 1);
    let t = &b.block_list[0].task_list[0];
    assert_eq!(t.status, TaskStatus::Todo);
    assert_eq!(t.title, "Buy milk");
    assert_eq!(t.description, "2%, organic");
    assert!(b.is_modified);
    assert_eq!(b.input_state, InputMode::Command);

    press(&mut b, KeyCode::Char('>'));
    assert_eq!(b.block_list[0].task_list.len(), 0);
    assert_eq!(b.block_list[1].task_list.len(), 1);
    let t = &b.block_list[1].task_list[0];
    assert_eq!(t.status, TaskStatus::Active);
    assert_eq!(t.title, "Buy milk");
    assert_eq!(t.description, "2%, organic");
}

#[test]
fn created_task_goes_to_tail_with_column_status() {
    let mut b = fresh();
    press(&mut b, KeyCode::Right);
    press(&mut b, KeyCode::Right);
    add_task(&mut b, "first", "a");
    add_task(&mut b, "second", "b");
    let tasks = &b.block_list[2].task_list;
    assert_eq!(tasks.len(), 2);
    assert_eq!(tasks[1].title, "second");
    assert_eq!(tasks[1].status, TaskStatus::Completed);
    assert_eq!(b.block_list[0].task_list.len(), 0);
}

#[test]
fn column_index_never_leaves_range() {
    let mut b = fresh();
    for _ in 0..5 {
        press(&mut b, KeyCode::Left);
        assert_eq!(b.selector.block_ptr, 0);
    }
    for expected in [1u8, 2, 2, 2] {
        press(&mut b, KeyCode::Right);
        assert_eq!(b.selector.block_ptr, expected);
    }
    press(&mut b, KeyCode::Left);
    assert_eq!(b.selector.block_ptr, 1);
}

#[test]
fn task_index_clamps_at_both_ends() {
    let mut b = fresh();
    press(&mut b, KeyCode::Down);
    assert_eq!(b.selector.task_ptr, 0);
    add_task(&mut b, "a", "");
    add_task(&mut b, "b", "");
    add_task(&mut b, "c", "");
    for expected in [1usize, 2, 2, 2] {
        press(&mut b, KeyCode::Down);
        assert_eq!(b.selector.task_ptr, expected);
    }
    for expected in [1usize, 0, 0] {
        press(&mut b, KeyCode::Up);
        assert_eq!(b.selector.task_ptr, expected);
    }
}

#[test]
fn column_change_resets_task_index() {
    let mut b = fresh();
    add_task(&mut b, "a", "");
    add_task(&mut b, "b", "");
    press(&mut b, KeyCode::Down);
    assert_eq!(b.selector.task_ptr, 1);
    press(&mut b, KeyCode::Right);
    assert_eq!(b.selector.task_ptr, 0);
}

#[test]
fn delete_on_empty_column_changes_nothing() {
    let mut b = fresh();
    add_task(&mut b, "keep", "");
    press(&mut b, KeyCode::Right);
    b.is_modified = false;
    assert!(b.delete_task().is_none());
    press(&mut b, KeyCode::Char('d'));
    assert_eq!(b.block_list[0].task_list.len(), 1);
    assert_eq!(b.block_list[1].task_list.len(), 0);
    assert!(!b.is_modified);
}

#[test]
fn delete_returns_task_and_clamps_cursor() {
    let mut b = fresh();
    add_task(&mut b, "a", "");
    add_task(&mut b, "b", "");
    press(&mut b, KeyCode::Down);
    let removed = b.delete_task().expect("a task");
    assert_eq!(removed.title, "b");
    assert_eq!(b.selector.task_ptr, 0);
    assert_eq!(b.block_list[0].task_list.len(), 1);
    assert!(b.is_modified);
}

#[test]
fn shifting_off_the_edges_is_a_no_op() {
    let mut b = fresh();
    add_task(&mut b, "a", "");
    b.is_modified = false;
    press(&mut b, KeyCode::Char('<'));
    assert_eq!(b.block_list[0].task_list.len(), 1);
    assert!(!b.is_modified);

    press(&mut b, KeyCode::Right);
    press(&mut b, KeyCode::Right);
    add_task(&mut b, "z", "");
    b.is_modified = false;
    press(&mut b, KeyCode::Char('>'));
    assert_eq!(b.block_list[2].task_list.len(), 1);
    assert_eq!(b.block_list[0].task_list.len(), 1);
    assert!(!b.is_modified);
}

#[test]
fn shifting_from_an_empty_column_is_a_no_op() {
    let mut b = fresh();
    b.is_modified = false;
    press(&mut b, KeyCode::Char('>'));
    assert!(!b.is_modified);
    assert_eq!(b.block_list[1].task_list.len(), 0);
}

#[test]
fn shift_left_takes_status_of_target() {
    let mut b = fresh();
    press(&mut b, KeyCode::Right);
    press(&mut b, KeyCode::Right);
    add_task(&mut b, "done", "x");
    press(&mut b, KeyCode::Char('<'));
    assert_eq!(b.block_list[2].task_list.len(), 0);
    assert_eq!(b.block_list[1].task_list[0].status, TaskStatus::Active);
    b.is_modified = false;
    press(&mut b, KeyCode::Char('>'));
    assert!(!b.is_modified);
}

#[test]
fn title_is_capped_at_fifteen() {
    let mut b = fresh();
    press(&mut b, KeyCode::Char('c'));
    type_text(&mut b, "abcdefghijklmnopqrstuvwxyz");
    assert_eq!(b.writing_string, "abcdefghijklmno");
    press(&mut b, KeyCode::Backspace);
    assert_eq!(b.writing_string, "abcdefghijklmn");
    type_text(&mut b, "XYZ");
    assert_eq!(b.writing_string, "abcdefghijklmnX");
}

#[test]
fn description_is_capped_at_two_hundred_fifty() {
    let mut b = fresh();
    press(&mut b, KeyCode::Char('c'));
    press(&mut b, KeyCode::Enter);
    assert_eq!(b.writing_count, WritingTaskType::WritingDescription);
    let long: String = std::iter::repeat('d').take(300).collect();
    type_text(&mut b, &long);
    assert_eq!(b.writing_string.chars().count(), 250);
    press(&mut b, KeyCode::Enter);
    assert_eq!(b.block_list[0].task_list[0].description.chars().count(), 250);
    assert_eq!(b.block_list[0].task_list[0].title, "");
}

#[test]
fn command_keys_are_ignored_while_writing() {
    let mut b = fresh();
    press(&mut b, KeyCode::Char('c'));
    press(&mut b, KeyCode::Right);
    assert_eq!(press(&mut b, KeyCode::Char('q')), Action::Nothing);
    assert!(!b.quit);
    assert_eq!(b.selector.block_ptr, 0);
    assert_eq!(b.writing_string, "q");
}

#[test]
fn backspace_on_empty_buffer_keeps_it_empty() {
    let mut b = fresh();
    press(&mut b, KeyCode::Char('c'));
    press(&mut b, KeyCode::Backspace);
    assert_eq!(b.writing_string, "");
}

#[test]
fn quit_key_asks_to_quit() {
    let mut b = fresh();
    assert_eq!(press(&mut b, KeyCode::Char('q')), Action::Quit);
    assert!(b.quit);
}

#[test]
fn quit_with_modifier_is_ignored() {
    let mut b = fresh();
    let r = b.process_input(KeyInput { code: KeyCode::Char('q'), plain: false }, false);
    assert_eq!(r, Action::Nothing);
    assert!(!b.quit);
}

#[test]
fn enter_toggles_detail() {
    let mut b = fresh();
    press(&mut b, KeyCode::Enter);
    assert!(b.showing_task);
    press(&mut b, KeyCode::Enter);
    assert!(!b.showing_task);
}

#[test]
fn save_without_file_asks_for_name() {
    let mut b = fresh();
    assert_eq!(press(&mut b, KeyCode::Char('s')), Action::Nothing);
    assert_eq!(b.input_state, InputMode::WritingBoard);
    type_text(&mut b, "sprint1");
    assert_eq!(press(&mut b, KeyCode::Enter), Action::Save);
    assert_eq!(b.board_name, "sprint1");
    assert_eq!(b.input_state, InputMode::Command);
    assert_eq!(b.save_path(), "sprint1.json");
}

#[test]
fn save_with_existing_file_saves_at_once() {
    let mut b = fresh();
    let r = b.process_input(key(KeyCode::Char('s')), true);
    assert_eq!(r, Action::Save);
    assert_eq!(b.input_state, InputMode::Command);
}

#[test]
fn create_and_remove_directly() {
    let mut b = fresh();
    b.move_right();
    b.tmp_task.title = "t".to_string();
    b.tmp_task.description = "d".to_string();
    b.tmp_task.status = TaskStatus::Completed;
    b.create_task();
    assert_eq!(b.block_list[1].task_list.len(), 1);
    assert_eq!(b.block_list[1].task_list[0].status, TaskStatus::Active);
    assert_eq!(b.block_list[1].task_list[0].title, "t");
    let t = b.remove_task().expect("a task");
    assert_eq!(t.description, "d");
    assert!(b.remove_task().is_none());
    assert_eq!(b.selector.task_ptr, 0);
}
