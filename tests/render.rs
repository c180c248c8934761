use kanban::{
    blank_line, counter_text, decimal_text, wrap_text, Board, Color, DrawOp, KeyCode, KeyInput,
    TerminalW,
};

fn fresh() -> Board {
    Board::default("NONE".to_string(), 128, 38)
}

fn texts(ops: &[DrawOp]) -> Vec<String> {
    ops.iter()
        .filter_map(|op| match op {
            DrawOp::Text { text, .. } => Some(text.clone()),
            _ => None,
        })
        .collect()
}

fn add_task(board: &mut Board, title: &str, description: &str) {
    board.process_input(KeyInput { code: KeyCode::Char('c'), plain: true }, false);
    for c in title.chars() {
        board.type_char(c);
    }
    board.confirm();
    for c in description.chars() {
        board.type_char(c);
    }
    board.confirm();
}

#[test]
fn trim_cuts_long_text_with_dash() {
    let b = fresh();
    assert_eq!(b.trim_str("abcdef".to_string(), 3), "abc-");
    assert_eq!(b.trim_str("abc".to_string(), 3), "abc");
    assert_eq!(b.trim_str("".to_string(), 0), "");
    assert_eq!(b.trim_str("äöüß".to_string(), 2), "äö-");
}

#[test]
fn bottom_of_block_is_row_seven() {
    let b = fresh();
    assert!(!b.hit_block_bottom(6));
    assert!(b.hit_block_bottom(7));
}

#[test]
fn numbers_in_decimal() {
    assert_eq!(decimal_text(0), "0");
    assert_eq!(decimal_text(7), "7");
    assert_eq!(decimal_text(1204), "1204");
    assert_eq!(counter_text(3, 12), "3/12");
    assert_eq!(blank_line(4), "    ");
}

#[test]
fn wrapping_cuts_fixed_width_lines() {
    let lines = wrap_text(&"abcdefgh".to_string(), 3);
    assert_eq!(lines, vec!["abc".to_string(), "def".to_string(), "gh".to_string()]);
    assert!(wrap_text(&"".to_string(), 5).is_empty());
    assert_eq!(wrap_text(&"abcdef".to_string(), 3).len(), 2);
}

#[test]
fn rectangle_outline_and_fill() {
    let mut t = TerminalW::default(80, 26);
    assert_eq!(t.get_size().height, 24);
    t.draw_rect(1, 1, 4, 3, Color::Red, None);
    let ops = t.flush();
    assert_eq!(ops.len(), 12 + 4 * 2);
    assert_eq!(
        ops[1],
        DrawOp::Text { text: "\u{2501}".repeat(4), x: 2, y: 1, fg: Color::Red, bg: Color::Reset }
    );
    assert_eq!(
        ops[ops.len() - 1],
        DrawOp::Text { text: "\u{251B}".to_string(), x: 5, y: 4, fg: Color::Red, bg: Color::Reset }
    );
    assert!(t.flush().is_empty());

    t.draw_rect(0, 0, 5, 5, Color::White, Some(Color::Green));
    let ops = t.flush();
    assert_eq!(ops.len(), 12 + 4 * 4 + 2 * (2 * 2));
    assert_eq!(
        ops[ops.len() - 1],
        DrawOp::Glyph { chr: ' ', x: 3, y: 3, fg: Color::Green, bg: Color::Green }
    );
}

#[test]
fn board_frame_shows_name_columns_and_counters() {
    let mut b = fresh();
    add_task(&mut b, "Buy milk", "2%, organic");
    b.term.flush();
    b.draw_board();
    let ops = b.term.flush();
    let t = texts(&ops);
    assert_eq!(t[0], "NONE*");
    assert!(t.contains(&"To Do".to_string()));
    assert!(t.contains(&"Completed".to_string()));
    assert!(t.contains(&"1/1".to_string()));
    assert!(t.contains(&"0/0".to_string()));
    assert!(t.contains(&"Buy milk".to_string()));
    assert!(t.contains(&"2%, organic".to_string()));
    assert_eq!(ops.len(), 2 + 3 * 112 + 4);
}

#[test]
fn long_task_lines_are_trimmed() {
    let mut b = fresh();
    add_task(&mut b, "t", "abcdefghijklmnopqrstuvwxyz0123");
    b.term.flush();
    b.put_tasks();
    let t = texts(&b.term.flush());
    assert_eq!(t, vec!["t".to_string(), "abcdefghijklmnopqrstuvwx-".to_string()]);
}

#[test]
fn selected_column_scrolls_with_cursor() {
    let mut b = fresh();
    for i in 0..8 {
        add_task(&mut b, &format!("t{}", i), "");
    }
    b.move_down();
    b.move_down();
    b.term.flush();
    b.put_tasks();
    let t = texts(&b.term.flush());
    assert_eq!(t.len(), 12);
    assert_eq!(t[0], "t2");
    assert_eq!(t[10], "t7");
}

#[test]
fn detail_overlay_only_for_a_task() {
    let mut b = fresh();
    b.term.flush();
    b.show_task();
    assert!(b.term.flush().is_empty());

    let description: String = std::iter::repeat('x').take(50).collect();
    add_task(&mut b, "title", &description);
    b.term.flush();
    b.show_task();
    let ops = b.term.flush();
    assert_eq!(ops.len(), 1686 + 2 + 2 * 2);
    let t = texts(&ops);
    let n = t.len();
    assert_eq!(t[n - 3], "title");
    assert_eq!(t[n - 2].len(), 47);
    assert_eq!(t[n - 1], "xxx");
}

#[test]
fn status_bar_follows_mode() {
    let mut b = fresh();
    b.term.flush();
    b.update();
    let ops = b.term.flush();
    assert_eq!(ops[0], DrawOp::SetTitle("NONE".to_string()));
    assert!(texts(&ops)[1].starts_with("q - quit"));

    b.process_input(KeyInput { code: KeyCode::Char('c'), plain: true }, false);
    b.type_char('h');
    b.term.flush();
    b.update();
    let t = texts(&b.term.flush());
    assert_eq!(t[1], "Title:");
    assert_eq!(t[2], "h");

    b.confirm();
    b.term.flush();
    b.update();
    assert_eq!(texts(&b.term.flush())[1], "Description:");
}

#[test]
fn board_name_prompt_in_bar() {
    let mut b = fresh();
    b.process_input(KeyInput { code: KeyCode::Char('s'), plain: true }, false);
    b.type_char('x');
    b.term.flush();
    b.update();
    let t = texts(&b.term.flush());
    assert_eq!(t[0], "x");
    assert_eq!(t[2], "Board Name:");
}

#[test]
fn selector_cursor_sits_in_selected_column() {
    let mut b = fresh();
    b.move_right();
    b.term.flush();
    b.calc_selector_pos();
    assert_eq!(b.term.flush(), vec![DrawOp::MoveCursor { x: 51, y: 7 }]);
}

#[test]
fn rectangle_at_the_screen_edge() {
    let mut t = TerminalW::default(80, 26);
    t.draw_rect(65533, 65532, 2, 3, Color::Red, Some(Color::Green));
    let ops = t.flush();
    assert_eq!(ops.len(), 12 + 4 * 2);
    assert_eq!(
        ops[ops.len() - 1],
        DrawOp::Text {
            text: "\u{251B}".to_string(),
            x: 65535,
            y: 65535,
            fg: Color::Red,
            bg: Color::Reset
        }
    );
}

#[test]
fn rectangle_fill_covers_every_interior_cell_in_order() {
    let mut t = TerminalW::default(80, 26);
    t.draw_rect(10, 20, 6, 5, Color::White, Some(Color::Black));
    let ops = t.flush();
    let glyphs: Vec<(u16, u16)> = ops
        .iter()
        .filter_map(|op| match op {
            DrawOp::Glyph { x, y, .. } => Some((*x, *y)),
            _ => None,
        })
        .collect();
    assert_eq!(glyphs, vec![(12, 22), (12, 23), (13, 22), (13, 23), (14, 22), (14, 23)]);
}

#[test]
fn selected_counter_is_highlighted() {
    let mut b = fresh();
    b.term.flush();
    b.put_block();
    let ops = b.term.flush();
    let counters: Vec<(Color, Color)> = ops
        .iter()
        .filter_map(|op| match op {
            DrawOp::Text { text, fg, bg, .. } if text.contains('/') => Some((*fg, *bg)),
            _ => None,
        })
        .collect();
    assert_eq!(
        counters,
        vec![(Color::White, Color::Red), (Color::Red, Color::White), (Color::Red, Color::White)]
    );
}

#[test]
fn command_frame_has_notice_cursor_and_overlay_last() {
    let mut b = fresh();
    add_task(&mut b, "job", "do it");
    b.notice = "board could not be saved".to_string();
    b.toggle_detail();
    b.term.flush();
    b.update();
    let ops = b.term.flush();
    assert_eq!(
        ops[7],
        DrawOp::MoveCursor { x: 0, y: 34 }
    );
    assert_eq!(
        ops[8],
        DrawOp::Text {
            text: "board could not be saved".to_string(),
            x: 0,
            y: 34,
            fg: Color::Black,
            bg: Color::White
        }
    );
    assert_eq!(ops[9], DrawOp::MoveCursor { x: 19, y: 7 });
    assert_eq!(ops.len(), 10 + 1686 + 2 + 2);
    let t = texts(&ops);
    assert_eq!(t[t.len() - 1], "do it");
}

#[test]
fn writing_row_is_cleared_before_text() {
    let mut b = fresh();
    b.process_input(KeyInput { code: KeyCode::Char('c'), plain: true }, false);
    b.term.flush();
    b.update();
    let ops = b.term.flush();
    assert_eq!(ops[7], DrawOp::MoveCursor { x: 0, y: 34 });
    assert_eq!(ops[8], DrawOp::ClearCurrentLine);
    assert_eq!(ops.len(), 11);
}
