use vimrs::buffer::Buffer;
use vimrs::editor::{Action, Cursor, Editor, Event, KeyCode, KeyEvent, Mode};

fn press(code: KeyCode) -> Event {
    Event::Key(KeyEvent { code, control_only: false, press: true })
}

fn ctrl(c: char) -> Event {
    Event::Key(KeyEvent { code: KeyCode::Char(c), control_only: true, press: true })
}

fn editor(text: &str, cols: u16, rows: u16) -> Editor {
    Editor::new(Buffer::from_text("f", text), (cols, rows))
}

fn at(e: &Editor) -> (usize, usize, usize) {
    (e.cursor.vtop, e.cursor.cy, e.cursor.cx)
}

#[test]
fn move_down_clamps_column() {
    let mut e = editor("abc\nde", 80, 24);
    assert!(e.step(press(KeyCode::End)));
    assert_eq!(e.cursor.cx, 3);
    assert!(e.step(press(KeyCode::Down)));
    assert_eq!(e.cursor.cy, 1);
    assert_eq!(e.cursor.cx, 2);
    assert_eq!(e.cursor.cx_history, 3);
}

#[test]
fn down_then_up_restores_column() {
    let mut e = editor("abcd\nabcdef\nxy", 80, 24);
    e.step(press(KeyCode::Right));
    e.step(press(KeyCode::Right));
    assert_eq!(at(&e), (0, 0, 2));
    e.step(press(KeyCode::Down));
    assert_eq!(at(&e), (0, 1, 2));
    e.step(press(KeyCode::Up));
    assert_eq!(at(&e), (0, 0, 2));
}

#[test]
fn remembered_column_comes_back_after_short_line() {
    let mut e = editor("abcdef\nab\nabcdef", 80, 24);
    for _ in 0..5 {
        e.step(press(KeyCode::Right));
    }
    e.step(press(KeyCode::Down));
    assert_eq!(e.cursor.cx, 2);
    e.step(press(KeyCode::Down));
    assert_eq!(e.cursor.cx, 5);
}

#[test]
fn new_line_splits_line() {
    let mut e = editor("abcdef", 80, 24);
    e.step(press(KeyCode::Char('i')));
    assert_eq!(e.mode, Mode::Insert);
    e.step(press(KeyCode::Right));
    e.step(press(KeyCode::Right));
    assert!(e.step(press(KeyCode::Enter)));
    assert_eq!(e.buffer.lines(), vec!["ab".to_string(), "cdef".to_string()]);
    assert_eq!(at(&e), (0, 1, 0));
}

#[test]
fn insert_mode_typing_keeps_column() {
    let mut e = editor("xy", 80, 24);
    e.step(press(KeyCode::Char('i')));
    e.step(press(KeyCode::Char('a')));
    e.step(press(KeyCode::Char('b')));
    assert_eq!(e.buffer.get(0), Some("baxy".to_string()));
    assert_eq!(e.cursor.cx, 0);
    assert!(e.buffer.dirty);
    e.step(press(KeyCode::Esc));
    assert_eq!(e.mode, Mode::Normal);
}

#[test]
fn backspace_and_delete() {
    let mut e = editor("abcd", 80, 24);
    e.step(press(KeyCode::Char('i')));
    e.step(press(KeyCode::Right));
    e.step(press(KeyCode::Right));
    e.step(press(KeyCode::Backspace));
    assert_eq!(e.buffer.get(0), Some("acd".to_string()));
    assert_eq!(e.cursor.cx, 1);
    e.step(press(KeyCode::Delete));
    assert_eq!(e.buffer.get(0), Some("ad".to_string()));
    e.step(press(KeyCode::Home));
    e.step(press(KeyCode::Backspace));
    assert_eq!(e.buffer.get(0), Some("ad".to_string()));
}

#[test]
fn normal_x_deletes_at_cursor() {
    let mut e = editor("abc\nd", 80, 24);
    e.step(press(KeyCode::Char('x')));
    assert_eq!(e.buffer.get(0), Some("bc".to_string()));
    assert_eq!(e.buffer.len(), 2);
    assert_eq!(at(&e), (0, 1, 0));
}

#[test]
fn boundary_pass_twice_is_once() {
    let mut e = editor("abcdefgh
x
y
z", 5, 4);
    e.cursor = Cursor { vtop: 3, vleft: 0, cx: 7, cy: 6, cx_history: 7 };
    e.assert_cursor_boundaries();
    let once = e.cursor;
    e.assert_cursor_boundaries();
    assert_eq!(e.cursor, once);
    assert!(once.vtop + once.cy < e.buffer.len());
}

#[test]
fn move_left_wraps_to_previous_line_end() {
    let mut e = editor("abc\nde", 80, 24);
    e.step(press(KeyCode::Down));
    assert_eq!(at(&e), (0, 1, 0));
    e.step(press(KeyCode::Left));
    assert_eq!(at(&e), (0, 0, 3));
    e.step(press(KeyCode::Left));
    assert_eq!(at(&e), (0, 0, 2));
}

#[test]
fn move_right_past_end_goes_to_next_row() {
    let mut e = editor("ab\ncd\nef", 80, 24);
    e.step(press(KeyCode::Char(';')));
    e.step(press(KeyCode::Char(';')));
    assert_eq!(at(&e), (0, 0, 2));
    e.step(press(KeyCode::Char(';')));
    assert_eq!(at(&e), (0, 1, 0));
    assert_eq!(e.cursor.cx_history, 0);
}

#[test]
fn scrolls_one_line_past_bottom_row() {
    let text = "0\n1\n2\n3\n4\n5\n6\n7\n8\n9";
    let mut e = editor(text, 80, 5);
    assert_eq!(e.vheight(), 3);
    for _ in 0..3 {
        e.step(press(KeyCode::Down));
    }
    assert_eq!(at(&e), (1, 2, 0));
    e.step(press(KeyCode::Down));
    assert_eq!(at(&e), (2, 2, 0));
}

#[test]
fn page_down_and_up() {
    let text = "0\n1\n2\n3\n4\n5\n6\n7\n8\n9";
    let mut e = editor(text, 80, 5);
    e.step(press(KeyCode::PageDown));
    assert_eq!(e.cursor.vtop, 3);
    e.step(ctrl('f'));
    assert_eq!(e.cursor.vtop, 6);
    e.step(ctrl('f'));
    assert_eq!(e.cursor.vtop, 7);
    assert_eq!(e.cursor.cy, 2);
    e.step(ctrl('b'));
    assert_eq!(e.cursor.vtop, 4);
    e.step(press(KeyCode::PageUp));
    assert_eq!(e.cursor.vtop, 1);
    e.step(press(KeyCode::PageUp));
    assert_eq!(at(&e), (0, 0, 0));
}

#[test]
fn viewport_bound_after_many_actions() {
    let mut e = editor("alpha\nbe\n\ngamma delta\nz", 6, 4);
    let keys = [
        KeyCode::Down, KeyCode::Down, KeyCode::Down, KeyCode::Down, KeyCode::Down,
        KeyCode::End, KeyCode::Right, KeyCode::Right, KeyCode::PageDown, KeyCode::Down,
        KeyCode::Char('x'), KeyCode::Char('x'), KeyCode::Up, KeyCode::Left, KeyCode::Left,
        KeyCode::PageUp, KeyCode::Up, KeyCode::Char('x'), KeyCode::Down, KeyCode::PageDown,
    ];
    for k in keys {
        e.step(press(k));
        let n = e.buffer.len();
        assert!(e.cursor.vtop + e.cursor.cy < n);
        assert!(e.cursor.cy < e.vheight());
        assert!(e.cursor.cx <= e.vwidth());
    }
}

#[test]
fn short_document_in_tall_window() {
    let mut e = editor("one\ntwo", 80, 30);
    for _ in 0..5 {
        e.step(press(KeyCode::Down));
    }
    assert_eq!(at(&e), (0, 1, 0));
    e.step(press(KeyCode::PageDown));
    assert_eq!(e.cursor.vtop, 0);
    assert_eq!(e.cursor.cy, 1);
}

#[test]
fn boundary_pass_leaves_settled_cursor() {
    let mut e = editor("abc\nde", 80, 24);
    e.cursor = Cursor { vtop: 0, vleft: 0, cx: 2, cy: 1, cx_history: 3 };
    e.assert_cursor_boundaries();
    assert_eq!(e.cursor, Cursor { vtop: 0, vleft: 0, cx: 2, cy: 1, cx_history: 3 });
}

#[test]
fn boundary_pass_pulls_viewport_back() {
    let mut e = editor("0\n1\n2\n3\n4\n5", 80, 5);
    e.cursor = Cursor { vtop: 5, vleft: 0, cx: 0, cy: 4, cx_history: 0 };
    e.assert_cursor_boundaries();
    assert_eq!(at(&e), (3, 2, 0));
}

#[test]
fn column_past_width_resets() {
    let mut e = editor("abcdefgh\nx", 4, 24);
    e.step(press(KeyCode::End));
    assert_eq!(at(&e), (0, 1, 0));
    assert_eq!(e.cursor.cx_history, 0);
}

#[test]
fn resize_updates_size() {
    let mut e = editor("a", 80, 24);
    assert!(e.step(Event::Resize(100, 40)));
    assert_eq!(e.size, (100, 40));
    assert_eq!(e.vheight(), 38);
    assert_eq!(e.vwidth(), 100);
}

#[test]
fn quit_only_in_normal_mode() {
    let mut e = editor("a", 80, 24);
    e.step(press(KeyCode::Char('i')));
    assert!(e.step(press(KeyCode::Char('q'))));
    assert_eq!(e.buffer.get(0), Some("qa".to_string()));
    e.step(press(KeyCode::Esc));
    assert!(!e.step(press(KeyCode::Char('q'))));
}

#[test]
fn normal_bindings() {
    let e = editor("a", 80, 24);
    assert_eq!(e.handle_normal_event(press(KeyCode::Char('k'))), Some(Action::MoveUp));
    assert_eq!(e.handle_normal_event(press(KeyCode::Char('l'))), Some(Action::MoveDown));
    assert_eq!(e.handle_normal_event(press(KeyCode::Char('j'))), Some(Action::MoveLeft));
    assert_eq!(e.handle_normal_event(press(KeyCode::Char('$'))), Some(Action::EndOfLine));
    assert_eq!(e.handle_normal_event(press(KeyCode::Char('0'))), Some(Action::StartOfLine));
    assert_eq!(e.handle_normal_event(ctrl('f')), Some(Action::PageDown));
    assert_eq!(e.handle_normal_event(press(KeyCode::Char('f'))), None);
    assert_eq!(e.handle_normal_event(press(KeyCode::Char('z'))), None);
    assert_eq!(e.handle_normal_event(press(KeyCode::Enter)), None);
    let release = Event::Key(KeyEvent { code: KeyCode::Char('q'), control_only: false, press: false });
    assert_eq!(e.handle_normal_event(release), None);
    assert_eq!(e.handle_normal_event(Event::Other), None);
}

#[test]
fn insert_bindings() {
    let e = editor("a", 80, 24);
    assert_eq!(e.handle_insert_event(press(KeyCode::Char('k'))), Some(Action::InsertChar('k')));
    assert_eq!(e.handle_insert_event(press(KeyCode::Enter)), Some(Action::NewLine));
    assert_eq!(e.handle_insert_event(press(KeyCode::Backspace)), Some(Action::DelCharBefore));
    assert_eq!(e.handle_insert_event(press(KeyCode::Delete)), Some(Action::DelCharAtCursor));
    assert_eq!(e.handle_insert_event(press(KeyCode::Esc)), Some(Action::EnterMode(Mode::Normal)));
    assert_eq!(e.handle_insert_event(press(KeyCode::Other)), None);
}

#[test]
fn viewport_line_reads_rows() {
    let mut e = editor("0\n1\n2\n3", 80, 4);
    e.cursor.vtop = 2;
    assert_eq!(e.viewport_line(0), Some("2".to_string()));
    assert_eq!(e.viewport_line(1), Some("3".to_string()));
    assert_eq!(e.viewport_line(2), None);
    assert_eq!(e.buffer_line(), 2);
}
