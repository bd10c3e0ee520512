use native::editor::{draw_editor_frame, draw_editor_line, EditOutcome, LineEditor};
use native::keys::Key;
use native::screen::ScreenBuffer;

fn text(e: &LineEditor) -> String {
    e.input.iter().collect()
}

#[test]
fn editor_starts_at_end() {
    let e = LineEditor::new("abc");
    assert_eq!(text(&e), "abc");
    assert_eq!(e.cursor, 3);
}

#[test]
fn editor_moves_and_edits() {
    let mut e = LineEditor::new("abc");
    assert!(matches!(e.handle_key(Key::Left), EditOutcome::Continue));
    assert_eq!(e.cursor, 2);
    e.handle_key(Key::Char('X'));
    assert_eq!(text(&e), "abXc");
    assert_eq!(e.cursor, 3);
    e.handle_key(Key::Home);
    assert_eq!(e.cursor, 0);
    e.handle_key(Key::Left);
    assert_eq!(e.cursor, 0);
    e.handle_key(Key::Delete);
    assert_eq!(text(&e), "bXc");
    e.handle_key(Key::Backspace);
    assert_eq!(text(&e), "bXc");
    e.handle_key(Key::End);
    assert_eq!(e.cursor, 3);
    e.handle_key(Key::Right);
    assert_eq!(e.cursor, 3);
    e.handle_key(Key::Backspace);
    assert_eq!(text(&e), "bX");
    e.handle_key(Key::Delete);
    assert_eq!(text(&e), "bX");
    e.handle_key(Key::F(3));
    assert_eq!(text(&e), "bX");
}

#[test]
fn editor_insert_then_backspace_restores() {
    let mut e = LineEditor::new("hello");
    e.handle_key(Key::Left);
    e.handle_key(Key::Left);
    e.handle_key(Key::Char('Z'));
    e.handle_key(Key::Backspace);
    assert_eq!(text(&e), "hello");
    assert_eq!(e.cursor, 3);
}

#[test]
fn editor_enter_and_esc() {
    let mut e = LineEditor::new("value");
    match e.handle_key(Key::Enter) {
        EditOutcome::Submit(s) => assert_eq!(s, "value"),
        _ => panic!("expected submit"),
    }
    assert!(matches!(e.handle_key(Key::Esc), EditOutcome::Cancel));
}

#[test]
fn editor_line_and_cursor_column() {
    let mut e = LineEditor::new("ab");
    e.handle_key(Key::Left);
    let line: String = e.line("> ").iter().collect();
    assert_eq!(line, "> ab");
    assert_eq!(e.cursor_column("> "), 3);
    assert_eq!(e.cursor_column("é "), 4);
}

#[test]
fn editor_frame_rows() {
    let mut b = ScreenBuffer::new(6, 8);
    b.set_line(0, "keep");
    draw_editor_frame(&mut b, 1, "desc");
    let e = LineEditor::new("xy");
    draw_editor_line(&mut b, 1, "> ", &e);
    let rows: Vec<String> = (0..8).map(|y| b.row(y).iter().collect()).collect();
    assert_eq!(rows, vec!["keep  ", "      ", "------", "desc  ", "> xy  ", "------", "      ", "      "]);
}
