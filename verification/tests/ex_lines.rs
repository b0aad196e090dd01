use rvi::buffer::Cursor;
use rvi::command::SubstituteRange;
use rvi::editor::Editor;
use rvi::registers::{ContentType, RegisterContent, RegisterId};

fn lines(e: &Editor) -> Vec<String> {
    e.document.buffer.lines().to_vec()
}

fn status(e: &Editor) -> Option<String> {
    e.state.status_message.as_ref().map(|m| m.as_str_formatted())
}

fn reg(e: &Editor, id: Option<RegisterId>) -> Option<(String, ContentType)> {
    e.state.registers.get(id).map(|c| (c.text().to_string(), c.content_type()))
}

#[test]
fn resolve_range_checks_last_row() {
    let mut e = Editor::for_testing("a\nb\nc");
    assert_eq!(e.resolve_line_range(SubstituteRange::Range { start: 0, end: 2 }), Some((0, 2)));
    assert_eq!(e.resolve_line_range(SubstituteRange::WholeFile), Some((0, 2)));
    e.document.cursor = Cursor::new(1, 0);
    assert_eq!(e.resolve_line_range(SubstituteRange::CurrentLine), Some((1, 1)));
    assert_eq!(e.resolve_line_range(SubstituteRange::Line(3)), None);
    assert_eq!(status(&e), Some("Invalid range".to_string()));
}

#[test]
fn ex_delete_lines() {
    let mut e = Editor::for_testing("a\nb\nc\nd");
    e.execute_delete_lines(SubstituteRange::Range { start: 1, end: 2 }, None);
    assert_eq!(lines(&e), vec!["a", "d"]);
    assert_eq!(e.document.cursor, Cursor::new(1, 0));
    assert!(e.document.modified);
    assert_eq!(reg(&e, Some(RegisterId::Numbered(1))), Some(("b\nc\n".to_string(), ContentType::Linewise)));
    assert!(e.state.undo_history.can_undo());
}

#[test]
fn ex_delete_reversed_range_does_nothing() {
    let mut e = Editor::for_testing("a\nb\nc");
    e.execute_delete_lines(SubstituteRange::Range { start: 2, end: 1 }, None);
    assert_eq!(lines(&e), vec!["a", "b", "c"]);
    assert!(!e.document.modified);
}

#[test]
fn ex_yank_then_put() {
    let mut e = Editor::for_testing("a\nb\nc");
    e.execute_yank_lines(SubstituteRange::Range { start: 0, end: 1 }, Some('a'));
    assert_eq!(reg(&e, Some(RegisterId::Named('a'))), Some(("a\nb\n".to_string(), ContentType::Linewise)));
    e.execute_put_lines(2, Some('a'));
    assert_eq!(lines(&e), vec!["a", "b", "c", "a", "b"]);
    assert_eq!(e.document.cursor, Cursor::new(3, 0));
    assert!(e.document.modified);
}

#[test]
fn ex_put_characterwise_text_as_lines() {
    let mut e = Editor::for_testing("x");
    e.state.registers.yank(None, RegisterContent::characterwise("  word".to_string()));
    e.execute_put_lines(0, None);
    assert_eq!(lines(&e), vec!["x", "  word"]);
    assert_eq!(e.document.cursor, Cursor::new(1, 2));
}

#[test]
fn ex_put_from_empty_register_does_nothing() {
    let mut e = Editor::for_testing("x");
    e.execute_put_lines(0, Some('z'));
    assert_eq!(lines(&e), vec!["x"]);
    assert!(!e.document.modified);
}

#[test]
fn ex_copy_lines_to_end() {
    let mut e = Editor::for_testing("a\nb\nc");
    e.execute_copy_lines(SubstituteRange::Line(0), 3);
    assert_eq!(lines(&e), vec!["a", "b", "c", "a"]);
    assert_eq!(e.document.cursor, Cursor::new(3, 0));
}

#[test]
fn ex_copy_past_end_is_refused() {
    let mut e = Editor::for_testing("a\nb");
    e.execute_copy_lines(SubstituteRange::Line(0), 5);
    assert_eq!(status(&e), Some("Invalid address".to_string()));
    assert_eq!(lines(&e), vec!["a", "b"]);
}

#[test]
fn ex_move_line_down() {
    let mut e = Editor::for_testing("a\nb\nc");
    e.execute_move_lines(SubstituteRange::Line(0), 3);
    assert_eq!(lines(&e), vec!["b", "c", "a"]);
    assert_eq!(e.document.cursor, Cursor::new(2, 0));
}

#[test]
fn ex_move_line_up() {
    let mut e = Editor::for_testing("a\nb\nc");
    e.execute_move_lines(SubstituteRange::Range { start: 1, end: 2 }, 0);
    assert_eq!(lines(&e), vec!["b", "c", "a"]);
    assert_eq!(e.document.cursor, Cursor::new(1, 0));
}

#[test]
fn ex_move_into_itself_is_refused() {
    let mut e = Editor::for_testing("a\nb\nc");
    e.execute_move_lines(SubstituteRange::Range { start: 0, end: 1 }, 1);
    assert_eq!(status(&e), Some("Invalid address".to_string()));
    assert_eq!(lines(&e), vec!["a", "b", "c"]);
}

#[test]
fn ex_join_range() {
    let mut e = Editor::for_testing("a  \n  b\nc\nd");
    e.execute_join_lines_range(SubstituteRange::Range { start: 0, end: 2 });
    assert_eq!(lines(&e), vec!["a b c", "d"]);
    assert_eq!(e.document.cursor, Cursor::new(0, 0));
    assert!(e.document.modified);
}

#[test]
fn ex_join_single_line_with_next() {
    let mut e = Editor::for_testing("x\n   \ny");
    e.execute_join_lines_range(SubstituteRange::Line(0));
    assert_eq!(lines(&e), vec!["x", "y"]);
    let mut e = Editor::for_testing("x");
    e.execute_join_lines_range(SubstituteRange::Line(0));
    assert_eq!(lines(&e), vec!["x"]);
    assert!(!e.document.modified);
}

#[test]
fn ex_print_numbered_and_list() {
    let mut e = Editor::for_testing("a\tb\nc");
    e.execute_print_numbered_lines(SubstituteRange::WholeFile);
    assert_eq!(status(&e), Some("     1\ta\tb\n     2\tc".to_string()));
    assert_eq!(e.document.cursor, Cursor::new(1, 0));
    e.execute_print_list_lines(SubstituteRange::Line(0));
    assert_eq!(status(&e), Some("a^Ib$".to_string()));
    assert_eq!(e.document.cursor, Cursor::new(0, 0));
    e.execute_print_lines(SubstituteRange::Line(1));
    assert_eq!(status(&e), Some("c".to_string()));
}

#[test]
fn insert_lines_at_clamps_row() {
    let mut e = Editor::for_testing("a\nb");
    e.insert_lines_at(9, vec!["x".to_string(), "y".to_string()]);
    assert_eq!(lines(&e), vec!["a", "b", "x", "y"]);
    assert_eq!(e.document.cursor, Cursor::new(3, 0));
    assert!(e.document.modified);
    assert!(e.state.status_message.is_none());
}

#[test]
fn insert_no_lines_only_clears_status() {
    let mut e = Editor::for_testing("a");
    e.state.status_message = Some(rvi::editor::StatusMessage::Info("hi".to_string()));
    e.insert_lines_at(0, Vec::new());
    assert!(e.state.status_message.is_none());
    assert!(!e.document.modified);
}
