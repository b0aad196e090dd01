use rvi::buffer::Cursor;
use rvi::editor::Editor;
use rvi::registers::{ContentType, RegisterContent, RegisterId};
use rvi::terminal::Key;

fn lines(e: &Editor) -> Vec<String> {
    e.document.buffer.lines().to_vec()
}

fn reg(e: &Editor, id: Option<RegisterId>) -> Option<(String, ContentType)> {
    e.state.registers.get(id).map(|c| (c.text().to_string(), c.content_type()))
}

#[test]
fn yank_lines_fills_unnamed_and_yank_registers() {
    let mut e = Editor::for_testing("a\nb\nc\n");
    e.yank_lines(2, None).unwrap();
    assert_eq!(reg(&e, None), Some(("a\nb\n".to_string(), ContentType::Linewise)));
    assert_eq!(reg(&e, Some(RegisterId::Yank)), Some(("a\nb\n".to_string(), ContentType::Linewise)));
    assert_eq!(lines(&e), vec!["a", "b", "c"]);
    assert!(e.state.status_message.is_none());
}

#[test]
fn yank_lines_stops_at_end_and_reports_many() {
    let mut e = Editor::for_testing("1\n2\n3\n4\n5\n6\n7");
    e.document.cursor = Cursor::new(1, 0);
    e.yank_lines(10, Some('a')).unwrap();
    assert_eq!(reg(&e, Some(RegisterId::Named('a'))), Some(("2\n3\n4\n5\n6\n7\n".to_string(), ContentType::Linewise)));
    assert_eq!(e.state.status_message.as_ref().unwrap().as_str_formatted(), "6 lines yanked");
}

#[test]
fn delete_lines_moves_cursor_to_first_non_blank() {
    let mut e = Editor::for_testing("x\n  a\n  b\nc");
    e.document.cursor = Cursor::new(0, 0);
    e.delete_lines_with_register(1, None).unwrap();
    assert_eq!(lines(&e), vec!["  a", "  b", "c"]);
    assert_eq!(e.document.cursor, Cursor::new(0, 2));
    assert!(e.document.modified);
    assert_eq!(reg(&e, Some(RegisterId::Numbered(1))), Some(("x\n".to_string(), ContentType::Linewise)));
}

#[test]
fn delete_last_lines_moves_cursor_up() {
    let mut e = Editor::for_testing("a\nb\nc");
    e.document.cursor = Cursor::new(1, 0);
    e.delete_lines_with_register(5, None).unwrap();
    assert_eq!(lines(&e), vec!["a"]);
    assert_eq!(e.document.cursor, Cursor::new(0, 0));
    assert_eq!(reg(&e, None), Some(("b\nc\n".to_string(), ContentType::Linewise)));
}

#[test]
fn delete_every_line_leaves_one_empty_line() {
    let mut e = Editor::for_testing("a\nb");
    e.delete_lines_with_register(2, Some('_')).unwrap();
    assert_eq!(lines(&e), vec![""]);
    assert_eq!(reg(&e, None), None);
}

#[test]
fn yank_then_put_after_duplicates_lines() {
    let mut e = Editor::for_testing("one\ntwo\nthree");
    e.yank_lines(2, None).unwrap();
    e.put_after(None).unwrap();
    assert_eq!(lines(&e), vec!["one", "one", "two", "two", "three"]);
    assert_eq!(e.document.cursor, Cursor::new(1, 0));
    assert!(e.document.modified);
}

#[test]
fn delete_then_put_before_restores() {
    let mut e = Editor::for_testing("one\ntwo\nthree\nfour");
    e.document.cursor = Cursor::new(1, 0);
    e.delete_lines_with_register(2, None).unwrap();
    assert_eq!(lines(&e), vec!["one", "four"]);
    e.put_before(None).unwrap();
    assert_eq!(lines(&e), vec!["one", "two", "three", "four"]);
    assert_eq!(e.document.cursor.row, 1);
}

#[test]
fn put_charwise_after_and_before() {
    let mut e = Editor::for_testing("abc");
    e.state.registers.yank(Some(RegisterId::Named('x')), RegisterContent::characterwise("xy".to_string()));
    e.put_after(Some('x')).unwrap();
    assert_eq!(lines(&e), vec!["axybc"]);
    assert_eq!(e.document.cursor, Cursor::new(0, 2));

    let mut e = Editor::for_testing("abc");
    e.document.cursor = Cursor::new(0, 1);
    e.state.registers.yank(Some(RegisterId::Named('x')), RegisterContent::characterwise("xy".to_string()));
    e.put_before(Some('x')).unwrap();
    assert_eq!(lines(&e), vec!["axybc"]);
    assert_eq!(e.document.cursor, Cursor::new(0, 2));
}

#[test]
fn put_charwise_with_line_break() {
    let mut e = Editor::for_testing("abc");
    e.state.registers.yank(None, RegisterContent::characterwise("1\n2".to_string()));
    e.put_after(None).unwrap();
    assert_eq!(lines(&e), vec!["a1", "2bc"]);
    assert_eq!(e.document.cursor, Cursor::new(1, 0));
}

#[test]
fn put_charwise_ending_in_line_break_lands_on_line_above() {
    let mut e = Editor::for_testing("ab");
    e.state.registers.yank(None, RegisterContent::characterwise("xy\n".to_string()));
    e.put_before(None).unwrap();
    assert_eq!(lines(&e), vec!["xy", "ab"]);
    assert_eq!(e.document.cursor, Cursor::new(0, 1));
}

#[test]
fn put_from_empty_register_does_nothing() {
    let mut e = Editor::for_testing("abc");
    e.put_after(Some('q')).unwrap();
    assert_eq!(lines(&e), vec!["abc"]);
    assert!(!e.document.modified);
}

#[test]
fn put_block_inserts_columns() {
    let mut e = Editor::for_testing("abc\ndef");
    e.document.cursor = Cursor::new(0, 1);
    e.state.registers.yank(None, RegisterContent::new("xy\nzw".to_string(), ContentType::Blockwise));
    e.put_after(None).unwrap();
    assert_eq!(lines(&e), vec!["abyxc", "dewzf"]);
    assert_eq!(e.document.cursor, Cursor::new(0, 1));
    assert!(e.document.modified);
}

#[test]
fn put_block_before_pads_missing_rows() {
    let mut e = Editor::for_testing("abc");
    e.document.cursor = Cursor::new(0, 1);
    e.state.registers.yank(None, RegisterContent::new("p\nq\n".to_string(), ContentType::Blockwise));
    e.put_before(None).unwrap();
    assert_eq!(lines(&e), vec!["apbc", "q"]);
}

#[test]
fn put_block_before_at_non_boundary_is_refused() {
    let mut e = Editor::for_testing("ab\n\u{e9}x");
    e.document.cursor = Cursor::new(0, 1);
    e.state.registers.yank(None, RegisterContent::new("p\nq".to_string(), ContentType::Blockwise));
    assert!(e.put_before(None).is_err());
    assert_eq!(lines(&e), vec!["apb", "\u{e9}x"]);
    assert!(!e.document.modified);
}

#[test]
fn delete_to_end_of_line_goes_to_small_delete_register() {
    let mut e = Editor::for_testing("hello world");
    e.document.cursor = Cursor::new(0, 5);
    e.delete_to_end_of_line(None).unwrap();
    assert_eq!(lines(&e), vec!["hello"]);
    assert_eq!(e.document.cursor, Cursor::new(0, 4));
    assert_eq!(reg(&e, Some(RegisterId::SmallDelete)), Some((" world".to_string(), ContentType::Characterwise)));
    assert!(e.state.undo_history.can_undo());
}

#[test]
fn delete_to_end_of_line_at_end_does_nothing() {
    let mut e = Editor::for_testing("abc");
    e.document.cursor = Cursor::new(0, 3);
    e.delete_to_end_of_line(None).unwrap();
    assert_eq!(lines(&e), vec!["abc"]);
    assert!(!e.state.undo_history.can_undo());
}

#[test]
fn delete_char_removes_whole_cluster() {
    let mut e = Editor::for_testing("he\u{301}llo");
    e.document.cursor = Cursor::new(0, 1);
    e.delete_char_at_cursor_with_register(None).unwrap();
    assert_eq!(lines(&e), vec!["hllo"]);
    assert_eq!(reg(&e, None), Some(("e\u{301}".to_string(), ContentType::Characterwise)));
    assert!(e.document.modified);
}

#[test]
fn text_in_range_across_lines() {
    let e = Editor::for_testing("hello\nworld\nfoo");
    assert_eq!(e.get_text_in_range(&Cursor::new(0, 2), &Cursor::new(2, 1)), "llo\nworld\nf");
    assert_eq!(e.get_text_in_range(&Cursor::new(0, 1), &Cursor::new(0, 3)), "el");
    assert_eq!(e.get_text_in_range(&Cursor::new(0, 3), &Cursor::new(0, 1)), "");
    assert_eq!(e.get_text_in_range(&Cursor::new(1, 9), &Cursor::new(1, 20)), "");
}

#[test]
fn yank_range_and_delete_range() {
    let mut e = Editor::for_testing("hello world");
    e.yank_range(&Cursor::new(0, 0), &Cursor::new(0, 5), Some('a'), ContentType::Characterwise).unwrap();
    assert_eq!(reg(&e, Some(RegisterId::Named('a'))), Some(("hello".to_string(), ContentType::Characterwise)));
    e.delete_motion_range_with_register(&Cursor::new(0, 5), &Cursor::new(0, 11), None, ContentType::Characterwise)
        .unwrap();
    assert_eq!(lines(&e), vec!["hello"]);
    assert_eq!(reg(&e, None), Some((" world".to_string(), ContentType::Characterwise)));
    assert!(e.document.modified);
}

#[test]
fn delete_range_refused_by_buffer_returns_error() {
    let mut e = Editor::for_testing("abc");
    let r = e.delete_motion_range_with_register(&Cursor::new(0, 2), &Cursor::new(0, 1), None, ContentType::Characterwise);
    assert!(r.is_err());
    assert_eq!(lines(&e), vec!["abc"]);
}

#[test]
fn stop_recording_stores_keys() {
    let mut e = Editor::for_testing("");
    e.state.macro_state.recording = Some('q');
    e.state.macro_state.buffer = vec![Key::Char('d'), Key::Char('d')];
    e.stop_macro_recording();
    assert!(e.state.macro_state.recording.is_none());
    assert!(e.state.macro_state.buffer.is_empty());
    assert_eq!(reg(&e, Some(RegisterId::Named('q'))), Some(("dd".to_string(), ContentType::Characterwise)));
}

#[test]
fn append_register_adds_to_text() {
    let mut e = Editor::for_testing("a\nb");
    e.yank_lines(1, Some('k')).unwrap();
    e.document.cursor = Cursor::new(1, 0);
    e.yank_lines(1, Some('K')).unwrap();
    assert_eq!(reg(&e, Some(RegisterId::Named('k'))), Some(("a\nb\n".to_string(), ContentType::Linewise)));
}

#[test]
fn numbered_registers_shift_on_delete() {
    let mut e = Editor::for_testing("a\nb\nc");
    e.delete_lines_with_register(1, None).unwrap();
    e.delete_lines_with_register(1, None).unwrap();
    assert_eq!(reg(&e, Some(RegisterId::Numbered(1))), Some(("b\n".to_string(), ContentType::Linewise)));
    assert_eq!(reg(&e, Some(RegisterId::Numbered(2))), Some(("a\n".to_string(), ContentType::Linewise)));
}
