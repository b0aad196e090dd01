use rvi::buffer::Cursor;
use rvi::editor::Editor;
use rvi::mode::Operator;

fn lines(e: &Editor) -> Vec<String> {
    e.document.buffer.lines().to_vec()
}

fn status(e: &Editor) -> Option<String> {
    e.state.status_message.as_ref().map(|m| m.as_str_formatted())
}

#[test]
fn jump_back_then_forward_returns() {
    let mut e = Editor::for_testing("one\ntwo\nthree\nfour");
    e.document.cursor = Cursor::new(1, 2);
    e.push_jump();
    e.document.cursor = Cursor::new(3, 1);
    e.execute_jump_back();
    assert_eq!(e.document.cursor, Cursor::new(1, 2));
    assert_eq!(e.state.navigation.jump_list_idx, 1);
    e.execute_jump_forward();
    assert_eq!(e.document.cursor, Cursor::new(3, 1));
    assert_eq!(e.state.navigation.jump_list_idx, 0);
    assert!(e.state.navigation.jump_origin.is_none());
}

#[test]
fn jump_back_with_empty_list_does_nothing() {
    let mut e = Editor::for_testing("a\nb");
    e.document.cursor = Cursor::new(1, 0);
    e.execute_jump_back();
    assert_eq!(e.document.cursor, Cursor::new(1, 0));
    assert!(e.state.status_message.is_none());
}

#[test]
fn jump_limits_report_errors() {
    let mut e = Editor::for_testing("a\nb");
    e.execute_jump_forward();
    assert_eq!(status(&e), Some("Already at newest position".to_string()));
    e.push_jump();
    e.execute_jump_back();
    e.execute_jump_back();
    assert_eq!(status(&e), Some("Already at oldest position".to_string()));
}

#[test]
fn push_jump_skips_duplicate_and_caps_length() {
    let mut e = Editor::for_testing("a");
    e.push_jump();
    e.push_jump();
    assert_eq!(e.state.navigation.jump_list.len(), 1);
    for i in 0..150 {
        e.document.cursor = Cursor::new(0, i);
        e.push_jump();
    }
    assert_eq!(e.state.navigation.jump_list.len(), 100);
    assert_eq!(e.state.navigation.jump_list[99], Cursor::new(0, 149));
}

#[test]
fn jump_target_is_clamped_to_buffer() {
    let mut e = Editor::for_testing("abcdef\nxy");
    e.document.cursor = Cursor::new(0, 5);
    e.push_jump();
    e.document.buffer.set_line(0, "ab".to_string()).unwrap();
    e.document.cursor = Cursor::new(1, 0);
    e.execute_jump_back();
    assert_eq!(e.document.cursor, Cursor::new(0, 1));
}

#[test]
fn undo_line_restores_snapshot() {
    let mut e = Editor::for_testing("hello\nworld");
    e.update_line_snapshot();
    e.document.buffer.set_line(0, "jello there".to_string()).unwrap();
    e.document.cursor = Cursor::new(0, 6);
    e.execute_undo_line().unwrap();
    assert_eq!(lines(&e), vec!["hello", "world"]);
    assert_eq!(e.document.cursor, Cursor::new(0, 0));
    assert!(e.document.modified);
    assert!(e.state.undo_history.can_undo());
}

#[test]
fn undo_line_without_snapshot_of_row_does_nothing() {
    let mut e = Editor::for_testing("hello\nworld");
    e.update_line_snapshot();
    e.document.cursor = Cursor::new(1, 0);
    e.execute_undo_line().unwrap();
    assert_eq!(lines(&e), vec!["hello", "world"]);
    assert!(!e.document.modified);
    e.update_line_snapshot();
    assert_eq!(e.state.navigation.line_snapshot, Some((1, "world".to_string())));
}

#[test]
fn file_info_message() {
    let mut e = Editor::for_testing("a\nb\nc");
    e.show_file_info();
    assert_eq!(status(&e), Some("\"[No Name]\"  3 lines  --Top--  line 1".to_string()));
    e.document.cursor = Cursor::new(1, 0);
    e.document.modified = true;
    e.document.filename = Some("f.txt".to_string());
    e.show_file_info();
    assert_eq!(status(&e), Some("\"f.txt\" [Modified]  3 lines  --66%--  line 2".to_string()));
    e.document.cursor = Cursor::new(2, 0);
    e.show_file_info();
    assert_eq!(status(&e), Some("\"f.txt\" [Modified]  3 lines  --Bot--  line 3".to_string()));
}

#[test]
fn case_operator_on_lines() {
    let mut e = Editor::for_testing("ab\ncd\nef");
    e.apply_case_operator_lines(0, 1, Operator::Uppercase).unwrap();
    assert_eq!(lines(&e), vec!["AB", "CD", "ef"]);
    e.apply_case_operator_lines(1, 99, Operator::Lowercase).unwrap();
    assert_eq!(lines(&e), vec!["AB", "cd", "ef"]);
}

#[test]
fn case_operator_on_range_in_either_order() {
    let mut e = Editor::for_testing("abc\ndef");
    e.apply_case_operator_range(&Cursor::new(0, 1), &Cursor::new(1, 1), Operator::ToggleCase).unwrap();
    assert_eq!(lines(&e), vec!["aBC", "Def"]);
    let mut e = Editor::for_testing("abc\ndef");
    e.apply_case_operator_range(&Cursor::new(1, 1), &Cursor::new(0, 1), Operator::ToggleCase).unwrap();
    assert_eq!(lines(&e), vec!["aBC", "Def"]);
}

#[test]
fn word_under_cursor_finds_identifier() {
    let mut e = Editor::for_testing("x = foo_bar1(baz)");
    e.document.cursor = Cursor::new(0, 7);
    assert_eq!(e.word_under_cursor(), "foo_bar1");
    e.document.cursor = Cursor::new(0, 2);
    assert_eq!(e.word_under_cursor(), "");
    e.document.cursor = Cursor::new(0, 13);
    assert_eq!(e.word_under_cursor(), "baz");
}

#[test]
fn reflow_wraps_words_after_indent() {
    let mut e = Editor::for_testing("  aaa bbb\nccc ddd eee\nlast");
    e.reflow_lines(0, 1, 10).unwrap();
    assert_eq!(lines(&e), vec!["  aaa bbb", "  ccc ddd", "  eee", "last"]);
}

#[test]
fn reflow_joins_short_lines() {
    let mut e = Editor::for_testing("a\nb\nc\nend");
    e.reflow_lines(0, 2, 80).unwrap();
    assert_eq!(lines(&e), vec!["a b c", "end"]);
    assert!(e.state.undo_history.can_undo());
}

#[test]
fn reflow_with_zero_width_does_nothing() {
    let mut e = Editor::for_testing("a\nb");
    e.reflow_lines(0, 1, 0).unwrap();
    assert_eq!(lines(&e), vec!["a", "b"]);
    assert!(!e.state.undo_history.can_undo());
}
