use rvi::buffer::Cursor;
use rvi::editor::Editor;
use rvi::mode::{Mode, Operator, VisualKind};
use rvi::registers::ContentType;

fn lines(e: &Editor) -> Vec<String> {
    e.document.buffer.lines().to_vec()
}

fn unnamed(e: &Editor) -> Option<(String, ContentType)> {
    e.state.registers.get(None).map(|c| (c.text().to_string(), c.content_type()))
}

fn select(e: &mut Editor, kind: VisualKind, from: Cursor, to: Cursor) {
    e.document.cursor = from;
    e.enter_visual_mode(kind).unwrap();
    e.document.cursor = to;
    e.update_visual_selection(kind);
}

#[test]
fn enter_and_exit_visual_mode_sets_marks() {
    let mut e = Editor::for_testing("hello\nworld");
    select(&mut e, VisualKind::Character, Cursor::new(1, 3), Cursor::new(0, 1));
    assert_eq!(e.state.mode, Mode::Visual(VisualKind::Character));
    assert_eq!(e.state.visual_anchor, Some(Cursor::new(1, 3)));
    e.exit_visual_mode();
    assert_eq!(e.state.mode, Mode::Normal);
    assert!(e.document.selection.is_none());
    assert!(e.state.visual_anchor.is_none());
    assert_eq!(e.state.navigation.marks.get(&('<' as u32)), Some(&Cursor::new(0, 1)));
    assert_eq!(e.state.navigation.marks.get(&('>' as u32)), Some(&Cursor::new(1, 3)));
}

#[test]
fn visual_yank_characterwise_includes_end_character() {
    let mut e = Editor::for_testing("hello world");
    select(&mut e, VisualKind::Character, Cursor::new(0, 6), Cursor::new(0, 0));
    e.execute_visual_yank(VisualKind::Character, None).unwrap();
    assert_eq!(unnamed(&e), Some(("hello w".to_string(), ContentType::Characterwise)));
    assert_eq!(lines(&e), vec!["hello world"]);
}

#[test]
fn visual_yank_line_and_block() {
    let mut e = Editor::for_testing("abcd\nefgh\nijkl");
    select(&mut e, VisualKind::Line, Cursor::new(0, 2), Cursor::new(1, 0));
    e.execute_visual_yank(VisualKind::Line, None).unwrap();
    assert_eq!(unnamed(&e), Some(("abcd\nefgh\n".to_string(), ContentType::Linewise)));
    e.exit_visual_mode();
    select(&mut e, VisualKind::Block, Cursor::new(0, 1), Cursor::new(2, 2));
    e.execute_visual_yank(VisualKind::Block, None).unwrap();
    assert_eq!(unnamed(&e), Some(("bc\nfg\njk".to_string(), ContentType::Blockwise)));
}

#[test]
fn visual_block_delete_removes_columns_and_undoes() {
    let mut e = Editor::for_testing("hello\nworld\ntest");
    select(&mut e, VisualKind::Block, Cursor::new(0, 1), Cursor::new(2, 3));
    e.execute_visual_delete(VisualKind::Block, None).unwrap();
    assert_eq!(lines(&e), vec!["ho", "wd", "t"]);
    assert_eq!(e.document.cursor, Cursor::new(0, 1));
    assert!(e.document.modified);
    e.apply_undo().unwrap();
    assert_eq!(lines(&e), vec!["hello", "world", "test"]);
}

#[test]
fn visual_line_delete() {
    let mut e = Editor::for_testing("a\nb\nc\nd");
    select(&mut e, VisualKind::Line, Cursor::new(2, 0), Cursor::new(1, 0));
    e.execute_visual_delete(VisualKind::Line, None).unwrap();
    assert_eq!(lines(&e), vec!["a", "d"]);
    assert_eq!(unnamed(&e), Some(("b\nc\n".to_string(), ContentType::Linewise)));
}

#[test]
fn visual_character_delete() {
    let mut e = Editor::for_testing("hello\nworld");
    select(&mut e, VisualKind::Character, Cursor::new(0, 3), Cursor::new(1, 1));
    e.execute_visual_delete(VisualKind::Character, None).unwrap();
    assert_eq!(lines(&e), vec!["helrld"]);
    assert_eq!(unnamed(&e), Some(("lo\nwo".to_string(), ContentType::Characterwise)));
}

#[test]
fn visual_case_operators() {
    let mut e = Editor::for_testing("hello world\nsecond");
    select(&mut e, VisualKind::Character, Cursor::new(0, 2), Cursor::new(0, 6));
    e.execute_visual_case_operator(VisualKind::Character, Operator::Uppercase).unwrap();
    assert_eq!(lines(&e), vec!["heLLO World", "second"]);
    assert_eq!(e.document.cursor, Cursor::new(0, 2));
    e.exit_visual_mode();
    select(&mut e, VisualKind::Line, Cursor::new(1, 3), Cursor::new(1, 3));
    e.execute_visual_toggle_case(VisualKind::Line).unwrap();
    assert_eq!(lines(&e), vec!["heLLO World", "SECOND"]);
}

#[test]
fn visual_indent_shifts_selected_lines() {
    let mut e = Editor::for_testing("a\nb\nc");
    e.state.settings.shiftwidth = 4;
    select(&mut e, VisualKind::Line, Cursor::new(0, 0), Cursor::new(1, 0));
    e.execute_visual_indent(VisualKind::Line, true).unwrap();
    assert_eq!(lines(&e), vec!["    a", "    b", "c"]);
}

#[test]
fn jump_to_mark_and_back() {
    let mut e = Editor::for_testing("one\n  two\nthree");
    e.state.navigation.marks.insert('a' as u32, Cursor::new(1, 4));
    e.execute_jump_to_mark('a', true);
    assert_eq!(e.document.cursor, Cursor::new(1, 2));
    e.execute_jump_to_mark('`', false);
    assert_eq!(e.document.cursor, Cursor::new(0, 0));
    e.execute_jump_to_mark('`', false);
    assert_eq!(e.document.cursor, Cursor::new(1, 2));
}

#[test]
fn jump_to_unset_mark_is_an_error() {
    let mut e = Editor::for_testing("one");
    e.execute_jump_to_mark('z', false);
    assert_eq!(
        e.state.status_message.as_ref().map(|m| m.as_str_formatted()),
        Some("E20: Mark not set".to_string())
    );
}
