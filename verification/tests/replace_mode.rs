use rvi::command::ModeChangeKind;
use rvi::editor::Editor;
use rvi::mode::Mode;
use rvi::terminal::Key;

/// An editor holding `content` after `R` and then `keys` in replace mode.
fn replace_mode_editor(content: &str, keys: &[Key]) -> Editor {
    let mut editor = Editor::for_testing(content);
    editor.execute_mode_change(ModeChangeKind::ReplaceMode).unwrap();
    for key in keys {
        if editor.state.mode == Mode::Replace {
            editor.handle_replace_key(*key).unwrap();
        }
    }
    editor
}

#[test]
fn test_replace_mode_r_key_enters_replace() {
    let mut editor = Editor::for_testing("hello");
    editor.execute_mode_change(ModeChangeKind::ReplaceMode).unwrap();
    assert_eq!(editor.state.mode, Mode::Replace);
}

#[test]
fn test_replace_mode_overwrites_chars() {
    let editor = replace_mode_editor("hello", &[Key::Char('x'), Key::Char('y'), Key::Char('z'), Key::Esc]);
    assert_eq!(editor.document.buffer.line(0), Some("xyzlo"));
    assert_eq!(editor.state.mode, Mode::Normal);
}

#[test]
fn test_replace_mode_appends_at_eol() {
    let editor = replace_mode_editor("hi", &[Key::Char('x'), Key::Char('x'), Key::Char('x'), Key::Esc]);
    assert_eq!(editor.document.buffer.line(0), Some("xxx"));
}

#[test]
fn test_replace_mode_backspace_restores_original() {
    let editor = replace_mode_editor("hello", &[Key::Char('x'), Key::Backspace, Key::Esc]);
    assert_eq!(editor.document.buffer.line(0), Some("hello"));
    assert_eq!(editor.document.cursor.col, 0);
}

#[test]
fn test_replace_mode_backspace_at_entry_point_does_nothing() {
    let editor = replace_mode_editor("hello", &[Key::Backspace, Key::Esc]);
    assert_eq!(editor.document.buffer.line(0), Some("hello"));
}

#[test]
fn test_replace_mode_backspace_appended_char() {
    let editor = replace_mode_editor(
        "hi",
        &[Key::Char('x'), Key::Char('x'), Key::Char('x'), Key::Backspace, Key::Esc],
    );
    assert_eq!(editor.document.buffer.line(0), Some("xx"));
}

#[test]
fn test_replace_mode_undo_restores_whole_session() {
    let mut editor = replace_mode_editor("hello", &[Key::Char('x'), Key::Char('y'), Key::Char('z'), Key::Esc]);
    assert_eq!(editor.document.buffer.line(0), Some("xyzlo"));
    editor.apply_undo().unwrap();
    assert_eq!(editor.document.buffer.line(0), Some("hello"));
}

#[test]
fn test_replace_mode_backspace_then_undo() {
    let mut editor = replace_mode_editor("hello", &[Key::Char('x'), Key::Backspace, Key::Esc]);
    assert_eq!(editor.document.buffer.line(0), Some("hello"));
    editor.apply_undo().unwrap();
    assert_eq!(editor.document.buffer.line(0), Some("hello"));
}

#[test]
fn test_replace_mode_replace_originals_cleared_on_entry() {
    let mut editor = Editor::for_testing("hello");
    editor.state.insert_state.replace_originals.push(Some("z".to_string()));
    editor.execute_mode_change(ModeChangeKind::ReplaceMode).unwrap();
    assert!(editor.state.insert_state.replace_originals.is_empty());
}

#[test]
fn replace_keeps_typed_keys_for_dot() {
    let editor = replace_mode_editor("hello", &[Key::Char('a'), Key::Left, Key::Esc]);
    assert_eq!(editor.document.buffer.line(0), Some("aello"));
    assert!(editor.state.insert_state.insert_keys.is_empty());
    assert!(editor.state.last_change.is_some());
}

#[test]
fn replace_enter_splits_the_line() {
    let editor = replace_mode_editor("hello", &[Key::Char('x'), Key::Enter, Key::Esc]);
    assert_eq!(editor.document.buffer.lines().to_vec(), vec!["x", "ello"]);
}

#[test]
fn replace_char_at_cursor_keeps_the_cursor() {
    let mut editor = Editor::for_testing("héllo");
    editor.document.cursor.col = 1;
    editor.replace_char_at_cursor('e').unwrap();
    assert_eq!(editor.document.buffer.line(0), Some("hello"));
    assert_eq!(editor.document.cursor.col, 1);
    editor.document.cursor.col = 5;
    editor.replace_char_at_cursor('!').unwrap();
    assert_eq!(editor.document.buffer.line(0), Some("hello!"));
}

#[test]
fn mode_change_kinds_place_the_cursor() {
    let mut e = Editor::for_testing("  abc");
    e.document.cursor.col = 3;
    e.execute_mode_change(ModeChangeKind::InsertAfterCursor).unwrap();
    assert_eq!((e.state.mode, e.document.cursor.col), (Mode::Insert, 4));
    let mut e = Editor::for_testing("  abc");
    e.execute_mode_change(ModeChangeKind::InsertAtLineEnd).unwrap();
    assert_eq!(e.document.cursor.col, 5);
    let mut e = Editor::for_testing("  abc");
    e.document.cursor.col = 4;
    e.execute_mode_change(ModeChangeKind::InsertAtFirstNonBlank).unwrap();
    assert_eq!(e.document.cursor.col, 2);
    let mut e = Editor::for_testing("abc");
    e.execute_mode_change(ModeChangeKind::OpenLineBelow).unwrap();
    assert_eq!(e.document.buffer.lines().to_vec(), vec!["abc", ""]);
    assert_eq!(e.document.cursor.row, 1);
    let mut e = Editor::for_testing("abc");
    e.execute_mode_change(ModeChangeKind::OpenLineAbove).unwrap();
    assert_eq!(e.document.buffer.lines().to_vec(), vec!["", "abc"]);
    assert_eq!(e.state.insert_state.insert_entry_kind, Some(ModeChangeKind::OpenLineAbove));
}
