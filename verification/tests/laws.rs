use rvi::buffer::{Buffer, Cursor};
use rvi::editor::keys::{keys_to_string, string_to_keys, toggle_case_range};
use rvi::editor::mappings::{keys_to_notation, parse_key_notation};
use rvi::command::SubstituteRange;
use rvi::editor::Editor;
use rvi::file::encoding::LineEnding;
use rvi::file::reader::decode_file_bytes;
use rvi::file::writer::file_content;
use rvi::terminal::Key;
use rvi::undo::{EditAction, UndoHistory};

#[test]
fn stored_keys_read_back_unchanged() {
    let ks = vec![
        Key::Char('d'),
        Key::Char('w'),
        Key::Esc,
        Key::Enter,
        Key::Ctrl('a'),
        Key::Tab,
        Key::Backspace,
        Key::Char('é'),
    ];
    let s = keys_to_string(&ks);
    assert_eq!(string_to_keys(&s), ks);
}

#[test]
fn key_notation_parses_back() {
    let ks = vec![
        Key::Char('g'),
        Key::Enter,
        Key::Esc,
        Key::Backspace,
        Key::Tab,
        Key::Char('x'),
    ];
    let s = keys_to_notation(&ks);
    assert_eq!(s, "g<CR><Esc><BS><Tab>x");
    assert_eq!(parse_key_notation(&s), ks);
}

#[test]
fn map_then_unmap_removes_only_that_mapping() {
    let mut e = Editor::for_testing("x");
    e.execute_map(false, "Q", "dd");
    e.execute_map(false, "gx", "x");
    e.execute_map(false, "Q", "yy");
    let q = parse_key_notation("Q");
    let found: Vec<_> = e.state.mappings.normal_maps.iter().filter(|(l, _)| *l == q).collect();
    assert_eq!(found.len(), 1);
    assert_eq!(found[0].1, parse_key_notation("yy"));
    e.execute_unmap(false, "Q");
    assert!(e.state.mappings.normal_maps.iter().all(|(l, _)| *l != q));
    assert_eq!(e.state.mappings.normal_maps.len(), 1);
    assert!(e.state.status_message.is_none());
    e.execute_unmap(false, "Q");
    assert_eq!(
        e.state.status_message.as_ref().map(|m| m.as_str_formatted()),
        Some("E31: No such mapping".to_string())
    );
    assert!(e.state.mappings.insert_maps.is_empty());
}

#[test]
fn abbreviate_then_unabbreviate() {
    let mut e = Editor::for_testing("");
    e.execute_abbreviate("teh", "the");
    e.execute_abbreviate("teh", "then");
    assert_eq!(
        e.state.mappings.abbreviations,
        vec![("teh".to_string(), "then".to_string())]
    );
    e.execute_unabbreviate("teh");
    assert!(e.state.mappings.abbreviations.is_empty());
    e.execute_unabbreviate("teh");
    assert_eq!(
        e.state.status_message.as_ref().map(|m| m.as_str_formatted()),
        Some("E31: No such abbreviation".to_string())
    );
}

fn written_and_read(lines: &str, ending: LineEnding) -> (String, LineEnding) {
    let buffer = Buffer::from_string(lines.to_string());
    let text = file_content(&buffer, ending);
    let r = decode_file_bytes(text.as_bytes(), "f").ok().unwrap();
    (r.content, r.line_ending)
}

#[test]
fn written_file_reads_back_with_its_line_ending() {
    assert_eq!(written_and_read("a\nb\n\nc", LineEnding::Lf), ("a\nb\n\nc\n".to_string(), LineEnding::Lf));
    assert_eq!(
        written_and_read("a\nb\n\nc", LineEnding::CrLf),
        ("a\nb\n\nc\n".to_string(), LineEnding::CrLf)
    );
    assert_eq!(written_and_read("a\nb\n\nc", LineEnding::Cr), ("a\nb\n\nc\n".to_string(), LineEnding::Cr));
}

#[test]
fn written_crlf_file_bytes() {
    let buffer = Buffer::from_string("one\ntwo".to_string());
    assert_eq!(file_content(&buffer, LineEnding::CrLf), "one\r\ntwo\r\n");
    assert_eq!(file_content(&buffer, LineEnding::Cr), "one\rtwo\r");
}

#[test]
fn undo_then_redo_moves_entries_between_stacks() {
    let mut h = UndoHistory::new();
    h.begin_group(Cursor::new(0, 0), false);
    h.record(EditAction::InsertChar { row: 0, col: 0, ch: 'a' });
    h.record(EditAction::InsertChar { row: 0, col: 1, ch: 'b' });
    h.end_group(Cursor::new(0, 2));
    assert!(h.can_undo());
    assert!(!h.can_redo());
    let u = h.undo().unwrap();
    assert_eq!(u.actions().len(), 2);
    assert_eq!(u.actions()[1], EditAction::InsertChar { row: 0, col: 1, ch: 'b' });
    assert_eq!(u.cursor_before(), Cursor::new(0, 0));
    assert_eq!(u.cursor_after(), Cursor::new(0, 2));
    assert!(!h.can_undo());
    assert!(h.can_redo());
    let r = h.redo().unwrap();
    assert_eq!(r.actions().len(), 2);
    assert!(h.can_undo());
    assert!(!h.can_redo());
    assert!(h.redo().is_none());
}

#[test]
fn recording_clears_redo() {
    let mut h = UndoHistory::new();
    h.begin_group(Cursor::new(0, 0), false);
    h.record(EditAction::InsertChar { row: 0, col: 0, ch: 'a' });
    h.end_group(Cursor::new(0, 1));
    h.undo();
    assert!(h.can_redo());
    h.begin_group(Cursor::new(0, 0), false);
    h.record(EditAction::InsertChar { row: 0, col: 0, ch: 'z' });
    h.end_group(Cursor::new(0, 1));
    assert!(!h.can_redo());
}

#[test]
fn empty_group_is_not_recorded() {
    let mut h = UndoHistory::new();
    h.begin_group(Cursor::new(0, 0), false);
    h.end_group(Cursor::new(0, 0));
    assert!(!h.can_undo());
}

#[test]
fn editor_undo_and_redo_restore_text() {
    let mut e = Editor::for_testing("hello\nworld");
    e.execute_delete_lines(SubstituteRange::Range { start: 0, end: 0 }, None);
    assert_eq!(e.document.buffer.lines().to_vec(), vec!["world".to_string()]);
    e.apply_undo().unwrap();
    assert_eq!(
        e.document.buffer.lines().to_vec(),
        vec!["hello".to_string(), "world".to_string()]
    );
    e.apply_redo().unwrap();
    assert_eq!(e.document.buffer.lines().to_vec(), vec!["world".to_string()]);
    e.apply_undo().unwrap();
    assert_eq!(
        e.document.buffer.lines().to_vec(),
        vec!["hello".to_string(), "world".to_string()]
    );
}

#[test]
fn undo_of_ex_join_splits_at_join_column() {
    let mut e = Editor::for_testing("hello\nworld");
    e.execute_join_lines_range(SubstituteRange::Range { start: 0, end: 1 });
    assert_eq!(e.document.buffer.lines().to_vec(), vec!["hello world".to_string()]);
    e.apply_undo().unwrap();
    assert_eq!(
        e.document.buffer.lines().to_vec(),
        vec!["hello".to_string(), " world".to_string()]
    );
    e.apply_redo().unwrap();
    assert_eq!(e.document.buffer.lines().to_vec(), vec!["hello world".to_string()]);
}

#[test]
fn dd_on_the_only_line_then_undo_restores_it() {
    let mut e = Editor::for_testing("hello");
    e.delete_lines_with_register(1, None).unwrap();
    assert_eq!(e.document.buffer.lines().to_vec(), vec!["".to_string()]);
    e.apply_undo().unwrap();
    assert_eq!(e.document.buffer.lines().to_vec(), vec!["hello".to_string()]);
}

#[test]
fn ex_delete_of_every_line_then_undo_restores_them() {
    let mut e = Editor::for_testing("one\ntwo\nthree");
    e.execute_delete_lines(SubstituteRange::WholeFile, None);
    assert_eq!(e.document.buffer.lines().to_vec(), vec!["".to_string()]);
    e.apply_undo().unwrap();
    assert_eq!(
        e.document.buffer.lines().to_vec(),
        vec!["one".to_string(), "two".to_string(), "three".to_string()]
    );
    assert_eq!(e.document.cursor, Cursor::new(0, 0));
    assert!(!e.document.modified);
}

#[test]
fn toggle_case_changes_ascii_letters_only() {
    assert_eq!(toggle_case_range("éa", 0, 3), "éA");
    assert_eq!(toggle_case_range("ÀbC", 0, 4), "ÀBc");
}

#[test]
fn recording_a_key_touches_only_the_recorded_keys() {
    let mut e = Editor::for_testing("");
    e.state.insert_state.insert_literal_next = true;
    e.state.insert_state.insert_keys.clear();
    e.state.insert_state.maybe_record_key(Key::Char('a'));
    assert_eq!(e.state.insert_state.insert_keys, vec![Key::Char('a')]);
    assert!(e.state.insert_state.insert_literal_next);
    e.state.insert_state.replaying_dot = true;
    e.state.insert_state.maybe_record_key(Key::Char('b'));
    assert_eq!(e.state.insert_state.insert_keys, vec![Key::Char('a')]);
}

#[test]
fn written_bytes_have_no_bom_and_read_back() {
    let buffer = Buffer::from_string("hello\nworld".to_string());
    let text = file_content(&buffer, LineEnding::CrLf);
    let r = decode_file_bytes(text.as_bytes(), "f").ok().unwrap();
    assert_eq!(r.content, "hello\nworld\n");
    assert_eq!(r.line_ending, LineEnding::CrLf);
    assert!(!r.had_bom);
}
