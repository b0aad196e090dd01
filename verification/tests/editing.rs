use rvi::buffer::unicode::{next_grapheme_boundary, prev_grapheme_boundary};
use rvi::buffer::{Buffer, Cursor, Selection, SelectionType};
use rvi::editor::editing::get_leading_whitespace;
use rvi::editor::Document;
use rvi::file::LineEnding;
use rvi::registers::{RegisterContent, RegisterId, Registers};
use rvi::undo::{EditAction, UndoHistory};

struct TestEditor {
    document: Document,
}

impl TestEditor {
    fn get_text_in_range(&self, start: &Cursor, end: &Cursor) -> String {
        let mut text = String::new();
        if start.row == end.row {
            if let Some(line) = self.document.buffer.line(start.row) {
                let start_col = start.col.min(line.len());
                let end_col = end.col.min(line.len());
                if start_col < end_col {
                    text.push_str(&line[start_col..end_col]);
                }
            }
        } else {
            if let Some(first_line) = self.document.buffer.line(start.row) {
                let start_col = start.col.min(first_line.len());
                text.push_str(&first_line[start_col..]);
                text.push('\n');
            }
            for row in (start.row + 1)..end.row {
                if let Some(line) = self.document.buffer.line(row) {
                    text.push_str(line);
                    text.push('\n');
                }
            }
            if let Some(last_line) = self.document.buffer.line(end.row) {
                let end_col = end.col.min(last_line.len());
                text.push_str(&last_line[..end_col]);
            }
        }
        text
    }
}

fn plain_document(content: &str) -> Document {
    Document {
        buffer: Buffer::from_string(content.to_string()),
        cursor: Cursor::new(0, 0),
        selection: None,
        filename: None,
        file_path: None,
        modified: false,
        line_ending: LineEnding::default(),
    }
}

#[test]
fn test_get_leading_whitespace_spaces() {
    assert_eq!(get_leading_whitespace("    hello"), "    ");
}

#[test]
fn test_get_leading_whitespace_tabs() {
    assert_eq!(get_leading_whitespace("\t\thello"), "\t\t");
}

#[test]
fn test_get_leading_whitespace_mixed() {
    assert_eq!(get_leading_whitespace("  \t hello"), "  \t ");
}

#[test]
fn test_get_leading_whitespace_no_indent() {
    assert_eq!(get_leading_whitespace("hello"), "");
}

#[test]
fn test_get_leading_whitespace_empty() {
    assert_eq!(get_leading_whitespace(""), "");
}

#[test]
fn test_get_leading_whitespace_all_whitespace() {
    assert_eq!(get_leading_whitespace("   "), "   ");
}

#[test]
fn test_insert_text_at_simple() {
    let mut buffer = Buffer::from_string("hello".to_string());
    let cursor = Cursor::new(0, 5);
    buffer.insert_char(&cursor, '!').unwrap();
    assert_eq!(buffer.line(0), Some("hello!"));
}

#[test]
fn test_insert_text_at_with_newlines() {
    let mut buffer = Buffer::from_string("helloworld".to_string());
    let cursor = Cursor::new(0, 5);
    buffer.insert_char(&cursor, 'X').unwrap();
    let cursor = Cursor::new(0, 6);
    buffer.split_line(&cursor).unwrap();
    let cursor = Cursor::new(1, 0);
    buffer.insert_char(&cursor, 'Y').unwrap();
    assert_eq!(buffer.line(0), Some("helloX"));
    assert_eq!(buffer.line(1), Some("Yworld"));
}

#[test]
fn test_toggle_case_lowercase_to_uppercase() {
    let mut buffer = Buffer::from_string("hello".to_string());
    let line = buffer.line(0).unwrap().to_string();
    let col = 0;
    let ch = line[col..].chars().next().unwrap();
    assert!(ch.is_lowercase());
    let toggled = ch.to_uppercase().to_string();
    let new_content = format!("{}{}{}", &line[..col], toggled, &line[col + ch.len_utf8()..]);
    let line_mut = buffer.line_mut(0).unwrap();
    line_mut.clear();
    line_mut.push_str(&new_content);
    assert_eq!(buffer.line(0), Some("Hello"));
}

#[test]
fn test_toggle_case_uppercase_to_lowercase() {
    let mut buffer = Buffer::from_string("HELLO".to_string());
    let line = buffer.line(0).unwrap().to_string();
    let col = 0;
    let ch = line[col..].chars().next().unwrap();
    assert!(ch.is_uppercase());
    let toggled = ch.to_lowercase().to_string();
    let new_content = format!("{}{}{}", &line[..col], toggled, &line[col + ch.len_utf8()..]);
    let line_mut = buffer.line_mut(0).unwrap();
    line_mut.clear();
    line_mut.push_str(&new_content);
    assert_eq!(buffer.line(0), Some("hELLO"));
}

#[test]
fn test_toggle_case_mid_line() {
    let mut buffer = Buffer::from_string("hElLo".to_string());
    let line = buffer.line(0).unwrap().to_string();
    let col = 1;
    let ch = line[col..].chars().next().unwrap();
    assert_eq!(ch, 'E');
    let toggled = ch.to_lowercase().to_string();
    let new_content = format!("{}{}{}", &line[..col], toggled, &line[col + ch.len_utf8()..]);
    let line_mut = buffer.line_mut(0).unwrap();
    line_mut.clear();
    line_mut.push_str(&new_content);
    assert_eq!(buffer.line(0), Some("helLo"));
}

#[test]
fn test_toggle_case_non_alpha_unchanged() {
    let line = "123";
    let ch = line[0..].chars().next().unwrap();
    assert!(!ch.is_uppercase() && !ch.is_lowercase());
}

#[test]
fn test_join_lines_basic() {
    let mut buffer = Buffer::from_string("hello\nworld".to_string());
    let current = buffer.line(0).unwrap().to_string();
    let next = buffer.line(1).unwrap().to_string();
    let trimmed = next.trim_start();
    let new_content = format!("{} {}", current, trimmed);
    let line_mut = buffer.line_mut(0).unwrap();
    line_mut.clear();
    line_mut.push_str(&new_content);
    buffer.remove_line(1).unwrap();
    assert_eq!(buffer.line(0), Some("hello world"));
    assert_eq!(buffer.len(), 1);
}

#[test]
fn test_join_lines_strips_whitespace() {
    let mut buffer = Buffer::from_string("hello\n    world".to_string());
    let current = buffer.line(0).unwrap().to_string();
    let next = buffer.line(1).unwrap().to_string();
    let trimmed = next.trim_start();
    let new_content = format!("{} {}", current, trimmed);
    let line_mut = buffer.line_mut(0).unwrap();
    line_mut.clear();
    line_mut.push_str(&new_content);
    buffer.remove_line(1).unwrap();
    assert_eq!(buffer.line(0), Some("hello world"));
}

#[test]
fn test_join_lines_empty_next_line() {
    let mut buffer = Buffer::from_string("hello\n\n".to_string());
    let current = buffer.line(0).unwrap().to_string();
    let next = buffer.line(1).unwrap().to_string();
    let trimmed = next.trim_start();
    let new_content = if trimmed.is_empty() { current.clone() } else { format!("{} {}", current, trimmed) };
    let line_mut = buffer.line_mut(0).unwrap();
    line_mut.clear();
    line_mut.push_str(&new_content);
    buffer.remove_line(1).unwrap();
    assert_eq!(buffer.line(0), Some("hello"));
}

#[test]
fn test_join_lines_last_line_noop() {
    let buffer = Buffer::from_string("only line".to_string());
    assert_eq!(buffer.len(), 1);
    assert!(buffer.line(1).is_none());
}

#[test]
fn test_toggle_case_undo_restores_original() {
    let mut buffer = Buffer::from_string("hello".to_string());
    let mut undo = UndoHistory::new();
    let cursor_before = Cursor::new(0, 0);
    undo.begin_group(cursor_before, false);
    let line = buffer.line(0).unwrap().to_string();
    let col = 0;
    let ch = line[col..].chars().next().unwrap();
    let toggled = ch.to_uppercase().to_string();
    let char_end = col + ch.len_utf8();
    let new_content = format!("{}{}{}", &line[..col], toggled, &line[char_end..]);
    let action = EditAction::ReplaceLine { row: 0, old_content: line, new_content: new_content.clone() };
    undo.record(action);
    let line_mut = buffer.line_mut(0).unwrap();
    line_mut.clear();
    line_mut.push_str(&new_content);
    let cursor_after = Cursor::new(0, 1);
    undo.end_group(cursor_after);
    assert_eq!(buffer.line(0), Some("Hello"));
    let entry = undo.undo().unwrap();
    assert_eq!(entry.cursor_before(), cursor_before);
    assert_eq!(entry.actions().len(), 1);
    match &entry.actions()[0] {
        EditAction::ReplaceLine { row, old_content, .. } => {
            let line_mut = buffer.line_mut(*row).unwrap();
            line_mut.clear();
            line_mut.push_str(old_content);
        }
        _ => panic!("Expected ReplaceLine action"),
    }
    assert_eq!(buffer.line(0), Some("hello"));
}

#[test]
fn test_join_line_undo_restores_both_lines() {
    let mut buffer = Buffer::from_string("hello\nworld".to_string());
    let mut undo = UndoHistory::new();
    let cursor_before = Cursor::new(0, 0);
    undo.begin_group(cursor_before, false);
    let current = buffer.line(0).unwrap().to_string();
    let next = buffer.line(1).unwrap().to_string();
    let new_content = format!("{} {}", current, next.trim_start());
    let join_col = current.len();
    undo.record(EditAction::ReplaceLine { row: 0, old_content: current, new_content: new_content.clone() });
    undo.record(EditAction::RemoveLine { row: 1, content: next.clone() });
    let line_mut = buffer.line_mut(0).unwrap();
    line_mut.clear();
    line_mut.push_str(&new_content);
    buffer.remove_line(1).unwrap();
    let cursor_after = Cursor::new(0, join_col);
    undo.end_group(cursor_after);
    assert_eq!(buffer.line(0), Some("hello world"));
    assert_eq!(buffer.len(), 1);
    let entry = undo.undo().unwrap();
    assert_eq!(entry.cursor_before(), cursor_before);
    assert_eq!(entry.cursor_after(), cursor_after);
    assert_eq!(entry.actions().len(), 2);
    for action in entry.actions().iter().rev() {
        match action {
            EditAction::RemoveLine { row, content } => {
                buffer.insert_line(*row, content.clone()).unwrap();
            }
            EditAction::ReplaceLine { row, old_content, .. } => {
                let line_mut = buffer.line_mut(*row).unwrap();
                line_mut.clear();
                line_mut.push_str(old_content);
            }
            _ => panic!("Unexpected action type"),
        }
    }
    assert_eq!(buffer.line(0), Some("hello"));
    assert_eq!(buffer.line(1), Some("world"));
    assert_eq!(buffer.len(), 2);
}

#[test]
fn test_toggle_case_cursor_advances() {
    let mut buffer = Buffer::from_string("abc".to_string());
    let col = 1;
    let line = buffer.line(0).unwrap().to_string();
    let ch = line[col..].chars().next().unwrap();
    assert_eq!(ch, 'b');
    let toggled = ch.to_uppercase().to_string();
    let char_end = col + ch.len_utf8();
    let new_content = format!("{}{}{}", &line[..col], toggled, &line[char_end..]);
    let line_mut = buffer.line_mut(0).unwrap();
    line_mut.clear();
    line_mut.push_str(&new_content);
    let new_col = col + toggled.len();
    assert_eq!(new_col, 2);
    assert_eq!(buffer.line(0), Some("aBc"));
}

#[test]
fn test_join_line_cursor_at_join_point() {
    let mut buffer = Buffer::from_string("foo\nbar".to_string());
    let current = buffer.line(0).unwrap().to_string();
    let next = buffer.line(1).unwrap().to_string();
    let join_col = current.len();
    let new_content = format!("{} {}", current, next.trim_start());
    let line_mut = buffer.line_mut(0).unwrap();
    line_mut.clear();
    line_mut.push_str(&new_content);
    buffer.remove_line(1).unwrap();
    assert_eq!(buffer.line(0), Some("foo bar"));
    assert_eq!(join_col, 3);
}

#[test]
fn editing_test_get_text_in_range_same_line() {
    let editor = TestEditor { document: plain_document("hello world") };
    let start = Cursor::new(0, 0);
    let end = Cursor::new(0, 5);
    assert_eq!(editor.get_text_in_range(&start, &end), "hello");
}

#[test]
fn mod_test_get_text_in_range_same_line() {
    let editor = TestEditor { document: plain_document("hello world") };
    let start = Cursor::new(0, 0);
    let end = Cursor::new(0, 5);
    assert_eq!(editor.get_text_in_range(&start, &end), "hello");
}

#[test]
fn editing_test_get_text_in_range_multiple_lines() {
    let editor = TestEditor { document: plain_document("hello\nworld\ntest") };
    let start = Cursor::new(0, 2);
    let end = Cursor::new(2, 2);
    assert_eq!(editor.get_text_in_range(&start, &end), "llo\nworld\nte");
}

#[test]
fn mod_test_get_text_in_range_multiple_lines() {
    let editor = TestEditor { document: plain_document("hello\nworld\ntest") };
    let start = Cursor::new(0, 2);
    let end = Cursor::new(2, 2);
    assert_eq!(editor.get_text_in_range(&start, &end), "llo\nworld\nte");
}

#[test]
fn editing_test_delete_char_before_cursor_stores_to_register() {
    let mut doc = Document::from_string("hello".to_string());
    doc.cursor = Cursor::new(0, 3);
    let mut registers = Registers::new();
    let line = doc.buffer.line(0).unwrap();
    let prev_col = prev_grapheme_boundary(line, doc.cursor.col);
    let deleted_char = &line[prev_col..doc.cursor.col];
    let content = RegisterContent::characterwise(deleted_char.to_string());
    registers.delete(None, None, content);
    let stored = registers.get(None).unwrap();
    assert_eq!(stored.text(), "l");
    assert!(!stored.is_linewise());
}

#[test]
fn mod_test_delete_char_before_cursor_stores_to_register() {
    let mut doc = Document::from_string("hello".to_string());
    doc.cursor = Cursor::new(0, 3);
    let mut registers = Registers::new();
    let line = doc.buffer.line(0).unwrap();
    let prev_col = prev_grapheme_boundary(line, doc.cursor.col);
    let deleted_char = &line[prev_col..doc.cursor.col];
    let content = RegisterContent::characterwise(deleted_char.to_string());
    registers.delete(None, None, content);
    let stored = registers.get(None).unwrap();
    assert_eq!(stored.text(), "l");
    assert!(!stored.is_linewise());
}

#[test]
fn editing_test_delete_to_end_of_line_basic() {
    let mut doc = Document::from_string("hello world".to_string());
    doc.cursor = Cursor::new(0, 5);
    let mut registers = Registers::new();
    let line = doc.buffer.line(0).unwrap();
    let deleted_text = line[doc.cursor.col..].to_string();
    assert_eq!(deleted_text, " world");
    let content = RegisterContent::characterwise(deleted_text);
    registers.delete(None, None, content);
    let stored = registers.get(None).unwrap();
    assert_eq!(stored.text(), " world");
    assert!(stored.is_characterwise());
}

#[test]
fn mod_test_delete_to_end_of_line_basic() {
    let mut doc = Document::from_string("hello world".to_string());
    doc.cursor = Cursor::new(0, 5);
    let mut registers = Registers::new();
    let line = doc.buffer.line(0).unwrap();
    let deleted_text = line[doc.cursor.col..].to_string();
    assert_eq!(deleted_text, " world");
    let content = RegisterContent::characterwise(deleted_text);
    registers.delete(None, None, content);
    let stored = registers.get(None).unwrap();
    assert_eq!(stored.text(), " world");
    assert!(stored.is_characterwise());
}

#[test]
fn editing_test_delete_to_end_of_line_from_start() {
    let mut doc = Document::from_string("hello".to_string());
    doc.cursor = Cursor::new(0, 0);
    let mut registers = Registers::new();
    let line = doc.buffer.line(0).unwrap();
    let deleted_text = line[doc.cursor.col..].to_string();
    assert_eq!(deleted_text, "hello");
    let content = RegisterContent::characterwise(deleted_text);
    registers.delete(None, None, content);
    let stored = registers.get(None).unwrap();
    assert_eq!(stored.text(), "hello");
}

#[test]
fn mod_test_delete_to_end_of_line_from_start() {
    let mut doc = Document::from_string("hello".to_string());
    doc.cursor = Cursor::new(0, 0);
    let mut registers = Registers::new();
    let line = doc.buffer.line(0).unwrap();
    let deleted_text = line[doc.cursor.col..].to_string();
    assert_eq!(deleted_text, "hello");
    let content = RegisterContent::characterwise(deleted_text);
    registers.delete(None, None, content);
    let stored = registers.get(None).unwrap();
    assert_eq!(stored.text(), "hello");
}

#[test]
fn editing_test_delete_to_end_of_line_at_end() {
    let doc = Document::from_string("hello".to_string());
    let line = doc.buffer.line(0).unwrap();
    let col = line.len();
    assert_eq!(col, 5);
    assert!(col >= line.len());
}

#[test]
fn mod_test_delete_to_end_of_line_at_end() {
    let doc = Document::from_string("hello".to_string());
    let line = doc.buffer.line(0).unwrap();
    let col = line.len();
    assert_eq!(col, 5);
    assert!(col >= line.len());
}

#[test]
fn editing_test_delete_to_end_of_line_empty_line() {
    let doc = Document::from_string(String::new());
    let line = doc.buffer.line(0).unwrap();
    assert!(line.is_empty());
    assert_eq!(0, line.len());
}

#[test]
fn mod_test_delete_to_end_of_line_empty_line() {
    let doc = Document::from_string(String::new());
    let line = doc.buffer.line(0).unwrap();
    assert!(line.is_empty());
    assert_eq!(0, line.len());
}

#[test]
fn editing_test_change_to_end_of_line_stores_characterwise() {
    let mut doc = Document::from_string("hello world".to_string());
    doc.cursor = Cursor::new(0, 5);
    let mut registers = Registers::new();
    let line = doc.buffer.line(0).unwrap();
    let deleted_text = line[doc.cursor.col..].to_string();
    let content = RegisterContent::characterwise(deleted_text);
    registers.delete(None, None, content);
    let stored = registers.get(None).unwrap();
    assert_eq!(stored.text(), " world");
    assert!(stored.is_characterwise());
}

#[test]
fn mod_test_change_to_end_of_line_stores_characterwise() {
    let mut doc = Document::from_string("hello world".to_string());
    doc.cursor = Cursor::new(0, 5);
    let mut registers = Registers::new();
    let line = doc.buffer.line(0).unwrap();
    let deleted_text = line[doc.cursor.col..].to_string();
    let content = RegisterContent::characterwise(deleted_text);
    registers.delete(None, None, content);
    let stored = registers.get(None).unwrap();
    assert_eq!(stored.text(), " world");
    assert!(stored.is_characterwise());
}

#[test]
fn editing_test_change_to_end_of_line_cursor_position() {
    let mut doc = Document::from_string("hello world".to_string());
    doc.cursor = Cursor::new(0, 6);
    let line = doc.buffer.line(0).unwrap();
    let deleted_text = line[doc.cursor.col..].to_string();
    assert_eq!(deleted_text, "world");
    let start = doc.cursor;
    let end = Cursor::new(doc.cursor.row, line.len());
    doc.buffer.delete_range(&start, &end).unwrap();
    let line_after = doc.buffer.line(0).unwrap();
    assert_eq!(line_after, "hello ");
    let insert_col = line_after.len();
    assert_eq!(insert_col, 6);
    doc.cursor.col = insert_col;
    assert_eq!(doc.cursor.col, 6);
}

#[test]
fn mod_test_change_to_end_of_line_cursor_position() {
    let mut doc = Document::from_string("hello world".to_string());
    doc.cursor = Cursor::new(0, 6);
    let line = doc.buffer.line(0).unwrap();
    let deleted_text = line[doc.cursor.col..].to_string();
    assert_eq!(deleted_text, "world");
    let start = doc.cursor;
    let end = Cursor::new(doc.cursor.row, line.len());
    doc.buffer.delete_range(&start, &end).unwrap();
    let line_after = doc.buffer.line(0).unwrap();
    assert_eq!(line_after, "hello ");
    let insert_col = line_after.len();
    assert_eq!(insert_col, 6);
    doc.cursor.col = insert_col;
    assert_eq!(doc.cursor.col, 6);
}

#[test]
fn editing_test_change_to_end_of_line_from_start_cursor_position() {
    let mut doc = Document::from_string("hello".to_string());
    doc.cursor = Cursor::new(0, 0);
    let line = doc.buffer.line(0).unwrap();
    assert_eq!(line, "hello");
    let start = doc.cursor;
    let end = Cursor::new(0, line.len());
    doc.buffer.delete_range(&start, &end).unwrap();
    let line_after = doc.buffer.line(0).unwrap();
    assert_eq!(line_after, "");
    doc.cursor.col = line_after.len();
    assert_eq!(doc.cursor.col, 0);
}

#[test]
fn mod_test_change_to_end_of_line_from_start_cursor_position() {
    let mut doc = Document::from_string("hello".to_string());
    doc.cursor = Cursor::new(0, 0);
    let line = doc.buffer.line(0).unwrap();
    assert_eq!(line, "hello");
    let start = doc.cursor;
    let end = Cursor::new(0, line.len());
    doc.buffer.delete_range(&start, &end).unwrap();
    let line_after = doc.buffer.line(0).unwrap();
    assert_eq!(line_after, "");
    doc.cursor.col = line_after.len();
    assert_eq!(doc.cursor.col, 0);
}

#[test]
fn editing_test_change_to_end_of_line_mid_word_cursor_position() {
    let mut doc = Document::from_string("abcdefgh".to_string());
    doc.cursor = Cursor::new(0, 3);
    let line = doc.buffer.line(0).unwrap();
    let start = doc.cursor;
    let end = Cursor::new(0, line.len());
    doc.buffer.delete_range(&start, &end).unwrap();
    let line_after = doc.buffer.line(0).unwrap();
    assert_eq!(line_after, "abc");
    doc.cursor.col = line_after.len();
    assert_eq!(doc.cursor.col, 3);
}

#[test]
fn mod_test_change_to_end_of_line_mid_word_cursor_position() {
    let mut doc = Document::from_string("abcdefgh".to_string());
    doc.cursor = Cursor::new(0, 3);
    let line = doc.buffer.line(0).unwrap();
    let start = doc.cursor;
    let end = Cursor::new(0, line.len());
    doc.buffer.delete_range(&start, &end).unwrap();
    let line_after = doc.buffer.line(0).unwrap();
    assert_eq!(line_after, "abc");
    doc.cursor.col = line_after.len();
    assert_eq!(doc.cursor.col, 3);
}

#[test]
fn editing_test_yank_line_stores_linewise() {
    let doc = Document::from_string("hello world".to_string());
    let mut registers = Registers::new();
    let line = doc.buffer.line(0).unwrap();
    let mut yanked_text = line.to_string();
    yanked_text.push('\n');
    let content = RegisterContent::linewise(yanked_text);
    registers.yank(None, content);
    let stored = registers.get(None).unwrap();
    assert_eq!(stored.text(), "hello world\n");
    assert!(stored.is_linewise());
}

#[test]
fn mod_test_yank_line_stores_linewise() {
    let doc = Document::from_string("hello world".to_string());
    let mut registers = Registers::new();
    let line = doc.buffer.line(0).unwrap();
    let mut yanked_text = line.to_string();
    yanked_text.push('\n');
    let content = RegisterContent::linewise(yanked_text);
    registers.yank(None, content);
    let stored = registers.get(None).unwrap();
    assert_eq!(stored.text(), "hello world\n");
    assert!(stored.is_linewise());
}

#[test]
fn editing_test_yank_line_with_register() {
    let doc = Document::from_string("test line".to_string());
    let mut registers = Registers::new();
    let line = doc.buffer.line(0).unwrap();
    let mut yanked_text = line.to_string();
    yanked_text.push('\n');
    let content = RegisterContent::linewise(yanked_text);
    let reg_id = RegisterId::parse('a');
    registers.yank(reg_id, content);
    let stored = registers.get(RegisterId::parse('a')).unwrap();
    assert_eq!(stored.text(), "test line\n");
    assert!(stored.is_linewise());
}

#[test]
fn mod_test_yank_line_with_register() {
    let doc = Document::from_string("test line".to_string());
    let mut registers = Registers::new();
    let line = doc.buffer.line(0).unwrap();
    let mut yanked_text = line.to_string();
    yanked_text.push('\n');
    let content = RegisterContent::linewise(yanked_text);
    let reg_id = RegisterId::parse('a');
    registers.yank(reg_id, content);
    let stored = registers.get(RegisterId::parse('a')).unwrap();
    assert_eq!(stored.text(), "test line\n");
    assert!(stored.is_linewise());
}

#[test]
fn editing_test_yank_line_empty_line() {
    let doc = Document::from_string(String::new());
    let mut registers = Registers::new();
    let line = doc.buffer.line(0).unwrap();
    let mut yanked_text = line.to_string();
    yanked_text.push('\n');
    let content = RegisterContent::linewise(yanked_text);
    registers.yank(None, content);
    let stored = registers.get(None).unwrap();
    assert_eq!(stored.text(), "\n");
    assert!(stored.is_linewise());
}

#[test]
fn mod_test_yank_line_empty_line() {
    let doc = Document::from_string(String::new());
    let mut registers = Registers::new();
    let line = doc.buffer.line(0).unwrap();
    let mut yanked_text = line.to_string();
    yanked_text.push('\n');
    let content = RegisterContent::linewise(yanked_text);
    registers.yank(None, content);
    let stored = registers.get(None).unwrap();
    assert_eq!(stored.text(), "\n");
    assert!(stored.is_linewise());
}

#[test]
fn test_visual_block_delete() {
    let mut buffer = Buffer::from_string("hello\nworld\ntest".to_string());
    let selection = Selection::new(Cursor::new(0, 1), Cursor::new(2, 3), SelectionType::Block);
    let sel = selection.normalize();
    for row in (sel.start.row..=sel.end.row).rev() {
        if let Some(line) = buffer.line(row) {
            let s = sel.start.col.min(line.len());
            let e = next_grapheme_boundary(line, sel.end.col.min(line.len()));
            if s < e {
                let start_c = Cursor::new(row, s);
                let end_c = Cursor::new(row, e);
                buffer.delete_range(&start_c, &end_c).unwrap();
            }
        }
    }
    assert_eq!(buffer.line(0), Some("ho"));
    assert_eq!(buffer.line(1), Some("wd"));
    assert_eq!(buffer.line(2), Some("t"));
}
