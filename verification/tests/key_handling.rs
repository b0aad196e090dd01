use rvi::buffer::SelectionType;
use rvi::command::{ModeChangeKind, Motion, RepeatableChange, SimpleAction, TextObjectKind};
use rvi::editor::keys::{toggle_case_range, visual_kind_to_selection_type};
use rvi::editor::{Editor, EditorState};
use rvi::mode::Operator;
use rvi::terminal::Key;

#[test]
fn test_dot_recording_simple_action_delete_char() {
    // Verify that executing x records a RepeatableChange::SimpleAction
    let mut state = EditorState::new(24, 80);

    // Simulate what execute_simple_action does for DeleteCharAtCursor recording
    state.last_change = Some(RepeatableChange::SimpleAction {
        action: SimpleAction::DeleteCharAtCursor,
        register: None,
        count: 1,
    });

    match &state.last_change {
        Some(RepeatableChange::SimpleAction {
            action,
            register,
            count,
        }) => {
            assert_eq!(*action, SimpleAction::DeleteCharAtCursor);
            assert_eq!(*register, None);
            assert_eq!(*count, 1);
        }
        _ => panic!("Expected SimpleAction variant"),
    }
}

#[test]
fn test_dot_recording_replace_char() {
    let mut state = EditorState::new(24, 80);

    state.last_change = Some(RepeatableChange::SimpleAction {
        action: SimpleAction::ReplaceChar('z'),
        register: None,
        count: 1,
    });

    match &state.last_change {
        Some(RepeatableChange::SimpleAction { action, .. }) => {
            assert_eq!(*action, SimpleAction::ReplaceChar('z'));
        }
        _ => panic!("Expected SimpleAction with ReplaceChar"),
    }
}

#[test]
fn test_dot_recording_operator_motion() {
    let mut state = EditorState::new(24, 80);

    state.last_change = Some(RepeatableChange::OperatorMotion {
        operator: Operator::Delete,
        motion: Motion::WordForward,
        count: 2,
        register: None,
        insert_keys: None,
        linewise_self: false,
    });

    match &state.last_change {
        Some(RepeatableChange::OperatorMotion {
            operator,
            motion,
            count,
            linewise_self,
            ..
        }) => {
            assert_eq!(*operator, Operator::Delete);
            assert_eq!(*motion, Motion::WordForward);
            assert_eq!(*count, 2);
            assert!(!linewise_self);
        }
        _ => panic!("Expected OperatorMotion variant"),
    }
}

#[test]
fn test_dot_recording_linewise_delete() {
    let mut state = EditorState::new(24, 80);

    state.last_change = Some(RepeatableChange::OperatorMotion {
        operator: Operator::Delete,
        motion: Motion::Down,
        count: 3,
        register: Some('a'),
        insert_keys: None,
        linewise_self: true,
    });

    match &state.last_change {
        Some(RepeatableChange::OperatorMotion {
            operator,
            count,
            register,
            linewise_self,
            ..
        }) => {
            assert_eq!(*operator, Operator::Delete);
            assert_eq!(*count, 3);
            assert_eq!(*register, Some('a'));
            assert!(linewise_self);
        }
        _ => panic!("Expected OperatorMotion variant"),
    }
}

#[test]
fn test_dot_recording_operator_text_object() {
    let mut state = EditorState::new(24, 80);

    state.last_change = Some(RepeatableChange::OperatorTextObject {
        operator: Operator::Delete,
        kind: TextObjectKind::Around,
        object: rvi::command::TextObject::Word,
        count: 1,
        register: None,
        insert_keys: None,
    });

    match &state.last_change {
        Some(RepeatableChange::OperatorTextObject {
            operator,
            kind,
            object,
            ..
        }) => {
            assert_eq!(*operator, Operator::Delete);
            assert_eq!(*kind, TextObjectKind::Around);
            assert_eq!(*object, rvi::command::TextObject::Word);
        }
        _ => panic!("Expected OperatorTextObject variant"),
    }
}

#[test]
fn test_dot_recording_insert_session() {
    let mut state = EditorState::new(24, 80);

    state.last_change = Some(RepeatableChange::InsertSession {
        entry_kind: ModeChangeKind::InsertBeforeCursor,
        typed_keys: vec![Key::Char('h'), Key::Char('i')],
        count: 1,
    });

    match &state.last_change {
        Some(RepeatableChange::InsertSession {
            entry_kind,
            typed_keys,
            ..
        }) => {
            assert_eq!(*entry_kind, ModeChangeKind::InsertBeforeCursor);
            assert_eq!(typed_keys.len(), 2);
            assert_eq!(typed_keys[0], Key::Char('h'));
            assert_eq!(typed_keys[1], Key::Char('i'));
        }
        _ => panic!("Expected InsertSession variant"),
    }
}

#[test]
fn test_dot_recording_change_operator_with_insert_keys() {
    let mut state = EditorState::new(24, 80);

    // Simulate cw followed by typing "new" and Esc
    state.last_change = Some(RepeatableChange::OperatorMotion {
        operator: Operator::Change,
        motion: Motion::WordForward,
        count: 1,
        register: None,
        insert_keys: Some(vec![Key::Char('n'), Key::Char('e'), Key::Char('w')]),
        linewise_self: false,
    });

    match &state.last_change {
        Some(RepeatableChange::OperatorMotion {
            operator,
            insert_keys,
            ..
        }) => {
            assert_eq!(*operator, Operator::Change);
            let keys = insert_keys.as_ref().unwrap();
            assert_eq!(keys.len(), 3);
            assert_eq!(keys[0], Key::Char('n'));
            assert_eq!(keys[1], Key::Char('e'));
            assert_eq!(keys[2], Key::Char('w'));
        }
        _ => panic!("Expected OperatorMotion with Change"),
    }
}

#[test]
fn test_dot_count_replacement_some() {
    // When dot count is Some(n), it replaces the original count
    let effective = 5_usize;
    assert_eq!(effective, 5);
}

#[test]
fn test_dot_count_replacement_none() {
    // When dot count is None, original count is preserved
    let orig_count: usize = 3;
    let effective = orig_count;
    assert_eq!(effective, 3);
}

#[test]
fn test_undo_not_repeatable() {
    let mut state = EditorState::new(24, 80);

    // Set a prior change
    state.last_change = Some(RepeatableChange::SimpleAction {
        action: SimpleAction::DeleteCharAtCursor,
        register: None,
        count: 1,
    });

    // Undo should not modify last_change - the SimpleAction::Undo
    // branch does not touch last_change
    // (verified by code inspection: the Undo arm has no last_change assignment)
    let prev = state.last_change.clone();
    // Simulating execute_simple_action for Undo would call apply_undo,
    // which does not touch last_change
    match &prev {
        Some(RepeatableChange::SimpleAction { action, .. }) => {
            assert_eq!(*action, SimpleAction::DeleteCharAtCursor);
        }
        _ => panic!("Expected prior change to be preserved"),
    }
}

#[test]
fn test_replaying_dot_flag_prevents_recording() {
    let mut state = EditorState::new(24, 80);

    // Set an initial change
    state.last_change = Some(RepeatableChange::SimpleAction {
        action: SimpleAction::DeleteCharAtCursor,
        register: None,
        count: 1,
    });

    // During replay, replaying_dot is true, so recording is suppressed
    state.insert_state.replaying_dot = true;
    // The if !state.insert_state.replaying_dot check prevents overwriting last_change
    if !state.insert_state.replaying_dot {
        state.last_change = Some(RepeatableChange::SimpleAction {
            action: SimpleAction::ReplaceChar('x'),
            register: None,
            count: 1,
        });
    }

    // last_change should still be the original
    match &state.last_change {
        Some(RepeatableChange::SimpleAction { action, .. }) => {
            assert_eq!(*action, SimpleAction::DeleteCharAtCursor);
        }
        _ => panic!("Expected original change to be preserved during replay"),
    }

    state.insert_state.replaying_dot = false;
}

#[test]
fn test_dot_with_no_prior_change() {
    let state = EditorState::new(24, 80);
    // last_change is None by default
    assert!(state.last_change.is_none());
    // execute_repeat with None just returns Ok(()) - nothing to do
}

#[test]
fn test_insert_keys_cleared_on_mode_change() {
    let mut state = EditorState::new(24, 80);
    state.insert_state.insert_keys = vec![Key::Char('o'), Key::Char('l'), Key::Char('d')];

    // When entering insert mode, insert_keys should be cleared
    state.insert_state.insert_keys.clear();
    assert!(state.insert_state.insert_keys.is_empty());
}

#[test]
fn test_insert_keys_collected() {
    let mut state = EditorState::new(24, 80);
    state.insert_state.insert_keys.clear();

    // Simulate collecting keys during insert mode
    state.insert_state.insert_keys.push(Key::Char('h'));
    state.insert_state.insert_keys.push(Key::Char('e'));
    state.insert_state.insert_keys.push(Key::Char('l'));
    state.insert_state.insert_keys.push(Key::Char('l'));
    state.insert_state.insert_keys.push(Key::Char('o'));

    assert_eq!(state.insert_state.insert_keys.len(), 5);
    assert_eq!(state.insert_state.insert_keys[0], Key::Char('h'));
    assert_eq!(state.insert_state.insert_keys[4], Key::Char('o'));
}

#[test]
fn test_insert_keys_include_special_keys() {
    let mut state = EditorState::new(24, 80);
    state.insert_state.insert_keys.clear();

    state.insert_state.insert_keys.push(Key::Char('a'));
    state.insert_state.insert_keys.push(Key::Backspace);
    state.insert_state.insert_keys.push(Key::Char('b'));
    state.insert_state.insert_keys.push(Key::Enter);
    state.insert_state.insert_keys.push(Key::Char('c'));

    assert_eq!(state.insert_state.insert_keys.len(), 5);
    assert_eq!(state.insert_state.insert_keys[1], Key::Backspace);
    assert_eq!(state.insert_state.insert_keys[3], Key::Enter);
}

#[test]
fn test_finalize_insert_pure_session() {
    let mut state = EditorState::new(24, 80);
    state.insert_state.insert_entry_kind = Some(ModeChangeKind::InsertBeforeCursor);
    state.insert_state.insert_keys = vec![Key::Char('h'), Key::Char('i')];

    // Simulate finalize_insert_for_dot
    let typed_keys = std::mem::take(&mut state.insert_state.insert_keys);
    if let Some(entry_kind) = state.insert_state.insert_entry_kind {
        state.last_change = Some(RepeatableChange::InsertSession {
            entry_kind,
            typed_keys,
            count: 1,
        });
    }

    match &state.last_change {
        Some(RepeatableChange::InsertSession {
            entry_kind,
            typed_keys,
            ..
        }) => {
            assert_eq!(*entry_kind, ModeChangeKind::InsertBeforeCursor);
            assert_eq!(typed_keys.len(), 2);
        }
        _ => panic!("Expected InsertSession"),
    }
}

#[test]
fn test_finalize_insert_change_operator() {
    let mut state = EditorState::new(24, 80);
    // Simulate: cw was executed, which set last_change and entered insert mode
    state.last_change = Some(RepeatableChange::OperatorMotion {
        operator: Operator::Change,
        motion: Motion::WordForward,
        count: 1,
        register: None,
        insert_keys: None,
        linewise_self: false,
    });
    state.insert_state.insert_entry_kind = None; // Change operator, not a pure insert
    state.insert_state.insert_keys = vec![Key::Char('n'), Key::Char('e'), Key::Char('w')];

    // Simulate finalize_insert_for_dot
    let typed_keys = std::mem::take(&mut state.insert_state.insert_keys);
    if state.insert_state.insert_entry_kind.is_some() {
        // Would store InsertSession
    } else if let Some(RepeatableChange::OperatorMotion {
        ref mut insert_keys,
        ..
    }) = state.last_change
    {
        *insert_keys = Some(typed_keys);
    }

    match &state.last_change {
        Some(RepeatableChange::OperatorMotion {
            insert_keys,
            operator,
            ..
        }) => {
            assert_eq!(*operator, Operator::Change);
            let keys = insert_keys.as_ref().unwrap();
            assert_eq!(keys.len(), 3);
            assert_eq!(keys[0], Key::Char('n'));
        }
        _ => panic!("Expected OperatorMotion with insert_keys filled"),
    }
}

#[test]
fn test_c_command_recorded_as_operator_motion_line_end() {
    let mut state = EditorState::new(24, 80);

    // C is modeled as OperatorMotion { Change, LineEnd }
    state.last_change = Some(RepeatableChange::OperatorMotion {
        operator: Operator::Change,
        motion: Motion::LineEnd,
        count: 1,
        register: None,
        insert_keys: Some(vec![Key::Char('x'), Key::Char('y')]),
        linewise_self: false,
    });

    match &state.last_change {
        Some(RepeatableChange::OperatorMotion {
            operator,
            motion,
            insert_keys,
            ..
        }) => {
            assert_eq!(*operator, Operator::Change);
            assert_eq!(*motion, Motion::LineEnd);
            assert_eq!(insert_keys.as_ref().unwrap().len(), 2);
        }
        _ => panic!("Expected OperatorMotion with Change + LineEnd"),
    }
}

#[test]
fn test_editor_state_new_fields_initialized() {
    let state = EditorState::new(24, 80);
    assert!(state.last_change.is_none());
    assert!(state.insert_state.insert_keys.is_empty());
    assert!(!state.insert_state.replaying_dot);
    assert!(state.insert_state.insert_entry_kind.is_none());
}

#[test]
fn test_is_word_char_alpha() {
    assert!(rvi::buffer::unicode::is_word_char('a'));
    assert!(rvi::buffer::unicode::is_word_char('Z'));
}

#[test]
fn test_is_word_char_digit() {
    assert!(rvi::buffer::unicode::is_word_char('0'));
    assert!(rvi::buffer::unicode::is_word_char('9'));
}

#[test]
fn test_is_word_char_underscore() {
    assert!(rvi::buffer::unicode::is_word_char('_'));
}

#[test]
fn test_is_word_char_non_word() {
    assert!(!rvi::buffer::unicode::is_word_char(' '));
    assert!(!rvi::buffer::unicode::is_word_char('.'));
    assert!(!rvi::buffer::unicode::is_word_char('('));
    assert!(!rvi::buffer::unicode::is_word_char('-'));
}

#[test]
fn test_extract_word_basic() {
    // Test word extraction logic directly
    let line = "hello world";
    let col = 0;
    let ch = line[col..].chars().next().unwrap();
    assert!(rvi::buffer::unicode::is_word_char(ch));

    let start = 0_usize;
    let end = line[col..]
        .char_indices()
        .take_while(|(_, c)| rvi::buffer::unicode::is_word_char(*c))
        .last()
        .map(|(i, c)| col + i + c.len_utf8())
        .unwrap_or(col);
    assert_eq!(&line[start..end], "hello");
}

#[test]
fn test_extract_word_middle() {
    let line = "hello world";
    let col = 8; // on 'r'
    let ch = line[col..].chars().next().unwrap();
    assert_eq!(ch, 'r');
    assert!(rvi::buffer::unicode::is_word_char(ch));

    let start = line[..col]
        .char_indices()
        .rev()
        .take_while(|(_, c)| rvi::buffer::unicode::is_word_char(*c))
        .last()
        .map(|(i, _)| i)
        .unwrap_or(col);
    let end = line[col..]
        .char_indices()
        .take_while(|(_, c)| rvi::buffer::unicode::is_word_char(*c))
        .last()
        .map(|(i, c)| col + i + c.len_utf8())
        .unwrap_or(col);
    assert_eq!(&line[start..end], "world");
}

#[test]
fn test_extract_word_on_non_word_char() {
    let line = "hello world";
    let col = 5; // on space
    let ch = line[col..].chars().next().unwrap();
    assert!(!rvi::buffer::unicode::is_word_char(ch));
}

#[test]
fn test_visual_kind_to_selection_type_character() {
    assert_eq!(
        visual_kind_to_selection_type(rvi::mode::VisualKind::Character),
        SelectionType::Character
    );
}

#[test]
fn test_visual_kind_to_selection_type_line() {
    assert_eq!(
        visual_kind_to_selection_type(rvi::mode::VisualKind::Line),
        SelectionType::Line
    );
}

#[test]
fn test_visual_kind_to_selection_type_block() {
    assert_eq!(
        visual_kind_to_selection_type(rvi::mode::VisualKind::Block),
        SelectionType::Block
    );
}

#[test]
fn test_toggle_case_range_full_line() {
    assert_eq!(
        toggle_case_range("Hello World", 0, 11),
        "hELLO wORLD"
    );
}

#[test]
fn test_toggle_case_range_partial() {
    // Toggle only "ell" (bytes 1..4)
    assert_eq!(toggle_case_range("Hello", 1, 4), "HELLo");
    // Simpler assertion
    let result = toggle_case_range("Hello", 1, 4);
    assert_eq!(&result[0..1], "H"); // outside range, unchanged
    assert_eq!(&result[1..4], "ELL"); // toggled
    assert_eq!(&result[4..5], "o"); // outside range, unchanged
}

#[test]
fn test_toggle_case_range_no_change_for_digits() {
    assert_eq!(toggle_case_range("abc123", 0, 6), "ABC123");
}

#[test]
fn test_navigate_args_no_list() {
    let mut editor = Editor::for_testing("hello");
    // :n with no arg list shows message
    editor.navigate_args(1);
    assert!(editor.state.status_message.is_some());
}

#[test]
fn test_navigate_args_at_last() {
    let mut editor = Editor::for_testing("hello");
    editor.state.file_navigation.arg_list = vec!["a.txt".to_string(), "b.txt".to_string()];
    editor.state.file_navigation.arg_idx = 1; // already at last
    editor.navigate_args(1);
    let msg = editor
        .state
        .status_message
        .as_ref()
        .map(|m| m.as_str_formatted())
        .unwrap_or_default();
    assert!(msg.contains("Last file"));
    // arg_idx should stay at 1
    assert_eq!(editor.state.file_navigation.arg_idx, 1);
}

#[test]
fn test_navigate_args_backward_at_first() {
    let mut editor = Editor::for_testing("hello");
    editor.state.file_navigation.arg_list = vec!["a.txt".to_string(), "b.txt".to_string()];
    editor.state.file_navigation.arg_idx = 0; // already at first
    editor.navigate_args_backward(1);
    let msg = editor
        .state
        .status_message
        .as_ref()
        .map(|m| m.as_str_formatted())
        .unwrap_or_default();
    assert!(msg.contains("First file"));
    assert_eq!(editor.state.file_navigation.arg_idx, 0);
}
