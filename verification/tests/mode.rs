use rvi::mode::{Mode, Operator, VisualKind};

#[test]
fn test_mode_as_str() {
    assert_eq!(Mode::Normal.as_str(), "NORMAL");
    assert_eq!(Mode::Insert.as_str(), "INSERT");
    assert_eq!(Mode::Replace.as_str(), "REPLACE");
    assert_eq!(Mode::CommandLine.as_str(), "COMMAND");
    assert_eq!(Mode::OperatorPending(Operator::Delete).as_str(), "OP-PENDING");
    assert_eq!(Mode::Visual(VisualKind::Character).as_str(), "VISUAL");
    assert_eq!(Mode::Visual(VisualKind::Line).as_str(), "VISUAL LINE");
    assert_eq!(Mode::Visual(VisualKind::Block).as_str(), "VISUAL BLOCK");
}

#[test]
fn test_mode_is_visual() {
    assert!(!Mode::Normal.is_visual());
    assert!(!Mode::Insert.is_visual());
    assert!(Mode::Visual(VisualKind::Character).is_visual());
    assert!(Mode::Visual(VisualKind::Line).is_visual());
    assert!(Mode::Visual(VisualKind::Block).is_visual());
}

#[test]
fn test_mode_allows_cursor_past_end() {
    assert!(!Mode::Normal.allows_cursor_past_end());
    assert!(Mode::Insert.allows_cursor_past_end());
    assert!(Mode::Replace.allows_cursor_past_end());
    assert!(Mode::CommandLine.allows_cursor_past_end());
    assert!(!Mode::Visual(VisualKind::Character).allows_cursor_past_end());
}

#[test]
fn test_operator_as_char() {
    assert_eq!(Operator::Delete.as_char(), 'd');
    assert_eq!(Operator::Yank.as_char(), 'y');
    assert_eq!(Operator::Change.as_char(), 'c');
}

#[test]
fn test_operator_enters_insert_mode() {
    assert!(!Operator::Delete.enters_insert_mode());
    assert!(!Operator::Yank.enters_insert_mode());
    assert!(Operator::Change.enters_insert_mode());
}

#[test]
fn test_visual_kind_trigger() {
    assert_eq!(VisualKind::Character.trigger_char(), 'v');
    assert_eq!(VisualKind::Line.trigger_char(), 'V');
}

#[test]
fn test_mode_default() {
    assert_eq!(Mode::default(), Mode::Normal);
}

#[test]
fn test_replace_mode_status_str() {
    assert_eq!(rvi::mode::Mode::Replace.as_str(), "REPLACE");
}

#[test]
fn operator_chars_of_case_operators() {
    assert_eq!(Operator::Uppercase.as_char(), 'U');
    assert_eq!(VisualKind::Block.trigger_char(), '\x16');
}
