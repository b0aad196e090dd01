use rvi::buffer::Cursor;
use rvi::command::SubstituteRange;
use rvi::editor::ex::{AfterWrite, ExCommand, ExOutcome};
use rvi::editor::insert::InsertOutcome;
use rvi::editor::operators::LineOperatorOutcome;
use rvi::editor::normal::NormalOutcome;
use rvi::editor::visual_keys::VisualOutcome;
use rvi::editor::simple::SimpleOutcome;
use rvi::editor::{Editor, StatusMessage};
use rvi::mode::{Mode, Operator, VisualKind};
use rvi::terminal::Key;

fn status(e: &Editor) -> Option<String> {
    e.state.status_message.as_ref().map(|m| m.as_str_formatted())
}

fn line(e: &Editor, row: usize) -> Option<String> {
    e.document.buffer.line(row).map(|s| s.to_string())
}

fn normal(e: &mut Editor, key: Key) -> NormalOutcome {
    e.handle_normal_key(key).unwrap()
}

// ---------------------------------------------------------------------
// Normal mode
// ---------------------------------------------------------------------

#[test]
fn test_u_restores_line_to_snapshot() {
    let mut editor = Editor::for_testing("hello world");
    editor.update_line_snapshot();
    normal(&mut editor, Key::Char('x'));
    assert_eq!(editor.document.buffer.line(0), Some("ello world"));
    normal(&mut editor, Key::Char('U'));
    assert_eq!(editor.document.buffer.line(0), Some("hello world"));
}

#[test]
fn test_ctrl_g_shows_file_info() {
    let mut editor = Editor::for_testing("hello\nworld");
    normal(&mut editor, Key::Ctrl('g'));
    assert!(editor.state.status_message.is_some());
    let msg = status(&editor).unwrap_or_default();
    assert!(msg.contains("lines"));
}

fn ins(e: &mut Editor, key: Key) -> InsertOutcome {
    e.handle_insert_key(key).unwrap()
}

fn enter_insert(editor: &mut Editor) {
    normal(editor, Key::Char('i'));
}

fn exit_insert(editor: &mut Editor) {
    ins(editor, Key::Esc);
}

fn type_in_insert(editor: &mut Editor, s: &str) {
    for ch in s.chars() {
        ins(editor, Key::Char(ch));
    }
}

fn make_editor_with_abbrev(lhs: &str, rhs: &str) -> Editor {
    let mut editor = Editor::for_testing("");
    editor.state.mappings.abbreviations.push((lhs.to_string(), rhs.to_string()));
    editor
}

#[test]
fn test_insert_ctrl_w_deletes_word() {
    let mut editor = Editor::for_testing("hello world");
    normal(&mut editor, Key::Char('A'));
    ins(&mut editor, Key::Ctrl('w'));
    ins(&mut editor, Key::Esc);
    assert_eq!(editor.document.buffer.line(0), Some("hello "));
}

#[test]
fn test_insert_ctrl_w_deletes_through_whitespace() {
    let mut editor = Editor::for_testing("hello   ");
    normal(&mut editor, Key::Char('A'));
    ins(&mut editor, Key::Ctrl('w'));
    ins(&mut editor, Key::Esc);
    assert_eq!(editor.document.buffer.line(0), Some(""));
}

#[test]
fn test_insert_ctrl_u_deletes_to_line_start() {
    let mut editor = Editor::for_testing("hello world");
    normal(&mut editor, Key::Char('A'));
    ins(&mut editor, Key::Ctrl('u'));
    ins(&mut editor, Key::Esc);
    assert_eq!(editor.document.buffer.line(0), Some(""));
}

#[test]
fn test_insert_ctrl_u_at_line_start_no_op() {
    let mut editor = Editor::for_testing("hello");
    normal(&mut editor, Key::Char('i'));
    ins(&mut editor, Key::Ctrl('u'));
    ins(&mut editor, Key::Esc);
    assert_eq!(editor.document.buffer.line(0), Some("hello"));
}

#[test]
fn test_insert_ctrl_v_inserts_next_char_literally() {
    let mut editor = Editor::for_testing("hi");
    normal(&mut editor, Key::Char('A'));
    ins(&mut editor, Key::Ctrl('v'));
    ins(&mut editor, Key::Char('!'));
    ins(&mut editor, Key::Esc);
    assert_eq!(editor.document.buffer.line(0), Some("hi!"));
}

#[test]
fn test_insert_ctrl_v_ctrl_a_inserts_control_char() {
    let mut editor = Editor::for_testing("");
    normal(&mut editor, Key::Char('i'));
    ins(&mut editor, Key::Ctrl('v'));
    ins(&mut editor, Key::Ctrl('a'));
    ins(&mut editor, Key::Esc);
    let line = editor.document.buffer.line(0).unwrap_or_default();
    assert_eq!(line.chars().next(), Some('\x01'));
}

#[test]
fn test_insert_ctrl_v_sets_literal_next_flag() {
    let mut editor = Editor::for_testing("x");
    normal(&mut editor, Key::Char('i'));
    assert!(!editor.state.insert_state.insert_literal_next);
    ins(&mut editor, Key::Ctrl('v'));
    assert!(editor.state.insert_state.insert_literal_next);
    ins(&mut editor, Key::Char('a'));
    assert!(!editor.state.insert_state.insert_literal_next);
}

#[test]
fn test_abbreviation_expanded_on_space() {
    let mut editor = make_editor_with_abbrev("hw", "hello world");
    enter_insert(&mut editor);
    type_in_insert(&mut editor, "hw");
    ins(&mut editor, Key::Char(' '));
    exit_insert(&mut editor);
    assert_eq!(editor.document.buffer.line(0).unwrap(), "hello world ");
}

#[test]
fn test_abbreviation_expanded_on_esc() {
    let mut editor = make_editor_with_abbrev("teh", "the");
    enter_insert(&mut editor);
    type_in_insert(&mut editor, "teh");
    exit_insert(&mut editor);
    assert_eq!(editor.document.buffer.line(0).unwrap(), "the");
}

#[test]
fn test_abbreviation_expanded_on_enter() {
    let mut editor = make_editor_with_abbrev("foo", "foobar");
    enter_insert(&mut editor);
    type_in_insert(&mut editor, "foo");
    ins(&mut editor, Key::Enter);
    exit_insert(&mut editor);
    assert_eq!(editor.document.buffer.line(0).unwrap(), "foobar");
}

#[test]
fn test_abbreviation_not_expanded_mid_word() {
    let mut editor = make_editor_with_abbrev("foo", "foobar");
    enter_insert(&mut editor);
    type_in_insert(&mut editor, "food");
    exit_insert(&mut editor);
    assert_eq!(editor.document.buffer.line(0).unwrap(), "food");
}

#[test]
fn test_abbreviation_no_match_leaves_text_unchanged() {
    let mut editor = make_editor_with_abbrev("hw", "hello world");
    enter_insert(&mut editor);
    type_in_insert(&mut editor, "hi");
    ins(&mut editor, Key::Char(' '));
    exit_insert(&mut editor);
    assert_eq!(editor.document.buffer.line(0).unwrap(), "hi ");
}

#[test]
fn test_unabbreviate_removes_entry() {
    let mut editor = make_editor_with_abbrev("hw", "hello world");
    editor.state.mappings.abbreviations.retain(|(k, _)| k != "hw");
    enter_insert(&mut editor);
    type_in_insert(&mut editor, "hw");
    ins(&mut editor, Key::Char(' '));
    exit_insert(&mut editor);
    assert_eq!(editor.document.buffer.line(0).unwrap(), "hw ");
}

#[test]
fn test_later_abbreviation_wins() {
    let mut editor = Editor::for_testing("");
    editor.state.mappings.abbreviations.push(("hw".to_string(), "hello world".to_string()));
    editor.state.mappings.abbreviations.push(("hw".to_string(), "hey world".to_string()));
    enter_insert(&mut editor);
    type_in_insert(&mut editor, "hw");
    ins(&mut editor, Key::Char(' '));
    exit_insert(&mut editor);
    assert_eq!(editor.document.buffer.line(0).unwrap(), "hey world ");
}

#[test]
fn insert_keys_edit_and_leave() {
    let mut e = Editor::for_testing("ac");
    normal(&mut e, Key::Char('a'));
    ins(&mut e, Key::Char('b'));
    assert_eq!(line(&e, 0), Some("abc".to_string()));
    ins(&mut e, Key::Enter);
    assert_eq!(line(&e, 1), Some("c".to_string()));
    ins(&mut e, Key::Backspace);
    assert_eq!(line(&e, 0), Some("abc".to_string()));
    ins(&mut e, Key::Esc);
    assert_eq!(e.state.mode, Mode::Normal);
    assert_eq!(e.document.cursor, Cursor::new(0, 1));
    // The session is kept for dot repeat.
    assert!(e.state.last_change.is_some());
}

#[test]
fn insert_unsupported_keys_change_nothing() {
    let mut e = Editor::for_testing("ab");
    normal(&mut e, Key::Char('i'));
    assert_eq!(ins(&mut e, Key::Ctrl('t')), InsertOutcome::Unsupported);
    e.state.settings.expandtab = true;
    assert_eq!(ins(&mut e, Key::Tab), InsertOutcome::Unsupported);
    assert_eq!(line(&e, 0), Some("ab".to_string()));
    e.state.settings.expandtab = false;
    assert_eq!(ins(&mut e, Key::Tab), InsertOutcome::Done);
    assert_eq!(line(&e, 0), Some("\tab".to_string()));
}

#[test]
fn normal_motions_move_the_cursor() {
    let mut e = Editor::for_testing("  hello\nworld\nlast line");
    normal(&mut e, Key::Char('l'));
    assert_eq!(e.document.cursor, Cursor::new(0, 1));
    normal(&mut e, Key::Char('$'));
    assert_eq!(e.document.cursor, Cursor::new(0, 6));
    normal(&mut e, Key::Char('0'));
    assert_eq!(e.document.cursor, Cursor::new(0, 0));
    normal(&mut e, Key::Char('^'));
    assert_eq!(e.document.cursor, Cursor::new(0, 2));
    normal(&mut e, Key::Char('j'));
    assert_eq!(e.document.cursor.row, 1);
    normal(&mut e, Key::Char('h'));
    normal(&mut e, Key::Char('k'));
    assert_eq!(e.document.cursor.row, 0);
    normal(&mut e, Key::Char('G'));
    assert_eq!(e.document.cursor, Cursor::new(2, 0));
    // `G` is a jump: Ctrl-O comes back.
    normal(&mut e, Key::Ctrl('o'));
    assert_eq!(e.document.cursor.row, 0);
}

#[test]
fn normal_motion_refreshes_line_snapshot() {
    let mut e = Editor::for_testing("one\ntwo");
    normal(&mut e, Key::Char('j'));
    match &e.state.navigation.line_snapshot {
        Some((row, text)) => {
            assert_eq!(*row, 1);
            assert_eq!(text, "two");
        },
        None => panic!("no snapshot"),
    }
}

#[test]
fn normal_prompts_and_interrupt() {
    let mut e = Editor::for_testing("abc");
    match normal(&mut e, Key::Char(':')) {
        NormalOutcome::Prompt(c) => assert_eq!(c, ':'),
        _ => panic!("expected a prompt"),
    }
    assert_eq!(e.state.mode, Mode::CommandLine);
    normal(&mut e, Key::Ctrl('c'));
    assert_eq!(e.state.mode, Mode::Normal);
    assert_eq!(status(&e), Some("Interrupt".to_string()));
}

#[test]
fn normal_tag_keys() {
    let mut e = Editor::for_testing("  foo_bar baz");
    normal(&mut e, Key::Ctrl(']'));
    assert_eq!(status(&e), Some("No tag name".to_string()));
    normal(&mut e, Key::Char('^'));
    match normal(&mut e, Key::Ctrl(']')) {
        NormalOutcome::TagJump(t) => assert_eq!(t, "foo_bar"),
        _ => panic!("expected a tag jump"),
    }
    assert!(matches!(normal(&mut e, Key::Ctrl('t')), NormalOutcome::TagPop));
}

#[test]
fn normal_visual_and_insert_entry() {
    let mut e = Editor::for_testing("abc");
    normal(&mut e, Key::Char('V'));
    assert_eq!(e.state.mode, Mode::Visual(VisualKind::Line));
    let mut e = Editor::for_testing("abc");
    normal(&mut e, Key::Char('a'));
    assert_eq!(e.state.mode, Mode::Insert);
    assert_eq!(e.document.cursor, Cursor::new(0, 1));
}

#[test]
fn normal_q_stops_recording() {
    let mut e = Editor::for_testing("abc");
    normal(&mut e, Key::Char('q'));
    assert!(e.state.macro_state.recording.is_none());
    e.state.macro_state.recording = Some('a');
    e.state.macro_state.buffer.push(Key::Char('x'));
    e.state.macro_state.buffer.push(Key::Char('q'));
    normal(&mut e, Key::Char('q'));
    assert!(e.state.macro_state.recording.is_none());
    let r = e.state.registers.get(rvi::registers::RegisterId::parse('a'));
    assert_eq!(r.map(|c| c.text().to_string()), Some("x".to_string()));
}

#[test]
fn normal_simple_action_outcome() {
    let mut e = Editor::for_testing("abc");
    match normal(&mut e, Key::Char('x')) {
        NormalOutcome::Simple(SimpleOutcome::Done) => {},
        _ => panic!("expected a simple outcome"),
    }
    assert_eq!(line(&e, 0), Some("bc".to_string()));
    normal(&mut e, Key::Char('u'));
    assert_eq!(line(&e, 0), Some("abc".to_string()));
}

#[test]
fn normal_unknown_key_does_nothing() {
    let mut e = Editor::for_testing("abc");
    normal(&mut e, Key::Char('Q'));
    assert_eq!(line(&e, 0), Some("abc".to_string()));
    assert_eq!(e.document.cursor, Cursor::new(0, 0));
    assert_eq!(e.state.mode, Mode::Normal);
}

// ---------------------------------------------------------------------
// Ex commands
// ---------------------------------------------------------------------

#[test]
fn test_show_args_empty() {
    let mut editor = Editor::for_testing("hello");
    editor.execute_ex_command(ExCommand::ShowArgs);
    let msg = status(&editor).unwrap_or_default();
    assert!(msg.contains("no argument"));
}

#[test]
fn ex_show_args_brackets_current() {
    let mut e = Editor::for_testing("hello");
    e.state.file_navigation.arg_list = vec!["a.txt".to_string(), "b.txt".to_string(), "c".to_string()];
    e.state.file_navigation.arg_idx = 1;
    e.execute_ex_command(ExCommand::ShowArgs);
    assert_eq!(status(&e), Some("a.txt  [b.txt]  c".to_string()));
}

#[test]
fn ex_write_without_name_is_refused() {
    let mut e = Editor::for_testing("hello");
    assert!(matches!(e.execute_ex_command(ExCommand::Write), ExOutcome::Done));
    assert_eq!(status(&e), Some("File not found: No filename".to_string()));
}

#[test]
fn ex_write_quit_hands_out_write() {
    let mut e = Editor::for_testing("a\nb");
    e.document.file_path = Some("/tmp/x.txt".to_string());
    match e.execute_ex_command(ExCommand::WriteQuit) {
        ExOutcome::Write { req, then } => {
            assert_eq!(req.path, "/tmp/x.txt");
            assert_eq!(req.content, "a\nb\n");
            assert!(!req.rename);
            assert_eq!(then, AfterWrite::Quit);
        },
        _ => panic!("expected a write"),
    }
    assert!(!e.state.should_quit);
}

#[test]
fn ex_readonly_refuses_plain_write_only() {
    let mut e = Editor::for_testing("a");
    e.document.file_path = Some("f".to_string());
    e.state.settings.readonly = true;
    assert!(matches!(e.execute_ex_command(ExCommand::Write), ExOutcome::Done));
    assert_eq!(status(&e), Some("File is read-only: File is read-only (add ! to override)".to_string()));
    assert!(matches!(e.execute_ex_command(ExCommand::ForceWrite), ExOutcome::Write { .. }));
}

#[test]
fn ex_write_as_expands_name() {
    let mut e = Editor::for_testing("a");
    e.document.filename = Some("cur.txt".to_string());
    match e.execute_ex_command(ExCommand::WriteAs("%.bak".to_string())) {
        ExOutcome::Write { req, then } => {
            assert_eq!(req.path, "cur.txt.bak");
            assert!(req.rename);
            assert_eq!(then, AfterWrite::Stay);
        },
        _ => panic!("expected a write"),
    }
    let mut e = Editor::for_testing("a");
    assert!(matches!(e.execute_ex_command(ExCommand::WriteAs("#".to_string())), ExOutcome::Done));
    assert!(matches!(e.state.status_message, Some(StatusMessage::Error(_))));
}

#[test]
fn ex_quit_guards_unwritten_change() {
    let mut e = Editor::for_testing("a");
    e.document.modified = true;
    e.execute_ex_command(ExCommand::Quit);
    assert!(!e.state.should_quit);
    assert_eq!(status(&e), Some("No write since last change (add ! to override)".to_string()));
    e.execute_ex_command(ExCommand::ForceQuit);
    assert!(e.state.should_quit);

    let mut e = Editor::for_testing("a");
    e.execute_ex_command(ExCommand::Quit);
    assert!(e.state.should_quit);
}

#[test]
fn ex_quit_with_autowrite_writes_then_retries() {
    let mut e = Editor::for_testing("a");
    e.document.modified = true;
    e.document.file_path = Some("f".to_string());
    e.state.settings.autowrite = true;
    match e.execute_ex_command(ExCommand::Quit) {
        ExOutcome::Write { then, .. } => assert_eq!(then, AfterWrite::Retry),
        _ => panic!("expected a write"),
    }
}

#[test]
fn ex_write_quit_if_modified() {
    let mut e = Editor::for_testing("a");
    e.execute_ex_command(ExCommand::WriteQuitIfModified);
    assert!(e.state.should_quit);
}

#[test]
fn ex_edit_opens_and_force_edit_reloads() {
    let mut e = Editor::for_testing("a");
    e.document.filename = Some("old.txt".to_string());
    match e.execute_ex_command(ExCommand::Edit("new.txt".to_string())) {
        ExOutcome::Open { path, prev } => {
            assert_eq!(path, "new.txt");
            assert_eq!(prev, Some("old.txt".to_string()));
        },
        _ => panic!("expected an open"),
    }
    match e.execute_ex_command(ExCommand::ForceEdit) {
        ExOutcome::Load { path } => assert_eq!(path, "old.txt"),
        _ => panic!("expected a load"),
    }
    let mut e = Editor::for_testing("a");
    e.execute_ex_command(ExCommand::ForceEdit);
    assert_eq!(status(&e), Some("No file name".to_string()));
}

#[test]
fn ex_goto_line() {
    let mut e = Editor::for_testing("a\n  b\nc");
    e.execute_ex_command(ExCommand::GotoLine(2));
    assert_eq!(e.document.cursor, Cursor::new(1, 2));
    e.execute_ex_command(ExCommand::GotoLine(5));
    assert_eq!(status(&e), Some("Invalid line number: 5".to_string()));
    e.execute_ex_command(ExCommand::GotoLine(0));
    assert_eq!(status(&e), Some("Invalid line number: 0".to_string()));
}

#[test]
fn ex_print_line_number_and_version() {
    let mut e = Editor::for_testing("a\nb\nc");
    e.execute_ex_command(ExCommand::PrintLineNumber(1));
    assert_eq!(status(&e), Some("2/3".to_string()));
    e.execute_ex_command(ExCommand::Version);
    assert_eq!(status(&e), Some("rvi version 0.1.0".to_string()));
}

#[test]
fn ex_line_commands_dispatch() {
    let mut e = Editor::for_testing("a\nb\nc");
    e.execute_ex_command(ExCommand::DeleteLines { range: SubstituteRange::Line(1), register: None });
    assert_eq!(e.document.buffer.lines().to_vec(), vec!["a".to_string(), "c".to_string()]);
    e.execute_ex_command(ExCommand::CopyLines { range: SubstituteRange::Line(0), dest: 2 });
    assert_eq!(e.document.buffer.lines().to_vec(), vec!["a".to_string(), "c".to_string(), "a".to_string()]);
    e.execute_ex_command(ExCommand::JoinLines { range: SubstituteRange::Range { start: 0, end: 1 } });
    assert_eq!(e.document.buffer.lines().to_vec(), vec!["a c".to_string(), "a".to_string()]);
}

#[test]
fn ex_abbreviations_and_marks() {
    let mut e = Editor::for_testing("abc");
    e.execute_ex_command(ExCommand::Abbreviate { lhs: "hw".to_string(), rhs: "hello".to_string() });
    assert_eq!(e.state.mappings.abbreviations.len(), 1);
    e.execute_ex_command(ExCommand::Unabbreviate { lhs: "hw".to_string() });
    assert_eq!(e.state.mappings.abbreviations.len(), 0);
    e.document.cursor = Cursor::new(0, 2);
    e.execute_ex_command(ExCommand::SetMark('a'));
    assert_eq!(e.state.navigation.marks.get(&('a' as u32)), Some(&Cursor::new(0, 2)));
    assert!(e.state.status_message.is_none());
}

#[test]
fn ex_io_commands_go_to_caller() {
    let mut e = Editor::for_testing("abc");
    e.document.filename = Some("cur".to_string());
    match e.execute_ex_command(ExCommand::ReadFile("%".to_string())) {
        ExOutcome::Run(ExCommand::ReadFile(p)) => assert_eq!(p, "cur"),
        _ => panic!("expected a read"),
    }
    assert!(matches!(e.execute_ex_command(ExCommand::Suspend), ExOutcome::Run(ExCommand::Suspend)));
    e.document.modified = true;
    match e.execute_ex_command(ExCommand::Shell("ls".to_string())) {
        ExOutcome::Run(ExCommand::Shell(c)) => assert_eq!(c, "ls"),
        _ => panic!("expected a shell command"),
    }
    assert_eq!(status(&e), Some("No write since last change".to_string()));
}

#[test]
fn ex_rewind_args() {
    let mut e = Editor::for_testing("abc");
    e.execute_ex_command(ExCommand::RewindArgs);
    assert_eq!(status(&e), Some("(no argument list)".to_string()));
    e.state.file_navigation.arg_list = vec!["one".to_string(), "two".to_string()];
    e.state.file_navigation.arg_idx = 1;
    match e.execute_ex_command(ExCommand::RewindArgs) {
        ExOutcome::Args(rvi::editor::files::ArgStep::Open { index, path }) => {
            assert_eq!(index, 0);
            assert_eq!(path, "one");
        },
        _ => panic!("expected an open of the first argument"),
    }
}

// ---------------------------------------------------------------------
// Visual mode
// ---------------------------------------------------------------------

fn vis(e: &mut Editor, key: Key, kind: VisualKind) -> VisualOutcome {
    e.handle_visual_key(key, kind).unwrap()
}

#[test]
fn visual_delete_and_yank() {
    let mut e = Editor::for_testing("hello world");
    normal(&mut e, Key::Char('v'));
    vis(&mut e, Key::Char('l'), VisualKind::Character);
    vis(&mut e, Key::Char('l'), VisualKind::Character);
    vis(&mut e, Key::Char('d'), VisualKind::Character);
    assert_eq!(line(&e, 0), Some("lo world".to_string()));
    assert_eq!(e.state.mode, Mode::Normal);

    let mut e = Editor::for_testing("one\ntwo\nthree");
    normal(&mut e, Key::Char('V'));
    vis(&mut e, Key::Char('j'), VisualKind::Line);
    vis(&mut e, Key::Char('y'), VisualKind::Line);
    assert_eq!(e.state.mode, Mode::Normal);
    let r = e.state.registers.get(None).map(|c| c.text().to_string());
    assert_eq!(r, Some("one\ntwo\n".to_string()));
}

#[test]
fn visual_exit_switch_and_case() {
    let mut e = Editor::for_testing("abc");
    normal(&mut e, Key::Char('v'));
    vis(&mut e, Key::Char('V'), VisualKind::Character);
    assert_eq!(e.state.mode, Mode::Visual(VisualKind::Line));
    vis(&mut e, Key::Char('V'), VisualKind::Line);
    assert_eq!(e.state.mode, Mode::Normal);

    let mut e = Editor::for_testing("abc");
    normal(&mut e, Key::Char('v'));
    vis(&mut e, Key::Char('$'), VisualKind::Character);
    vis(&mut e, Key::Char('~'), VisualKind::Character);
    assert_eq!(line(&e, 0), Some("ABC".to_string()));

    let mut e = Editor::for_testing("abc");
    normal(&mut e, Key::Char('V'));
    vis(&mut e, Key::Char('>'), VisualKind::Line);
    assert_eq!(line(&e, 0), Some("        abc".to_string()));
    assert_eq!(e.state.mode, Mode::Normal);
}

#[test]
fn visual_unsupported_keys_change_nothing() {
    let mut e = Editor::for_testing("abc");
    normal(&mut e, Key::Char('v'));
    assert_eq!(vis(&mut e, Key::Char('c'), VisualKind::Character), VisualOutcome::Unsupported);
    assert_eq!(e.state.mode, Mode::Visual(VisualKind::Character));
    assert_eq!(line(&e, 0), Some("abc".to_string()));
    vis(&mut e, Key::Esc, VisualKind::Character);
    assert_eq!(e.state.mode, Mode::Normal);
}

// ---------------------------------------------------------------------
// Line operators
// ---------------------------------------------------------------------

#[test]
fn line_operators_delete_yank_shift_case() {
    let mut e = Editor::for_testing("one\ntwo\nthree");
    let r = e.execute_linewise_operator(Operator::Delete, 2, None).unwrap();
    assert_eq!(r, LineOperatorOutcome::Done);
    assert_eq!(e.document.buffer.lines().to_vec(), vec!["three".to_string()]);
    assert!(e.state.last_change.is_some());
    e.apply_undo().unwrap();
    assert_eq!(e.document.buffer.lines().to_vec(), vec!["one".to_string(), "two".to_string(), "three".to_string()]);

    let mut e = Editor::for_testing("one\ntwo");
    e.execute_linewise_operator(Operator::Yank, 1, None).unwrap();
    let r = e.state.registers.get(None).map(|c| c.text().to_string());
    assert_eq!(r, Some("one\n".to_string()));

    let mut e = Editor::for_testing("ab\ncd\nef");
    e.execute_linewise_operator(Operator::Uppercase, 2, None).unwrap();
    assert_eq!(e.document.buffer.lines().to_vec(), vec!["AB".to_string(), "CD".to_string(), "ef".to_string()]);
    assert!(e.document.modified);

    let mut e = Editor::for_testing("x");
    e.execute_linewise_operator(Operator::IndentRight, 1, None).unwrap();
    assert_eq!(line(&e, 0), Some("        x".to_string()));
    e.execute_linewise_operator(Operator::IndentLeft, 1, None).unwrap();
    assert_eq!(line(&e, 0), Some("x".to_string()));
}

#[test]
fn line_operators_filter_change_format() {
    let mut e = Editor::for_testing("a\nb\nc");
    let r = e.execute_linewise_operator(Operator::Filter, 5, None).unwrap();
    assert_eq!(r, LineOperatorOutcome::FilterPrompt);
    assert_eq!(e.state.pending_filter_range, Some((0, 2)));
    assert_eq!(e.state.mode, Mode::CommandLine);

    let mut e = Editor::for_testing("a");
    assert_eq!(e.execute_linewise_operator(Operator::Change, 1, None).unwrap(), LineOperatorOutcome::Unsupported);
    assert_eq!(line(&e, 0), Some("a".to_string()));

    // gqq without a text width does nothing.
    let mut e = Editor::for_testing("aaa bbb");
    e.execute_linewise_operator(Operator::Format, 1, None).unwrap();
    assert_eq!(line(&e, 0), Some("aaa bbb".to_string()));
    e.state.settings.textwidth = 4;
    e.execute_linewise_operator(Operator::Format, 1, None).unwrap();
    assert_eq!(e.document.buffer.lines().to_vec(), vec!["aaa".to_string(), "bbb".to_string()]);
}

#[test]
fn operator_keys_dd_and_cancel() {
    let mut e = Editor::for_testing("one\ntwo");
    normal(&mut e, Key::Char('d'));
    assert_eq!(e.state.mode, Mode::OperatorPending(Operator::Delete));
    let r = e.handle_operator_pending_key(Key::Char('d'), Operator::Delete).unwrap();
    assert_eq!(r, LineOperatorOutcome::Done);
    assert_eq!(e.document.buffer.lines().to_vec(), vec!["two".to_string()]);
    assert_eq!(e.state.mode, Mode::Normal);

    normal(&mut e, Key::Char('>'));
    e.handle_operator_pending_key(Key::Esc, Operator::IndentRight).unwrap();
    assert_eq!(e.state.mode, Mode::Normal);
    assert_eq!(line(&e, 0), Some("two".to_string()));

    normal(&mut e, Key::Char('y'));
    let r = e.handle_operator_pending_key(Key::Char('w'), Operator::Yank).unwrap();
    assert_eq!(r, LineOperatorOutcome::Unsupported);
    assert_eq!(e.state.mode, Mode::Normal);
}

#[test]
fn word_forward_motion() {
    let mut e = Editor::for_testing("hello world");
    normal(&mut e, Key::Char('w'));
    assert_eq!(e.document.cursor, Cursor::new(0, 6));
    normal(&mut e, Key::Char('w'));
    assert_eq!(e.document.cursor, Cursor::new(0, 10));

    let mut e = Editor::for_testing("foo.bar  baz");
    normal(&mut e, Key::Char('w'));
    assert_eq!(e.document.cursor, Cursor::new(0, 3));
    normal(&mut e, Key::Char('w'));
    assert_eq!(e.document.cursor, Cursor::new(0, 4));
    normal(&mut e, Key::Char('w'));
    assert_eq!(e.document.cursor, Cursor::new(0, 9));

    let mut e = Editor::for_testing("a\n\n  b");
    normal(&mut e, Key::Char('w'));
    assert_eq!(e.document.cursor, Cursor::new(1, 0));
    normal(&mut e, Key::Char('w'));
    assert_eq!(e.document.cursor, Cursor::new(2, 2));
    assert_eq!(e.word_forward_target(), Cursor::new(2, 2));
}
