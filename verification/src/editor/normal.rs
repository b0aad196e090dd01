//! One key pressed in normal mode: the decision of what it does, with what
//! is left for the caller (a prompt to open, a tag to look up, a write or
//! read) handed back.

use vstd::prelude::*;
use crate::command::{ModeChangeKind, SimpleAction};
use crate::editor::ex::went_to_line;
use crate::editor::ex_lines::failed_with;
use crate::editor::files::file_info_shown;
use crate::editor::mode_change::{entered_after, session_started};
use crate::editor::movement::{
    at_first_non_blank, half_scrolled_down, half_scrolled_up, lines_scrolled_down, lines_scrolled_up,
    max_col, move_down_post, move_left_post, move_right_post, move_up_post, scrolled_backward,
    scrolled_forward,
};
use crate::editor::simple::{simple_ready, simple_step, SimpleOutcome};
use crate::editor::snapshot::snapshot_updated;
use crate::editor::visual::visual_entered;
use crate::editor::yank_put::recording_stopped;
use crate::editor::case_ops::word_at;
use crate::editor::{Document, Editor, EditorState, MacroState, StatusMessage};
use crate::error::Error;
use crate::mode::{Mode, Operator, VisualKind};
use crate::render::top_showing;
use crate::terminal::Key;

verus! {

/// What a key of normal mode leaves for the caller.
#[derive(Debug)]
pub enum NormalOutcome {
    /// The key is handled.
    Done,
    /// Open the command line with this prompt (`:`, `/` or `?`).
    Prompt(char),
    /// Jump to the tag of this name (Ctrl-]).
    TagJump(String),
    /// Go back in the tag stack (Ctrl-T).
    TagPop,
    /// What the simple command asks of the caller.
    Simple(SimpleOutcome),
}

/// The single-key motions of normal mode.
#[derive(Debug, Clone, Copy, PartialEq, Eq, Structural)]
pub enum KeyMotion {
    /// `h`, Left
    Left,
    /// `l`, Right
    Right,
    /// `k`, Up
    Up,
    /// `j`, Down
    Down,
    /// `0`, Home
    LineStart,
    /// `$`, End
    LineEnd,
    /// `^`
    FirstNonBlank,
    /// `G`
    DocumentEnd,
    /// `w`
    WordForward,
}

/// The motion a key makes, if it is one.
pub open spec fn key_motion(key: Key) -> Option<KeyMotion> {
    match key {
        Key::Char('h') | Key::Left => Some(KeyMotion::Left),
        Key::Char('l') | Key::Right => Some(KeyMotion::Right),
        Key::Char('k') | Key::Up => Some(KeyMotion::Up),
        Key::Char('j') | Key::Down => Some(KeyMotion::Down),
        Key::Char('0') | Key::Home => Some(KeyMotion::LineStart),
        Key::Char('$') | Key::End => Some(KeyMotion::LineEnd),
        Key::Char('^') => Some(KeyMotion::FirstNonBlank),
        Key::Char('G') => Some(KeyMotion::DocumentEnd),
        Key::Char('w') => Some(KeyMotion::WordForward),
        _ => None,
    }
}

/// The simple command a key gives, if it is one.
pub open spec fn key_action(key: Key) -> Option<SimpleAction> {
    match key {
        Key::Char('x') | Key::Delete => Some(SimpleAction::DeleteCharAtCursor),
        Key::Char('X') => Some(SimpleAction::DeleteCharBeforeCursor),
        Key::Char('u') => Some(SimpleAction::Undo),
        Key::Ctrl('r') => Some(SimpleAction::Redo),
        Key::Char('p') => Some(SimpleAction::PutAfter),
        Key::Char('P') => Some(SimpleAction::PutBefore),
        Key::Char('D') => Some(SimpleAction::DeleteToEndOfLine),
        Key::Char('C') => Some(SimpleAction::ChangeToEndOfLine),
        Key::Char('Y') => Some(SimpleAction::YankLine),
        Key::Char('J') => Some(SimpleAction::JoinLines),
        Key::Char('~') => Some(SimpleAction::ToggleCase),
        Key::Char('U') => Some(SimpleAction::UndoLine),
        Key::Ctrl('o') => Some(SimpleAction::JumpBack),
        Key::Tab => Some(SimpleAction::JumpForward),
        Key::Ctrl('^') => Some(SimpleAction::EditAlternateFile),
        _ => None,
    }
}

/// The way into insert or replace mode a key gives, if it is one.
pub open spec fn key_mode_change(key: Key) -> Option<ModeChangeKind> {
    match key {
        Key::Char('i') => Some(ModeChangeKind::InsertBeforeCursor),
        Key::Char('a') => Some(ModeChangeKind::InsertAfterCursor),
        Key::Char('I') => Some(ModeChangeKind::InsertAtFirstNonBlank),
        Key::Char('A') => Some(ModeChangeKind::InsertAtLineEnd),
        Key::Char('o') => Some(ModeChangeKind::OpenLineBelow),
        Key::Char('O') => Some(ModeChangeKind::OpenLineAbove),
        Key::Char('R') => Some(ModeChangeKind::ReplaceMode),
        _ => None,
    }
}

/// The operator a key starts, if it is one.
pub open spec fn key_operator(key: Key) -> Option<Operator> {
    match key {
        Key::Char('d') => Some(Operator::Delete),
        Key::Char('y') => Some(Operator::Yank),
        Key::Char('c') => Some(Operator::Change),
        Key::Char('>') => Some(Operator::IndentRight),
        Key::Char('<') => Some(Operator::IndentLeft),
        Key::Char('!') => Some(Operator::Filter),
        _ => None,
    }
}

/// The kind of visual mode a key enters, if it is one.
pub open spec fn key_visual(key: Key) -> Option<VisualKind> {
    match key {
        Key::Char('v') => Some(VisualKind::Character),
        Key::Char('V') => Some(VisualKind::Line),
        Key::Ctrl('v') => Some(VisualKind::Block),
        _ => None,
    }
}

/// What motion `m` does to the cursor of `e`, giving `e1` (before the view
/// follows).
pub open spec fn key_moved(e: Editor, e1: Editor, m: KeyMotion) -> bool {
    let v = e.document.buffer@;
    let row = e.document.cursor.row;
    match m {
        KeyMotion::Left => move_left_post(e, e1),
        KeyMotion::Right => move_right_post(e, e1),
        KeyMotion::Up => move_up_post(e, e1),
        KeyMotion::Down => move_down_post(e, e1),
        KeyMotion::LineStart => e1 == (Editor {
            document: Document { cursor: crate::buffer::Cursor { row, col: 0 }, ..e.document },
            ..e
        }),
        KeyMotion::LineEnd => e1 == (Editor {
            document: Document {
                cursor: crate::buffer::Cursor {
                    row,
                    col: if row < v.len() {
                        max_col(e.state.mode, v[row as int]) as usize
                    } else {
                        e.document.cursor.col
                    },
                },
                ..e.document
            },
            ..e
        }),
        KeyMotion::FirstNonBlank => at_first_non_blank(e, e1, row as int)
            && e1.document.selection == e.document.selection,
        KeyMotion::DocumentEnd => went_to_line(e, e1, v.len() as usize),
        KeyMotion::WordForward => e1 == (Editor {
            document: Document { cursor: crate::editor::words::word_forward(v, e.document.cursor), ..e.document },
            ..e
        }),
    }
}

/// `e2` is `e1` with the view scrolled to show the cursor's row.
pub open spec fn view_follows(e1: Editor, e2: Editor) -> bool {
    &&& e2.document == e1.document
    &&& e2.state == (EditorState { viewport: e2.state.viewport, ..e1.state })
    &&& e2.state.viewport.spec_height() == e1.state.viewport.spec_height()
    &&& e2.state.viewport.spec_width() == e1.state.viewport.spec_width()
    &&& e2.state.viewport.spec_top() == top_showing(
        e1.state.viewport.spec_top() as int,
        e1.state.viewport.spec_height() as int,
        e1.document.cursor.row as int,
    )
}

/// After a motion that gave `e1`: the view follows the cursor and the line
/// snapshot for `U` is refreshed, giving `e2`.
pub open spec fn settled(e1: Editor, e2: Editor) -> bool {
    exists|e3: Editor| #[trigger] view_follows(e1, e3) && snapshot_updated(e3, e2)
}

/// `e2` is `e` in command-line mode.
pub open spec fn prompting(e: Editor, e2: Editor) -> bool {
    &&& e2.document == e.document
    &&& e2.state == (EditorState { mode: Mode::CommandLine, ..e.state })
}

/// `e1` is `e` with the last recorded key (the `q` just typed) taken off
/// the macro being recorded.
pub open spec fn last_key_dropped(e: Editor, e1: Editor) -> bool {
    &&& e1.document == e.document
    &&& e1.state == (EditorState {
        macro_state: MacroState { buffer: e1.state.macro_state.buffer, ..e.state.macro_state },
        ..e.state
    })
    &&& e1.state.macro_state.buffer@ == if e.state.macro_state.buffer@.len() > 0 {
        e.state.macro_state.buffer@.drop_last()
    } else {
        e.state.macro_state.buffer@
    }
}

/// What key `key` does in normal mode to `e`, leaving `e2` and returning
/// `r`. An operator key waits for what it applies to (operator-pending
/// mode). Keys that begin other longer commands (counts, registers, `r`,
/// `m`, `q` with a register, `z`, `Z`, `g`) do nothing here.
pub open spec fn normal_step(e: Editor, key: Key, e2: Editor, r: Result<NormalOutcome, Error>) -> bool {
    let done = r matches Ok(NormalOutcome::Done);
    if e.state.macro_state.recording is Some && key == Key::Char('q') {
        done && exists|e1: Editor| #[trigger] last_key_dropped(e, e1) && recording_stopped(e1, e2)
    } else if key == Key::Char(':') || key == Key::Char('/') || key == Key::Char('?') {
        prompting(e, e2) && (r matches Ok(NormalOutcome::Prompt(c)) && key == Key::Char(c))
    } else if key == Key::Ctrl('c') {
        &&& done
        &&& e2.document == e.document
        &&& e2.state == (EditorState {
            mode: Mode::Normal,
            status_message: e2.state.status_message,
            ..e.state
        })
        &&& e2.state.status_message matches Some(StatusMessage::Error(s)) && s@ == "Interrupt"@
    } else if key == Key::Ctrl('f') {
        done && scrolled_forward(e, e2, 1)
    } else if key == Key::Ctrl('b') {
        done && scrolled_backward(e, e2, 1)
    } else if key == Key::Ctrl('d') {
        done && half_scrolled_down(e, e2, None)
    } else if key == Key::Ctrl('u') {
        done && half_scrolled_up(e, e2, None)
    } else if key == Key::Ctrl('e') {
        done && lines_scrolled_down(e, e2, 1)
    } else if key == Key::Ctrl('y') {
        done && lines_scrolled_up(e, e2, 1)
    } else if key == Key::Ctrl('g') {
        done && file_info_shown(e, e2)
    } else if key == Key::Ctrl(']') {
        let v = e.document.buffer@;
        let c = e.document.cursor;
        let w = if c.row < v.len() {
            word_at(v[c.row as int], c.col as int)
        } else {
            Seq::empty()
        };
        if w.len() == 0 {
            done && failed_with(e, e2, "No tag name"@)
        } else {
            e2 == e && (r matches Ok(NormalOutcome::TagJump(t)) && t@ == w)
        }
    } else if key == Key::Ctrl('t') {
        e2 == e && r matches Ok(NormalOutcome::TagPop)
    } else if key_visual(key) is Some {
        done && visual_entered(e, e2, key_visual(key)->0, Ok(()))
    } else if key_motion(key) is Some {
        done && exists|e1: Editor| #[trigger] key_moved(e, e1, key_motion(key)->0) && settled(e1, e2)
    } else if key_action(key) is Some {
        match r {
            Ok(NormalOutcome::Simple(so)) => simple_step(e, key_action(key)->0, None, e2, Ok(so)),
            Err(err) => simple_step(e, key_action(key)->0, None, e2, Err(err)),
            _ => false,
        }
    } else if key_mode_change(key) is Some {
        &&& (r is Ok ==> done)
        &&& exists|e1: Editor, e3: Editor, r0: Result<(), Error>|
            #![trigger session_started(e, e1, e3, key_mode_change(key)->0), entered_after(e3, e2, key_mode_change(key)->0, r0)]
            session_started(e, e1, e3, key_mode_change(key)->0) && entered_after(
                e3,
                e2,
                key_mode_change(key)->0,
                r0,
            ) && (r0 is Ok <==> r is Ok) && (r0 is Err ==> r == Err::<NormalOutcome, Error>(r0->Err_0))
    } else if key_operator(key) is Some {
        &&& done
        &&& e2.document == e.document
        &&& e2.state == (EditorState { mode: Mode::OperatorPending(key_operator(key)->0), ..e.state })
    } else {
        e2 == e && done
    }
}

/// The inputs on which `handle_normal_key` works: a well-formed editor
/// with its cursor on a character boundary, and what the command the key
/// gives needs (room for the scroll, the put, the file information).
pub open spec fn normal_ready(e: Editor, key: Key) -> bool {
    &&& e.wf()
    &&& e.cursor_ok()
    &&& e.document.cursor.row < usize::MAX
    &&& key_action(key) matches Some(a) ==> simple_ready(e, a, None)
    &&& key == Key::Ctrl('g') ==> (1 < e.document.cursor.row + 1 < e.document.buffer@.len() ==> (
    e.document.cursor.row + 1) * 100 <= usize::MAX)
    &&& key == Key::Ctrl('f') ==> e.state.viewport.spec_top() + crate::editor::movement::sat_mul(
        crate::editor::movement::page_size(e.state.viewport.spec_height() as int),
        1,
    ) <= usize::MAX
    &&& key == Key::Ctrl('d') ==> {
        let h = crate::editor::movement::half_amount(
            None,
            e.state.scroll_half_size,
            e.state.viewport.spec_height() as int,
        );
        e.state.viewport.spec_top() + h <= usize::MAX && e.document.cursor.row + h <= usize::MAX
    }
    &&& key == Key::Ctrl('e') ==> e.state.viewport.spec_top() + 1 <= usize::MAX
    &&& key == Key::Ctrl('y') ==> crate::editor::movement::sat_sub(e.state.viewport.spec_top() as int, 1)
        + crate::editor::movement::sat_sub(e.state.viewport.spec_height() as int, 1) <= usize::MAX
}

impl Editor {
    /// After a motion: scroll the cursor's row into view and refresh the
    /// line snapshot for `U`.
    fn settle(&mut self)
        ensures
            settled(*old(self), *final(self)),
    {
        let row = self.document.cursor.row;
        let n = self.document.buffer.len();
        self.state.viewport.ensure_visible(row, n);
        let ghost e3 = *self;
        self.update_line_snapshot();
        proof {
            assert(view_follows(*old(self), e3));
        }
    }

    /// Make motion `m`.
    pub(crate) fn key_motion_move(&mut self, m: KeyMotion)
        requires
            old(self).wf(),
            old(self).cursor_ok(),
        ensures
            final(self).wf(),
            key_moved(*old(self), *final(self), m),
    {
        match m {
            KeyMotion::Left => self.move_left(),
            KeyMotion::Right => self.move_right(),
            KeyMotion::Up => self.move_up(),
            KeyMotion::Down => self.move_down(),
            KeyMotion::LineStart => {
                self.document.cursor.col = 0;
            },
            KeyMotion::LineEnd => {
                let row = self.document.cursor.row;
                let col = match self.document.buffer.line(row) {
                    Some(line) => self.max_cursor_col(line),
                    None => self.document.cursor.col,
                };
                self.document.cursor.col = col;
            },
            KeyMotion::FirstNonBlank => self.move_to_first_non_blank(),
            KeyMotion::DocumentEnd => {
                let n = self.document.buffer.len();
                self.goto_line(n);
            },
            KeyMotion::WordForward => {
                let c = self.word_forward_target();
                self.document.cursor = c;
            },
        }
    }
}

impl Editor {
    /// Handle `key` in normal mode, as `normal_step` says: the prompt,
    /// tag and file work it leads to is handed back to the caller.
    #[verifier::spinoff_prover]
    #[verifier::rlimit(100)]
    pub fn handle_normal_key(&mut self, key: Key) -> (r: Result<NormalOutcome, Error>)
        requires
            normal_ready(*old(self), key),
        ensures
            final(self).wf(),
            normal_step(*old(self), key, *final(self), r),
    {
        let is_q = match key {
            Key::Char(c) => c == 'q',
            _ => false,
        };
        if self.state.macro_state.recording.is_some() && is_q {
            self.state.macro_state.buffer.pop();
            let ghost e1 = *self;
            self.stop_macro_recording();
            proof {
                assert(last_key_dropped(*old(self), e1));
            }
            return Ok(NormalOutcome::Done);
        }
        match key {
            Key::Char(c) => {
                if c == ':' || c == '/' || c == '?' {
                    self.state.mode = Mode::CommandLine;
                    return Ok(NormalOutcome::Prompt(c));
                }
            },
            Key::Ctrl(c) => {
                if c == 'c' {
                    self.state.mode = Mode::Normal;
                    self.state.status_message = Some(StatusMessage::Error("Interrupt".to_owned()));
                    return Ok(NormalOutcome::Done);
                } else if c == 'f' {
                    self.scroll_full_screen_forward(1);
                    return Ok(NormalOutcome::Done);
                } else if c == 'b' {
                    self.scroll_full_screen_backward(1);
                    return Ok(NormalOutcome::Done);
                } else if c == 'd' {
                    self.scroll_half_screen_down(None);
                    return Ok(NormalOutcome::Done);
                } else if c == 'u' {
                    self.scroll_half_screen_up(None);
                    return Ok(NormalOutcome::Done);
                } else if c == 'e' {
                    self.scroll_line_down(1);
                    return Ok(NormalOutcome::Done);
                } else if c == 'y' {
                    self.scroll_line_up(1);
                    return Ok(NormalOutcome::Done);
                } else if c == 'g' {
                    self.show_file_info();
                    return Ok(NormalOutcome::Done);
                } else if c == ']' {
                    let word = self.word_under_cursor();
                    if crate::text::str_byte_len(word.as_str()) == 0 {
                        self.state.status_message = Some(StatusMessage::Error("No tag name".to_owned()));
                        return Ok(NormalOutcome::Done);
                    }
                    return Ok(NormalOutcome::TagJump(word));
                } else if c == 't' {
                    return Ok(NormalOutcome::TagPop);
                }
            },
            _ => {},
        }
        match Self::visual_of(key) {
            Some(kind) => {
                let _ = self.enter_visual_mode(kind);
                return Ok(NormalOutcome::Done);
            },
            None => {},
        }
        match Self::motion_of(key) {
            Some(m) => {
                self.key_motion_move(m);
                let ghost e1 = *self;
                self.settle();
                proof {
                    assert(key_moved(*old(self), e1, m));
                }
                return Ok(NormalOutcome::Done);
            },
            None => {},
        }
        match Self::action_of(key) {
            Some(a) => {
                return match self.execute_simple_action_once(a, None) {
                    Ok(so) => Ok(NormalOutcome::Simple(so)),
                    Err(err) => Err(err),
                };
            },
            None => {},
        }
        match Self::mode_change_of(key) {
            Some(kind) => {
                let ghost e0 = *self;
                let r0 = self.execute_mode_change(kind);
                let ghost g0 = r0;
                let ghost e2 = *self;
                let out = match r0 {
                    Ok(()) => Ok(NormalOutcome::Done),
                    Err(err) => Err(err),
                };
                let ghost gout = out;
                proof {
                    assert(e0 == *old(self));
                    let (e1, e3) = choose|e1: Editor, e3: Editor|
                        #[trigger] session_started(e0, e1, e3, kind) && entered_after(e3, e2, kind, g0);
                    assert(session_started(*old(self), e1, e3, key_mode_change(key)->0) && entered_after(
                        e3,
                        e2,
                        key_mode_change(key)->0,
                        g0,
                    ));
                }
                return out;
            },
            None => {},
        }
        match Self::operator_of(key) {
            Some(op) => {
                self.state.mode = Mode::OperatorPending(op);
            },
            None => {},
        }
        Ok(NormalOutcome::Done)
    }

    /// `key_operator`, computed.
    fn operator_of(key: Key) -> (r: Option<Operator>)
        ensures
            r == key_operator(key),
    {
        match key {
            Key::Char('d') => Some(Operator::Delete),
            Key::Char('y') => Some(Operator::Yank),
            Key::Char('c') => Some(Operator::Change),
            Key::Char('>') => Some(Operator::IndentRight),
            Key::Char('<') => Some(Operator::IndentLeft),
            Key::Char('!') => Some(Operator::Filter),
            _ => None,
        }
    }

    /// `key_visual`, computed.
    fn visual_of(key: Key) -> (r: Option<VisualKind>)
        ensures
            r == key_visual(key),
    {
        match key {
            Key::Char('v') => Some(VisualKind::Character),
            Key::Char('V') => Some(VisualKind::Line),
            Key::Ctrl('v') => Some(VisualKind::Block),
            _ => None,
        }
    }

    /// `key_motion`, computed.
    fn motion_of(key: Key) -> (r: Option<KeyMotion>)
        ensures
            r == key_motion(key),
    {
        match key {
            Key::Char('h') | Key::Left => Some(KeyMotion::Left),
            Key::Char('l') | Key::Right => Some(KeyMotion::Right),
            Key::Char('k') | Key::Up => Some(KeyMotion::Up),
            Key::Char('j') | Key::Down => Some(KeyMotion::Down),
            Key::Char('0') | Key::Home => Some(KeyMotion::LineStart),
            Key::Char('$') | Key::End => Some(KeyMotion::LineEnd),
            Key::Char('^') => Some(KeyMotion::FirstNonBlank),
            Key::Char('G') => Some(KeyMotion::DocumentEnd),
            Key::Char('w') => Some(KeyMotion::WordForward),
            _ => None,
        }
    }

    /// `key_action`, computed.
    fn action_of(key: Key) -> (r: Option<SimpleAction>)
        ensures
            r == key_action(key),
    {
        match key {
            Key::Char('x') | Key::Delete => Some(SimpleAction::DeleteCharAtCursor),
            Key::Char('X') => Some(SimpleAction::DeleteCharBeforeCursor),
            Key::Char('u') => Some(SimpleAction::Undo),
            Key::Ctrl('r') => Some(SimpleAction::Redo),
            Key::Char('p') => Some(SimpleAction::PutAfter),
            Key::Char('P') => Some(SimpleAction::PutBefore),
            Key::Char('D') => Some(SimpleAction::DeleteToEndOfLine),
            Key::Char('C') => Some(SimpleAction::ChangeToEndOfLine),
            Key::Char('Y') => Some(SimpleAction::YankLine),
            Key::Char('J') => Some(SimpleAction::JoinLines),
            Key::Char('~') => Some(SimpleAction::ToggleCase),
            Key::Char('U') => Some(SimpleAction::UndoLine),
            Key::Ctrl('o') => Some(SimpleAction::JumpBack),
            Key::Tab => Some(SimpleAction::JumpForward),
            Key::Ctrl('^') => Some(SimpleAction::EditAlternateFile),
            _ => None,
        }
    }

    /// `key_mode_change`, computed.
    fn mode_change_of(key: Key) -> (r: Option<ModeChangeKind>)
        ensures
            r == key_mode_change(key),
    {
        match key {
            Key::Char('i') => Some(ModeChangeKind::InsertBeforeCursor),
            Key::Char('a') => Some(ModeChangeKind::InsertAfterCursor),
            Key::Char('I') => Some(ModeChangeKind::InsertAtFirstNonBlank),
            Key::Char('A') => Some(ModeChangeKind::InsertAtLineEnd),
            Key::Char('o') => Some(ModeChangeKind::OpenLineBelow),
            Key::Char('O') => Some(ModeChangeKind::OpenLineAbove),
            Key::Char('R') => Some(ModeChangeKind::ReplaceMode),
            _ => None,
        }
    }
}

} // verus!
