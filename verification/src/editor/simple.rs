//! The simple commands of normal mode (`x`, `X`, `r`, `u`, `p`, `D`, `C`,
//! `~`, marks and jumps, `zt`, `ZZ`, ...): one execution each.

use vstd::prelude::*;
use crate::buffer::Cursor;
use crate::command::{Motion, RepeatableChange, SimpleAction};
use crate::editor::editing::{case_toggled_at_cursor, char_deleted_before_cursor};
use crate::editor::files::{file_info_shown, opt_view, SaveRequest};
use crate::editor::history::{redone, undone};
use crate::editor::jumps::{jump_back_post, jump_forward_post, jump_pushed, jumped_to_mark};
use crate::editor::movement::{cursor_scrolled_bottom, cursor_scrolled_middle, cursor_scrolled_top};
use crate::editor::put::{put_post, put_ready};
use crate::editor::replace::char_replaced;
use crate::editor::snapshot::line_undone;
use crate::editor::visual::{mark_key, with_undo};
use crate::editor::yank_put::{char_deleted_at_cursor, deleted_to_end, recording_stopped, yank_lines_post};
use crate::editor::{Document, Editor, EditorState, InsertState, MacroState, NavigationState, StatusMessage};
use crate::error::Error;
use crate::mode::{Mode, Operator};
use crate::text::byte_len;
use crate::undo::{begun, ended};

verus! {

broadcast use vstd::std_specs::hash::group_hash_axioms;

/// What a simple command leaves for the caller to do: nothing, or a write
/// or a read that only the caller can make.
#[derive(Debug)]
pub enum SimpleOutcome {
    /// The command is done.
    Done,
    /// `ZZ` on a modified document: make the write, then `quit_after_write`.
    WriteAndQuit(SaveRequest),
    /// Ctrl-^: read the alternate file, then `open_alternate`.
    OpenAlternate(String),
    /// Ctrl-^ with `autowrite` on a modified document: make the write
    /// (then `finish_save`), read the alternate file, then `open_alternate`.
    WriteThenOpen(SaveRequest, String),
}

/// `e1` is `e` with an undo group opened at the cursor.
pub open spec fn group_opened(e: Editor, e1: Editor) -> bool {
    &&& e1 == with_undo(e, e1.state.undo_history)
    &&& begun(e.state.undo_history, e1.state.undo_history, e.document.cursor, e.document.modified)
}

/// `e2` is `e3` with the undo group closed at the cursor when `r` is `Ok`;
/// else `e3` itself (an error leaves the group open).
pub open spec fn group_closed<T>(e3: Editor, e2: Editor, r: Result<T, Error>) -> bool {
    if r is Ok {
        &&& e2 == with_undo(e3, e2.state.undo_history)
        &&& ended(e3.state.undo_history, e2.state.undo_history, e3.document.cursor)
    } else {
        e2 == e3
    }
}

/// `e2` is `e` after an undo group was opened, the step `f` made from
/// `e1` to `e3` with outcome `r`, and the group closed.
pub open spec fn in_group(
    e: Editor,
    e2: Editor,
    r: Result<(), Error>,
    f: spec_fn(Editor, Editor, Result<(), Error>) -> bool,
) -> bool {
    exists|e1: Editor, e3: Editor|
        #![trigger group_opened(e, e1), group_closed(e3, e2, r)]
        group_opened(e, e1) && f(e1, e3, r) && group_closed(e3, e2, r)
}

/// The step of `x` with `register`, from one editor to the next with its result.
pub open spec fn x_step(register: Option<char>) -> spec_fn(Editor, Editor, Result<(), Error>) -> bool {
    |a: Editor, b: Editor, rr: Result<(), Error>| char_deleted_at_cursor(a, b, register, rr)
}

/// The step of `X` with `register`, from one editor to the next with its result.
pub open spec fn big_x_step(register: Option<char>) -> spec_fn(Editor, Editor, Result<(), Error>) -> bool {
    |a: Editor, b: Editor, rr: Result<(), Error>| char_deleted_before_cursor(a, b, register, rr)
}

/// The step of `r` with `ch`, from one editor to the next with its result.
pub open spec fn r_step(ch: char) -> spec_fn(Editor, Editor, Result<(), Error>) -> bool {
    |a: Editor, b: Editor, rr: Result<(), Error>| char_replaced(a, b, ch, rr)
}

/// The step of `p` with `register`, from one editor to the next with its result.
pub open spec fn p_step(register: Option<char>) -> spec_fn(Editor, Editor, Result<(), Error>) -> bool {
    |a: Editor, b: Editor, rr: Result<(), Error>| put_post(a, b, register, true, rr)
}

/// The step of `P` with `register`, from one editor to the next with its result.
pub open spec fn big_p_step(register: Option<char>) -> spec_fn(Editor, Editor, Result<(), Error>) -> bool {
    |a: Editor, b: Editor, rr: Result<(), Error>| put_post(a, b, register, false, rr)
}

/// The step of `D` with `register`, from one editor to the next with its result.
pub open spec fn big_d_step(register: Option<char>) -> spec_fn(Editor, Editor, Result<(), Error>) -> bool {
    |a: Editor, b: Editor, rr: Result<(), Error>| deleted_to_end(a, b, register, rr)
}

/// The step of `~`, from one editor to the next with its result.
pub open spec fn tilde_step() -> spec_fn(Editor, Editor, Result<(), Error>) -> bool {
    |a: Editor, b: Editor, rr: Result<(), Error>| case_toggled_at_cursor(a, b, rr)
}

/// `e2` is `e` with the status message `Error(m)` and nothing else changed.
pub open spec fn failed(e: Editor, e2: Editor, m: Seq<char>) -> bool {
    &&& e2.document == e.document
    &&& e2.state == (EditorState { status_message: e2.state.status_message, ..e.state })
    &&& e2.state.status_message matches Some(StatusMessage::Error(s)) && s@ == m
}

/// `e2` is `e` with only `should_quit` set.
pub open spec fn quitting(e: Editor, e2: Editor) -> bool {
    e2 == (Editor { state: EditorState { should_quit: true, ..e.state }, ..e })
}

/// What `C` does to `e`, giving `e2` and `r`: an undo group opens (and
/// stays open for the insert session), the rest of the line is deleted
/// into `register`, the cursor goes past the end of its line, insert mode
/// starts with a fresh key record, and `.` is to repeat a change to the
/// end of the line (unless a `.` is being replayed).
pub open spec fn changed_to_end(e: Editor, e2: Editor, register: Option<char>, r: Result<(), Error>) -> bool {
    exists|e1: Editor, e3: Editor|
        #![trigger group_opened(e, e1), deleted_to_end(e1, e3, register, r)]
        {
            &&& group_opened(e, e1)
            &&& deleted_to_end(e1, e3, register, r)
            &&& r is Ok
            &&& e2.document == (Document {
                cursor: Cursor {
                    row: e3.document.cursor.row,
                    col: if e3.document.cursor.row < e3.document.buffer@.len() {
                        byte_len(e3.document.buffer@[e3.document.cursor.row as int]) as usize
                    } else {
                        e3.document.cursor.col
                    },
                },
                ..e3.document
            })
            &&& e2.state == (EditorState {
                mode: Mode::Insert,
                insert_state: e2.state.insert_state,
                last_change: e2.state.last_change,
                ..e3.state
            })
            &&& e2.state.insert_state == (InsertState {
                insert_keys: e2.state.insert_state.insert_keys,
                insert_entry_kind: None,
                ..e3.state.insert_state
            })
            &&& e2.state.insert_state.insert_keys@.len() == 0
            &&& e2.state.last_change == if !e.state.insert_state.replaying_dot {
                Some(
                    RepeatableChange::OperatorMotion {
                        operator: Operator::Change,
                        motion: Motion::LineEnd,
                        count: 1,
                        register,
                        insert_keys: None,
                        linewise_self: false,
                    },
                )
            } else {
                e.state.last_change
            }
        }
}

/// The status message that starts recording into register `ch`.
pub open spec fn recording_message(ch: char) -> Seq<char> {
    "recording @"@.push(ch)
}

/// What `ZZ` does to `e`, giving `e2` and `r`: an unmodified document is
/// left at once; a modified one is to be written first (a write refused
/// here shows its error and stays).
pub open spec fn write_quit_step(e: Editor, e2: Editor, r: Result<SimpleOutcome, Error>) -> bool {
    if !e.document.modified {
        r matches Ok(SimpleOutcome::Done) && quitting(e, e2)
    } else if e.state.settings.readonly {
        r matches Ok(SimpleOutcome::Done) && failed(e, e2, "File is read-only: "@ + crate::editor::files::read_only_message())
    } else {
        match e.document.file_path {
            None => r matches Ok(SimpleOutcome::Done) && failed(e, e2, "File not found: "@ + "No filename"@),
            Some(p) => e2 == e && (r matches Ok(SimpleOutcome::WriteAndQuit(q)) && q.path@ == p@
                && !q.rename && q.content@ == crate::file::writer::file_text(
                e.document.buffer@,
                e.document.line_ending,
            )),
        }
    }
}

/// What Ctrl-^ does to `e`, giving `e2` and `r`: without an alternate
/// file, an error; with one, a modified document is written first when
/// `autowrite` is on and is otherwise refused; then the alternate file is
/// to be read and opened.
pub open spec fn alternate_step(e: Editor, e2: Editor, r: Result<SimpleOutcome, Error>) -> bool {
    match e.state.file_navigation.alternate_file {
        None => r matches Ok(SimpleOutcome::Done) && failed(e, e2, "No alternate file"@),
        Some(alt) => if e.document.modified && e.state.settings.autowrite {
            if e.state.settings.readonly {
                r matches Ok(SimpleOutcome::Done) && failed(e, e2, "File is read-only: "@ + crate::editor::files::read_only_message())
            } else {
                match e.document.file_path {
                    None => r matches Ok(SimpleOutcome::Done) && failed(e, e2, "File not found: "@ + "No filename"@),
                    Some(p) => e2 == e && (r matches Ok(SimpleOutcome::WriteThenOpen(q, a)) && a@
                        == alt@ && q.path@ == p@ && !q.rename && q.content@
                        == crate::file::writer::file_text(e.document.buffer@, e.document.line_ending)),
                }
            }
        } else if e.document.modified {
            r matches Ok(SimpleOutcome::Done) && failed(
                e,
                e2,
                "No write since last change (add ! to override)"@,
            )
        } else {
            e2 == e && (r matches Ok(SimpleOutcome::OpenAlternate(a)) && a@ == alt@)
        },
    }
}

/// `r` is `Ok(Done)` when `r0` is `Ok`, else the same error.
pub open spec fn done_as(r: Result<SimpleOutcome, Error>, r0: Result<(), Error>) -> bool {
    match r0 {
        Ok(()) => r matches Ok(SimpleOutcome::Done),
        Err(err) => r == Err::<SimpleOutcome, Error>(err),
    }
}

/// What one execution of `action` (with `register`) does to `e`, giving
/// `e2` and `r`.
pub open spec fn simple_step(
    e: Editor,
    action: SimpleAction,
    register: Option<char>,
    e2: Editor,
    r: Result<SimpleOutcome, Error>,
) -> bool {
    match action {
        SimpleAction::DeleteCharAtCursor => exists|r0: Result<(), Error>|
            #![trigger done_as(r, r0)]
            done_as(r, r0) && in_group(e, e2, r0, x_step(register)),
        SimpleAction::DeleteCharBeforeCursor => exists|r0: Result<(), Error>|
            #![trigger done_as(r, r0)]
            done_as(r, r0) && in_group(e, e2, r0, big_x_step(register)),
        SimpleAction::ReplaceChar(ch) => exists|r0: Result<(), Error>|
            #![trigger done_as(r, r0)]
            done_as(r, r0) && in_group(e, e2, r0, r_step(ch)),
        SimpleAction::Undo => exists|r0: Result<(), Error>|
            #![trigger done_as(r, r0)]
            done_as(r, r0) && undone(e, e2, r0),
        SimpleAction::Redo => exists|r0: Result<(), Error>|
            #![trigger done_as(r, r0)]
            done_as(r, r0) && redone(e, e2, r0),
        SimpleAction::PutAfter => exists|r0: Result<(), Error>|
            #![trigger done_as(r, r0)]
            done_as(r, r0) && in_group(e, e2, r0, p_step(register)),
        SimpleAction::PutBefore => exists|r0: Result<(), Error>|
            #![trigger done_as(r, r0)]
            done_as(r, r0) && in_group(e, e2, r0, big_p_step(register)),
        SimpleAction::DeleteToEndOfLine => exists|r0: Result<(), Error>|
            #![trigger done_as(r, r0)]
            done_as(r, r0) && in_group(e, e2, r0, big_d_step(register)),
        SimpleAction::ChangeToEndOfLine => r matches Ok(SimpleOutcome::Done) && changed_to_end(e, e2, register, Ok(())),
        SimpleAction::YankLine => r matches Ok(SimpleOutcome::Done) && yank_lines_post(e, e2, 1, register),
        SimpleAction::JoinLines => r matches Ok(SimpleOutcome::Done) && e2 == e,
        SimpleAction::JoinLinesNoSpace => r matches Ok(SimpleOutcome::Done) && e2 == e,
        SimpleAction::ToggleCase => exists|r0: Result<(), Error>|
            #![trigger done_as(r, r0)]
            done_as(r, r0) && in_group(e, e2, r0, tilde_step()),
        SimpleAction::SetMark(ch) => {
            &&& r matches Ok(SimpleOutcome::Done)
            &&& e2.document == e.document
            &&& e2.state == (EditorState { navigation: e2.state.navigation, ..e.state })
            &&& e2.state.navigation == (NavigationState {
                marks: e2.state.navigation.marks,
                ..e.state.navigation
            })
            &&& e2.state.navigation.marks@ == e.state.navigation.marks@.insert(mark_key(ch), e.document.cursor)
        },
        SimpleAction::JumpToMark { mark, line_start } => r matches Ok(SimpleOutcome::Done) && exists|e1: Editor|
            #[trigger] jump_pushed(e, e1) && jumped_to_mark(e1, e2, mark, line_start),
        SimpleAction::JumpBack => r matches Ok(SimpleOutcome::Done) && jump_back_post(e, e2),
        SimpleAction::JumpForward => r matches Ok(SimpleOutcome::Done) && jump_forward_post(e, e2),
        SimpleAction::ToggleMacroRecord(ch) => r matches Ok(SimpleOutcome::Done) && if e.state.macro_state.recording is Some {
            recording_stopped(e, e2)
        } else {
            &&& e2.document == e.document
            &&& e2.state == (EditorState {
                macro_state: e2.state.macro_state,
                status_message: e2.state.status_message,
                ..e.state
            })
            &&& e2.state.macro_state == (MacroState {
                recording: Some(ch),
                buffer: e2.state.macro_state.buffer,
                ..e.state.macro_state
            })
            &&& e2.state.macro_state.buffer@.len() == 0
            &&& e2.state.status_message matches Some(StatusMessage::Info(s)) && s@ == recording_message(ch)
        },
        SimpleAction::ScrollCursorTop => r matches Ok(SimpleOutcome::Done) && cursor_scrolled_top(e, e2),
        SimpleAction::ScrollCursorMiddle => r matches Ok(SimpleOutcome::Done) && cursor_scrolled_middle(e, e2),
        SimpleAction::ScrollCursorBottom => r matches Ok(SimpleOutcome::Done) && cursor_scrolled_bottom(e, e2),
        SimpleAction::ShowFileInfo => r matches Ok(SimpleOutcome::Done) && file_info_shown(e, e2),
        SimpleAction::UndoLine => exists|r0: Result<(), Error>|
            #![trigger done_as(r, r0)]
            done_as(r, r0) && line_undone(e, e2, r0),
        SimpleAction::WriteQuit => write_quit_step(e, e2, r),
        SimpleAction::ForceQuit => r matches Ok(SimpleOutcome::Done) && quitting(e, e2),
        SimpleAction::EditAlternateFile => alternate_step(e, e2, r),
    }
}

/// What the simple command `action` needs of `e` beyond well-formedness:
/// the cursor on a character boundary, what a put needs, and room in
/// `usize` for the rows and the status text involved.
pub open spec fn simple_ready(e: Editor, action: SimpleAction, register: Option<char>) -> bool {
    &&& e.wf()
    &&& e.cursor_ok()
    &&& e.document.cursor.row < usize::MAX
    &&& action is PutAfter ==> put_ready(e, register, true)
    &&& action is PutBefore ==> put_ready(e, register, false)
    &&& action is YankLine ==> e.document.cursor.row <= e.document.buffer@.len()
    &&& action is JumpBack ==> e.state.navigation.jump_list_idx < usize::MAX
    &&& action is ShowFileInfo ==> (1 < e.document.cursor.row + 1 < e.document.buffer@.len() ==> (
    e.document.cursor.row + 1) * 100 <= usize::MAX)
}

impl Editor {
    /// Execute the simple command `action` once, with `register` where it
    /// takes one. Editing commands form one undoable change each; an error
    /// leaves their undo group open. A write or read the command needs is
    /// handed back in the outcome for the caller to make.
    #[verifier::spinoff_prover]
    #[verifier::rlimit(100)]
    pub fn execute_simple_action_once(&mut self, action: SimpleAction, register: Option<char>) -> (r:
        Result<SimpleOutcome, Error>)
        requires
            simple_ready(*old(self), action, register),
        ensures
            final(self).wf(),
            simple_step(*old(self), action, register, *final(self), r),
    {
        let ghost e0 = *self;
        let r = match action {
            SimpleAction::DeleteCharAtCursor => {
                self.state.undo_history.begin_group(self.document.cursor, self.document.modified);
                let ghost e1 = *self;
                let r0 = self.delete_char_at_cursor_with_register(register);
                self.grouped_outcome(r0, Ghost(e0), Ghost(e1), Ghost(x_step(register)))
            },
            SimpleAction::DeleteCharBeforeCursor => {
                self.state.undo_history.begin_group(self.document.cursor, self.document.modified);
                let ghost e1 = *self;
                let r0 = self.delete_char_before_cursor_with_register(register);
                self.grouped_outcome(r0, Ghost(e0), Ghost(e1), Ghost(big_x_step(register)))
            },
            SimpleAction::ReplaceChar(ch) => {
                self.state.undo_history.begin_group(self.document.cursor, self.document.modified);
                let ghost e1 = *self;
                let r0 = self.replace_char_at_cursor(ch);
                self.grouped_outcome(r0, Ghost(e0), Ghost(e1), Ghost(r_step(ch)))
            },
            SimpleAction::Undo => {
                let r0 = self.apply_undo();
                proof {
                    assert(done_as(Self::as_done(r0), r0));
                }
                Self::done_of(r0)
            },
            SimpleAction::Redo => {
                let r0 = self.apply_redo();
                proof {
                    assert(done_as(Self::as_done(r0), r0));
                }
                Self::done_of(r0)
            },
            SimpleAction::PutAfter => {
                self.state.undo_history.begin_group(self.document.cursor, self.document.modified);
                let ghost e1 = *self;
                let r0 = self.put_after(register);
                self.grouped_outcome(r0, Ghost(e0), Ghost(e1), Ghost(p_step(register)))
            },
            SimpleAction::PutBefore => {
                self.state.undo_history.begin_group(self.document.cursor, self.document.modified);
                let ghost e1 = *self;
                let r0 = self.put_before(register);
                self.grouped_outcome(r0, Ghost(e0), Ghost(e1), Ghost(big_p_step(register)))
            },
            SimpleAction::DeleteToEndOfLine => {
                self.state.undo_history.begin_group(self.document.cursor, self.document.modified);
                let ghost e1 = *self;
                let r0 = self.delete_to_end_of_line(register);
                self.grouped_outcome(r0, Ghost(e0), Ghost(e1), Ghost(big_d_step(register)))
            },
            SimpleAction::ChangeToEndOfLine => {
                self.state.undo_history.begin_group(self.document.cursor, self.document.modified);
                let ghost e1 = *self;
                let _ = self.delete_to_end_of_line(register);
                let ghost e3 = *self;
                let row = self.document.cursor.row;
                let len = match self.document.buffer.line(row) {
                    Some(line) => Some(crate::text::str_byte_len(line)),
                    None => None,
                };
                match len {
                    Some(n) => {
                        self.document.cursor.col = n;
                    },
                    None => {},
                }
                self.state.mode = Mode::Insert;
                self.state.insert_state.insert_keys.clear();
                self.state.insert_state.insert_entry_kind = None;
                if !self.state.insert_state.replaying_dot {
                    self.state.last_change = Some(
                        RepeatableChange::OperatorMotion {
                            operator: Operator::Change,
                            motion: Motion::LineEnd,
                            count: 1,
                            register,
                            insert_keys: None,
                            linewise_self: false,
                        },
                    );
                }
                proof {
                    assert(group_opened(e0, e1));
                    assert(deleted_to_end(e1, e3, register, Ok(())));
                }
                Ok(SimpleOutcome::Done)
            },
            SimpleAction::YankLine => {
                let _ = self.yank_lines(1, register);
                Ok(SimpleOutcome::Done)
            },
            SimpleAction::JoinLines => Ok(SimpleOutcome::Done),
            SimpleAction::JoinLinesNoSpace => Ok(SimpleOutcome::Done),
            SimpleAction::ToggleCase => {
                self.state.undo_history.begin_group(self.document.cursor, self.document.modified);
                let ghost e1 = *self;
                let r0 = self.toggle_case_at_cursor();
                let ghost e3 = *self;
                proof {
                    assert(case_toggled_at_cursor(e1, e3, r0));
                }
                let out = self.grouped_outcome(r0, Ghost(e0), Ghost(e1), Ghost(tilde_step()));
                out
            },
            SimpleAction::SetMark(ch) => {
                let key: u32 = ch as u32;
                self.state.navigation.marks.insert(key, self.document.cursor);
                Ok(SimpleOutcome::Done)
            },
            SimpleAction::JumpToMark { mark, line_start } => {
                self.push_jump();
                let ghost e1 = *self;
                self.execute_jump_to_mark(mark, line_start);
                proof {
                    assert(jump_pushed(e0, e1));
                }
                Ok(SimpleOutcome::Done)
            },
            SimpleAction::JumpBack => {
                self.execute_jump_back();
                Ok(SimpleOutcome::Done)
            },
            SimpleAction::JumpForward => {
                self.execute_jump_forward();
                Ok(SimpleOutcome::Done)
            },
            SimpleAction::ToggleMacroRecord(ch) => {
                if self.state.macro_state.recording.is_some() {
                    self.stop_macro_recording();
                } else {
                    self.state.macro_state.recording = Some(ch);
                    self.state.macro_state.buffer.clear();
                    let mut m = "recording @".to_owned();
                    crate::text::push_char(&mut m, ch);
                    proof {
                        reveal_strlit("recording @");
                    }
                    self.state.status_message = Some(StatusMessage::Info(m));
                }
                Ok(SimpleOutcome::Done)
            },
            SimpleAction::ScrollCursorTop => {
                self.scroll_cursor_top();
                Ok(SimpleOutcome::Done)
            },
            SimpleAction::ScrollCursorMiddle => {
                self.scroll_cursor_middle();
                Ok(SimpleOutcome::Done)
            },
            SimpleAction::ScrollCursorBottom => {
                self.scroll_cursor_bottom();
                Ok(SimpleOutcome::Done)
            },
            SimpleAction::ShowFileInfo => {
                self.show_file_info();
                Ok(SimpleOutcome::Done)
            },
            SimpleAction::UndoLine => {
                let r0 = self.execute_undo_line();
                proof {
                    assert(done_as(Self::as_done(r0), r0));
                }
                Self::done_of(r0)
            },
            SimpleAction::WriteQuit => {
                if self.document.modified {
                    match self.save_file() {
                        Err(err) => {
                            let m = err.to_string();
                            self.state.status_message = Some(StatusMessage::Error(m));
                            Ok(SimpleOutcome::Done)
                        },
                        Ok(req) => Ok(SimpleOutcome::WriteAndQuit(req)),
                    }
                } else {
                    self.state.should_quit = true;
                    Ok(SimpleOutcome::Done)
                }
            },
            SimpleAction::ForceQuit => {
                self.state.should_quit = true;
                Ok(SimpleOutcome::Done)
            },
            SimpleAction::EditAlternateFile => {
                match self.state.file_navigation.alternate_file.clone() {
                    None => {
                        self.state.status_message = Some(StatusMessage::Error("No alternate file".to_owned()));
                        Ok(SimpleOutcome::Done)
                    },
                    Some(alt) => {
                        if self.document.modified && self.state.settings.autowrite {
                            match self.save_file() {
                                Err(err) => {
                                    let m = err.to_string();
                                    self.state.status_message = Some(StatusMessage::Error(m));
                                    Ok(SimpleOutcome::Done)
                                },
                                Ok(req) => Ok(SimpleOutcome::WriteThenOpen(req, alt)),
                            }
                        } else if self.document.modified {
                            self.state.status_message = Some(
                                StatusMessage::Error("No write since last change (add ! to override)".to_owned()),
                            );
                            Ok(SimpleOutcome::Done)
                        } else {
                            Ok(SimpleOutcome::OpenAlternate(alt))
                        }
                    },
                }
            },
        };
        proof {
            match action {
                SimpleAction::DeleteCharAtCursor => { assert(simple_step(e0, action, register, *self, r)); },
                SimpleAction::DeleteCharBeforeCursor => { assert(simple_step(e0, action, register, *self, r)); },
                SimpleAction::ReplaceChar(_) => { assert(simple_step(e0, action, register, *self, r)); },
                SimpleAction::Undo => { assert(simple_step(e0, action, register, *self, r)); },
                SimpleAction::Redo => { assert(simple_step(e0, action, register, *self, r)); },
                SimpleAction::PutAfter => { assert(simple_step(e0, action, register, *self, r)); },
                SimpleAction::PutBefore => { assert(simple_step(e0, action, register, *self, r)); },
                SimpleAction::DeleteToEndOfLine => { assert(simple_step(e0, action, register, *self, r)); },
                SimpleAction::ChangeToEndOfLine => { assert(simple_step(e0, action, register, *self, r)); },
                SimpleAction::YankLine => { assert(simple_step(e0, action, register, *self, r)); },
                SimpleAction::JoinLines => { assert(simple_step(e0, action, register, *self, r)); },
                SimpleAction::JoinLinesNoSpace => { assert(simple_step(e0, action, register, *self, r)); },
                SimpleAction::ToggleCase => { assert(simple_step(e0, action, register, *self, r)); },
                SimpleAction::SetMark(_) => { assert(simple_step(e0, action, register, *self, r)); },
                SimpleAction::JumpToMark { .. } => { assert(simple_step(e0, action, register, *self, r)); },
                SimpleAction::JumpBack => { assert(simple_step(e0, action, register, *self, r)); },
                SimpleAction::JumpForward => { assert(simple_step(e0, action, register, *self, r)); },
                SimpleAction::ToggleMacroRecord(_) => { assert(simple_step(e0, action, register, *self, r)); },
                SimpleAction::ScrollCursorTop => { assert(simple_step(e0, action, register, *self, r)); },
                SimpleAction::ScrollCursorMiddle => { assert(simple_step(e0, action, register, *self, r)); },
                SimpleAction::ScrollCursorBottom => { assert(simple_step(e0, action, register, *self, r)); },
                SimpleAction::ShowFileInfo => { assert(simple_step(e0, action, register, *self, r)); },
                SimpleAction::UndoLine => { assert(simple_step(e0, action, register, *self, r)); },
                SimpleAction::WriteQuit => { assert(simple_step(e0, action, register, *self, r)); },
                SimpleAction::ForceQuit => { assert(simple_step(e0, action, register, *self, r)); },
                SimpleAction::EditAlternateFile => { assert(simple_step(e0, action, register, *self, r)); },
            }
        }
        r
    }

    /// The outcome `Done` for `Ok`, or the same error.
    fn done_of(r0: Result<(), Error>) -> (r: Result<SimpleOutcome, Error>)
        ensures
            r == Self::as_done(r0),
    {
        match r0 {
            Ok(()) => Ok(SimpleOutcome::Done),
            Err(err) => Err(err),
        }
    }

    /// `Done` for `Ok`, else the same error.
    pub open spec fn as_done(r0: Result<(), Error>) -> Result<SimpleOutcome, Error> {
        match r0 {
            Ok(()) => Ok(SimpleOutcome::Done),
            Err(err) => Err(err),
        }
    }

    /// Close the undo group opened at `e1` (from `e0`) when the step that
    /// gave `r0` succeeded, and turn `r0` into an outcome.
    fn grouped_outcome(
        &mut self,
        r0: Result<(), Error>,
        Ghost(e0): Ghost<Editor>,
        Ghost(e1): Ghost<Editor>,
        Ghost(f): Ghost<spec_fn(Editor, Editor, Result<(), Error>) -> bool>,
    ) -> (r: Result<SimpleOutcome, Error>)
        requires
            group_opened(e0, e1),
            f(e1, *old(self), r0),
        ensures
            *final(self) == (if r0 is Ok {
                with_undo(*old(self), final(self).state.undo_history)
            } else {
                *old(self)
            }),
            done_as(r, r0),
            in_group(e0, *final(self), r0, f),
    {
        let ghost e3 = *self;
        if r0.is_ok() {
            self.state.undo_history.end_group(self.document.cursor);
        }
        proof {
            assert(group_closed(e3, *self, r0));
        }
        match r0 {
            Ok(()) => Ok(SimpleOutcome::Done),
            Err(err) => Err(err),
        }
    }
}

} // verus!
