//! Entering insert and replace mode from normal mode (`i`, `a`, `I`, `A`,
//! `o`, `O`, `R`).

use vstd::prelude::*;
use crate::command::ModeChangeKind;
use crate::editor::editing::opened;
use crate::editor::movement::{at_first_non_blank, line_end_unconstrained_post, move_right_unconstrained_post};
use crate::editor::replace::originals;
use crate::editor::{Document, Editor, EditorState, InsertState};
use crate::error::Error;
use crate::mode::Mode;
use crate::text::byte_len;
use crate::undo::begun;

verus! {

/// `e` in mode `m`.
pub open spec fn with_mode(e: Editor, m: Mode) -> Editor {
    Editor { state: EditorState { mode: m, ..e.state }, ..e }
}

/// `e1` is `e` with a new insert session of kind `kind` started: the typed
/// keys cleared, the entry kind set, the kept originals cleared for
/// replace mode; then `e3` is `e1` with an undo group opened at the cursor.
pub open spec fn session_started(e: Editor, e1: Editor, e3: Editor, kind: ModeChangeKind) -> bool {
    &&& e1.document == e.document
    &&& e1.state == (EditorState { insert_state: e1.state.insert_state, ..e.state })
    &&& e1.state.insert_state == (InsertState {
        insert_keys: e1.state.insert_state.insert_keys,
        insert_entry_kind: Some(kind),
        replace_originals: e1.state.insert_state.replace_originals,
        ..e.state.insert_state
    })
    &&& e1.state.insert_state.insert_keys@.len() == 0
    &&& if kind is ReplaceMode {
        originals(e1).len() == 0
    } else {
        e1.state.insert_state.replace_originals == e.state.insert_state.replace_originals
    }
    &&& e3.document == e1.document
    &&& e3.state == (EditorState { undo_history: e3.state.undo_history, ..e1.state })
    &&& begun(e1.state.undo_history, e3.state.undo_history, e.document.cursor, e.document.modified)
}

/// The byte length of the cursor's line in `e` (0 off the text).
pub open spec fn line_end_col(e: Editor) -> int {
    let v = e.document.buffer@;
    let row = e.document.cursor.row;
    if row < v.len() {
        byte_len(v[row as int]) as int
    } else {
        0
    }
}

/// What the mode change `kind` does to `e` once the session is started
/// (`e3`), giving `e2` and `r`: the cursor move or opened line of the
/// kind, then insert mode (replace mode for `R`). An `o` or `O` refused by
/// the buffer returns its error and leaves the mode.
pub open spec fn entered_after(e3: Editor, e2: Editor, kind: ModeChangeKind, r: Result<(), Error>) -> bool {
    let v = e3.document.buffer@;
    let row = e3.document.cursor.row;
    match kind {
        ModeChangeKind::InsertBeforeCursor => r is Ok && e2 == with_mode(e3, Mode::Insert),
        ModeChangeKind::InsertAfterCursor => r is Ok && exists|e4: Editor|
            #[trigger] move_right_unconstrained_post(e3, e4) && e2 == with_mode(e4, Mode::Insert),
        ModeChangeKind::InsertAtLineEnd => r is Ok && exists|e4: Editor|
            #[trigger] line_end_unconstrained_post(e3, e4) && e2 == with_mode(e4, Mode::Insert),
        ModeChangeKind::InsertAtFirstNonBlank => r is Ok && exists|e4: Editor|
            #[trigger] at_first_non_blank(e3, e4, row as int) && e4.document == (Document {
                cursor: e4.document.cursor,
                ..e3.document
            }) && e2 == with_mode(e4, Mode::Insert),
        ModeChangeKind::OpenLineBelow => exists|e4: Editor|
            #[trigger] opened(e3, e4, r, row + 1, line_end_col(e3)) && e2 == if r is Ok {
                with_mode(e4, Mode::Insert)
            } else {
                e4
            },
        ModeChangeKind::OpenLineAbove => exists|e4: Editor|
            #[trigger] opened(e3, e4, r, row as int, 0) && e2 == if r is Ok {
                with_mode(e4, Mode::Insert)
            } else {
                e4
            },
        ModeChangeKind::ReplaceMode => r is Ok && e2 == with_mode(e3, Mode::Replace),
    }
}

impl Editor {
    /// Enter insert mode as `kind` says (`i`, `a`, `I`, `A`, `o`, `O`), or
    /// replace mode (`R`): a new session starts (typed keys cleared, entry
    /// kind kept for `.`), an undo group opens at the cursor so the session
    /// is one undoable change, then the cursor moves or a line opens.
    pub fn execute_mode_change(&mut self, kind: ModeChangeKind) -> (r: Result<(), Error>)
        requires
            old(self).wf(),
            old(self).cursor_ok(),
        ensures
            final(self).wf(),
            exists|e1: Editor, e3: Editor|
                #[trigger] session_started(*old(self), e1, e3, kind) && entered_after(
                    e3,
                    *final(self),
                    kind,
                    r,
                ),
    {
        let ghost e0 = *self;
        self.state.insert_state.insert_keys.clear();
        self.state.insert_state.insert_entry_kind = Some(kind);
        match kind {
            ModeChangeKind::ReplaceMode => {
                self.state.insert_state.replace_originals.clear();
            },
            _ => {},
        }
        let ghost e1 = *self;
        self.state.undo_history.begin_group(self.document.cursor, self.document.modified);
        let ghost e3 = *self;
        proof {
            if kind is ReplaceMode {
                assert(originals(e1) =~= Seq::<Option<Seq<char>>>::empty());
            }
            assert(session_started(e0, e1, e3, kind));
        }
        let r = match kind {
            ModeChangeKind::InsertBeforeCursor => {
                self.state.mode = Mode::Insert;
                assert(entered_after(e3, *self, kind, Ok(())));
                Ok(())
            },
            ModeChangeKind::InsertAfterCursor => {
                self.move_right_unconstrained();
                let ghost e4 = *self;
                self.state.mode = Mode::Insert;
                proof {
                    assert(move_right_unconstrained_post(e3, e4));
                    assert(*self == with_mode(e4, Mode::Insert));
                    assert(entered_after(e3, *self, kind, Ok(())));
                }
                Ok(())
            },
            ModeChangeKind::InsertAtLineEnd => {
                self.move_to_line_end_unconstrained();
                let ghost e4 = *self;
                self.state.mode = Mode::Insert;
                proof {
                    assert(line_end_unconstrained_post(e3, e4));
                    assert(entered_after(e3, *self, kind, Ok(())));
                }
                Ok(())
            },
            ModeChangeKind::InsertAtFirstNonBlank => {
                self.move_to_first_non_blank();
                let ghost e4 = *self;
                self.state.mode = Mode::Insert;
                proof {
                    assert(at_first_non_blank(e3, e4, e3.document.cursor.row as int));
                    assert(entered_after(e3, *self, kind, Ok(())));
                }
                Ok(())
            },
            ModeChangeKind::OpenLineBelow => {
                let res = self.open_line_below();
                let ghost e4 = *self;
                proof {
                    assert(opened(e3, e4, res, e3.document.cursor.row + 1, line_end_col(e3)));
                }
                if res.is_ok() {
                    self.state.mode = Mode::Insert;
                }
                res
            },
            ModeChangeKind::OpenLineAbove => {
                let res = self.open_line_above();
                let ghost e4 = *self;
                proof {
                    assert(opened(e3, e4, res, e3.document.cursor.row as int, 0));
                }
                if res.is_ok() {
                    self.state.mode = Mode::Insert;
                }
                res
            },
            ModeChangeKind::ReplaceMode => {
                self.state.mode = Mode::Replace;
                assert(entered_after(e3, *self, kind, Ok(())));
                Ok(())
            },
        };
        proof {
            assert(session_started(*old(self), e1, e3, kind));
            assert(entered_after(e3, *self, kind, r));
        }
        r
    }
}

} // verus!
