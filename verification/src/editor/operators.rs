//! Operators applied to whole lines from the cursor's (`dd`, `yy`, `>>`,
//! `<<`, `gUU`, `guu`, `g~~`, `gqq`, `!!`), with a count.

use vstd::prelude::*;
use crate::command::{Motion, RepeatableChange};
use crate::editor::case_ops::{recased_rows, whole_line_case};
use crate::editor::editing::shifted_editor;
use crate::editor::movement::{min, sat_sub};
use crate::editor::reflow::reflow_post;
use crate::editor::simple::{group_closed, group_opened, in_group};
use crate::editor::yank_put::{delete_lines_post, yank_lines_post};
use crate::editor::{Document, Editor, EditorState};
use crate::error::Error;
use crate::mode::{Mode, Operator};
use crate::terminal::Key;

verus! {

/// What a line operator leaves for the caller.
#[derive(Debug, PartialEq, Eq, Structural)]
pub enum LineOperatorOutcome {
    /// The operator is done.
    Done,
    /// `!!`: the lines are kept as the filter range; read the shell
    /// command on a `!` command line.
    FilterPrompt,
    /// `cc`: the change of whole lines is not held by this library;
    /// nothing was changed.
    Unsupported,
}

/// The change recorded for dot repeat by line operator `op` with `count`
/// and `register`.
pub open spec fn line_change(op: Operator, count: usize, register: Option<char>) -> RepeatableChange {
    RepeatableChange::OperatorMotion {
        operator: op,
        motion: Motion::Down,
        count,
        register,
        insert_keys: None,
        linewise_self: true,
    }
}

/// `e2` is `e4` with the change recorded for dot repeat, unless `e` was
/// replaying one.
pub open spec fn dot_noted(e: Editor, e4: Editor, e2: Editor, op: Operator, count: usize, register: Option<char>) -> bool {
    if e.state.insert_state.replaying_dot {
        e2 == e4
    } else {
        e2 == (Editor { state: EditorState { last_change: Some(line_change(op, count, register)), ..e4.state }, ..e4 })
    }
}

/// The width `gq` fills to: `textwidth`, else the screen width less
/// `wrapmargin` when that is set, else none (0).
pub open spec fn format_width(e: Editor) -> int {
    if e.state.settings.textwidth > 0 {
        e.state.settings.textwidth as int
    } else if e.state.settings.wrapmargin > 0 {
        sat_sub(e.state.viewport.spec_width() as int, e.state.settings.wrapmargin as int)
    } else {
        0
    }
}

/// The last row a line operator with `count` from row `row` reaches in a
/// buffer of `len` lines.
pub open spec fn last_op_row(row: int, count: int, len: int) -> int {
    min(row + sat_sub(count, 1), sat_sub(len, 1))
}

/// `b` is `a` with rows `row..=last` recased by `op` and marked modified.
pub open spec fn rows_recased(a: Editor, b: Editor, op: Operator, row: int, count: int) -> bool {
    exists|m: Editor|
        #[trigger] recased_rows(
            a,
            m,
            row,
            min(row + sat_sub(count, 1), sat_sub(a.document.buffer@.len() as int, 1)) + 1,
            whole_line_case(op),
        ) && b == (Editor { document: Document { modified: true, ..m.document }, ..m })
}

/// `b` is `a` with rows `row..=t` filled to `width` (none when `row` is
/// past `t`) and marked modified.
pub open spec fn rows_filled(a: Editor, b: Editor, row: int, t: int, width: int) -> bool {
    if row <= t {
        exists|m: Editor|
            #[trigger] reflow_post(a, m, row, t, width) && b == (Editor {
                document: Document { modified: true, ..m.document },
                ..m
            })
    } else {
        b == (Editor { document: Document { modified: true, ..a.document }, ..a })
    }
}

/// The step of `dd` with `count` and `register`.
pub open spec fn dd_step(count: usize, register: Option<char>) -> spec_fn(Editor, Editor, Result<(), Error>) -> bool {
    |a: Editor, b: Editor, rr: Result<(), Error>| delete_lines_post(a, b, count, register) && rr is Ok
}

/// The step of `>>` (`right`) or `<<` over rows up to `end`.
pub open spec fn shift_step(end: int, right: bool) -> spec_fn(Editor, Editor, Result<(), Error>) -> bool {
    |a: Editor, b: Editor, rr: Result<(), Error>| shifted_editor(a, b, end, right) && rr is Ok
}

/// The step of a case operator `op` over `count` rows from `row`.
pub open spec fn recase_step(op: Operator, row: int, count: int) -> spec_fn(Editor, Editor, Result<(), Error>) -> bool {
    |a: Editor, b: Editor, rr: Result<(), Error>| rows_recased(a, b, op, row, count) && rr is Ok
}

/// The step of `gq` over rows `row..=t` to `width`.
pub open spec fn fill_step(row: int, t: int, width: int) -> spec_fn(Editor, Editor, Result<(), Error>) -> bool {
    |a: Editor, b: Editor, rr: Result<(), Error>| rows_filled(a, b, row, t, width) && rr is Ok
}

/// What line operator `op` with `count` and `register` does to `e`,
/// leaving `e2` and returning `r`.
pub open spec fn lines_operated(
    e: Editor,
    op: Operator,
    count: usize,
    register: Option<char>,
    e2: Editor,
    r: Result<LineOperatorOutcome, Error>,
) -> bool {
    let row = e.document.cursor.row as int;
    let len = e.document.buffer@.len() as int;
    let grouped = |f: spec_fn(Editor, Editor, Result<(), Error>) -> bool|
        exists|e4: Editor| #[trigger] in_group(e, e4, Ok(()), f) && dot_noted(e, e4, e2, op, count, register);
    let done = r == Ok::<LineOperatorOutcome, Error>(LineOperatorOutcome::Done);
    match op {
        Operator::Delete => done && grouped(dd_step(count, register)),
        Operator::Yank => done && yank_lines_post(e, e2, count, register),
        Operator::Change => e2 == e && r == Ok::<LineOperatorOutcome, Error>(LineOperatorOutcome::Unsupported),
        Operator::IndentRight => done && grouped(shift_step(min(row + count, len), true)),
        Operator::IndentLeft => done && grouped(shift_step(min(row + count, len), false)),
        Operator::Format => done && if format_width(e) > 0 {
            grouped(fill_step(row, last_op_row(row, count as int, len), format_width(e)))
        } else {
            e2 == e
        },
        Operator::Filter => {
            &&& r == Ok::<LineOperatorOutcome, Error>(LineOperatorOutcome::FilterPrompt)
            &&& e2.document == e.document
            &&& e2.state == (EditorState {
                pending_filter_range: Some((row as usize, last_op_row(row, count as int, len) as usize)),
                mode: Mode::CommandLine,
                ..e.state
            })
        },
        _ => done && grouped(recase_step(op, row, count as int)),
    }
}

impl Editor {
    /// Apply line operator `op` to `count` lines from the cursor's, with
    /// `register` for `dd` and `yy`, as `lines_operated` says.
    #[verifier::spinoff_prover]
    #[verifier::rlimit(100)]
    pub fn execute_linewise_operator(&mut self, op: Operator, count: usize, register: Option<char>) -> (r:
        Result<LineOperatorOutcome, Error>)
        requires
            old(self).wf(),
            old(self).document.cursor.row + count <= usize::MAX,
            old(self).document.cursor.row <= old(self).document.buffer@.len(),
        ensures
            final(self).wf(),
            lines_operated(*old(self), op, count, register, *final(self), r),
    {
        let row = self.document.cursor.row;
        let len = self.document.buffer.len();
        let last = if count == 0 {
            row
        } else {
            row + (count - 1)
        };
        let last = if len == 0 {
            0
        } else if last < len - 1 {
            last
        } else {
            len - 1
        };
        match op {
            Operator::Yank => {
                let _ = self.yank_lines(count, register);
                return Ok(LineOperatorOutcome::Done);
            },
            Operator::Change => {
                return Ok(LineOperatorOutcome::Unsupported);
            },
            Operator::Filter => {
                self.state.pending_filter_range = Some((row, last));
                self.state.mode = Mode::CommandLine;
                return Ok(LineOperatorOutcome::FilterPrompt);
            },
            Operator::Format => {
                let tw = self.state.settings.textwidth;
                let wm = self.state.settings.wrapmargin;
                let width = if tw > 0 {
                    tw
                } else if wm > 0 {
                    let w = self.state.viewport.width();
                    if w >= wm {
                        w - wm
                    } else {
                        0
                    }
                } else {
                    0
                };
                if width == 0 {
                    return Ok(LineOperatorOutcome::Done);
                }
                let ghost e0 = *self;
                self.state.undo_history.begin_group(self.document.cursor, self.document.modified);
                let ghost e1 = *self;
                let _ = self.reflow_lines(row, last, width);
                let ghost m = *self;
                self.document.modified = true;
                let ghost e3 = *self;
                self.state.undo_history.end_group(self.document.cursor);
                let ghost e4 = *self;
                proof {
                    assert(group_opened(e0, e1));
                    if row <= last {
                        assert(reflow_post(e1, m, row as int, last as int, width as int));
                    }
                    assert(rows_filled(e1, e3, row as int, last as int, width as int));
                    assert(group_closed(e3, e4, Ok::<(), Error>(())));
                    assert(in_group(e0, e4, Ok(()), fill_step(row as int, last as int, width as int)));
                }
                self.note_line_change(op, count, register);
                return Ok(LineOperatorOutcome::Done);
            },
            _ => {},
        }
        let ghost e0 = *self;
        self.state.undo_history.begin_group(self.document.cursor, self.document.modified);
        let ghost e1 = *self;
        let ghost f: spec_fn(Editor, Editor, Result<(), Error>) -> bool;
        match op {
            Operator::Delete => {
                let _ = self.delete_lines_with_register(count, register);
                proof {
                    f = dd_step(count, register);
                    assert(f(e1, *self, Ok(())));
                }
            },
            Operator::IndentRight => {
                let _ = self.shift_lines_right(count);
                proof {
                    f = shift_step(min(row + count, len as int), true);
                    assert(f(e1, *self, Ok(())));
                }
            },
            Operator::IndentLeft => {
                let _ = self.shift_lines_left(count);
                proof {
                    f = shift_step(min(row + count, len as int), false);
                    assert(f(e1, *self, Ok(())));
                }
            },
            _ => {
                let _ = self.apply_case_operator_lines(row, last, op);
                let ghost m = *self;
                self.document.modified = true;
                proof {
                    assert(recased_rows(
                        e1,
                        m,
                        row as int,
                        min(last as int, sat_sub(len as int, 1)) + 1,
                        whole_line_case(op),
                    ));
                    f = recase_step(op, row as int, count as int);
                    assert(min(last as int, sat_sub(len as int, 1)) == min(row + sat_sub(count as int, 1), sat_sub(len as int, 1)));
                    assert(rows_recased(e1, *self, op, row as int, count as int));
                    assert(f(e1, *self, Ok(())));
                }
            },
        }
        let ghost e3 = *self;
        proof {
            assert(f(e1, e3, Ok(())));
        }
        self.state.undo_history.end_group(self.document.cursor);
        let ghost e4 = *self;
        proof {
            assert(group_opened(e0, e1));
            assert(group_closed(e3, e4, Ok::<(), Error>(())));
            assert(in_group(e0, e4, Ok(()), f));
        }
        self.note_line_change(op, count, register);
        Ok(LineOperatorOutcome::Done)
    }

    /// Record the line operator for dot repeat, unless one is being replayed.
    fn note_line_change(&mut self, op: Operator, count: usize, register: Option<char>)
        ensures
            !old(self).state.insert_state.replaying_dot ==> *final(self) == (Editor {
                state: EditorState { last_change: Some(line_change(op, count, register)), ..old(self).state },
                ..*old(self)
            }),
            old(self).state.insert_state.replaying_dot ==> *final(self) == *old(self),
    {
        if !self.state.insert_state.replaying_dot {
            self.state.last_change = Some(RepeatableChange::OperatorMotion {
                operator: op,
                motion: Motion::Down,
                count,
                register,
                insert_keys: None,
                linewise_self: true,
            });
        }
    }
}

/// The key that, typed again after operator `op`, applies it to whole lines.
pub open spec fn doubled_key(op: Operator) -> Option<Key> {
    match op {
        Operator::Delete => Some(Key::Char('d')),
        Operator::Yank => Some(Key::Char('y')),
        Operator::Change => Some(Key::Char('c')),
        Operator::IndentRight => Some(Key::Char('>')),
        Operator::IndentLeft => Some(Key::Char('<')),
        Operator::Filter => Some(Key::Char('!')),
        _ => None,
    }
}

/// What `key` does in operator-pending mode for `op` to `e`, leaving `e2`
/// and returning `r`: Esc cancels; the operator's own key again applies it
/// to the cursor's line; any other key (a motion or text object, which
/// this library does not resolve) ends the pending operator and is
/// reported unsupported.
pub open spec fn pending_step(e: Editor, key: Key, op: Operator, e2: Editor, r: Result<LineOperatorOutcome, Error>) -> bool {
    let e1 = Editor { state: EditorState { mode: Mode::Normal, ..e.state }, ..e };
    if key == Key::Esc {
        e2 == e1 && r == Ok::<LineOperatorOutcome, Error>(LineOperatorOutcome::Done)
    } else if doubled_key(op) == Some(key) {
        lines_operated(e1, op, 1, None, e2, r)
    } else {
        e2 == e1 && r == Ok::<LineOperatorOutcome, Error>(LineOperatorOutcome::Unsupported)
    }
}

impl Editor {
    /// Handle `key` in operator-pending mode for `op`, as `pending_step`
    /// says.
    pub fn handle_operator_pending_key(&mut self, key: Key, op: Operator) -> (r: Result<
        LineOperatorOutcome,
        Error,
    >)
        requires
            old(self).wf(),
            old(self).document.cursor.row < usize::MAX,
            old(self).document.cursor.row <= old(self).document.buffer@.len(),
        ensures
            final(self).wf(),
            pending_step(*old(self), key, op, *final(self), r),
    {
        self.state.mode = Mode::Normal;
        if key == Key::Esc {
            return Ok(LineOperatorOutcome::Done);
        }
        let doubled = match op {
            Operator::Delete => key == Key::Char('d'),
            Operator::Yank => key == Key::Char('y'),
            Operator::Change => key == Key::Char('c'),
            Operator::IndentRight => key == Key::Char('>'),
            Operator::IndentLeft => key == Key::Char('<'),
            Operator::Filter => key == Key::Char('!'),
            _ => false,
        };
        if doubled {
            self.execute_linewise_operator(op, 1, None)
        } else {
            Ok(LineOperatorOutcome::Unsupported)
        }
    }
}

} // verus!
