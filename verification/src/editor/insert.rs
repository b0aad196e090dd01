//! One key pressed in insert mode.

use vstd::prelude::*;
use crate::editor::editing::{
    abbreviation_tried, backspaced, char_inserted, dot_finalized, deleted_to_line_start, newline_inserted,
    word_deleted_before_cursor,
};
use crate::editor::movement::{move_down_post, move_left_post, move_right_post, move_up_post};
use crate::editor::replace::left_unless_at_start;
use crate::editor::yank_put::char_deleted_at_cursor;
use crate::editor::{Editor, EditorState, InsertState, MAX_INSERT_KEYS};
use crate::error::Error;
use crate::mode::Mode;
use crate::terminal::Key;
use crate::text::{byte_len, is_boundary};
use crate::undo::ended;

verus! {

/// What an insert-mode key leaves for the caller.
#[derive(Debug, PartialEq, Eq, Structural)]
pub enum InsertOutcome {
    /// The key is handled.
    Done,
    /// The key needs what this library does not hold (replaying typed
    /// keys, text-width wrapping, tab expansion, inserting a register,
    /// indent changes); nothing was changed.
    Unsupported,
}

/// `e1` is `e` with `key` recorded for dot repeat, as `maybe_record_key`
/// does.
pub open spec fn key_recorded(e: Editor, e1: Editor, key: Key) -> bool {
    let s = e.state.insert_state;
    &&& e1.document == e.document
    &&& e1.state == (EditorState {
        insert_state: InsertState { insert_keys: e1.state.insert_state.insert_keys, ..s },
        ..e.state
    })
    &&& e1.state.insert_state.insert_keys@ == if !s.replaying_dot && s.insert_keys@.len() < MAX_INSERT_KEYS {
        s.insert_keys@.push(key)
    } else {
        s.insert_keys@
    }
}

/// What the editing command of (recorded) key `key` does to `e1`, giving
/// `e2` and `r0`.
pub open spec fn key_edit(e1: Editor, key: Key, e2: Editor, r0: Result<(), Error>) -> bool {
    match key {
        Key::Char(c) => char_inserted(e1, e2, c, r0),
        Key::Tab => char_inserted(e1, e2, '\t', r0),
        Key::Enter => newline_inserted(e1, e2, r0),
        Key::Backspace => backspaced(e1, e2, r0),
        Key::Delete => char_deleted_at_cursor(e1, e2, None, r0),
        Key::Left => move_left_post(e1, e2) && r0 is Ok,
        Key::Right => move_right_post(e1, e2) && r0 is Ok,
        Key::Up => move_up_post(e1, e2) && r0 is Ok,
        Key::Down => move_down_post(e1, e2) && r0 is Ok,
        Key::Ctrl('w') => word_deleted_before_cursor(e1, e2, r0),
        Key::Ctrl('u') => deleted_to_line_start(e1, e2, r0),
        _ => false,
    }
}

/// `r` reports `r0`: done when it succeeded, its error otherwise.
pub open spec fn reports(r0: Result<(), Error>, r: Result<InsertOutcome, Error>) -> bool {
    &&& r0 is Ok ==> r == Ok::<InsertOutcome, Error>(InsertOutcome::Done)
    &&& r0 is Err ==> r == Err::<InsertOutcome, Error>(r0->Err_0)
}

/// `key` recorded, then its editing command: from `e` to `e2`, giving `r`.
pub open spec fn typed(e: Editor, key: Key, e2: Editor, r: Result<InsertOutcome, Error>) -> bool {
    exists|e1: Editor, r0: Result<(), Error>|
        #![trigger key_recorded(e, e1, key), key_edit(e1, key, e2, r0)]
        key_recorded(e, e1, key) && key_edit(e1, key, e2, r0) && reports(r0, r)
}

/// The abbreviation before the cursor expanded, then `rest` (from the
/// editor after the expansion); an error in the expansion stops there.
pub open spec fn expanded_then(e: Editor, e2: Editor, r: Result<InsertOutcome, Error>, rest: spec_fn(Editor) -> bool) -> bool {
    exists|ea: Editor, ra: Result<bool, Error>|
        #![trigger abbreviation_tried(e, ea, ra)]
        {
            &&& abbreviation_tried(e, ea, ra)
            &&& ra is Err ==> e2 == ea && r == Err::<InsertOutcome, Error>(ra->Err_0)
            &&& ra is Ok ==> rest(ea)
        }
}

/// Leaving insert mode from `e`, giving `e2`: the undo group ends, normal
/// mode, the cursor one grapheme left unless at the line start (or off a
/// character boundary, where an expansion may have left it), the
/// session kept for dot repeat (unless it is being replayed), no saved
/// indent or entry kind; with `reset_count`, the count back to one.
pub open spec fn insert_left(e: Editor, e2: Editor, reset_count: bool) -> bool {
    exists|ea: Editor, ec: Editor|
        #![trigger ended(e.state.undo_history, ea.state.undo_history, e.document.cursor), ec.document]
        {
            &&& ea.document == e.document
            &&& ea.state == (EditorState { undo_history: ea.state.undo_history, mode: Mode::Normal, ..e.state })
            &&& ended(e.state.undo_history, ea.state.undo_history, e.document.cursor)
            &&& if e.cursor_ok() {
                left_unless_at_start(ea, ec, e.document.cursor.col)
            } else {
                ec == ea
            }
            &&& e2.document == ec.document
            &&& if !e.state.insert_state.replaying_dot {
                exists|sd: EditorState| #[trigger] dot_finalized(ec.state, sd) && e2.state == session_closed(sd, reset_count)
            } else {
                e2.state == session_closed(ec.state, reset_count)
            }
        }
}

/// `sd` with the insert session's saved indent and entry kind cleared,
/// and with `reset_count`, its count back to one.
pub open spec fn session_closed(sd: EditorState, reset_count: bool) -> EditorState {
    EditorState {
        insert_state: InsertState {
            saved_indent: None,
            insert_entry_kind: None,
            insert_count: if reset_count {
                1
            } else {
                sd.insert_state.insert_count
            },
            ..sd.insert_state
        },
        ..sd
    }
}

/// The control character that Ctrl-V then `key` inserts, if any.
pub open spec fn literal_char(key: Key) -> Option<char> {
    match key {
        Key::Char(c) => Some(c),
        Key::Ctrl(c) => if (c as u32) <= 0x7F {
            Some(((c as u32) % 32) as char)
        } else {
            None
        },
        Key::Esc => Some('\x1b'),
        _ => None,
    }
}

/// A keyword character: letters and digits (as `char::is_alphanumeric`)
/// and `_`.
pub open spec fn keyword_char(c: char) -> bool {
    crate::buffer::unicode::spec_is_alphanumeric(c) || c == '_'
}

/// What key `key` does in insert mode to `e`, leaving `e2` and returning `r`.
pub open spec fn insert_step(e: Editor, key: Key, e2: Editor, r: Result<InsertOutcome, Error>) -> bool {
    let s = e.state.insert_state;
    let unsupported = e2 == e && r == Ok::<InsertOutcome, Error>(InsertOutcome::Unsupported);
    let done = r == Ok::<InsertOutcome, Error>(InsertOutcome::Done);
    let flagged = |lit: bool, reg: bool|
        e2 == (Editor {
            state: EditorState {
                insert_state: InsertState { insert_literal_next: lit, insert_register_next: reg, ..s },
                ..e.state
            },
            ..e
        });
    if s.insert_register_next {
        if key is Char && e.state.registers.spec_get(
            crate::registers::register_target(Some(key->Char_0)),
        ) is Some {
            unsupported
        } else {
            flagged(s.insert_literal_next, false) && done
        }
    } else if s.insert_literal_next {
        let e0 = Editor {
            state: EditorState {
                insert_state: InsertState { insert_literal_next: false, ..s },
                ..e.state
            },
            ..e
        };
        match literal_char(key) {
            None => e2 == e0 && done,
            Some(c) => typed(e0, Key::Char(c), e2, r),
        }
    } else {
        match key {
            Key::Esc => if (s.insert_count > 1 && !s.replaying_dot) || s.block_insert is Some {
                unsupported
            } else {
                expanded_then(e, e2, r, |ea: Editor| insert_left(ea, e2, true) && done)
            },
            Key::Ctrl('c') => expanded_then(e, e2, r, |ea: Editor| insert_left(ea, e2, false) && done),
            Key::Char(c) => if e.state.settings.wrapmargin != 0 {
                unsupported
            } else if keyword_char(c) {
                typed(e, key, e2, r)
            } else {
                expanded_then(e, e2, r, |ea: Editor| typed(ea, key, e2, r))
            },
            Key::Tab => if e.state.settings.expandtab {
                unsupported
            } else {
                typed(e, key, e2, r)
            },
            Key::Enter => expanded_then(e, e2, r, |ea: Editor| typed(ea, key, e2, r)),
            Key::Backspace | Key::Ctrl('h') => typed(e, Key::Backspace, e2, r),
            Key::Delete | Key::Left | Key::Right | Key::Up | Key::Down | Key::Ctrl('w') | Key::Ctrl(
                'u',
            ) => typed(e, key, e2, r),
            Key::Ctrl('v') => flagged(true, false) && done,
            Key::Ctrl('r') => flagged(false, true) && done,
            Key::Ctrl('@') | Key::Ctrl('t') | Key::Ctrl('d') => unsupported,
            _ => e2 == e && done,
        }
    }
}

/// The inputs on which `handle_insert_key` works: a well-formed editor
/// with its cursor on a character boundary and a saved indent without
/// line breaks.
pub open spec fn insert_ready(e: Editor) -> bool {
    &&& e.wf()
    &&& e.cursor_ok()
    &&& e.state.insert_state.saved_indent matches Some(t) ==> forall|i: int|
        0 <= i < t@.len() ==> t@[i] != '\n'
}

/// Whether `col` is a character boundary of `cs`, whose byte length is `n`.
fn col_on_boundary(cs: &[char], col: usize, n: usize) -> (b: bool)
    requires
        n == byte_len(cs@),
    ensures
        b == (col <= n && is_boundary(cs@, col as int)),
{
    let mut i: usize = 0;
    let mut acc: usize = 0;
    while i < cs.len() && acc < col
        invariant
            i <= cs@.len(),
            n == byte_len(cs@),
            acc == byte_len(cs@.take(i as int)),
            forall|j: int| 0 <= j < i ==> #[trigger] byte_len(cs@.take(j)) < col,
        decreases cs@.len() - i,
    {
        proof {
            crate::text::lemma_byte_len_take_step(cs@, i as int);
            crate::text::lemma_byte_len_take_le(cs@, i + 1);
            if i > 0 {
                crate::text::lemma_byte_len_take_strict(cs@, (i - 1) as int, i as int);
            }
        }
        acc = acc + crate::text::utf8_width(cs[i]);
        i = i + 1;
    }
    proof {
        crate::text::lemma_byte_len_take_le(cs@, i as int);
        if acc != col {
            assert forall|k: int| 0 <= k <= cs@.len() implies #[trigger] byte_len(cs@.take(k)) != col by {
                if k > i {
                    crate::text::lemma_byte_len_take_strict(cs@, i as int, k);
                }
            }
        } else {
            assert(byte_len(cs@.take(i as int)) == col);
        }
    }
    acc == col
}

impl Editor {
    /// Record `key` for dot repeat, then make its editing command.
    fn type_key(&mut self, key: Key) -> (r: Result<InsertOutcome, Error>)
        requires
            old(self).wf(),
            old(self).state.insert_state.saved_indent matches Some(t) ==> forall|i: int|
                0 <= i < t@.len() ==> t@[i] != '\n',
            !(key is Char || key is Tab || key is Enter || key is Up || key is Down) ==> old(self).cursor_ok(),
            key is Char || key is Tab || key is Enter || key is Backspace || key is Delete || key is Left
                || key is Right || key is Up || key is Down || key == Key::Ctrl('w') || key == Key::Ctrl(
                'u',
            ),
        ensures
            final(self).wf(),
            typed(*old(self), key, *final(self), r),
    {
        self.state.insert_state.maybe_record_key(key);
        let ghost e1 = *self;
        let r0: Result<(), Error> = match key {
            Key::Char(c) => self.insert_char(c),
            Key::Tab => self.insert_char('\t'),
            Key::Enter => self.insert_newline(),
            Key::Backspace => self.delete_char_before_cursor(),
            Key::Delete => self.delete_char_at_cursor_with_register(None),
            Key::Left => {
                self.move_left();
                Ok(())
            },
            Key::Right => {
                self.move_right();
                Ok(())
            },
            Key::Up => {
                self.move_up();
                Ok(())
            },
            Key::Down => {
                self.move_down();
                Ok(())
            },
            Key::Ctrl('w') => self.delete_word_before_cursor(),
            _ => self.delete_to_line_start(),
        };
        let ghost g0 = r0;
        let out = match r0 {
            Ok(()) => Ok(InsertOutcome::Done),
            Err(err) => Err(err),
        };
        proof {
            assert(key_recorded(*old(self), e1, key));
            assert(key_edit(e1, key, *self, g0));
        }
        out
    }

    /// Leave insert mode (Esc with nothing to replay, Ctrl-C).
    fn leave_insert_mode(&mut self, reset_count: bool)
        requires
            old(self).wf(),
        ensures
            final(self).wf(),
            insert_left(*old(self), *final(self), reset_count),
    {
        let ghost e0 = *self;
        self.state.undo_history.end_group(self.document.cursor);
        self.state.mode = Mode::Normal;
        let ghost ea = *self;
        if self.cursor_on_boundary() && self.document.cursor.col > 0 {
            self.move_left();
        }
        let ghost ec = *self;
        if !self.state.insert_state.replaying_dot {
            self.state.finalize_insert_for_dot();
        }
        let ghost sd = self.state;
        if reset_count {
            self.state.insert_state.insert_count = 1;
        }
        self.state.insert_state.saved_indent = None;
        self.state.insert_state.insert_entry_kind = None;
        proof {
            assert(ended(e0.state.undo_history, ea.state.undo_history, e0.document.cursor));
            if e0.cursor_ok() {
                assert(left_unless_at_start(ea, ec, e0.document.cursor.col));
            }
            if !e0.state.insert_state.replaying_dot {
                assert(dot_finalized(ec.state, sd));
            }
        }
    }

    /// Whether the cursor is on a character boundary of its line (or off
    /// the text).
    fn cursor_on_boundary(&self) -> (b: bool)
        ensures
            b == self.cursor_ok(),
    {
        match self.document.buffer.line(self.document.cursor.row) {
            None => true,
            Some(line) => {
                let n = crate::text::str_byte_len(line);
                let cs = crate::text::chars_of(line);
                let col = self.document.cursor.col;
                col_on_boundary(cs.as_slice(), col, n)
            },
        }
    }

    /// Handle `key` in insert mode, as `insert_step` says.
    #[verifier::spinoff_prover]
    #[verifier::rlimit(100)]
    pub fn handle_insert_key(&mut self, key: Key) -> (r: Result<InsertOutcome, Error>)
        requires
            insert_ready(*old(self)),
        ensures
            final(self).wf(),
            insert_step(*old(self), key, *final(self), r),
    {
        if self.state.insert_state.insert_register_next {
            match key {
                Key::Char(c) => {
                    let id = crate::registers::RegisterId::parse(c);
                    if self.state.registers.get(id).is_some() {
                        return Ok(InsertOutcome::Unsupported);
                    }
                },
                _ => {},
            }
            self.state.insert_state.insert_register_next = false;
            return Ok(InsertOutcome::Done);
        }
        if self.state.insert_state.insert_literal_next {
            self.state.insert_state.insert_literal_next = false;
            let ch = match key {
                Key::Char(c) => Some(c),
                Key::Ctrl(c) => {
                    let cp: u32 = c as u32;
                    if cp <= 0x7F {
                        let low: u8 = (cp % 32) as u8;
                        Some(low as char)
                    } else {
                        None
                    }
                },
                Key::Esc => Some('\x1b'),
                _ => None,
            };
            return match ch {
                Some(c) => self.type_key(Key::Char(c)),
                None => Ok(InsertOutcome::Done),
            };
        }
        match key {
            Key::Esc => {
                if (self.state.insert_state.insert_count > 1 && !self.state.insert_state.replaying_dot)
                    || self.state.insert_state.block_insert.is_some() {
                    return Ok(InsertOutcome::Unsupported);
                }
                let ra = self.try_expand_abbreviation();
                match ra {
                    Err(err) => Err(err),
                    Ok(_) => {
                        self.leave_insert_mode(true);
                        Ok(InsertOutcome::Done)
                    },
                }
            },
            Key::Ctrl('c') => {
                let ra = self.try_expand_abbreviation();
                match ra {
                    Err(err) => Err(err),
                    Ok(_) => {
                        self.leave_insert_mode(false);
                        Ok(InsertOutcome::Done)
                    },
                }
            },
            Key::Char(c) => {
                if self.state.settings.wrapmargin != 0 {
                    return Ok(InsertOutcome::Unsupported);
                }
                let word = crate::buffer::unicode::is_alphanumeric(c) || c == '_';
                if word {
                    return self.type_key(key);
                }
                let ra = self.try_expand_abbreviation();
                match ra {
                    Err(err) => Err(err),
                    Ok(_) => self.type_key(key),
                }
            },
            Key::Tab => {
                if self.state.settings.expandtab {
                    return Ok(InsertOutcome::Unsupported);
                }
                self.type_key(key)
            },
            Key::Enter => {
                let ra = self.try_expand_abbreviation();
                match ra {
                    Err(err) => Err(err),
                    Ok(_) => self.type_key(key),
                }
            },
            Key::Backspace | Key::Ctrl('h') => self.type_key(Key::Backspace),
            Key::Delete | Key::Left | Key::Right | Key::Up | Key::Down | Key::Ctrl('w') | Key::Ctrl('u') => {
                self.type_key(key)
            },
            Key::Ctrl('v') => {
                self.state.insert_state.insert_literal_next = true;
                Ok(InsertOutcome::Done)
            },
            Key::Ctrl('r') => {
                self.state.insert_state.insert_register_next = true;
                Ok(InsertOutcome::Done)
            },
            Key::Ctrl('@') | Key::Ctrl('t') | Key::Ctrl('d') => Ok(InsertOutcome::Unsupported),
            _ => Ok(InsertOutcome::Done),
        }
    }
}

} // verus!
