//! Replace mode (`R`) and the single-character replacement it is built on.

use vstd::prelude::*;
use crate::buffer::unicode::next_grapheme_end;
use crate::buffer::{insert_char_result, Cursor};
use crate::editor::editing::{backspaced, char_inserted, dot_finalized, newline_inserted, same_doc_meta};
use crate::editor::movement::{move_down_post, move_left_post, move_right_post, move_up_post};
use crate::editor::{Document, Editor, EditorState, InsertState, MAX_INSERT_KEYS};
use crate::error::Error;
use crate::mode::Mode;
use crate::terminal::Key;
use crate::text::{byte_len, char_index, char_width};
use crate::undo::{ended, recorded, EditAction};

verus! {

/// What replacing the grapheme cluster under the cursor of `e` by `ch`
/// does, giving `e2` and `r`: on the text, the cluster's first character
/// is recorded as replaced by `ch`, the cluster gives way to `ch` and the
/// cursor stays; at or past the end of the line, `ch` is inserted there
/// (or the buffer's error returned when the position does not exist).
pub open spec fn char_replaced(e: Editor, e2: Editor, ch: char, r: Result<(), Error>) -> bool {
    let v = e.document.buffer@;
    let row = e.document.cursor.row;
    let col = e.document.cursor.col;
    &&& same_doc_meta(e.document, e2.document)
    &&& e2.document.cursor == e.document.cursor
    &&& if row < v.len() && col < byte_len(v[row as int]) {
        let line = v[row as int];
        let k = char_index(line, col as int);
        let k2 = char_index(line, next_grapheme_end(line, col as int));
        &&& r is Ok
        &&& e2.document.buffer@ == v.update(row as int, line.take(k).push(ch) + line.skip(k2))
        &&& e2.document.modified
        &&& e2.state == (EditorState { undo_history: e2.state.undo_history, ..e.state })
        &&& recorded(
            e.state.undo_history,
            e2.state.undo_history,
            EditAction::ReplaceChar { row, col, old_char: line[k], new_char: ch },
        )
    } else {
        &&& e2.state == e.state
        &&& match insert_char_result(v, row, col, ch) {
            Ok(v2) => r is Ok && e2.document.buffer@ == v2 && e2.document.modified,
            Err(be) => r == Err::<(), Error>(Error::Buffer(be)) && e2.document.buffer@ == v
                && e2.document.modified == e.document.modified,
        }
    }
}

impl Editor {
    /// Replace the grapheme cluster under the cursor by `ch` (`r`, and each
    /// character typed in replace mode), recording the replacement; the
    /// cursor stays. At or past the end of the line `ch` is inserted there.
    pub fn replace_char_at_cursor(&mut self, ch: char) -> (r: Result<(), Error>)
        requires
            old(self).wf(),
            old(self).cursor_ok(),
        ensures
            final(self).wf(),
            char_replaced(*old(self), *final(self), ch, r),
    {
        let ghost v = self.document.buffer@;
        let row = self.document.cursor.row;
        let col = self.document.cursor.col;
        let mut replaced = false;
        let line_len = match self.document.buffer.line(row) {
            Some(line) => crate::text::str_byte_len(line),
            None => 0,
        };
        if row < self.document.buffer.len() && col < line_len {
            let (next, old_char) = match self.document.buffer.line(row) {
                Some(line) => {
                    let next = crate::buffer::unicode::next_grapheme_boundary(line, col);
                    let cs = crate::text::chars_of(line);
                    let k = crate::text::index_at_byte(cs.as_slice(), col);
                    proof {
                        if k >= cs@.len() {
                            assert(cs@.take(k as int) =~= cs@);
                        }
                    }
                    (next, cs[k])
                },
                None => (col, ' '),
            };
            let ghost line = v[row as int];
            let ghost k = char_index(line, col as int);
            let ghost k2 = char_index(line, next as int);
            let action = EditAction::ReplaceChar { row, col, old_char, new_char: ch };
            self.state.undo_history.record(action);
            let start = self.document.cursor;
            let end = Cursor::new(row, next);
            match self.document.buffer.delete_range(&start, &end) {
                Ok(()) => {},
                Err(err) => {
                    proof {
                        assert(false);
                    }
                    return Err(Error::Buffer(err));
                },
            }
            proof {
                let w = self.document.buffer@;
                assert(0 <= k <= line.len() && byte_len(line.take(k)) == col);
                assert(w[row as int] =~= line.take(k) + line.skip(k2));
                crate::text::lemma_byte_len_take_le(line, k);
                assert(line.take(k) =~= (line.take(k) + line.skip(k2)).take(k));
                crate::text::lemma_char_index_unique(w[row as int], k);
                assert(byte_len(w[row as int].take(k)) == col);
                crate::text::lemma_byte_len_take_le(w[row as int], k);
                assert(crate::buffer::position_error(w, row, col) is None);
            }
            replaced = true;
        }
        let cursor = self.document.cursor;
        let ghost w = self.document.buffer@;
        match self.document.buffer.insert_char(&cursor, ch) {
            Ok(()) => {},
            Err(err) => {
                proof {
                    assert(!replaced);
                }
                return Err(Error::Buffer(err));
            },
        }
        self.document.modified = true;
        proof {
            if replaced {
                let line = v[row as int];
                let k = char_index(line, col as int);
                let k2 = char_index(line, next_grapheme_end(line, col as int));
                let mid = line.take(k) + line.skip(k2);
                assert(w[row as int] == mid);
                assert(crate::buffer::pos_index(w, cursor) == k);
                assert(mid.take(k).push(ch) + mid.skip(k) =~= line.take(k).push(ch) + line.skip(k2));
                assert(self.document.buffer@ =~= v.update(row as int, line.take(k).push(ch) + line.skip(k2)));
            }
        }
        Ok(())
    }
}

} // verus!

verus! {

/// What replace mode keeps to undo each typed character with Backspace:
/// the grapheme cluster it overwrote, or nothing for one that was appended.
pub open spec fn originals(e: Editor) -> Seq<Option<Seq<char>>> {
    e.state.insert_state.replace_originals@.map_values(
        |o: Option<String>|
            match o {
                Some(t) => Some(t@),
                None => None,
            },
    )
}

/// `e2` is `e` with `key` kept for `.` (unless a `.` is being replayed or
/// the record is full); nothing else changes.
pub open spec fn key_noted(e: Editor, e2: Editor, key: Key) -> bool {
    let ks = e.state.insert_state.insert_keys@;
    &&& e2.document == e.document
    &&& e2.state == (EditorState { insert_state: e2.state.insert_state, ..e.state })
    &&& e2.state.insert_state == (InsertState {
        insert_keys: e2.state.insert_state.insert_keys,
        ..e.state.insert_state
    })
    &&& e2.state.insert_state.insert_keys@ == if !e.state.insert_state.replaying_dot && ks.len()
        < MAX_INSERT_KEYS {
        ks.push(key)
    } else {
        ks
    }
}

/// `e2` is `e` with the kept originals `o2`; nothing else changes.
pub open spec fn originals_set(e: Editor, e2: Editor, o2: Seq<Option<Seq<char>>>) -> bool {
    &&& e2.document == e.document
    &&& e2.state == (EditorState { insert_state: e2.state.insert_state, ..e.state })
    &&& e2.state.insert_state == (InsertState {
        replace_originals: e2.state.insert_state.replace_originals,
        ..e.state.insert_state
    })
    &&& originals(e2) == o2
}

/// `ec` is `ea` with the cursor one grapheme left when `col` is past 0.
pub open spec fn left_unless_at_start(ea: Editor, ec: Editor, col: usize) -> bool {
    if col > 0 {
        move_left_post(ea, ec)
    } else {
        ec == ea
    }
}

/// What leaving replace mode (Esc, Ctrl-C) does to `e`, giving `e2`: the
/// undo group closes at the cursor, normal mode, the cursor one grapheme
/// left unless at column 0, the typed keys become what `.` repeats
/// (unless a `.` is being replayed), and the session's entry kind and kept
/// originals are cleared.
pub open spec fn replace_left(e: Editor, e2: Editor) -> bool {
    exists|ea: Editor, ec: Editor|
        #![trigger ended(e.state.undo_history, ea.state.undo_history, e.document.cursor), left_unless_at_start(ea, ec, e.document.cursor.col)]
        {
            &&& ea.document == e.document
            &&& ea.state == (EditorState {
                undo_history: ea.state.undo_history,
                mode: Mode::Normal,
                ..e.state
            })
            &&& ended(e.state.undo_history, ea.state.undo_history, e.document.cursor)
            &&& left_unless_at_start(ea, ec, e.document.cursor.col)
            &&& e2.document == ec.document
            &&& originals(e2).len() == 0
            &&& if !e.state.insert_state.replaying_dot {
                exists|sd: EditorState|
                    #[trigger] dot_finalized(ec.state, sd) && e2.state == (EditorState {
                        insert_state: InsertState {
                            insert_entry_kind: None,
                            replace_originals: e2.state.insert_state.replace_originals,
                            ..sd.insert_state
                        },
                        ..sd
                    })
            } else {
                e2.state == (EditorState {
                    insert_state: InsertState {
                        insert_entry_kind: None,
                        replace_originals: e2.state.insert_state.replace_originals,
                        ..ec.state.insert_state
                    },
                    ..ec.state
                })
            }
        }
}

/// What Backspace restoring the overwritten cluster `o` does to `e` (the
/// cursor already moved back onto the replacement), giving `e2` and `r`:
/// the replacement's cluster gives way to `o`'s characters, in order,
/// recorded as
/// the replacement of its first character by `o`'s first (or NUL); the
/// cursor stays. Off the text nothing happens.
pub open spec fn original_restored(e: Editor, e2: Editor, o: Seq<char>, r: Result<(), Error>) -> bool {
    let v = e.document.buffer@;
    let row = e.document.cursor.row;
    let col = e.document.cursor.col;
    if row < v.len() && col < byte_len(v[row as int]) {
        let line = v[row as int];
        let k = char_index(line, col as int);
        let k2 = char_index(line, next_grapheme_end(line, col as int));
        &&& r is Ok
        &&& e2.document.buffer@ == v.update(row as int, line.take(k) + o + line.skip(k2))
        &&& e2.document.cursor == e.document.cursor
        &&& e2.document.modified
        &&& same_doc_meta(e.document, e2.document)
        &&& e2.state == (EditorState { undo_history: e2.state.undo_history, ..e.state })
        &&& recorded(
            e.state.undo_history,
            e2.state.undo_history,
            EditAction::ReplaceChar {
                row,
                col,
                old_char: line[k],
                new_char: if o.len() > 0 {
                    o[0]
                } else {
                    '\0'
                },
            },
        )
    } else {
        r is Ok && e2 == e
    }
}

/// The grapheme cluster at byte `col` of `line`.
pub open spec fn cluster_at(line: Seq<char>, col: int) -> Seq<char> {
    line.subrange(char_index(line, col), char_index(line, next_grapheme_end(line, col)))
}

/// What a key does in replace mode to `e`, giving `e2` and `r`.
pub open spec fn replace_step(e: Editor, key: Key, e2: Editor, r: Result<(), Error>) -> bool {
    let v = e.document.buffer@;
    let row = e.document.cursor.row;
    let col = e.document.cursor.col;
    match key {
        Key::Esc => r is Ok && replace_left(e, e2),
        Key::Ctrl('c') => r is Ok && replace_left(e, e2),
        Key::Char(c) => exists|e1: Editor, e3: Editor|
            #![trigger key_noted(e, e1, key), originals(e3)]
            {
                &&& key_noted(e, e1, key)
                &&& if row < v.len() && col < byte_len(v[row as int]) {
                    &&& originals_set(e1, e3, originals(e1).push(Some(cluster_at(v[row as int], col as int))))
                    &&& r is Ok
                    &&& exists|e4: Editor|
                        #[trigger] char_replaced(e3, e4, c, Ok(()))
                            && e2 == (Editor {
                            document: Document {
                                cursor: Cursor { row, col: (col + char_width(c)) as usize },
                                ..e4.document
                            },
                            ..e4
                        })
                } else {
                    &&& originals_set(e1, e3, originals(e1).push(None))
                    &&& char_inserted(e3, e2, c, r)
                }
            },
        Key::Backspace => exists|e1: Editor|
            #![trigger key_noted(e, e1, key)]
            {
                &&& key_noted(e, e1, key)
                &&& if originals(e).len() == 0 {
                    r is Ok && e2 == e1
                } else {
                    exists|e3: Editor|
                        #![trigger originals_set(e1, e3, originals(e).drop_last())]
                        {
                            &&& originals_set(e1, e3, originals(e).drop_last())
                            &&& match originals(e).last() {
                                None => backspaced(e3, e2, r),
                                Some(o) => exists|e4: Editor|
                                    #[trigger] move_left_post(e3, e4) && original_restored(e4, e2, o, r),
                            }
                        }
                }
            },
        Key::Enter => exists|e1: Editor, e3: Editor|
            #![trigger key_noted(e, e1, key), originals_set(e1, e3, originals(e1).push(None))]
            key_noted(e, e1, key) && originals_set(e1, e3, originals(e1).push(None)) && newline_inserted(
                e3,
                e2,
                r,
            ),
        Key::Left => exists|e1: Editor|
            #![trigger key_noted(e, e1, key)]
            key_noted(e, e1, key) && r is Ok && move_left_post(e1, e2),
        Key::Right => exists|e1: Editor|
            #![trigger key_noted(e, e1, key)]
            key_noted(e, e1, key) && r is Ok && move_right_post(e1, e2),
        Key::Up => exists|e1: Editor|
            #![trigger key_noted(e, e1, key)]
            key_noted(e, e1, key) && r is Ok && move_up_post(e1, e2),
        Key::Down => exists|e1: Editor|
            #![trigger key_noted(e, e1, key)]
            key_noted(e, e1, key) && r is Ok && move_down_post(e1, e2),
        _ => r is Ok && e2 == e,
    }
}

} // verus!

verus! {

impl Editor {
    /// Put the overwritten cluster `orig` back in place of the cluster
    /// under the cursor, recording it as a character replacement.
    fn restore_original(&mut self, orig: String) -> (r: Result<(), Error>)
        requires
            old(self).wf(),
            old(self).cursor_ok(),
            old(self).document.cursor.col + byte_len(orig@) <= usize::MAX,
        ensures
            final(self).wf(),
            original_restored(*old(self), *final(self), orig@, r),
    {
        let ghost v = self.document.buffer@;
        let row = self.document.cursor.row;
        let col = self.document.cursor.col;
        let line_len = match self.document.buffer.line(row) {
            Some(line) => crate::text::str_byte_len(line),
            None => 0,
        };
        if !(row < self.document.buffer.len() && col < line_len) {
            return Ok(());
        }
        let (next, replacement_first) = match self.document.buffer.line(row) {
            Some(line) => {
                let next = crate::buffer::unicode::next_grapheme_boundary(line, col);
                let cs = crate::text::chars_of(line);
                let k = crate::text::index_at_byte(cs.as_slice(), col);
                proof {
                    if k >= cs@.len() {
                        assert(cs@.take(k as int) =~= cs@);
                    }
                }
                (next, cs[k])
            },
            None => (col, ' '),
        };
        let oc = crate::text::chars_of(orig.as_str());
        let orig_first = if oc.len() > 0 {
            oc[0]
        } else {
            '\0'
        };
        let ghost line = v[row as int];
        let ghost k = char_index(line, col as int);
        let ghost k2 = char_index(line, next as int);
        let action = EditAction::ReplaceChar { row, col, old_char: replacement_first, new_char: orig_first };
        self.state.undo_history.record(action);
        let start = self.document.cursor;
        let end = Cursor::new(row, next);
        match self.document.buffer.delete_range(&start, &end) {
            Ok(()) => {},
            Err(err) => {
                proof {
                    assert(false);
                }
                return Err(Error::Buffer(err));
            },
        }
        let ghost pre = line.take(k);
        let ghost post = line.skip(k2);
        let ghost w = self.document.buffer@;
        proof {
            assert(0 <= k <= line.len() && byte_len(line.take(k)) == col);
            assert(w[row as int] =~= pre + post);
            assert(w == v.update(row as int, pre + Seq::<char>::empty() + post));
        }
        let cursor = self.document.cursor;
        let mut i: usize = 0;
        let ghost st = self.state;
        while i < oc.len()
            invariant
                i <= oc@.len(),
                oc@ == orig@,
                cursor == old(self).document.cursor,
                row == cursor.row,
                col == cursor.col,
                row < v.len(),
                pre.len() == k,
                byte_len(pre) == col,
                col + byte_len(orig@) <= usize::MAX,
                self.document.buffer.wf(),
                self.document.buffer@ == v.update(row as int, pre + oc@.take(i as int) + post),
                self.document.cursor.row == row,
                self.document.cursor.col == col + byte_len(oc@.take(i as int)),
                self.document.modified == old(self).document.modified,
                same_doc_meta(old(self).document, self.document),
                self.state == st,
            decreases oc.len() - i,
        {
            let ch = oc[i];
            let ghost cur = pre + oc@.take(i as int) + post;
            proof {
                assert(cur.take(k + i) =~= pre + oc@.take(i as int));
                crate::text::lemma_byte_len_concat(pre, oc@.take(i as int));
                crate::text::lemma_char_index_unique(cur, k + i);
                crate::text::lemma_byte_len_take_le(cur, k + i);
            }
            let at = self.document.cursor;
            match self.document.buffer.insert_char(&at, ch) {
                Ok(()) => {},
                Err(err) => {
                    proof {
                        assert(crate::buffer::position_error(self.document.buffer@, row, col) is None);
                        assert(false);
                    }
                    return Err(Error::Buffer(err));
                },
            }
            proof {
                crate::text::lemma_byte_len_take_step(oc@, i as int);
                crate::text::lemma_byte_len_take_le(oc@, i + 1);
                assert(oc@.take(i + 1) =~= oc@.take(i as int).push(ch));
                assert(cur.skip(k + i) =~= post);
                assert(cur.take(k + i).push(ch) + cur.skip(k + i) =~= pre + oc@.take(i + 1) + post);
                assert(byte_len(oc@) <= usize::MAX);
            }
            self.document.cursor.col = self.document.cursor.col + crate::text::utf8_width(ch);
            i = i + 1;
        }
        self.document.cursor.col = col;
        self.document.modified = true;
        proof {
            assert(oc@.take(i as int) =~= orig@);
        }
        Ok(())
    }

    /// Leave replace mode (Esc, Ctrl-C).
    fn leave_replace_mode(&mut self)
        requires
            old(self).wf(),
            old(self).cursor_ok(),
        ensures
            final(self).wf(),
            replace_left(*old(self), *final(self)),
    {
        let ghost e0 = *self;
        self.state.undo_history.end_group(self.document.cursor);
        self.state.mode = Mode::Normal;
        let ghost ea = *self;
        if self.document.cursor.col > 0 {
            self.move_left();
        }
        let ghost ec = *self;
        if !self.state.insert_state.replaying_dot {
            self.state.finalize_insert_for_dot();
        }
        let ghost sd = self.state;
        self.state.insert_state.insert_entry_kind = None;
        self.state.insert_state.replace_originals.clear();
        proof {
            assert(ended(e0.state.undo_history, ea.state.undo_history, e0.document.cursor));
            assert(left_unless_at_start(ea, ec, e0.document.cursor.col));
            if !e0.state.insert_state.replaying_dot {
                assert(dot_finalized(ec.state, sd));
            }
            assert(originals(*self) =~= Seq::<Option<Seq<char>>>::empty());
        }
    }

    /// Handle a key in replace mode (`R`): a typed character overwrites the
    /// grapheme cluster under the cursor (keeping it for Backspace) or is
    /// appended at the end of the line; Backspace puts back what the last
    /// typed character overwrote, or deletes what it appended; Enter splits
    /// the line; the arrows move; Esc or Ctrl-C leave replace mode. Each
    /// key but Esc and Ctrl-C is kept for `.`.
    pub fn handle_replace_key(&mut self, key: Key) -> (r: Result<(), Error>)
        requires
            old(self).wf(),
            old(self).cursor_ok(),
            key matches Key::Char(c) ==> old(self).document.cursor.col + char_width(c) <= usize::MAX,
            key is Backspace && originals(*old(self)).len() > 0 ==> (originals(*old(self)).last() matches Some(
                o,
            ) ==> old(self).document.cursor.col + byte_len(o) <= usize::MAX),
            key is Enter ==> (old(self).state.insert_state.saved_indent matches Some(s) ==> forall|i: int|
                0 <= i < s@.len() ==> s@[i] != '\n'),
        ensures
            final(self).wf(),
            replace_step(*old(self), key, *final(self), r),
    {
        let ghost e0 = *self;
        let ghost v = self.document.buffer@;
        let row = self.document.cursor.row;
        let col = self.document.cursor.col;
        match key {
            Key::Esc => {
                self.leave_replace_mode();
                Ok(())
            },
            Key::Ctrl('c') => {
                self.leave_replace_mode();
                Ok(())
            },
            Key::Char(c) => {
                self.state.insert_state.maybe_record_key(Key::Char(c));
                let ghost e1 = *self;
                let line_len = match self.document.buffer.line(row) {
                    Some(l) => crate::text::str_byte_len(l),
                    None => 0,
                };
                if row < self.document.buffer.len() && col < line_len {
                    let orig = match self.document.buffer.line(row) {
                        Some(line) => {
                            let next = crate::buffer::unicode::next_grapheme_boundary(line, col);
                            Some(crate::editor::yank_put::slice_str(line, col, next))
                        },
                        None => None,
                    };
                    self.state.insert_state.replace_originals.push(orig);
                    let ghost e3 = *self;
                    proof {
                        assert(originals(e3) =~= originals(e1).push(Some(cluster_at(v[row as int], col as int))));
                    }
                    let res = self.replace_char_at_cursor(c);
                    let ghost e4 = *self;
                    match res {
                        Ok(()) => {},
                        Err(err) => {
                            proof {
                                assert(false);
                            }
                            return Err(err);
                        },
                    }
                    let w = crate::text::utf8_width(c);
                    self.document.cursor.col = col + w;
                    proof {
                        assert(key_noted(e0, e1, key));
                        assert(char_replaced(e3, e4, c, Ok(())));
                    }
                    Ok(())
                } else {
                    self.state.insert_state.replace_originals.push(None);
                    let ghost e3 = *self;
                    proof {
                        assert(originals(e3) =~= originals(e1).push(None));
                    }
                    let res = self.insert_char(c);
                    proof {
                        assert(key_noted(e0, e1, key));
                    }
                    res
                }
            },
            Key::Backspace => {
                self.state.insert_state.maybe_record_key(Key::Backspace);
                let ghost e1 = *self;
                proof {
                    assert(key_noted(e0, e1, key));
                    assert(originals(e1) == originals(e0));
                }
                if self.state.insert_state.replace_originals.len() == 0 {
                    return Ok(());
                }
                match self.state.insert_state.replace_originals.pop() {
                    None => Ok(()),
                    Some(entry) => {
                        let ghost e3 = *self;
                        proof {
                            assert(originals(e3) =~= originals(e0).drop_last());
                            assert(originals_set(e1, e3, originals(e0).drop_last()));
                        }
                        match entry {
                            Some(orig) => {
                                proof {
                                    assert(originals(e0).last() == Some(orig@));
                                }
                                self.move_left();
                                let ghost e4 = *self;
                                let res = self.restore_original(orig);
                                proof {
                                    assert(move_left_post(e3, e4));
                                }
                                res
                            },
                            None => self.delete_char_before_cursor(),
                        }
                    },
                }
            },
            Key::Enter => {
                self.state.insert_state.maybe_record_key(Key::Enter);
                let ghost e1 = *self;
                self.state.insert_state.replace_originals.push(None);
                let ghost e3 = *self;
                proof {
                    assert(key_noted(e0, e1, key));
                    assert(originals(e3) =~= originals(e1).push(None));
                    assert(originals_set(e1, e3, originals(e1).push(None)));
                }
                self.insert_newline()
            },
            Key::Left => {
                self.state.insert_state.maybe_record_key(Key::Left);
                let ghost e1 = *self;
                self.move_left();
                proof {
                    assert(key_noted(e0, e1, key));
                }
                Ok(())
            },
            Key::Right => {
                self.state.insert_state.maybe_record_key(Key::Right);
                let ghost e1 = *self;
                self.move_right();
                proof {
                    assert(key_noted(e0, e1, key));
                }
                Ok(())
            },
            Key::Up => {
                self.state.insert_state.maybe_record_key(Key::Up);
                let ghost e1 = *self;
                self.move_up();
                proof {
                    assert(key_noted(e0, e1, key));
                }
                Ok(())
            },
            Key::Down => {
                self.state.insert_state.maybe_record_key(Key::Down);
                let ghost e1 = *self;
                self.move_down();
                proof {
                    assert(key_noted(e0, e1, key));
                }
                Ok(())
            },
            _ => Ok(()),
        }
    }
}

} // verus!
