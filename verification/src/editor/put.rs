//! Put (`p`, `P`): register text back into the buffer, as whole lines,
//! within a line, or as a block of columns.

use vstd::prelude::*;
use crate::buffer::unicode::{next_grapheme_end, prev_grapheme_start};
use crate::buffer::{insert_text_lines, row_error, split_all, split_segments, Cursor};
use crate::editor::editing::same_doc_meta;
use crate::editor::movement::{first_non_blank_col, max_col, min};
use crate::editor::{Editor, EditorState};
use crate::registers::{register_target, ContentType};
use crate::error::{BufferError, Error};
use crate::text::{byte_len, char_index, chars_of, is_boundary, string_from_chars};
use crate::undo::{last_action, recent_actions, recorded_last, recorded_seq, EditAction};

verus! {

/// `l` without one final carriage return.
pub open spec fn strip_cr(l: Seq<char>) -> Seq<char> {
    if l.len() > 0 && l.last() == '\r' {
        l.drop_last()
    } else {
        l
    }
}

/// The lines of `t` as `str::lines` gives them: split at line feeds, a
/// final line feed ending the last line, and a carriage return dropped
/// before each line feed; empty text has no lines.
pub open spec fn rust_lines(t: Seq<char>) -> Seq<Seq<char>> {
    if t.len() == 0 {
        Seq::empty()
    } else {
        let ends = t.last() == '\n';
        let segs = split_all(
            if ends {
                t.drop_last()
            } else {
                t
            },
        );
        Seq::new(
            segs.len(),
            |i: int|
                if i < segs.len() - 1 || ends {
                    strip_cr(segs[i])
                } else {
                    segs[i]
                },
        )
    }
}

/// `a` records the insertion of the line `content` before row `row`.
pub open spec fn inserts_line(a: EditAction, row: int, content: Seq<char>) -> bool {
    a matches EditAction::InsertLine { row: r, content: c } && r == row && c@ == content
}

/// What putting the lines of `t` before row `insert_row` does to `e`,
/// giving `e2` and `r` (the modified flag aside): each insertion is
/// recorded for undo, and the cursor goes to the first non-blank character
/// of row `insert_row`. Putting lines below the end of the buffer is
/// refused after recording the first insertion.
pub open spec fn lines_put_post(e: Editor, e2: Editor, insert_row: usize, t: Seq<char>, r: Result<(), Error>) -> bool {
    let v = e.document.buffer@;
    let ls = rust_lines(t);
    let acts = recent_actions(e.state.undo_history, e2.state.undo_history);
    &&& e2.state == (crate::editor::EditorState { undo_history: e2.state.undo_history, ..e.state })
    &&& crate::editor::editing::same_doc_meta(e.document, e2.document)
    &&& recorded_seq(e.state.undo_history, e2.state.undo_history, acts)
    &&& if ls.len() > 0 && insert_row > v.len() {
        &&& r == Err::<(), Error>(Error::Buffer(crate::buffer::row_error(insert_row, v)))
        &&& acts.len() == 1
        &&& inserts_line(acts[0], insert_row as int, ls[0])
        &&& e2.document.buffer@ == v
        &&& e2.document.cursor == e.document.cursor
    } else {
        let v2 = if insert_row <= v.len() {
            v.take(insert_row as int) + ls + v.skip(insert_row as int)
        } else {
            v
        };
        &&& r is Ok
        &&& acts.len() == ls.len()
        &&& forall|i: int| 0 <= i < ls.len() ==> inserts_line(#[trigger] acts[i], insert_row + i, ls[i])
        &&& e2.document.buffer@ == v2
        &&& e2.document.cursor.row == insert_row
        &&& e2.document.cursor.col == if insert_row < v2.len() {
            min(first_non_blank_col(v2[insert_row as int]), max_col(e.state.mode, v2[insert_row as int]))
        } else {
            0
        }
    }
}

/// The lines of `t`, as `str::lines` gives them.
pub fn str_lines(t: &str) -> (r: Vec<String>)
    ensures
        r@.map_values(|l: String| l@) == rust_lines(t@),
{
    let cs = chars_of(t);
    if cs.len() == 0 {
        let r: Vec<String> = Vec::new();
        assert(r@.map_values(|l: String| l@) =~= rust_lines(t@));
        return r;
    }
    let ends = cs[cs.len() - 1] == '\n';
    let n = if ends {
        cs.len() - 1
    } else {
        cs.len()
    };
    let segs = split_segments(cs.as_slice(), n);
    let ghost sv = segs@.map_values(|l: String| l@);
    proof {
        if ends {
            assert(cs@.take(n as int) =~= t@.drop_last());
        } else {
            assert(cs@.take(n as int) =~= t@);
        }
        crate::buffer::lemma_split_all_nonempty(cs@.take(n as int));
    }
    let mut out: Vec<String> = Vec::new();
    let mut i: usize = 0;
    while i < segs.len()
        invariant
            i <= segs@.len(),
            sv == segs@.map_values(|l: String| l@),
            sv == split_all(
                if ends {
                    t@.drop_last()
                } else {
                    t@
                },
            ),
            t@.len() > 0,
            ends == (t@.last() == '\n'),
            out@.map_values(|l: String| l@) == rust_lines(t@).take(i as int),
        decreases segs.len() - i,
    {
        let sc = chars_of(segs[i].as_str());
        let strip = (i + 1 < segs.len() || ends) && sc.len() > 0 && sc[sc.len() - 1] == '\r';
        let line = if strip {
            let mut kept: Vec<char> = Vec::new();
            crate::text::extend_range(&mut kept, sc.as_slice(), 0, sc.len() - 1);
            string_from_chars(kept.as_slice())
        } else {
            segs[i].clone()
        };
        let ghost before = out@;
        out.push(line);
        proof {
            if strip {
                assert(sc@.subrange(0, sc@.len() - 1) =~= sc@.drop_last());
            }
            assert(out@.map_values(|l: String| l@) =~= before.map_values(|l: String| l@).push(
                line@,
            ));
            assert(rust_lines(t@).take(i + 1) =~= rust_lines(t@).take(i as int).push(
                rust_lines(t@)[i as int],
            ));
        }
        i = i + 1;
    }
    assert(rust_lines(t@).take(i as int) =~= rust_lines(t@));
    out
}

impl Editor {
    /// Insert the lines of `text` before row `insert_row`, recording each
    /// insertion for undo, and put the cursor on the first non-blank
    /// character of row `insert_row`. When `insert_row` is past the end of
    /// the buffer, the first insertion is recorded and refused.
    pub fn put_lines(&mut self, insert_row: usize, text: &str) -> (r: Result<(), Error>)
        requires
            old(self).wf(),
        ensures
            final(self).wf(),
            final(self).document.modified == old(self).document.modified,
            lines_put_post(*old(self), *final(self), insert_row, text@, r),
    {
        let ghost v = self.document.buffer@;
        let lines = str_lines(text);
        let ghost ls = rust_lines(text@);
        let ghost h0 = self.state.undo_history;
        proof {
            crate::undo::lemma_recorded_seq_empty(h0);
            crate::undo::lemma_recent_actions(h0, h0, Seq::empty());
            if insert_row <= v.len() {
                assert(v.take(insert_row as int) + ls.take(0) + v.skip(insert_row as int) =~= v);
            }
        }
        let mut i: usize = 0;
        while i < lines.len()
            invariant
                i <= lines@.len(),
                old(self).wf(),
                v == old(self).document.buffer@,
                h0 == old(self).state.undo_history,
                lines@.map_values(|l: String| l@) == ls,
                ls == rust_lines(text@),
                i > 0 ==> insert_row <= v.len(),
                self.document.buffer.wf(),
                i == 0 ==> self.document.buffer@ == v,
                insert_row <= v.len() ==> self.document.buffer@ == v.take(insert_row as int) + ls.take(i as int) + v.skip(
                    insert_row as int,
                ),
                self.document.cursor == old(self).document.cursor,
                self.document.modified == old(self).document.modified,
                crate::editor::editing::same_doc_meta(old(self).document, self.document),
                self.state == (crate::editor::EditorState {
                    undo_history: self.state.undo_history,
                    ..old(self).state
                }),
                recorded_seq(h0, self.state.undo_history, recent_actions(h0, self.state.undo_history)),
                recent_actions(h0, self.state.undo_history).len() == i,
                forall|j: int|
                    0 <= j < i ==> inserts_line(
                        #[trigger] recent_actions(h0, self.state.undo_history)[j],
                        insert_row + j,
                        ls[j],
                    ),
            decreases lines.len() - i,
        {
            let ghost cur = self.document.buffer@;
            let _n = self.document.buffer.len();
            proof {
                if i > 0 {
                    assert(cur.len() == v.len() + i);
                    assert(insert_row + i <= usize::MAX);
                }
            }
            let row = if i == 0 {
                insert_row
            } else {
                insert_row + i
            };
            let a = EditAction::InsertLine { row, content: lines[i].clone() };
            proof {
                assert(lines@.map_values(|l: String| l@)[i as int] == lines@[i as int]@);
            }
            let ghost hp = self.state.undo_history;
            self.state.undo_history.record(a.duplicate());
            let ghost hn = self.state.undo_history;
            proof {
                let before = recent_actions(h0, hp);
                crate::undo::lemma_recorded_seq_step(h0, hp, hn, before, a);
                crate::undo::lemma_recent_actions(h0, hn, before.push(a));
            }
            match self.document.buffer.insert_line(row, lines[i].clone()) {
                Ok(()) => {},
                Err(e) => {
                    proof {
                        assert(i == 0);
                        assert(ls.len() == lines@.len());
                        assert(ls.len() > 0);
                        assert(cur == v);
                        assert(insert_row > v.len());
                        assert(self.document.buffer@ == v);
                        assert(recent_actions(h0, self.state.undo_history).len() == 1);
                        assert(recorded_seq(h0, self.state.undo_history, recent_actions(h0, self.state.undo_history)));
                        assert(e == crate::buffer::row_error(insert_row, v));
                    }
                    return Err(Error::Buffer(e));
                },
            }
            proof {
                assert(lines@.map_values(|l: String| l@)[i as int] == lines@[i as int]@);
                assert(insert_row <= v.len());
                assert(cur =~= v.take(insert_row as int) + ls.take(i as int) + v.skip(insert_row as int));
                assert(cur.insert(insert_row + i, ls[i as int]) =~= v.take(insert_row as int)
                    + ls.take(i + 1) + v.skip(insert_row as int));
            }
            i = i + 1;
        }
        proof {
            assert(ls.take(i as int) =~= ls);
        }
        self.document.cursor = Cursor::new(insert_row, 0);
        self.move_to_first_non_blank();
        Ok(())
    }
}

} // verus!

verus! {

/// Where a characterwise put inserts: for `p`, after the grapheme cluster
/// at the cursor when the cursor is within its line; else at the cursor.
pub open spec fn char_put_start(e: Editor, after: bool) -> Cursor {
    let c = e.document.cursor;
    let v = e.document.buffer@;
    if after && c.row < v.len() && c.col < byte_len(v[c.row as int]) {
        Cursor { row: c.row, col: next_grapheme_end(v[c.row as int], c.col as int) as usize }
    } else {
        c
    }
}

/// The position just after text `t` inserted at `p`.
pub open spec fn end_of_insert(p: Cursor, t: Seq<char>) -> Cursor {
    let segs = split_all(t);
    if segs.len() == 1 {
        Cursor { row: p.row, col: (p.col + byte_len(t)) as usize }
    } else {
        Cursor { row: (p.row + segs.len() - 1) as usize, col: byte_len(segs.last()) as usize }
    }
}

/// The cursor moved back from `q` onto the last put character: one
/// grapheme cluster back when not at the start of its line; at the start
/// of a line below `start_row`, onto the last cluster of the line above.
pub open spec fn step_back(v: Seq<Seq<char>>, q: Cursor, start_row: int) -> Cursor {
    if q.col > 0 {
        if q.row < v.len() {
            Cursor { row: q.row, col: prev_grapheme_start(v[q.row as int], q.col as int) as usize }
        } else {
            q
        }
    } else if q.row > start_row {
        let r = q.row - 1;
        if r < v.len() {
            Cursor { row: r as usize, col: prev_grapheme_start(v[r], byte_len(v[r]) as int) as usize }
        } else {
            Cursor { row: r as usize, col: q.col }
        }
    } else {
        q
    }
}

/// What a characterwise put of `t` does to `e`, giving `e2` and `r` (the
/// modified flag aside): the
/// insertion is recorded for undo as one action; the text goes in at the
/// start position, and the cursor onto the last character put. Putting
/// non-empty text below the last line is refused.
pub open spec fn chars_put_post(e: Editor, e2: Editor, after: bool, t: Seq<char>, r: Result<(), Error>) -> bool {
    let p = char_put_start(e, after);
    let v = e.document.buffer@;
    &&& e2.state == (EditorState { undo_history: e2.state.undo_history, ..e.state })
    &&& recorded_last(e.state.undo_history, e2.state.undo_history)
    &&& last_action(e2.state.undo_history) matches EditAction::InsertText { row, col, text } && row
        == p.row && col == p.col && text@ == t
    &&& same_doc_meta(e.document, e2.document)
    &&& if t.len() > 0 && p.row >= v.len() {
        &&& r == Err::<(), Error>(Error::Buffer(row_error(p.row, v)))
        &&& e2.document.buffer@ == v
        &&& e2.document.cursor == p
    } else {
        let v2 = if t.len() == 0 {
            v
        } else {
            insert_text_lines(v, p.row as int, char_index(v[p.row as int], p.col as int), t)
        };
        &&& r is Ok
        &&& e2.document.buffer@ == v2
        &&& e2.document.cursor == step_back(v2, end_of_insert(p, t), p.row as int)
    }
}

/// `split_all` of a prefix has no more lines than of the whole.
proof fn lemma_split_all_len_mono(s: Seq<char>, i: int)
    requires
        0 <= i <= s.len(),
    ensures
        split_all(s.take(i)).len() <= split_all(s).len(),
    decreases s.len() - i,
{
    if i < s.len() {
        lemma_split_all_len_mono(s, i + 1);
        assert(s.take(i + 1).drop_last() =~= s.take(i));
    } else {
        assert(s.take(i) =~= s);
    }
}

/// The last line of `split_all(s)` is no longer, in bytes, than `s`.
proof fn lemma_last_segment_len(s: Seq<char>)
    ensures
        byte_len(split_all(s).last()) <= byte_len(s),
    decreases s.len(),
{
    crate::buffer::lemma_split_all_nonempty(s);
    if s.len() > 0 {
        lemma_last_segment_len(s.drop_last());
        crate::buffer::lemma_split_all_nonempty(s.drop_last());
        if s.last() != '\n' {
            let l = split_all(s.drop_last()).last();
            assert(l.push(s.last()).drop_last() =~= l);
        }
    }
}

/// The position after inserting the characters `cs` at `p`, walked as the
/// insertion goes: a line feed moves to the start of the next row, any
/// other character moves right by its width.
fn insert_end(p: Cursor, cs: &[char]) -> (q: Cursor)
    requires
        p.col + byte_len(cs@) <= usize::MAX,
        p.row + split_all(cs@).len() - 1 <= usize::MAX,
    ensures
        q == end_of_insert(p, cs@),
{
    let mut row = p.row;
    let mut col = p.col;
    let mut i: usize = 0;
    assert(cs@.take(0) =~= Seq::<char>::empty());
    while i < cs.len()
        invariant
            i <= cs@.len(),
            p.col + byte_len(cs@) <= usize::MAX,
            p.row + split_all(cs@).len() - 1 <= usize::MAX,
            (Cursor { row, col }) == end_of_insert(p, cs@.take(i as int)),
        decreases cs.len() - i,
    {
        let ghost pre = cs@.take(i as int);
        proof {
            assert(cs@.take(i + 1).drop_last() =~= pre);
            crate::buffer::lemma_split_all_nonempty(pre);
            lemma_split_all_len_mono(cs@, i + 1);
            crate::text::lemma_byte_len_take_step(cs@, i as int);
            crate::text::lemma_byte_len_take_le(cs@, i + 1);
        }
        if cs[i] == '\n' {
            row = row + 1;
            col = 0;
        } else {
            proof {
                let segs = split_all(pre);
                assert(segs.last().push(cs@[i as int]).drop_last() =~= segs.last());
                if segs.len() > 1 {
                    let segs1 = split_all(cs@.take(i + 1));
                    assert(segs1.last() == segs.last().push(cs@[i as int]));
                    crate::text::lemma_byte_len_take_le(cs@, i as int);
                    lemma_last_segment_len(pre);
                }
            }
            col = col + crate::text::utf8_width(cs[i]);
        }
        i = i + 1;
    }
    assert(cs@.take(i as int) =~= cs@);
    Cursor { row, col }
}

} // verus!

verus! {

/// The end of the inserted text is a character boundary of the line it
/// ends on.
proof fn lemma_insert_end_boundary(v: Seq<Seq<char>>, p: Cursor, t: Seq<char>)
    requires
        p.row < v.len(),
        is_boundary(v[p.row as int], p.col as int),
        t.len() > 0,
        p.col + byte_len(t) <= usize::MAX,
        v.len() + split_all(t).len() - 1 <= usize::MAX,
    ensures
        ({
            let k = char_index(v[p.row as int], p.col as int);
            let v2 = insert_text_lines(v, p.row as int, k, t);
            let q = end_of_insert(p, t);
            &&& q.row < v2.len()
            &&& is_boundary(v2[q.row as int], q.col as int)
            &&& v2.len() == v.len() + split_all(t).len() - 1
        }),
{
    let line = v[p.row as int];
    let k = char_index(line, p.col as int);
    let segs = split_all(t);
    crate::buffer::lemma_split_all_nonempty(t);
    let pre = line.take(k);
    let suf = line.skip(k);
    assert(byte_len(pre) == p.col);
    if segs.len() == 1 {
        crate::buffer::lemma_split_all_single(t);
        let nl = pre + t + suf;
        let v2 = insert_text_lines(v, p.row as int, k, t);
        assert(v2[p.row as int] == nl);
        assert(nl.take((pre + t).len() as int) =~= pre + t);
        crate::text::lemma_byte_len_concat(pre, t);
        crate::text::lemma_char_index_unique(nl, (pre + t).len() as int);
        let q = end_of_insert(p, t);
        assert(q.row == p.row);
        assert(q.col == byte_len(pre + t));
        assert(is_boundary(nl, q.col as int));
    } else {
        let nl = segs.last() + suf;
        lemma_last_segment_len(t);
        assert(nl.take(segs.last().len() as int) =~= segs.last());
        crate::text::lemma_char_index_unique(nl, segs.last().len() as int);
        let v2 = insert_text_lines(v, p.row as int, k, t);
        assert(v2[p.row + segs.len() - 1] == nl);
        let q = end_of_insert(p, t);
        assert(q.col == byte_len(segs.last()));
        assert(is_boundary(nl, q.col as int));
    }
}

impl Editor {
    /// Put the cursor at `q` moved back onto the last put character (see
    /// `step_back`).
    fn step_back_cursor(&mut self, q: Cursor, start_row: usize)
        requires
            q.col > 0 && q.row < old(self).document.buffer@.len() ==> is_boundary(
                old(self).document.buffer@[q.row as int],
                q.col as int,
            ),
        ensures
            final(self).document == (crate::editor::Document {
                cursor: step_back(old(self).document.buffer@, q, start_row as int),
                ..old(self).document
            }),
            final(self).state == old(self).state,
    {
        self.document.cursor = q;
        if q.col > 0 {
            match self.document.buffer.line(q.row) {
                Some(line) => {
                    self.document.cursor.col = crate::buffer::unicode::prev_grapheme_boundary(line, q.col);
                },
                None => {},
            }
        } else if q.row > start_row {
            self.document.cursor.row = q.row - 1;
            match self.document.buffer.line(q.row - 1) {
                Some(line) => {
                    proof {
                        crate::editor::yank_put::lemma_line_end(line@);
                    }
                    let n = crate::text::str_byte_len(line);
                    self.document.cursor.col = crate::buffer::unicode::prev_grapheme_boundary(line, n);
                },
                None => {},
            }
        }
    }

    /// Move the cursor to where a characterwise put inserts.
    fn move_to_put_start(&mut self, after: bool)
        requires
            old(self).cursor_ok(),
        ensures
            final(self).document == (crate::editor::Document {
                cursor: char_put_start(*old(self), after),
                ..old(self).document
            }),
            final(self).state == old(self).state,
            ({
                let c = final(self).document.cursor;
                let v = final(self).document.buffer@;
                c.row < v.len() ==> is_boundary(v[c.row as int], c.col as int) && c.col <= byte_len(
                    v[c.row as int],
                )
            }),
    {
        let row = self.document.cursor.row;
        if after {
            match self.document.buffer.line(row) {
                Some(line) => {
                    if self.document.cursor.col < crate::text::str_byte_len(line) {
                        self.document.cursor.col = crate::buffer::unicode::next_grapheme_boundary(
                            line,
                            self.document.cursor.col,
                        );
                    }
                },
                None => {},
            }
        }
    }

    /// Characterwise put of `text`: for `p` (`after`) after the grapheme
    /// cluster at the cursor, for `P` at the cursor; the insertion is
    /// recorded for undo, and the cursor goes onto the last character put.
    #[verifier::spinoff_prover]
    pub fn put_chars(&mut self, after: bool, text: &str) -> (r: Result<(), Error>)
        requires
            old(self).wf(),
            old(self).cursor_ok(),
        ensures
            final(self).wf(),
            final(self).document.modified == old(self).document.modified,
            chars_put_post(*old(self), *final(self), after, text@, r),
    {
        let ghost v = self.document.buffer@;
        self.move_to_put_start(after);
        let p = self.document.cursor;
        let row = p.row;
        let a = EditAction::InsertText { row, col: p.col, text: text.to_owned() };
        let ghost h0 = self.state.undo_history;
        self.state.undo_history.record(a.duplicate());
        proof {
            crate::undo::lemma_recorded_last(h0, self.state.undo_history, a);
        }
        let tn = crate::text::str_byte_len(text);
        let pn: usize = match self.document.buffer.line(row) {
            Some(line) => crate::text::str_byte_len(line),
            None => 0,
        };
        match self.document.buffer.insert_text(row, p.col, text) {
            Ok(()) => {},
            Err(e) => return Err(Error::Buffer(e)),
        }
        let n2 = self.document.buffer.len();
        let cs = chars_of(text);
        proof {
            crate::buffer::lemma_split_all_nonempty(text@);
            if text@.len() > 0 {
                lemma_insert_end_boundary(v, p, text@);
            } else {
                assert(text@ =~= Seq::<char>::empty());
                assert(split_all(text@) =~= seq![Seq::<char>::empty()]);
            }
        }
        let q = insert_end(p, cs.as_slice());
        self.step_back_cursor(q, row);
        Ok(())
    }
}

} // verus!

verus! {

/// The segments a block put inserts, one per row: the lines of `t`, with a
/// final empty line dropped.
pub open spec fn block_segments(t: Seq<char>) -> Seq<Seq<char>> {
    let s = split_all(t);
    if s.last().len() == 0 {
        s.drop_last()
    } else {
        s
    }
}

/// `v` with empty lines appended until it has a row `row`.
pub open spec fn padded(v: Seq<Seq<char>>, row: int) -> Seq<Seq<char>> {
    if row < v.len() {
        v
    } else {
        v + Seq::new((row + 1 - v.len()) as nat, |i: int| Seq::<char>::empty())
    }
}

/// The byte offset at which a block segment goes into `line`: the block
/// column cut to the line, and for `p` after the grapheme cluster there.
pub open spec fn block_column(line: Seq<char>, col: int, after: bool) -> int {
    let c = min(col, byte_len(line) as int);
    if after {
        next_grapheme_end(line, c)
    } else {
        c
    }
}

/// The lines after putting the block segments `segs` at rows `r0..` and
/// column `col`, and the error that stopped it, if any. Each segment's
/// characters go in one by one at the same offset, so they land in
/// reverse order; rows past the end are added as empty lines; an offset
/// that is not a character boundary stops the put before that segment.
pub open spec fn block_put(
    v: Seq<Seq<char>>,
    r0: int,
    col: int,
    segs: Seq<Seq<char>>,
    after: bool,
) -> (Seq<Seq<char>>, Option<BufferError>)
    decreases segs.len(),
{
    if segs.len() == 0 {
        (v, None)
    } else {
        let prev = block_put(v, r0, col, segs.drop_last(), after);
        if prev.1 is Some {
            prev
        } else {
            let row = r0 + segs.len() - 1;
            let vp = padded(prev.0, row);
            let line = vp[row];
            let c = block_column(line, col, after);
            let seg = segs.last();
            if seg.len() == 0 {
                (vp, None)
            } else if !is_boundary(line, c) {
                (vp, Some(BufferError::InvalidByteOffset { col: c as usize }))
            } else {
                (
                    vp.update(
                        row,
                        line.take(char_index(line, c)) + seg.reverse() + line.skip(char_index(line, c)),
                    ),
                    None,
                )
            }
        }
    }
}

/// Once a block put has stopped with an error, the remaining segments
/// change nothing.
proof fn lemma_block_put_stops(v: Seq<Seq<char>>, r0: int, col: int, segs: Seq<Seq<char>>, j: int, after: bool)
    requires
        0 <= j <= segs.len(),
        block_put(v, r0, col, segs.take(j), after).1 is Some,
    ensures
        block_put(v, r0, col, segs, after) == block_put(v, r0, col, segs.take(j), after),
    decreases segs.len(),
{
    if j == segs.len() {
        assert(segs.take(j) =~= segs);
    } else {
        assert(segs.drop_last().take(j) =~= segs.take(j));
        lemma_block_put_stops(v, r0, col, segs.drop_last(), j, after);
    }
}

/// What a blockwise put of `t` does to `e`, giving `e2` and `r`: the
/// lines change as `block_put` says, the cursor stays, nothing is recorded
/// for undo, and the document is marked modified unless the put stopped.
pub open spec fn block_put_post(e: Editor, e2: Editor, after: bool, t: Seq<char>, r: Result<(), Error>) -> bool {
    let c = e.document.cursor;
    let res = block_put(e.document.buffer@, c.row as int, c.col as int, block_segments(t), after);
    &&& e2.state == e.state
    &&& same_doc_meta(e.document, e2.document)
    &&& e2.document.cursor == c
    &&& e2.document.buffer@ == res.0
    &&& match res.1 {
        None => r is Ok && e2.document.modified,
        Some(be) => r == Err::<(), Error>(Error::Buffer(be)) && e2.document.modified == e.document.modified,
    }
}

/// The block columns a blockwise put of `t` at the cursor reads from
/// existing lines fall on character boundaries (needed for `p`, which
/// looks for the grapheme cluster there).
pub open spec fn block_columns_ok(e: Editor, t: Seq<char>) -> bool {
    let v = e.document.buffer@;
    let c = e.document.cursor;
    forall|i: int|
        0 <= i < block_segments(t).len() && c.row + i < v.len() ==> is_boundary(
            #[trigger] v[c.row + i],
            min(c.col as int, byte_len(v[c.row + i]) as int),
        )
}

/// A block put changes no row at or past the rows it writes, and only
/// adds rows.
proof fn lemma_block_put_frame(v: Seq<Seq<char>>, r0: int, col: int, segs: Seq<Seq<char>>, after: bool)
    requires
        r0 >= 0,
    ensures
        block_put(v, r0, col, segs, after).0.len() >= v.len(),
        block_put(v, r0, col, segs, after).0.len() <= if v.len() > r0 + segs.len() {
            v.len() as int
        } else {
            r0 + segs.len()
        },
        forall|r: int|
            r0 + segs.len() <= r < v.len() ==> #[trigger] block_put(v, r0, col, segs, after).0[r] == v[r],
    decreases segs.len(),
{
    if segs.len() > 0 {
        lemma_block_put_frame(v, r0, col, segs.drop_last(), after);
    }
}

} // verus!

verus! {

impl Editor {
    /// Append empty lines until the buffer has a row `row`.
    fn pad_to(&mut self, row: usize)
        requires
            old(self).wf(),
            row < usize::MAX,
        ensures
            final(self).wf(),
            final(self).document.buffer@ == padded(old(self).document.buffer@, row as int),
            final(self).document.cursor == old(self).document.cursor,
            final(self).document.modified == old(self).document.modified,
            same_doc_meta(old(self).document, final(self).document),
            final(self).state == old(self).state,
    {
        let ghost v = self.document.buffer@;
        assert(v + Seq::new(0, |i: int| Seq::<char>::empty()) =~= v);
        while self.document.buffer.len() <= row
            invariant
                row < usize::MAX,
                self.document.buffer.wf(),
                v == old(self).document.buffer@,
                v.len() <= self.document.buffer@.len(),
                v.len() <= row ==> self.document.buffer@.len() <= row + 1,
                v.len() > row ==> self.document.buffer@.len() == v.len(),
                self.document.buffer@ == v + Seq::new(
                    (self.document.buffer@.len() - v.len()) as nat,
                    |i: int| Seq::<char>::empty(),
                ),
                self.document.cursor == old(self).document.cursor,
                self.document.modified == old(self).document.modified,
                same_doc_meta(old(self).document, self.document),
                self.state == old(self).state,
            decreases row + 1 - self.document.buffer@.len(),
        {
            let n = self.document.buffer.len();
            let ghost before = self.document.buffer@;
            let _ = self.document.buffer.insert_line(n, String::new());
            assert(before.insert(n as int, Seq::<char>::empty()) =~= v + Seq::new(
                (n + 1 - v.len()) as nat,
                |i: int| Seq::<char>::empty(),
            ));
        }
        proof {
            if row < v.len() {
                assert(self.document.buffer@ =~= v);
            } else {
                assert(self.document.buffer@.len() == row + 1);
            }
        }
    }

    /// Insert the characters of `seg` one by one at (`row`, `c`), so that
    /// they end up in reverse order.
    fn put_segment(&mut self, row: usize, c: usize, seg: &str) -> (r: Result<(), Error>)
        requires
            old(self).wf(),
        ensures
            final(self).wf(),
            final(self).document.cursor == old(self).document.cursor,
            final(self).document.modified == old(self).document.modified,
            same_doc_meta(old(self).document, final(self).document),
            final(self).state == old(self).state,
            ({
                let v = old(self).document.buffer@;
                if seg@.len() == 0 {
                    r is Ok && final(self).document.buffer@ == v
                } else {
                    match crate::buffer::position_error(v, row, c) {
                        Some(e) => r == Err::<(), Error>(Error::Buffer(e)) && final(self).document.buffer@ == v,
                        None => {
                            let line = v[row as int];
                            let k = char_index(line, c as int);
                            r is Ok && final(self).document.buffer@ == v.update(
                                row as int,
                                line.take(k) + seg@.reverse() + line.skip(k),
                            )
                        },
                    }
                }
            }),
    {
        let ghost v = self.document.buffer@;
        let sc = chars_of(seg);
        let cur = Cursor::new(row, c);
        let mut j: usize = 0;
        while j < sc.len()
            invariant
                j <= sc@.len(),
                old(self).wf(),
                sc@ == seg@,
                v == old(self).document.buffer@,
                self.document.buffer.wf(),
                j == 0 ==> self.document.buffer@ == v,
                j > 0 ==> crate::buffer::position_error(v, row, c) is None && ({
                    let line = v[row as int];
                    let k = char_index(line, c as int);
                    self.document.buffer@ == v.update(
                        row as int,
                        line.take(k) + sc@.take(j as int).reverse() + line.skip(k),
                    )
                }),
                self.document.cursor == old(self).document.cursor,
                self.document.modified == old(self).document.modified,
                same_doc_meta(old(self).document, self.document),
                self.state == old(self).state,
                cur == (Cursor { row, col: c }),
            decreases sc.len() - j,
        {
            let ghost before = self.document.buffer@;
            proof {
                if j > 0 {
                    let line = v[row as int];
                    let k = char_index(line, c as int);
                    let nl = line.take(k) + sc@.take(j as int).reverse() + line.skip(k);
                    assert(byte_len(line.take(k)) == c);
                    assert(nl.take(k) =~= line.take(k));
                    crate::text::lemma_char_index_unique(nl, k);
                    crate::text::lemma_byte_len_concat(line.take(k), sc@.take(j as int).reverse() + line.skip(k));
                    assert(nl =~= line.take(k) + (sc@.take(j as int).reverse() + line.skip(k)));
                    assert(before[row as int] == nl);
                }
            }
            match self.document.buffer.insert_char(&cur, sc[j]) {
                Ok(()) => {},
                Err(e) => {
                    proof {
                        assert(j == 0);
                    }
                    return Err(Error::Buffer(e));
                },
            }
            proof {
                let line = v[row as int];
                let k = char_index(line, c as int);
                if j == 0 {
                    assert(sc@.take(1).reverse() =~= seq![sc@[0]]);
                    assert(crate::buffer::insert_at(line, k, sc@[0]) =~= line.take(k) + sc@.take(1).reverse()
                        + line.skip(k));
                } else {
                    let nl = line.take(k) + sc@.take(j as int).reverse() + line.skip(k);
                    assert(sc@.take(j + 1).reverse() =~= seq![sc@[j as int]] + sc@.take(j as int).reverse());
                    assert(crate::buffer::insert_at(nl, k, sc@[j as int]) =~= line.take(k) + sc@.take(
                        j + 1,
                    ).reverse() + line.skip(k));
                }
            }
            j = j + 1;
        }
        proof {
            assert(sc@.take(j as int) =~= sc@);
        }
        Ok(())
    }
}

} // verus!

verus! {

impl Editor {
    /// Blockwise put of `text`: its lines go in one per row from the
    /// cursor's row, at the cursor's column (for `p`, after the grapheme
    /// cluster there), each line's characters inserted one by one at that
    /// offset; rows past the end are added. Not recorded for undo; the
    /// cursor stays.
    pub fn put_block(&mut self, after: bool, text: &str) -> (r: Result<(), Error>)
        requires
            old(self).wf(),
            old(self).document.cursor.row + block_segments(text@).len() <= usize::MAX,
            after ==> block_columns_ok(*old(self), text@),
        ensures
            final(self).wf(),
            block_put_post(*old(self), *final(self), after, text@, r),
    {
        let ghost v = self.document.buffer@;
        let start_row = self.document.cursor.row;
        let start_col = self.document.cursor.col;
        let tc = chars_of(text);
        let segs = split_segments(tc.as_slice(), tc.len());
        proof {
            assert(tc@.take(tc@.len() as int) =~= tc@);
            crate::buffer::lemma_split_all_nonempty(text@);
        }
        let ghost sv = segs@.map_values(|l: String| l@);
        let last_len = chars_of(segs[segs.len() - 1].as_str()).len();
        let count = if last_len == 0 {
            segs.len() - 1
        } else {
            segs.len()
        };
        let ghost bs = block_segments(text@);
        proof {
            assert(segs@.map_values(|l: String| l@)[segs.len() - 1] == segs@[segs.len() - 1]@);
            assert(bs.len() == count);
            assert(bs.take(0) =~= Seq::<Seq<char>>::empty());
        }
        let mut i: usize = 0;
        while i < count
            invariant
                i <= count == bs.len(),
                count <= segs@.len(),
                old(self).wf(),
                v == old(self).document.buffer@,
                bs == block_segments(text@),
                sv == segs@.map_values(|l: String| l@),
                sv == split_all(text@),
                forall|j: int| 0 <= j < bs.len() ==> bs[j] == sv[j],
                start_row == old(self).document.cursor.row,
                start_col == old(self).document.cursor.col,
                start_row + bs.len() <= usize::MAX,
                after ==> forall|j: int|
                    0 <= j < bs.len() && start_row + j < v.len() ==> is_boundary(
                        #[trigger] v[start_row + j],
                        min(start_col as int, byte_len(v[start_row + j]) as int),
                    ),
                self.document.buffer.wf(),
                block_put(v, start_row as int, start_col as int, bs.take(i as int), after).1 is None,
                self.document.buffer@ == block_put(v, start_row as int, start_col as int, bs.take(i as int), after).0,
                self.document.cursor == old(self).document.cursor,
                self.document.modified == old(self).document.modified,
                same_doc_meta(old(self).document, self.document),
                self.state == old(self).state,
            decreases count - i,
        {
            let row = start_row + i;
            let ghost prev = self.document.buffer@;
            proof {
                lemma_block_put_frame(v, start_row as int, start_col as int, bs.take(i as int), after);
            }
            self.pad_to(row);
            let ghost vp = self.document.buffer@;
            let c = match self.document.buffer.line(row) {
                Some(line) => {
                    let n = crate::text::str_byte_len(line);
                    let c0 = if start_col < n {
                        start_col
                    } else {
                        n
                    };
                    if after {
                        proof {
                            if row >= v.len() {
                                assert(vp[row as int] == Seq::<char>::empty());
                                assert(line@.take(0) =~= Seq::<char>::empty());
                            } else {
                                assert(vp[row as int] == v[row as int]);
                                assert(is_boundary(v[start_row + i], min(start_col as int, byte_len(v[start_row + i]) as int)));
                            }
                        }
                        crate::buffer::unicode::next_grapheme_boundary(line, c0)
                    } else {
                        c0
                    }
                },
                None => start_col,
            };
            proof {
                assert(bs.take(i + 1).drop_last() =~= bs.take(i as int));
                assert(bs.take(i + 1).last() == bs[i as int]);
                assert(segs@.map_values(|l: String| l@)[i as int] == segs@[i as int]@);
            }
            match self.put_segment(row, c, segs[i].as_str()) {
                Ok(()) => {},
                Err(e) => {
                    proof {
                        let res = block_put(v, start_row as int, start_col as int, bs.take(i + 1), after);
                        assert(res.1 == Some(BufferError::InvalidByteOffset { col: c }));
                        assert(res.0 == vp);
                        lemma_block_put_stops(v, start_row as int, start_col as int, bs, i + 1, after);
                    }
                    return Err(e);
                },
            }
            i = i + 1;
        }
        proof {
            assert(bs.take(i as int) =~= bs);
        }
        self.document.cursor = Cursor::new(start_row, start_col);
        self.document.modified = true;
        Ok(())
    }
}

} // verus!

verus! {

/// What `p` (`after`) or `P` does to `e` with the register named by
/// `register`, giving `e2` and `r`: nothing for an empty register;
/// otherwise the register's text is put back by its kind (see
/// `block_put_post`, `lines_put_post` and `chars_put_post`), lines below
/// (`p`) or at (`P`) the cursor's row, and the document is marked modified
/// when the put succeeds.
pub open spec fn put_post(e: Editor, e2: Editor, register: Option<char>, after: bool, r: Result<(), Error>) -> bool {
    match e.state.registers.spec_get(register_target(register)) {
        None => r is Ok && e2 == e,
        Some((t, k)) => match k {
            ContentType::Blockwise => block_put_post(e, e2, after, t, r),
            ContentType::Linewise => {
                let ir = if after {
                    e.document.cursor.row + 1
                } else {
                    e.document.cursor.row as int
                };
                &&& lines_put_post(e, e2, ir as usize, t, r)
                &&& e2.document.modified == (r is Ok || e.document.modified)
            },
            ContentType::Characterwise => {
                &&& chars_put_post(e, e2, after, t, r)
                &&& e2.document.modified == (r is Ok || e.document.modified)
            },
        },
    }
}

/// What `put_after` and `put_before` need of `e` beyond well-formedness:
/// the cursor on a character boundary of its line; for a block, its rows
/// fit in `usize` and, for `p`, its columns on existing lines fall on
/// character boundaries.
pub open spec fn put_ready(e: Editor, register: Option<char>, after: bool) -> bool {
    &&& e.wf()
    &&& e.cursor_ok()
    &&& e.state.registers.spec_get(register_target(register)) matches Some((t, k)) ==> k
        == ContentType::Blockwise ==> {
        &&& e.document.cursor.row + block_segments(t).len() <= usize::MAX
        &&& after ==> block_columns_ok(e, t)
    }
}

impl Editor {
    /// `p`: put the register's text after the cursor (lines below the
    /// cursor's line).
    pub fn put_after(&mut self, register: Option<char>) -> (r: Result<(), Error>)
        requires
            put_ready(*old(self), register, true),
            old(self).document.cursor.row < usize::MAX,
        ensures
            final(self).wf(),
            put_post(*old(self), *final(self), register, true, r),
    {
        self.put(register, true)
    }

    /// `P`: put the register's text before the cursor (lines above the
    /// cursor's line).
    pub fn put_before(&mut self, register: Option<char>) -> (r: Result<(), Error>)
        requires
            put_ready(*old(self), register, false),
        ensures
            final(self).wf(),
            put_post(*old(self), *final(self), register, false, r),
    {
        self.put(register, false)
    }

    /// The put shared by `p` and `P`.
    fn put(&mut self, register: Option<char>, after: bool) -> (r: Result<(), Error>)
        requires
            put_ready(*old(self), register, after),
            after ==> old(self).document.cursor.row < usize::MAX,
        ensures
            final(self).wf(),
            put_post(*old(self), *final(self), register, after, r),
    {
        let id = crate::editor::yank_put::register_id(register);
        let (text, kind) = match self.state.registers.get(id) {
            Some(c) => (c.text().to_owned(), c.content_type()),
            None => return Ok(()),
        };
        match kind {
            ContentType::Blockwise => {
                return self.put_block(after, text.as_str());
            },
            ContentType::Linewise => {
                let row = self.document.cursor.row;
                let ir = if after {
                    row + 1
                } else {
                    row
                };
                match self.put_lines(ir, text.as_str()) {
                    Ok(()) => {},
                    Err(e) => return Err(e),
                }
            },
            ContentType::Characterwise => {
                match self.put_chars(after, text.as_str()) {
                    Ok(()) => {},
                    Err(e) => return Err(e),
                }
            },
        }
        self.document.modified = true;
        Ok(())
    }
}

} // verus!

verus! {

/// The lines `s..e` with their line feeds are those lines joined, with a
/// final line feed.
proof fn lemma_lines_text_join(v: Seq<Seq<char>>, s: int, e: int)
    requires
        0 <= s < e <= v.len(),
    ensures
        crate::editor::yank_put::lines_text(v, s, e) == crate::buffer::join_with_lf(v.subrange(s, e)).push(
            '\n',
        ),
    decreases e - s,
{
    if e == s + 1 {
        assert(crate::editor::yank_put::lines_text(v, s, s) =~= Seq::<char>::empty());
        assert(v.subrange(s, e) =~= seq![v[s]]);
        assert(Seq::<char>::empty() + v[s].push('\n') =~= v[s].push('\n'));
    } else {
        lemma_lines_text_join(v, s, e - 1);
        assert(v.subrange(s, e).drop_last() =~= v.subrange(s, e - 1));
        assert(crate::buffer::join_with_lf(v.subrange(s, e - 1)).push('\n') + v[e - 1].push('\n')
            =~= (crate::buffer::join_with_lf(v.subrange(s, e - 1)) + seq!['\n'] + v[e - 1]).push('\n'));
    }
}

/// Lines without line feeds, none ending in a carriage return, read back
/// from their yanked text unchanged.
pub proof fn lemma_lines_round_trip(v: Seq<Seq<char>>, s: int, e: int)
    requires
        0 <= s < e <= v.len(),
        forall|i: int| s <= i < e ==> crate::buffer::no_lf(#[trigger] v[i]),
        forall|i: int| s <= i < e ==> strip_cr(#[trigger] v[i]) == v[i],
    ensures
        rust_lines(crate::editor::yank_put::lines_text(v, s, e)) == v.subrange(s, e),
{
    lemma_lines_text_join(v, s, e);
    let segs = v.subrange(s, e);
    let t = crate::buffer::join_with_lf(segs).push('\n');
    assert(t.drop_last() =~= crate::buffer::join_with_lf(segs));
    assert forall|i: int| 0 <= i < segs.len() implies crate::buffer::no_lf(#[trigger] segs[i]) by {
        assert(segs[i] == v[s + i]);
    }
    crate::buffer::lemma_split_join(segs);
    assert forall|i: int| 0 <= i < segs.len() implies #[trigger] rust_lines(t)[i] == segs[i] by {
        assert(segs[i] == v[s + i]);
    }
    assert(rust_lines(t) =~= segs);
}

/// Law (`yy` then `p`): yanking lines into the unnamed register and
/// putting them after the cursor's line inserts copies of those lines
/// right below it (lines without line feeds or final carriage returns).
pub proof fn law_yank_lines_then_put(
    e0: Editor,
    e1: Editor,
    e2: Editor,
    count: usize,
    r: Result<(), Error>,
)
    requires
        e0.wf(),
        e0.document.cursor.row < e0.document.buffer@.len(),
        e0.document.cursor.row < usize::MAX,
        count >= 1,
        crate::editor::yank_put::yank_lines_post(e0, e1, count, None),
        put_post(e1, e2, None, true, r),
        forall|i: int| 0 <= i < e0.document.buffer@.len() ==> crate::buffer::no_lf(
            #[trigger] e0.document.buffer@[i],
        ),
        forall|i: int| 0 <= i < e0.document.buffer@.len() ==> strip_cr(#[trigger] e0.document.buffer@[i])
            == e0.document.buffer@[i],
    ensures
        ({
            let v = e0.document.buffer@;
            let s = e0.document.cursor.row as int;
            let e = crate::editor::yank_put::end_row(s, count as int, v.len() as int);
            &&& r is Ok
            &&& e2.document.buffer@ == v.take(s + 1) + v.subrange(s, e) + v.skip(s + 1)
        }),
{
    let v = e0.document.buffer@;
    let s = e0.document.cursor.row as int;
    let e = crate::editor::yank_put::end_row(s, count as int, v.len() as int);
    assert(e1.state.registers.spec_get(None) == Some(
        (crate::editor::yank_put::lines_text(v, s, e), ContentType::Linewise),
    ));
    lemma_lines_round_trip(v, s, e);
}

/// Law (`dd` then `P`): deleting lines into the unnamed register and
/// putting them back before the cursor's line restores the buffer, when a
/// line follows the deleted ones (lines without line feeds or final
/// carriage returns).
pub proof fn law_delete_lines_then_put_back(
    e0: Editor,
    e1: Editor,
    e2: Editor,
    count: usize,
    r: Result<(), Error>,
)
    requires
        e0.wf(),
        count >= 1,
        e0.document.cursor.row + count < e0.document.buffer@.len(),
        crate::editor::yank_put::delete_lines_post(e0, e1, count, None),
        put_post(e1, e2, None, false, r),
        forall|i: int| 0 <= i < e0.document.buffer@.len() ==> crate::buffer::no_lf(
            #[trigger] e0.document.buffer@[i],
        ),
        forall|i: int| 0 <= i < e0.document.buffer@.len() ==> strip_cr(#[trigger] e0.document.buffer@[i])
            == e0.document.buffer@[i],
    ensures
        r is Ok,
        e2.document.buffer@ == e0.document.buffer@,
        e2.document.cursor.row == e0.document.cursor.row,
{
    let v = e0.document.buffer@;
    let s = e0.document.cursor.row as int;
    let e = s + count;
    assert(crate::editor::yank_put::end_row(s, count as int, v.len() as int) == e);
    assert(e1.state.registers.spec_get(None) == Some(
        (crate::editor::yank_put::lines_text(v, s, e), ContentType::Linewise),
    ));
    lemma_lines_round_trip(v, s, e);
    let v1 = v.take(s) + v.skip(e);
    assert(e1.document.buffer@ == v1);
    assert(e1.document.cursor.row == s);
    assert(v1.take(s) + v.subrange(s, e) + v1.skip(s) =~= v);
}

} // verus!
