//! The line-range ex commands: `:d`, `:y`, `:pu`, `:m`, `:t` and `:j`.

use vstd::prelude::*;
use crate::buffer::Cursor;
use crate::command::SubstituteRange;
use crate::editor::editing::same_doc_meta;
use crate::editor::files::reported;
use crate::editor::movement::{min, sat_sub};
use crate::editor::put::{inserts_line, rust_lines};
use crate::editor::yank_put::{lines_text, register_id, without_lines};
use crate::editor::{Document, Editor, EditorState, StatusMessage};
use crate::registers::{
    get_after_delete, get_after_yank, register_target, ContentType, RegisterContent, RegisterId,
};
use crate::render::top_showing;
use crate::undo::{grouped, grouped_actions, recent_actions, recorded_seq, removes_or_clears, EditAction};

verus! {

/// The first and last rows `range` names, for a cursor on `cursor_row` in
/// a buffer of `len` lines.
pub open spec fn range_rows(range: SubstituteRange, cursor_row: usize, len: nat) -> (usize, usize) {
    match range {
        SubstituteRange::CurrentLine => (cursor_row, cursor_row),
        SubstituteRange::Line(n) => (n, n),
        SubstituteRange::Range { start, end } => (start, end),
        SubstituteRange::WholeFile => (0, sat_sub(len as int, 1) as usize),
    }
}

/// The rows `range` names in `e`, when its last row exists.
pub open spec fn resolved(e: Editor, range: SubstituteRange) -> Option<(usize, usize)> {
    let len = e.document.buffer@.len();
    let (s, t) = range_rows(range, e.document.cursor.row, len);
    if len == 0 || t >= len {
        None
    } else {
        Some((s, t))
    }
}

/// `e2` is `e` with only the status message changed, to the error `msg`.
pub open spec fn failed_with(e: Editor, e2: Editor, msg: Seq<char>) -> bool {
    &&& e2.document == e.document
    &&& e2.state == (EditorState { status_message: e2.state.status_message, ..e.state })
    &&& e2.state.status_message matches Some(StatusMessage::Error(s)) && s@ == msg
}

/// `e2` is `e` after an undoable group of actions ended with the lines
/// `v2`, the document marked modified and the cursor at the start of row
/// `row`, scrolled into view; `acts` are the group's actions.
pub open spec fn changed_lines(e: Editor, e2: Editor, v2: Seq<Seq<char>>, row: int, acts: Seq<EditAction>) -> bool {
    &&& e2.document.buffer@ == v2
    &&& e2.document.modified
    &&& same_doc_meta(e.document, e2.document)
    &&& e2.document.cursor == (Cursor { row: row as usize, col: 0 })
    &&& e2.state.viewport.spec_top() == top_showing(
        e.state.viewport.spec_top() as int,
        e.state.viewport.spec_height() as int,
        row,
    )
    &&& e2.state.viewport.spec_height() == e.state.viewport.spec_height()
    &&& e2.state.viewport.spec_width() == e.state.viewport.spec_width()
    &&& grouped(
        e.state.undo_history,
        e2.state.undo_history,
        e.document.cursor,
        e.document.modified,
        acts,
        e.document.cursor,
    )
}

impl Editor {
    /// The rows `range` names: `None` with an error message when the buffer
    /// is empty or the last row does not exist.
    pub fn resolve_line_range(&mut self, range: SubstituteRange) -> (r: Option<(usize, usize)>)
        ensures
            r == resolved(*old(self), range),
            r is Some ==> *final(self) == *old(self),
            r is None ==> failed_with(
                *old(self),
                *final(self),
                if old(self).document.buffer@.len() == 0 {
                    "Empty buffer"@
                } else {
                    "Invalid range"@
                },
            ),
    {
        let buf_len = self.document.buffer.len();
        if buf_len == 0 {
            self.state.status_message = Some(StatusMessage::Error("Empty buffer".to_owned()));
            return None;
        }
        let (start, end) = match range {
            SubstituteRange::CurrentLine => (self.document.cursor.row, self.document.cursor.row),
            SubstituteRange::Line(n) => (n, n),
            SubstituteRange::Range { start, end } => (start, end),
            SubstituteRange::WholeFile => (0, buf_len - 1),
        };
        if end >= buf_len {
            self.state.status_message = Some(StatusMessage::Error("Invalid range".to_owned()));
            return None;
        }
        Some((start, end))
    }

    /// Remove lines `start..end`, last first, recording each removal.
    pub fn remove_lines_recorded(&mut self, start: usize, end: usize)
        requires
            old(self).wf(),
            start <= end <= old(self).document.buffer@.len(),
        ensures
            final(self).wf(),
            ({
                let e = *old(self);
                let e2 = *final(self);
                let v = e.document.buffer@;
                let acts = recent_actions(e.state.undo_history, e2.state.undo_history);
                &&& e2.document == (Document { buffer: e2.document.buffer, ..e.document })
                &&& e2.document.buffer@ == without_lines(v, start as int, end as int)
                &&& e2.state == (EditorState { undo_history: e2.state.undo_history, ..e.state })
                &&& recorded_seq(e.state.undo_history, e2.state.undo_history, acts)
                &&& acts.len() == end - start
                &&& forall|i: int|
                    0 <= i < acts.len() ==> removes_or_clears(
                        #[trigger] acts[i],
                        end - 1 - i,
                        v[end - 1 - i],
                        start == 0 && end == v.len() && i == end - 1,
                    )
            }),
    {
        let ghost v = self.document.buffer@;
        let ghost h0 = self.state.undo_history;
        proof {
            crate::undo::lemma_recorded_seq_empty(h0);
            crate::undo::lemma_recent_actions(h0, h0, Seq::empty());
            assert(v.take(end as int) + v.skip(end as int) =~= v);
        }
        let mut row = end;
        while row > start
            invariant
                start <= row <= end <= v.len(),
                old(self).wf(),
                v == old(self).document.buffer@,
                h0 == old(self).state.undo_history,
                self.document.buffer.wf(),
                self.document.buffer@ == without_lines(v, row as int, end as int),
                row > start ==> self.document.buffer@ == v.take(row as int) + v.skip(end as int),
                self.document == (Document { buffer: self.document.buffer, ..old(self).document }),
                self.state == (EditorState { undo_history: self.state.undo_history, ..old(self).state }),
                recorded_seq(h0, self.state.undo_history, recent_actions(h0, self.state.undo_history)),
                recent_actions(h0, self.state.undo_history).len() == end - row,
                forall|i: int|
                    0 <= i < end - row ==> removes_or_clears(
                        #[trigger] recent_actions(h0, self.state.undo_history)[i],
                        end - 1 - i,
                        v[end - 1 - i],
                        start == 0 && end == v.len() && i == end - 1,
                    ),
            decreases row,
        {
            row = row - 1;
            let content = match self.document.buffer.line(row) {
                Some(l) => l.to_owned(),
                None => String::new(),
            };
            let ghost before = self.document.buffer@;
            proof {
                assert(before[row as int] == v[row as int]);
            }
            let sole = self.document.buffer.len() == 1;
            let _ = self.document.buffer.remove_line(row);
            let a = if sole {
                EditAction::ReplaceLine { row, old_content: content, new_content: String::new() }
            } else {
                EditAction::RemoveLine { row, content }
            };
            let ghost hp = self.state.undo_history;
            self.state.undo_history.record(a.duplicate());
            let ghost hn = self.state.undo_history;
            proof {
                let prev = recent_actions(h0, hp);
                crate::undo::lemma_recorded_seq_step(h0, hp, hn, prev, a);
                crate::undo::lemma_recent_actions(h0, hn, prev.push(a));
                let rest = v.take(row as int) + v.skip(end as int);
                if before.len() == 1 {
                    assert(rest.len() == 0);
                } else {
                    assert(before.remove(row as int) =~= rest);
                }
            }
        }
    }

    /// Insert `lines` before row `row`, recording each insertion.
    pub fn insert_lines_recorded(&mut self, row: usize, lines: &Vec<String>)
        requires
            old(self).wf(),
            row <= old(self).document.buffer@.len(),
        ensures
            final(self).wf(),
            ({
                let e = *old(self);
                let e2 = *final(self);
                let v = e.document.buffer@;
                let ls = lines@.map_values(|l: String| l@);
                let acts = recent_actions(e.state.undo_history, e2.state.undo_history);
                &&& e2.document == (Document { buffer: e2.document.buffer, ..e.document })
                &&& e2.document.buffer@ == v.take(row as int) + ls + v.skip(row as int)
                &&& e2.state == (EditorState { undo_history: e2.state.undo_history, ..e.state })
                &&& recorded_seq(e.state.undo_history, e2.state.undo_history, acts)
                &&& acts.len() == ls.len()
                &&& forall|i: int| 0 <= i < ls.len() ==> inserts_line(#[trigger] acts[i], row + i, ls[i])
            }),
    {
        let ghost v = self.document.buffer@;
        let ghost ls = lines@.map_values(|l: String| l@);
        let ghost h0 = self.state.undo_history;
        proof {
            crate::undo::lemma_recorded_seq_empty(h0);
            crate::undo::lemma_recent_actions(h0, h0, Seq::empty());
            assert(v.take(row as int) + ls.take(0) + v.skip(row as int) =~= v);
        }
        let mut i: usize = 0;
        while i < lines.len()
            invariant
                i <= lines@.len(),
                row <= v.len(),
                old(self).wf(),
                v == old(self).document.buffer@,
                h0 == old(self).state.undo_history,
                ls == lines@.map_values(|l: String| l@),
                self.document.buffer.wf(),
                self.document.buffer@ == v.take(row as int) + ls.take(i as int) + v.skip(row as int),
                self.document == (Document { buffer: self.document.buffer, ..old(self).document }),
                self.state == (EditorState { undo_history: self.state.undo_history, ..old(self).state }),
                recorded_seq(h0, self.state.undo_history, recent_actions(h0, self.state.undo_history)),
                recent_actions(h0, self.state.undo_history).len() == i,
                forall|j: int|
                    0 <= j < i ==> inserts_line(
                        #[trigger] recent_actions(h0, self.state.undo_history)[j],
                        row + j,
                        ls[j],
                    ),
            decreases lines.len() - i,
        {
            let ghost cur = self.document.buffer@;
            let _n = self.document.buffer.len();
            proof {
                assert(cur.len() == v.len() + i);
            }
            let r = row + i;
            let a = EditAction::InsertLine { row: r, content: lines[i].clone() };
            proof {
                assert(ls[i as int] == lines@[i as int]@);
            }
            let ghost hp = self.state.undo_history;
            self.state.undo_history.record(a.duplicate());
            let ghost hn = self.state.undo_history;
            proof {
                let prev = recent_actions(h0, hp);
                crate::undo::lemma_recorded_seq_step(h0, hp, hn, prev, a);
                crate::undo::lemma_recent_actions(h0, hn, prev.push(a));
            }
            let _ = self.document.buffer.insert_line(r, lines[i].clone());
            proof {
                assert(cur.insert(row + i, ls[i as int]) =~= v.take(row as int) + ls.take(i + 1) + v.skip(
                    row as int,
                ));
            }
            i = i + 1;
        }
        proof {
            assert(ls.take(i as int) =~= ls);
        }
    }
}

} // verus!

verus! {

/// What `:[range]d [register]` does to `e`, giving `e2`: the lines of the
/// range deleted into the register and each removal recorded, as one
/// undoable change (see `execute_delete_lines`).
pub open spec fn ex_deleted(e: Editor, e2: Editor, range: SubstituteRange, register: Option<char>) -> bool {
    let v = e.document.buffer@;
    match resolved(e, range) {
        None => failed_with(
            e,
            e2,
            if v.len() == 0 {
                "Empty buffer"@
            } else {
                "Invalid range"@
            },
        ),
        Some((s, t)) => if s > t {
            e2 == e
        } else {
            let end = t + 1;
            let v2 = without_lines(v, s as int, end);
            let acts = grouped_actions(e.state.undo_history, e2.state.undo_history, end - s);
            &&& changed_lines(e, e2, v2, min(s as int, v2.len() - 1), acts)
            &&& acts.len() == end - s
            &&& forall|i: int|
                0 <= i < acts.len() ==> removes_or_clears(
                    #[trigger] acts[i],
                    t - i,
                    v[t - i],
                    s == 0 && t + 1 == v.len() && i == t,
                )
            &&& forall|q: Option<RegisterId>| #[trigger] e2.state.registers.spec_get(q)
                == get_after_delete(
                e.state.registers,
                register_target(register),
                lines_text(v, s as int, end),
                ContentType::Linewise,
                q,
            )
            &&& e2.state == (EditorState {
                undo_history: e2.state.undo_history,
                registers: e2.state.registers,
                status_message: e2.state.status_message,
                viewport: e2.state.viewport,
                ..e.state
            })
            &&& reported(e.state, e2.state, (end - s) as nat, "lines deleted"@)
        },
    }
}

impl Editor {
    /// `:[range]d [x]`: delete the lines of `range` into the register (as
    /// whole lines) as one undoable change; the cursor goes to the start
    /// of the line now at the first deleted row (or the last line).
    pub fn execute_delete_lines(&mut self, range: SubstituteRange, register: Option<char>)
        requires
            old(self).wf(),
        ensures
            final(self).wf(),
            ex_deleted(*old(self), *final(self), range, register),
    {
        let (start, end) = match self.resolve_line_range(range) {
            Some(p) => p,
            None => return ,
        };
        if start > end {
            return ;
        }
        let _len = self.document.buffer.len();
        let ghost e0 = *self;
        let text = self.collect_lines(start, end + 1);
        self.state.registers.delete(register_id(register), register, RegisterContent::linewise(text));
        let cursor = self.document.cursor;
        let ghost h0 = self.state.undo_history;
        self.state.undo_history.begin_group(cursor, self.document.modified);
        let ghost h1 = self.state.undo_history;
        self.remove_lines_recorded(start, end + 1);
        let ghost h2 = self.state.undo_history;
        self.state.undo_history.end_group(cursor);
        proof {
            let acts = recent_actions(h1, h2);
            crate::undo::lemma_grouped(h0, h1, h2, self.state.undo_history, cursor, e0.document.modified, acts, cursor);
        }
        self.document.modified = true;
        let n = self.document.buffer.len();
        self.document.cursor.row = if start < n - 1 {
            start
        } else {
            n - 1
        };
        self.document.cursor.col = 0;
        self.state.viewport.ensure_visible(self.document.cursor.row, n);
        self.report_lines(end + 1 - start, "lines deleted");
    }

    /// `:[range]y [x]`: yank the lines of `range` into the register as whole
    /// lines.
    pub fn execute_yank_lines(&mut self, range: SubstituteRange, register: Option<char>)
        requires
            old(self).wf(),
        ensures
            ex_yanked(*old(self), *final(self), range, register),

    {
        let (start, end) = match self.resolve_line_range(range) {
            Some(p) => p,
            None => return ,
        };
        if start > end {
            return ;
        }
        let _len = self.document.buffer.len();
        let text = self.collect_lines(start, end + 1);
        self.state.registers.yank(register_id(register), RegisterContent::linewise(text));
        self.report_lines(end + 1 - start, "lines yanked");
    }
}

} // verus!

verus! {

/// The lines `s..=t` of `v` (none when `s > t`).
pub open spec fn range_lines(v: Seq<Seq<char>>, s: int, t: int) -> Seq<Seq<char>> {
    if s > t {
        Seq::empty()
    } else {
        v.subrange(s, t + 1)
    }
}

/// Where `:m` puts the moved lines once they are removed: `dest` less the
/// number of lines moved when `dest` lies after them.
pub open spec fn move_target(dest: int, t: int, count: int) -> int {
    if dest > t {
        dest - count
    } else {
        dest
    }
}

/// `:t` and `:m` need a range that is not reversed by more than one line,
/// and a non-empty one (or a destination past row 0) when the cursor's
/// row would otherwise be taken from before the first line.
pub open spec fn copy_ok(e: Editor, range: SubstituteRange, dest: usize) -> bool {
    match resolved(e, range) {
        Some((s, t)) => dest <= e.document.buffer@.len() ==> s <= t + 1 && (s == t + 1 ==> dest >= 1),
        None => true,
    }
}

/// `:m` can move `s..=t` before `dest`: the destination exists and is not
/// inside or just after the lines.
pub open spec fn move_allowed(len: nat, s: int, t: int, dest: int) -> bool {
    dest <= len && !(dest > s && dest <= t + 1)
}

/// `:m`'s range is not reversed by more than one line, and a non-empty one
/// (or a target past row 0) is moved when the cursor's row would otherwise
/// be taken from before the first line.
pub open spec fn move_ok(e: Editor, range: SubstituteRange, dest: usize) -> bool {
    match resolved(e, range) {
        Some((s, t)) => move_allowed(e.document.buffer@.len(), s as int, t as int, dest as int) ==> s
            <= t + 1 && (s == t + 1 ==> move_target(dest as int, t as int, 0) >= 1),
        None => true,
    }
}

impl Editor {
    /// A copy of lines `s..=t` (none when `s > t`).
    fn copy_lines(&self, s: usize, t: usize) -> (r: Vec<String>)
        requires
            t < self.document.buffer@.len(),
        ensures
            r@.map_values(|l: String| l@) == range_lines(self.document.buffer@, s as int, t as int),
    {
        let mut r: Vec<String> = Vec::new();
        if s > t {
            assert(r@.map_values(|l: String| l@) =~= Seq::<Seq<char>>::empty());
            return r;
        }
        let ghost v = self.document.buffer@;
        let n = self.document.buffer.len();
        let mut row = s;
        while row <= t
            invariant
                s <= row <= t + 1,
                t < v.len(),
                n == v.len(),
                v == self.document.buffer@,
                r@.map_values(|l: String| l@) == v.subrange(s as int, row as int),
            decreases t + 1 - row,
        {
            let ghost before = r@;
            match self.document.buffer.line(row) {
                Some(l) => {
                    let line = l.to_owned();
                    r.push(line);
                    assert(r@ == before.push(line));
                    assert(r@.map_values(|l: String| l@) =~= before.map_values(|l: String| l@).push(
                        line@,
                    ));
                },
                None => {},
            }
            assert(r@.map_values(|l: String| l@) =~= v.subrange(s as int, row + 1));
            row = row + 1;
        }
        r
    }

    /// `:[range]t {dest}`: copy the lines of `range` to before row `dest`,
    /// as one undoable change; the cursor goes to the start of the last
    /// copy.
    pub fn execute_copy_lines(&mut self, range: SubstituteRange, dest: usize)
        requires
            old(self).wf(),
            copy_ok(*old(self), range, dest),
        ensures
            ex_copied(*old(self), *final(self), range, dest),

    {
        let (start, end) = match self.resolve_line_range(range) {
            Some(p) => p,
            None => return ,
        };
        let buf_len = self.document.buffer.len();
        if dest > buf_len {
            self.state.status_message = Some(StatusMessage::Error("Invalid address".to_owned()));
            return ;
        }
        let count = end + 1 - start;
        let lines = self.copy_lines(start, end);
        let ghost e0 = *self;
        let cursor = self.document.cursor;
        let ghost h0 = self.state.undo_history;
        self.state.undo_history.begin_group(cursor, self.document.modified);
        let ghost h1 = self.state.undo_history;
        self.insert_lines_recorded(dest, &lines);
        let ghost h2 = self.state.undo_history;
        self.state.undo_history.end_group(cursor);
        proof {
            let acts = recent_actions(h1, h2);
            crate::undo::lemma_grouped(h0, h1, h2, self.state.undo_history, cursor, e0.document.modified, acts, cursor);
        }
        self.document.modified = true;
        let new_len = self.document.buffer.len();
        let last = dest + count - 1;
        self.document.cursor.row = if last < new_len - 1 {
            last
        } else {
            new_len - 1
        };
        self.document.cursor.col = 0;
        self.state.viewport.ensure_visible(self.document.cursor.row, new_len);
        self.report_lines(count, "lines copied");
    }

    /// `:[range]m {dest}`: move the lines of `range` to before row `dest`,
    /// as one undoable change (removals, then insertions); the cursor goes
    /// to the start of the last moved line. A destination inside or just
    /// after the lines, or past the end, is refused.
    #[verifier::spinoff_prover]
    #[verifier::rlimit(100)]
    pub fn execute_move_lines(&mut self, range: SubstituteRange, dest: usize)
        requires
            old(self).wf(),
            move_ok(*old(self), range, dest),
        ensures
            ex_moved(*old(self), *final(self), range, dest),

    {
        let (start, end) = match self.resolve_line_range(range) {
            Some(p) => p,
            None => return ,
        };
        let buf_len = self.document.buffer.len();
        if dest > buf_len || (dest > start && dest <= end + 1) {
            self.state.status_message = Some(StatusMessage::Error("Invalid address".to_owned()));
            return ;
        }
        let count = end + 1 - start;
        let lines = self.copy_lines(start, end);
        let ghost e0 = *self;
        let ghost v = self.document.buffer@;
        let cursor = self.document.cursor;
        let ghost h0 = self.state.undo_history;
        self.state.undo_history.begin_group(cursor, self.document.modified);
        let ghost h1 = self.state.undo_history;
        if start <= end {
            self.remove_lines_recorded(start, end + 1);
        } else {
            proof {
                crate::undo::lemma_recorded_seq_empty(h1);
                crate::undo::lemma_recent_actions(h1, h1, Seq::empty());
            }
        }
        let ghost hm = self.state.undo_history;
        let adjusted = if dest > end {
            dest - count
        } else {
            dest
        };
        let ghost v1 = self.document.buffer@;
        proof {
            if start <= end && v.len() == count {
                assert(v1.len() == 1);
            }
        }
        self.insert_lines_recorded(adjusted, &lines);
        let ghost h2 = self.state.undo_history;
        self.state.undo_history.end_group(cursor);
        proof {
            let a1 = recent_actions(h1, hm);
            let a2 = recent_actions(hm, h2);
            crate::undo::lemma_recorded_seq_concat(h1, hm, h2, a1, a2);
            crate::undo::lemma_grouped(h0, h1, h2, self.state.undo_history, cursor, e0.document.modified, a1 + a2, cursor);
            let acts = a1 + a2;
            if start <= end {
                lemma_removals_lead(a1, a2, v, start as int, end as int);
            }
        }
        self.document.modified = true;
        let new_len = self.document.buffer.len();
        let last = adjusted + count - 1;
        self.document.cursor.row = if last < new_len - 1 {
            last
        } else {
            new_len - 1
        };
        self.document.cursor.col = 0;
        self.state.viewport.ensure_visible(self.document.cursor.row, new_len);
        self.report_lines(count, "lines moved");
    }
}

} // verus!

verus! {

/// The removals recorded first keep their description when further actions
/// are appended after them.
proof fn lemma_removals_lead(a1: Seq<EditAction>, a2: Seq<EditAction>, v: Seq<Seq<char>>, start: int, end: int)
    requires
        forall|i: int|
            0 <= i < a1.len() ==> removes_or_clears(
                #[trigger] a1[i],
                (end + 1) - 1 - i,
                v[(end + 1) - 1 - i],
                start == 0 && end + 1 == v.len() && i == (end + 1) - 1,
            ),
    ensures
        forall|i: int|
            0 <= i < a1.len() ==> removes_or_clears(
                #[trigger] (a1 + a2)[i],
                end - i,
                v[end - i],
                start == 0 && end + 1 == v.len() && i == end,
            ),
{
    assert forall|i: int| 0 <= i < a1.len() implies removes_or_clears(
        #[trigger] (a1 + a2)[i],
        end - i,
        v[end - i],
        start == 0 && end + 1 == v.len() && i == end,
    ) by {
        assert((a1 + a2)[i] == a1[i]);
        assert(removes_or_clears(a1[i], (end + 1) - 1 - i, v[(end + 1) - 1 - i], start == 0 && end + 1 == v.len() && i == (end + 1) - 1));
    }
}

/// `t` without its trailing line feeds.
pub open spec fn trim_lf(t: Seq<char>) -> Seq<char>
    decreases t.len(),
{
    if t.len() > 0 && t.last() == '\n' {
        trim_lf(t.drop_last())
    } else {
        t
    }
}

/// The lines `:pu` puts for register text `t` of kind `k`: for whole-line
/// content, the lines of `t` without its trailing line feeds; otherwise
/// the lines of `t`.
pub open spec fn put_lines_of(t: Seq<char>, k: ContentType) -> Seq<Seq<char>> {
    if k == ContentType::Linewise {
        rust_lines(trim_lf(t))
    } else {
        rust_lines(t)
    }
}

/// `t` without its trailing line feeds.
pub fn trim_trailing_lf(t: &str) -> (r: String)
    ensures
        r@ == trim_lf(t@),
{
    let cs = crate::text::chars_of(t);
    let mut n = cs.len();
    assert(cs@.take(n as int) =~= cs@);
    while n > 0 && cs[n - 1] == '\n'
        invariant
            n <= cs@.len(),
            cs@ == t@,
            trim_lf(t@) == trim_lf(cs@.take(n as int)),
        decreases n,
    {
        assert(cs@.take(n as int).drop_last() =~= cs@.take(n - 1));
        n = n - 1;
    }
    let mut kept: Vec<char> = Vec::new();
    crate::text::extend_range(&mut kept, cs.as_slice(), 0, n);
    assert(cs@.subrange(0, n as int) =~= cs@.take(n as int));
    crate::text::string_from_chars(kept.as_slice())
}

impl Editor {
    /// `:[addr]pu [x]`: put the register's text as whole lines after row
    /// `after_row` (at most at the end of the buffer), as one undoable
    /// change; the cursor goes to the first non-blank character of the
    /// first put line.
    pub fn execute_put_lines(&mut self, after_row: usize, register: Option<char>)
        requires
            old(self).wf(),
            after_row < usize::MAX,
        ensures
            ex_put_done(*old(self), *final(self), after_row, register),

    {
        let (text, kind) = match self.state.registers.get(register_id(register)) {
            Some(c) => (c.text().to_owned(), c.content_type()),
            None => return ,
        };
        let n = self.document.buffer.len();
        let insert_row = if after_row + 1 < n {
            after_row + 1
        } else {
            n
        };
        let lines = if kind == ContentType::Linewise {
            let trimmed = trim_trailing_lf(text.as_str());
            crate::editor::put::str_lines(trimmed.as_str())
        } else {
            crate::editor::put::str_lines(text.as_str())
        };
        if lines.len() == 0 {
            return ;
        }
        let ghost e0 = *self;
        let cursor = self.document.cursor;
        let ghost h0 = self.state.undo_history;
        self.state.undo_history.begin_group(cursor, self.document.modified);
        let ghost h1 = self.state.undo_history;
        self.insert_lines_recorded(insert_row, &lines);
        let ghost h2 = self.state.undo_history;
        self.document.cursor = Cursor::new(insert_row, 0);
        self.move_to_first_non_blank();
        let c2 = self.document.cursor;
        self.state.undo_history.end_group(c2);
        proof {
            let acts = recent_actions(h1, h2);
            crate::undo::lemma_grouped(h0, h1, h2, self.state.undo_history, cursor, e0.document.modified, acts, c2);
        }
        self.document.modified = true;
    }

    /// Insert `lines` before row `row` (at most at the end of the buffer)
    /// as one undoable change, marking the document modified; the cursor
    /// goes to the start of the last inserted line, scrolled into view,
    /// and the status message is cleared.
    pub fn insert_lines_at(&mut self, row: usize, lines: Vec<String>)
        requires
            old(self).wf(),
        ensures
            final(self).wf(),
            ({
                let e = *old(self);
                let e2 = *final(self);
                let v = e.document.buffer@;
                let ls = lines@.map_values(|l: String| l@);
                if ls.len() == 0 {
                    &&& e2.document == e.document
                    &&& e2.state == (EditorState { status_message: None, ..e.state })
                } else {
                    let r = min(row as int, v.len() as int);
                    let v2 = v.take(r) + ls + v.skip(r);
                    let last = min(r + ls.len() - 1, v2.len() - 1);
                    let c2 = Cursor { row: last as usize, col: 0 };
                    let acts = grouped_actions(e.state.undo_history, e2.state.undo_history, ls.len() as int);
                    &&& e2.document.buffer@ == v2
                    &&& e2.document.modified
                    &&& same_doc_meta(e.document, e2.document)
                    &&& e2.document.cursor == c2
                    &&& e2.state.viewport.spec_top() == top_showing(
                        e.state.viewport.spec_top() as int,
                        e.state.viewport.spec_height() as int,
                        last,
                    )
                    &&& e2.state.viewport.spec_height() == e.state.viewport.spec_height()
                    &&& e2.state.viewport.spec_width() == e.state.viewport.spec_width()
                    &&& e2.state == (EditorState {
                        undo_history: e2.state.undo_history,
                        viewport: e2.state.viewport,
                        status_message: None,
                        ..e.state
                    })
                    &&& grouped(
                        e.state.undo_history,
                        e2.state.undo_history,
                        e.document.cursor,
                        e.document.modified,
                        acts,
                        c2,
                    )
                    &&& acts.len() == ls.len()
                    &&& forall|i: int| 0 <= i < ls.len() ==> inserts_line(#[trigger] acts[i], r + i, ls[i])
                }
            }),
    {
        if lines.len() == 0 {
            self.state.status_message = None;
            return ;
        }
        let n = self.document.buffer.len();
        let r = if row < n {
            row
        } else {
            n
        };
        let ghost e0 = *self;
        let cursor = self.document.cursor;
        let ghost h0 = self.state.undo_history;
        self.state.undo_history.begin_group(cursor, self.document.modified);
        let ghost h1 = self.state.undo_history;
        self.insert_lines_recorded(r, &lines);
        let ghost h2 = self.state.undo_history;
        self.document.modified = true;
        let new_len = self.document.buffer.len();
        let last_row = r + lines.len() - 1;
        self.document.cursor.row = if last_row < new_len - 1 {
            last_row
        } else {
            new_len - 1
        };
        self.document.cursor.col = 0;
        self.state.viewport.ensure_visible(self.document.cursor.row, new_len);
        let c2 = self.document.cursor;
        self.state.undo_history.end_group(c2);
        proof {
            let acts = recent_actions(h1, h2);
            crate::undo::lemma_grouped(h0, h1, h2, self.state.undo_history, cursor, e0.document.modified, acts, c2);
        }
        self.state.status_message = None;
    }
}

} // verus!

verus! {

/// `cur` and `next` joined as `:j` does: trailing whitespace of `cur` and
/// leading whitespace of `next` dropped, one space between unless `next`
/// is then empty.
pub open spec fn ex_joined(cur: Seq<char>, next: Seq<char>) -> Seq<char> {
    let tc = cur.take(crate::editor::editing::trim_end_len(cur) as int);
    let tn = next.skip(crate::editor::movement::blank_len(next) as int);
    if tn.len() == 0 {
        tc
    } else {
        tc + seq![' '] + tn
    }
}

/// `v` after joining line `s` with the line after it `j` times.
pub open spec fn joined_n(v: Seq<Seq<char>>, s: int, j: nat) -> Seq<Seq<char>>
    decreases j,
{
    if j == 0 {
        v
    } else {
        let w = joined_n(v, s, (j - 1) as nat);
        w.update(s, ex_joined(w[s], w[s + 1])).remove(s + 1)
    }
}

/// The column `:j` records for joining `line`: the byte length of `line`
/// without its trailing whitespace.
pub open spec fn join_col(line: Seq<char>) -> usize {
    crate::text::byte_len(line.take(crate::editor::editing::trim_end_len(line) as int)) as usize
}

/// `:j`'s range, when it exists, is not reversed.
pub open spec fn join_ok(e: Editor, range: SubstituteRange) -> bool {
    match resolved(e, range) {
        Some((s, t)) => s <= t,
        None => true,
    }
}

impl Editor {
    /// Join line `s` with the line after it as `:j` does, recording the
    /// join; returns nothing but changes the lines as `joined_n` says.
    fn join_once_recorded(&mut self, s: usize)
        requires
            old(self).wf(),
            s + 1 < old(self).document.buffer@.len(),
        ensures
            final(self).wf(),
            ({
                let e = *old(self);
                let e2 = *final(self);
                let v = e.document.buffer@;
                let a = EditAction::JoinLines { row: s, col: join_col(v[s as int]) };
                &&& e2.document == (Document { buffer: e2.document.buffer, ..e.document })
                &&& e2.document.buffer@ == v.update(s as int, ex_joined(v[s as int], v[s + 1])).remove(s + 1)
                &&& e2.state == (EditorState { undo_history: e2.state.undo_history, ..e.state })
                &&& crate::undo::recorded(e.state.undo_history, e2.state.undo_history, a)
            }),
    {
        let ghost v = self.document.buffer@;
        let _len = self.document.buffer.len();
        let (cs1, n1) = match self.document.buffer.line(s) {
            Some(l) => (crate::text::chars_of(l), crate::text::str_byte_len(l)),
            None => (Vec::new(), 0),
        };
        proof {
            assert(cs1@ == v[s as int]);
        }
        let cs2 = match self.document.buffer.line(s + 1) {
            Some(l) => crate::text::chars_of(l),
            None => Vec::new(),
        };
        let tcount = crate::editor::editing::trim_end_count(cs1.as_slice(), cs1.len());
        proof {
            assert(cs1@.take(cs1@.len() as int) =~= cs1@);
        }
        let col = crate::text::byte_offset(cs1.as_slice(), tcount);
        let a = EditAction::JoinLines { row: s, col };
        self.state.undo_history.record(a);
        let b = crate::editor::movement::blank_count(cs2.as_slice());
        let mut joined: Vec<char> = Vec::new();
        crate::text::extend_range(&mut joined, cs1.as_slice(), 0, tcount);
        if b < cs2.len() {
            joined.push(' ');
            crate::text::extend_range(&mut joined, cs2.as_slice(), b, cs2.len());
        }
        proof {
            assert(cs1@.subrange(0, tcount as int) =~= cs1@.take(tcount as int));
            assert(cs2@.subrange(b as int, cs2@.len() as int) =~= cs2@.skip(b as int));
            assert(joined@ =~= ex_joined(v[s as int], v[s + 1]));
        }
        let new_line = crate::text::string_from_chars(joined.as_slice());
        let _ = self.document.buffer.set_line(s, new_line);
        let _ = self.document.buffer.remove_line(s + 1);
    }

    /// `:[range]j`: join the lines of `range` (a single line with the next
    /// one) as one undoable change; the cursor goes to the start of the
    /// joined line.
    pub fn execute_join_lines_range(&mut self, range: SubstituteRange)
        requires
            old(self).wf(),
            join_ok(*old(self), range),
        ensures
            ex_lines_joined(*old(self), *final(self), range),

    {
        let (start, end) = match self.resolve_line_range(range) {
            Some(p) => p,
            None => return ,
        };
        let buf_len = self.document.buffer.len();
        if start == end && start + 1 >= buf_len {
            return ;
        }
        let ghost e0 = *self;
        let ghost v = self.document.buffer@;
        let cursor = self.document.cursor;
        let ghost h0 = self.state.undo_history;
        self.state.undo_history.begin_group(cursor, self.document.modified);
        let ghost h1 = self.state.undo_history;
        proof {
            crate::undo::lemma_recorded_seq_empty(h1);
            crate::undo::lemma_recent_actions(h1, h1, Seq::empty());
        }
        let joins = if start == end {
            1
        } else {
            end - start
        };
        let mut k: usize = 0;
        while k < joins
            invariant
                k <= joins,
                start < end || start + 1 < v.len(),
                joins == (if start == end { 1 } else { end - start }),
                end < v.len(),
                start <= end,
                old(self).wf(),
                v == e0.document.buffer@,
                e0 == *old(self),
                self.document.buffer.wf(),
                self.document.buffer@ == joined_n(v, start as int, k as nat),
                self.document.buffer@.len() == v.len() - k,
                self.document == (Document { buffer: self.document.buffer, ..e0.document }),
                self.state == (EditorState { undo_history: self.state.undo_history, ..e0.state }),
                recorded_seq(h1, self.state.undo_history, recent_actions(h1, self.state.undo_history)),
                recent_actions(h1, self.state.undo_history).len() == k,
                forall|i: int|
                    0 <= i < k ==> #[trigger] recent_actions(h1, self.state.undo_history)[i] == (EditAction::JoinLines {
                        row: start,
                        col: join_col(joined_n(v, start as int, i as nat)[start as int]),
                    }),
            decreases joins - k,
        {
            let ghost hp = self.state.undo_history;
            let ghost w = self.document.buffer@;
            self.join_once_recorded(start);
            let ghost hn = self.state.undo_history;
            proof {
                let a = EditAction::JoinLines { row: start, col: join_col(w[start as int]) };
                let prev = recent_actions(h1, hp);
                crate::undo::lemma_recorded_seq_step(h1, hp, hn, prev, a);
                crate::undo::lemma_recent_actions(h1, hn, prev.push(a));
            }
            k = k + 1;
        }
        let ghost h2 = self.state.undo_history;
        self.state.undo_history.end_group(cursor);
        proof {
            let acts = recent_actions(h1, h2);
            crate::undo::lemma_grouped(h0, h1, h2, self.state.undo_history, cursor, e0.document.modified, acts, cursor);
        }
        self.document.modified = true;
        self.document.cursor.row = start;
        self.document.cursor.col = 0;
        let n = self.document.buffer.len();
        self.state.viewport.ensure_visible(start, n);
    }
}

} // verus!

verus! {

/// A line number as `:nu` shows it: right-aligned in six columns.
pub open spec fn number_field(n: nat) -> Seq<char> {
    let d = crate::text::decimal(n);
    if d.len() < 6 {
        crate::editor::editing::spaces((6 - d.len()) as nat) + d
    } else {
        d
    }
}

/// How `:p` (plain), `:nu` (numbered) or `:l` (list) shows line `r` of `v`.
pub open spec fn shown_line(v: Seq<Seq<char>>, r: int, numbered: bool, list: bool) -> Seq<char> {
    if list {
        crate::editor::files::tabs_shown(v[r]) + seq!['$']
    } else if numbered {
        number_field((r + 1) as nat) + seq!['\t'] + v[r]
    } else {
        v[r]
    }
}

/// The lines `s..=t` of `v` as shown, one per line.
pub open spec fn shown_lines(v: Seq<Seq<char>>, s: int, t: int, numbered: bool, list: bool) -> Seq<char> {
    crate::buffer::join_with_lf(Seq::new((t + 1 - s) as nat, |i: int| shown_line(v, s + i, numbered, list)))
}

/// A line number right-aligned in six columns.
fn number_field_string(n: usize) -> (s: String)
    ensures
        s@ == number_field(n as nat),
{
    let d = crate::text::decimal_string(n);
    let k = crate::text::chars_of(d.as_str()).len();
    if k < 6 {
        let mut s = String::new();
        let mut i: usize = k;
        while i < 6
            invariant
                k <= i <= 6,
                s@ == crate::editor::editing::spaces((i - k) as nat),
            decreases 6 - i,
        {
            crate::text::push_char(&mut s, ' ');
            assert(s@ =~= crate::editor::editing::spaces((i + 1 - k) as nat));
            i = i + 1;
        }
        crate::text::append_str(&mut s, d.as_str());
        s
    } else {
        d
    }
}

impl Editor {
    /// The shared part of `:p`, `:nu` and `:l`: show the lines of `range`
    /// on the status line, one per line, and move the cursor to the start
    /// of the last of them.
    fn print_range(&mut self, range: SubstituteRange, numbered: bool, list: bool)
        ensures
            ({
                let e = *old(self);
                let e2 = *final(self);
                let v = e.document.buffer@;
                match resolved(e, range) {
                    None => failed_with(
                        e,
                        e2,
                        if v.len() == 0 {
                            "Empty buffer"@
                        } else {
                            "Invalid range"@
                        },
                    ),
                    Some((s, t)) => if s > t {
                        e2 == e
                    } else {
                        &&& e2.document == (Document { cursor: Cursor { row: t, col: 0 }, ..e.document })
                        &&& e2.state == (EditorState { status_message: e2.state.status_message, ..e.state })
                        &&& e2.state.status_message matches Some(StatusMessage::Info(m)) && m@ == shown_lines(
                            v,
                            s as int,
                            t as int,
                            numbered,
                            list,
                        )
                    },
                }
            }),
    {
        let (start, end) = match self.resolve_line_range(range) {
            Some(p) => p,
            None => return ,
        };
        if start > end {
            return ;
        }
        let ghost v = self.document.buffer@;
        let n = self.document.buffer.len();
        let mut out = String::new();
        let mut row = start;
        while row <= end
            invariant
                start <= row <= end + 1,
                end < v.len() == n,
                v == self.document.buffer@,
                row > start ==> out@ == shown_lines(v, start as int, row - 1, numbered, list),
                row == start ==> out@.len() == 0,
            decreases end + 1 - row,
        {
            let line = match self.document.buffer.line(row) {
                Some(l) => l,
                None => "",
            };
            let shown = if list {
                crate::editor::files::format_list_line(line)
            } else if numbered {
                let mut f = number_field_string(row + 1);
                crate::text::push_char(&mut f, '\t');
                crate::text::append_str(&mut f, line);
                f
            } else {
                line.to_owned()
            };
            let ghost before = out@;
            if row > start {
                crate::text::push_char(&mut out, '\n');
            }
            crate::text::append_str(&mut out, shown.as_str());
            proof {
                let f = |i: int| shown_line(v, start + i, numbered, list);
                let items = Seq::new((row + 1 - start) as nat, f);
                assert(shown@ == shown_line(v, row as int, numbered, list));
                if row > start {
                    assert(items.drop_last() =~= Seq::new((row - start) as nat, f));
                    assert(out@ =~= crate::buffer::join_with_lf(items.drop_last()) + seq!['\n'] + items.last());
                } else {
                    assert(items =~= seq![shown@]);
                    assert(out@ =~= shown@);
                }
            }
            row = row + 1;
        }
        self.state.status_message = Some(StatusMessage::Info(out));
        self.document.cursor.row = end;
        self.document.cursor.col = 0;
    }

    /// `:[range]p` (`numbered` false) or `:[range]nu`: show the lines of
    /// `range`, with their numbers for `:nu`.
    pub fn execute_print_impl(&mut self, range: SubstituteRange, numbered: bool)
        ensures
            ({
                let e = *old(self);
                let e2 = *final(self);
                match resolved(e, range) {
                    None => failed_with(
                        e,
                        e2,
                        if e.document.buffer@.len() == 0 {
                            "Empty buffer"@
                        } else {
                            "Invalid range"@
                        },
                    ),
                    Some((s, t)) => if s > t {
                        e2 == e
                    } else {
                        &&& e2.document == (Document { cursor: Cursor { row: t, col: 0 }, ..e.document })
                        &&& e2.state == (EditorState { status_message: e2.state.status_message, ..e.state })
                        &&& e2.state.status_message matches Some(StatusMessage::Info(m)) && m@ == shown_lines(
                            e.document.buffer@,
                            s as int,
                            t as int,
                            numbered,
                            false,
                        )
                    },
                }
            }),
    {
        self.print_range(range, numbered, false)
    }

    /// `:[range]p`: show the lines of `range`.
    pub fn execute_print_lines(&mut self, range: SubstituteRange)
        ensures
            ex_printed(*old(self), *final(self), range),

    {
        self.execute_print_impl(range, false)
    }

    /// `:[range]nu`: show the lines of `range` with their numbers.
    pub fn execute_print_numbered_lines(&mut self, range: SubstituteRange)
        ensures
            ex_numbered(*old(self), *final(self), range),

    {
        self.execute_print_impl(range, true)
    }

    /// `:[range]l`: show the lines of `range` with tabs as `^I` and a `$`
    /// at each end.
    pub fn execute_print_list_lines(&mut self, range: SubstituteRange)
        ensures
            ex_listed(*old(self), *final(self), range),

    {
        self.print_range(range, false, true)
    }
}

} // verus!

verus! {

/// What `:[range]y [x]` leaves in `e2`, starting from `e`.
pub open spec fn ex_yanked(e: Editor, e2: Editor, range: SubstituteRange, register: Option<char>) -> bool {
    &&& (e2.wf())
    &&& (({
        let e = e;
        let e2 = e2;
        let v = e.document.buffer@;
        match resolved(e, range) {
            None => failed_with(
                e,
                e2,
                if v.len() == 0 {
                    "Empty buffer"@
                } else {
                    "Invalid range"@
                },
            ),
            Some((s, t)) => if s > t {
                e2 == e
            } else {
                &&& e2.document == e.document
                &&& crate::editor::yank_put::same_but_registers_status(e.state, e2.state)
                &&& forall|q: Option<RegisterId>| #[trigger] e2.state.registers.spec_get(q)
                    == get_after_yank(
                    e.state.registers,
                    register_target(register),
                    lines_text(v, s as int, t + 1),
                    ContentType::Linewise,
                    q,
                )
                &&& reported(e.state, e2.state, (t + 1 - s) as nat, "lines yanked"@)
            },
        }
    }))
}

} // verus!

verus! {

/// What `:[range]t {dest}` leaves in `e2`, starting from `e`.
pub open spec fn ex_copied(e: Editor, e2: Editor, range: SubstituteRange, dest: usize) -> bool {
    &&& (e2.wf())
    &&& (({
        let e = e;
        let e2 = e2;
        let v = e.document.buffer@;
        match resolved(e, range) {
            None => failed_with(
                e,
                e2,
                if v.len() == 0 {
                    "Empty buffer"@
                } else {
                    "Invalid range"@
                },
            ),
            Some((s, t)) => if dest > v.len() {
                failed_with(e, e2, "Invalid address"@)
            } else {
                let ls = range_lines(v, s as int, t as int);
                let count = t + 1 - s;
                let v2 = v.take(dest as int) + ls + v.skip(dest as int);
                let acts = grouped_actions(e.state.undo_history, e2.state.undo_history, ls.len() as int);
                &&& changed_lines(e, e2, v2, min(dest + count - 1, v2.len() - 1), acts)
                &&& acts.len() == ls.len()
                &&& forall|i: int| 0 <= i < ls.len() ==> inserts_line(#[trigger] acts[i], dest + i, ls[i])
                &&& e2.state == (EditorState {
                    undo_history: e2.state.undo_history,
                    status_message: e2.state.status_message,
                    viewport: e2.state.viewport,
                    ..e.state
                })
                &&& reported(e.state, e2.state, count as nat, "lines copied"@)
            },
        }
    }))
}

} // verus!

verus! {

/// What `:[range]m {dest}` leaves in `e2`, starting from `e`.
pub open spec fn ex_moved(e: Editor, e2: Editor, range: SubstituteRange, dest: usize) -> bool {
    &&& (e2.wf())
    &&& (({
        let e = e;
        let e2 = e2;
        let v = e.document.buffer@;
        match resolved(e, range) {
            None => failed_with(
                e,
                e2,
                if v.len() == 0 {
                    "Empty buffer"@
                } else {
                    "Invalid range"@
                },
            ),
            Some((s, t)) => if !move_allowed(v.len(), s as int, t as int, dest as int) {
                failed_with(e, e2, "Invalid address"@)
            } else {
                let ls = range_lines(v, s as int, t as int);
                let count = t + 1 - s;
                let v1 = if s > t {
                    v
                } else {
                    without_lines(v, s as int, t + 1)
                };
                let adj = move_target(dest as int, t as int, count);
                let v2 = v1.take(adj) + ls + v1.skip(adj);
                let acts = grouped_actions(e.state.undo_history, e2.state.undo_history, 2 * ls.len() as int);
                &&& changed_lines(e, e2, v2, min(adj + count - 1, v2.len() - 1), acts)
                &&& acts.len() == 2 * ls.len()
                &&& forall|i: int|
                    0 <= i < ls.len() ==> removes_or_clears(
                        #[trigger] acts[i],
                        t - i,
                        v[t - i],
                        s == 0 && t + 1 == v.len() && i == t,
                    )
                &&& forall|i: int|
                    0 <= i < ls.len() ==> inserts_line(#[trigger] acts[ls.len() + i], adj + i, ls[i])
                &&& e2.state == (EditorState {
                    undo_history: e2.state.undo_history,
                    status_message: e2.state.status_message,
                    viewport: e2.state.viewport,
                    ..e.state
                })
                &&& reported(e.state, e2.state, count as nat, "lines moved"@)
            },
        }
    }))
}

} // verus!

verus! {

/// What `:{row}pu [x]` leaves in `e2`, starting from `e`.
pub open spec fn ex_put_done(e: Editor, e2: Editor, after_row: usize, register: Option<char>) -> bool {
    &&& (e2.wf())
    &&& (({
        let e = e;
        let e2 = e2;
        let v = e.document.buffer@;
        match e.state.registers.spec_get(register_target(register)) {
            None => e2 == e,
            Some((t, k)) => {
                let ls = put_lines_of(t, k);
                if ls.len() == 0 {
                    e2 == e
                } else {
                    let ir = min(after_row + 1, v.len() as int);
                    let v2 = v.take(ir) + ls + v.skip(ir);
                    let c2 = Cursor {
                        row: ir as usize,
                        col: min(
                            crate::editor::movement::first_non_blank_col(v2[ir]),
                            crate::editor::movement::max_col(e.state.mode, v2[ir]),
                        ) as usize,
                    };
                    let acts = grouped_actions(e.state.undo_history, e2.state.undo_history, ls.len() as int);
                    &&& e2.document.buffer@ == v2
                    &&& e2.document.modified
                    &&& same_doc_meta(e.document, e2.document)
                    &&& e2.document.cursor == c2
                    &&& e2.state == (EditorState { undo_history: e2.state.undo_history, ..e.state })
                    &&& grouped(
                        e.state.undo_history,
                        e2.state.undo_history,
                        e.document.cursor,
                        e.document.modified,
                        acts,
                        c2,
                    )
                    &&& acts.len() == ls.len()
                    &&& forall|i: int| 0 <= i < ls.len() ==> inserts_line(#[trigger] acts[i], ir + i, ls[i])
                }
            },
        }
    }))
}

} // verus!

verus! {

/// What `:[range]j` leaves in `e2`, starting from `e`.
pub open spec fn ex_lines_joined(e: Editor, e2: Editor, range: SubstituteRange) -> bool {
    &&& (e2.wf())
    &&& (({
        let e = e;
        let e2 = e2;
        let v = e.document.buffer@;
        match resolved(e, range) {
            None => failed_with(
                e,
                e2,
                if v.len() == 0 {
                    "Empty buffer"@
                } else {
                    "Invalid range"@
                },
            ),
            Some((s, t)) => if s == t && s + 1 >= v.len() {
                e2 == e
            } else {
                let j: nat = if s == t {
                    1
                } else {
                    (t - s) as nat
                };
                let acts = grouped_actions(e.state.undo_history, e2.state.undo_history, j as int);
                &&& changed_lines(e, e2, joined_n(v, s as int, j), s as int, acts)
                &&& acts.len() == j
                &&& forall|k: int|
                    0 <= k < j ==> #[trigger] acts[k] == (EditAction::JoinLines {
                        row: s,
                        col: join_col(joined_n(v, s as int, k as nat)[s as int]),
                    })
                &&& e2.state == (EditorState {
                    undo_history: e2.state.undo_history,
                    viewport: e2.state.viewport,
                    ..e.state
                })
            },
        }
    }))
}

} // verus!

verus! {

/// What `:[range]p` leaves in `e2`, starting from `e`.
pub open spec fn ex_printed(e: Editor, e2: Editor, range: SubstituteRange) -> bool {
    &&& (({
        let e = e;
        let e2 = e2;
        match resolved(e, range) {
            None => failed_with(
                e,
                e2,
                if e.document.buffer@.len() == 0 {
                    "Empty buffer"@
                } else {
                    "Invalid range"@
                },
            ),
            Some((s, t)) => if s > t {
                e2 == e
            } else {
                &&& e2.document == (Document { cursor: Cursor { row: t, col: 0 }, ..e.document })
                &&& e2.state == (EditorState { status_message: e2.state.status_message, ..e.state })
                &&& e2.state.status_message matches Some(StatusMessage::Info(m)) && m@ == shown_lines(
                    e.document.buffer@,
                    s as int,
                    t as int,
                    false,
                    false,
                )
            },
        }
    }))
}

} // verus!

verus! {

/// What `:[range]nu` leaves in `e2`, starting from `e`.
pub open spec fn ex_numbered(e: Editor, e2: Editor, range: SubstituteRange) -> bool {
    &&& (({
        let e = e;
        let e2 = e2;
        match resolved(e, range) {
            None => failed_with(
                e,
                e2,
                if e.document.buffer@.len() == 0 {
                    "Empty buffer"@
                } else {
                    "Invalid range"@
                },
            ),
            Some((s, t)) => if s > t {
                e2 == e
            } else {
                &&& e2.document == (Document { cursor: Cursor { row: t, col: 0 }, ..e.document })
                &&& e2.state == (EditorState { status_message: e2.state.status_message, ..e.state })
                &&& e2.state.status_message matches Some(StatusMessage::Info(m)) && m@ == shown_lines(
                    e.document.buffer@,
                    s as int,
                    t as int,
                    true,
                    false,
                )
            },
        }
    }))
}

} // verus!

verus! {

/// What `:[range]l` leaves in `e2`, starting from `e`.
pub open spec fn ex_listed(e: Editor, e2: Editor, range: SubstituteRange) -> bool {
    &&& (({
        let e = e;
        let e2 = e2;
        match resolved(e, range) {
            None => failed_with(
                e,
                e2,
                if e.document.buffer@.len() == 0 {
                    "Empty buffer"@
                } else {
                    "Invalid range"@
                },
            ),
            Some((s, t)) => if s > t {
                e2 == e
            } else {
                &&& e2.document == (Document { cursor: Cursor { row: t, col: 0 }, ..e.document })
                &&& e2.state == (EditorState { status_message: e2.state.status_message, ..e.state })
                &&& e2.state.status_message matches Some(StatusMessage::Info(m)) && m@ == shown_lines(
                    e.document.buffer@,
                    s as int,
                    t as int,
                    false,
                    true,
                )
            },
        }
    }))
}

} // verus!
