//! Yank, delete into registers, and put: the commands that move text
//! between the buffer and the registers.

use vstd::prelude::*;
use crate::buffer::Cursor;
use crate::editor::files::reported;
use crate::editor::movement::{first_non_blank_col, max_col, min};
use crate::editor::{Editor, EditorState};
use crate::error::Error;
use crate::registers::{
    get_after_delete, get_after_yank, register_target, ContentType, RegisterContent, RegisterId,
};
use crate::text::{append_str, byte_len, char_index, chars_of, is_boundary, push_char, string_from_chars};
use crate::undo::{recent_actions, recorded_seq, removes_or_clears, EditAction};

verus! {

/// Lines `start..end` of `v` (those that exist), each followed by a line
/// feed.
pub open spec fn lines_text(v: Seq<Seq<char>>, start: int, end: int) -> Seq<char>
    decreases end - start,
{
    if end <= start {
        Seq::empty()
    } else {
        lines_text(v, start, end - 1) + if 0 <= end - 1 < v.len() {
            v[end - 1].push('\n')
        } else {
            Seq::empty()
        }
    }
}

/// The end row of a line command on `count` lines from `start` in a buffer
/// of `len` lines.
pub open spec fn end_row(start: int, count: int, len: int) -> int {
    min(start + count, len)
}

/// `v` without lines `start..end`; a buffer left without lines keeps one
/// empty line.
pub open spec fn without_lines(v: Seq<Seq<char>>, start: int, end: int) -> Seq<Seq<char>> {
    let rest = v.take(start) + v.skip(end);
    if rest.len() == 0 {
        seq![Seq::<char>::empty()]
    } else {
        rest
    }
}

/// The register a typed register name selects.
pub fn register_id(register: Option<char>) -> (r: Option<RegisterId>)
    ensures
        r == register_target(register),
{
    match register {
        Some(c) => RegisterId::parse(c),
        None => None,
    }
}

/// The registers and status message are the only parts of the state that
/// differ between `a` and `b`.
pub open spec fn same_but_registers_status(a: EditorState, b: EditorState) -> bool {
    b == (EditorState { registers: b.registers, status_message: b.status_message, ..a })
}

/// What yanking `count` lines from the cursor's line into `register` does
/// to `e`, giving `e2`: the document stays; the register gets the lines as
/// whole lines, and their number is reported.
pub open spec fn yank_lines_post(e: Editor, e2: Editor, count: usize, register: Option<char>) -> bool {
    let v = e.document.buffer@;
    let start = e.document.cursor.row as int;
    let end = end_row(start, count as int, v.len() as int);
    &&& e2.document == e.document
    &&& same_but_registers_status(e.state, e2.state)
    &&& forall|q: Option<RegisterId>| #[trigger] e2.state.registers.spec_get(q) == get_after_yank(
        e.state.registers,
        register_target(register),
        lines_text(v, start, end),
        ContentType::Linewise,
        q,
    )
    &&& reported(e.state, e2.state, (end - start) as nat, "lines yanked"@)
}

/// What deleting `count` lines from the cursor's line into `register` does
/// to `e`, giving `e2`: the lines go (last first, each removal recorded for
/// undo) into the register as whole lines; the cursor goes to the first
/// non-blank character of the line that now follows, or of the last line.
pub open spec fn delete_lines_post(e: Editor, e2: Editor, count: usize, register: Option<char>) -> bool {
    let v = e.document.buffer@;
    let start = e.document.cursor.row as int;
    let end = end_row(start, count as int, v.len() as int);
    let v2 = without_lines(v, start, end);
    let acts = recent_actions(e.state.undo_history, e2.state.undo_history);
    &&& e2.document.buffer@ == v2
    &&& e2.document.modified
    &&& crate::editor::editing::same_doc_meta(e.document, e2.document)
    &&& e2.document.cursor.row == min(start, v2.len() - 1)
    &&& e2.document.cursor.col == min(
        first_non_blank_col(v2[e2.document.cursor.row as int]),
        max_col(e.state.mode, v2[e2.document.cursor.row as int]),
    )
    &&& e2.state == (EditorState {
        registers: e2.state.registers,
        status_message: e2.state.status_message,
        undo_history: e2.state.undo_history,
        ..e.state
    })
    &&& forall|q: Option<RegisterId>| #[trigger] e2.state.registers.spec_get(q) == get_after_delete(
        e.state.registers,
        register_target(register),
        lines_text(v, start, end),
        ContentType::Linewise,
        q,
    )
    &&& recorded_seq(e.state.undo_history, e2.state.undo_history, acts)
    &&& acts.len() == end - start
    &&& forall|i: int|
        0 <= i < acts.len() ==> removes_or_clears(
            #[trigger] acts[i],
            end - 1 - i,
            v[end - 1 - i],
            start == 0 && end == v.len() && i == end - 1,
        )
    &&& reported(e.state, e2.state, (end - start) as nat, "lines deleted"@)
}

impl Editor {
    /// The text of lines `start..end`, each followed by a line feed.
    pub fn collect_lines(&self, start: usize, end: usize) -> (s: String)
        ensures
            s@ == lines_text(self.document.buffer@, start as int, end as int),
    {
        let ghost v = self.document.buffer@;
        let mut s = String::new();
        let mut row = start;
        while row < end
            invariant
                start <= row,
                row <= end || row == start,
                v == self.document.buffer@,
                s@ == lines_text(v, start as int, row as int),
            decreases end - row,
        {
            match self.document.buffer.line(row) {
                Some(line) => {
                    append_str(&mut s, line);
                    push_char(&mut s, '\n');
                    assert(s@ =~= lines_text(v, start as int, row as int) + v[row as int].push('\n'));
                },
                None => {
                    assert(s@ =~= lines_text(v, start as int, row as int) + Seq::<char>::empty());
                },
            }
            row = row + 1;
        }
        s
    }

    /// `yy`: yank `count` lines from the cursor's line (as many as there
    /// are) into the register as whole lines.
    pub fn yank_lines(&mut self, count: usize, register: Option<char>) -> (r: Result<(), Error>)
        requires
            old(self).wf(),
            old(self).document.cursor.row + count <= usize::MAX,
            old(self).document.cursor.row <= old(self).document.buffer@.len(),
        ensures
            final(self).wf(),
            r is Ok,
            yank_lines_post(*old(self), *final(self), count, register),
    {
        let start = self.document.cursor.row;
        let n = self.document.buffer.len();
        let end = if start + count < n {
            start + count
        } else {
            n
        };
        let text = self.collect_lines(start, end);
        self.state.registers.yank(register_id(register), RegisterContent::linewise(text));
        self.report_lines(end - start, "lines yanked");
        Ok(())
    }

    /// Yank lines `start_row..end_row` (as many as there are) into the
    /// register as whole lines.
    pub fn yank_lines_range(&mut self, start_row: usize, end_row: usize, register: Option<char>) -> (r:
        Result<(), Error>)
        requires
            old(self).wf(),
        ensures
            final(self).wf(),
            r is Ok,
            final(self).document == old(self).document,
            final(self).state == (EditorState { registers: final(self).state.registers, ..old(self).state }),
            ({
                let v = old(self).document.buffer@;
                forall|q: Option<RegisterId>| #[trigger] final(self).state.registers.spec_get(q)
                    == get_after_yank(
                    old(self).state.registers,
                    register_target(register),
                    lines_text(v, start_row as int, min(end_row as int, v.len() as int)),
                    ContentType::Linewise,
                    q,
                )
            }),
    {
        let n = self.document.buffer.len();
        let end = if end_row < n {
            end_row
        } else {
            n
        };
        let text = self.collect_lines(start_row, end);
        self.state.registers.yank(register_id(register), RegisterContent::linewise(text));
        Ok(())
    }

    /// `dd`: delete `count` lines from the cursor's line (as many as there
    /// are) into the register as whole lines, recording each removal for
    /// undo (last line first); the cursor goes to the first non-blank
    /// character of the line that follows.
    #[verifier::spinoff_prover]
    #[verifier::rlimit(60)]
    pub fn delete_lines_with_register(&mut self, count: usize, register: Option<char>) -> (r: Result<
        (),
        Error,
    >)
        requires
            old(self).wf(),
            old(self).document.cursor.row + count <= usize::MAX,
            old(self).document.cursor.row <= old(self).document.buffer@.len(),
        ensures
            final(self).wf(),
            r is Ok,
            delete_lines_post(*old(self), *final(self), count, register),
    {
        let ghost v = self.document.buffer@;
        let start = self.document.cursor.row;
        let n = self.document.buffer.len();
        let end = if start + count < n {
            start + count
        } else {
            n
        };
        let text = self.collect_lines(start, end);
        self.state.registers.delete(register_id(register), register, RegisterContent::linewise(text));
        let ghost h0 = self.state.undo_history;
        let ghost st1 = self.state;
        let ghost mut acts: Seq<EditAction> = Seq::empty();
        proof {
            crate::undo::lemma_recorded_seq_empty(h0);
            assert(v.take(end as int) + v.skip(end as int) =~= v);
        }
        let mut row = end;
        while row > start
            invariant
                start <= row <= end <= v.len(),
                self.document.buffer.wf(),
                self.document.buffer@ == without_lines(v, row as int, end as int),
                row == end ==> self.document.buffer@ == v,
                row > start ==> self.document.buffer@ == v.take(row as int) + v.skip(end as int),
                self.document.cursor == old(self).document.cursor,
                self.document.modified == old(self).document.modified,
                crate::editor::editing::same_doc_meta(old(self).document, self.document),
                self.state == (EditorState { undo_history: self.state.undo_history, ..st1 }),
                self.state.registers.wf(),
                recorded_seq(h0, self.state.undo_history, acts),
                acts.len() == end - row,
                forall|i: int|
                    0 <= i < acts.len() ==> removes_or_clears(
                        #[trigger] acts[i],
                        end - 1 - i,
                        v[end - 1 - i],
                        start == 0 && end == v.len() && i == end - 1,
                    ),
            decreases row,
        {
            row = row - 1;
            let content = match self.document.buffer.line(row) {
                Some(l) => l.to_owned(),
                None => String::new(),
            };
            let ghost before = self.document.buffer@;
            proof {
                assert(before[row as int] == v[row as int]);
            }
            let sole = self.document.buffer.len() == 1;
            match self.document.buffer.remove_line(row) {
                Ok(()) => {},
                Err(e) => return Err(Error::Buffer(e)),
            }
            let a = if sole {
                EditAction::ReplaceLine { row, old_content: content, new_content: String::new() }
            } else {
                EditAction::RemoveLine { row, content }
            };
            let ghost hp = self.state.undo_history;
            self.state.undo_history.record(a.duplicate());
            proof {
                crate::undo::lemma_recorded_seq_step(h0, hp, self.state.undo_history, acts, a);
                if sole {
                    assert(row == 0 && start == 0 && end == v.len());
                }
                acts = acts.push(a);
                let rest = v.take(row as int) + v.skip(end as int);
                if before.len() == 1 {
                    assert(rest.len() == 0);
                } else {
                    assert(before.remove(row as int) =~= rest);
                }
            }
        }
        proof {
            crate::undo::lemma_recent_actions(h0, self.state.undo_history, acts);
        }
        let len = self.document.buffer.len();
        if self.document.cursor.row >= len {
            self.document.cursor.row = len - 1;
        }
        self.move_to_first_non_blank();
        self.document.modified = true;
        self.report_lines(end - start, "lines deleted");
        Ok(())
    }
}

} // verus!

verus! {

/// The characters of `line` between the byte offsets `a` and `b`.
pub open spec fn byte_slice(line: Seq<char>, a: int, b: int) -> Seq<char> {
    line.subrange(char_index(line, a), char_index(line, b))
}

/// The text from `start` up to (not including) `end`, as the range commands
/// read it: columns are cut down to the line lengths; across lines, the
/// rest of the first line, the whole lines between and the start of the
/// last, joined by line feeds.
pub open spec fn text_in_range(v: Seq<Seq<char>>, start: Cursor, end: Cursor) -> Seq<char> {
    if start.row == end.row {
        if start.row < v.len() {
            let line = v[start.row as int];
            let a = min(start.col as int, byte_len(line) as int);
            let b = min(end.col as int, byte_len(line) as int);
            if a < b {
                byte_slice(line, a, b)
            } else {
                Seq::empty()
            }
        } else {
            Seq::empty()
        }
    } else {
        (if start.row < v.len() {
            let line = v[start.row as int];
            byte_slice(line, min(start.col as int, byte_len(line) as int), byte_len(line) as int).push(
                '\n',
            )
        } else {
            Seq::empty()
        }) + lines_text(v, start.row + 1, end.row as int) + (if end.row < v.len() {
            let line = v[end.row as int];
            byte_slice(line, 0, min(end.col as int, byte_len(line) as int))
        } else {
            Seq::empty()
        })
    }
}

/// The columns `text_in_range` cuts lines at are character boundaries.
pub open spec fn range_cuts_ok(v: Seq<Seq<char>>, start: Cursor, end: Cursor) -> bool {
    if start.row == end.row {
        start.row < v.len() ==> {
            let line = v[start.row as int];
            let a = min(start.col as int, byte_len(line) as int);
            let b = min(end.col as int, byte_len(line) as int);
            a < b ==> is_boundary(line, a) && is_boundary(line, b)
        }
    } else {
        &&& start.row < usize::MAX
        &&& start.row < v.len() ==> is_boundary(
            v[start.row as int],
            min(start.col as int, byte_len(v[start.row as int]) as int),
        )
        &&& end.row < v.len() ==> is_boundary(
            v[end.row as int],
            min(end.col as int, byte_len(v[end.row as int]) as int),
        )
    }
}

/// The characters of `line` between the byte offsets `a <= b`, both
/// character boundaries.
pub fn slice_str(line: &str, a: usize, b: usize) -> (s: String)
    requires
        a <= b,
        is_boundary(line@, a as int),
        is_boundary(line@, b as int),
    ensures
        s@ == byte_slice(line@, a as int, b as int),
{
    let cs = chars_of(line);
    let i = crate::text::index_at_byte(cs.as_slice(), a);
    let j = crate::text::index_at_byte(cs.as_slice(), b);
    proof {
        if j < i {
            crate::text::lemma_byte_len_take_strict(cs@, j as int, i as int);
        }
    }
    let mut out: Vec<char> = Vec::new();
    crate::text::extend_range(&mut out, cs.as_slice(), i, j);
    string_from_chars(out.as_slice())
}

/// A line's end is a boundary and its length fits in `usize`.
pub proof fn lemma_line_end(line: Seq<char>)
    ensures
        is_boundary(line, byte_len(line) as int),
        is_boundary(line, 0),
        char_index(line, 0) == 0,
        char_index(line, byte_len(line) as int) == line.len(),
{
    assert(line.take(line.len() as int) =~= line);
    assert(line.take(0) =~= Seq::<char>::empty());
    crate::text::lemma_char_index_unique(line, line.len() as int);
    crate::text::lemma_char_index_unique(line, 0);
}

impl Editor {
    /// The text from `start` up to (not including) `end` (see
    /// `text_in_range`).
    pub fn get_text_in_range(&self, start: &Cursor, end: &Cursor) -> (s: String)
        requires
            range_cuts_ok(self.document.buffer@, *start, *end),
        ensures
            s@ == text_in_range(self.document.buffer@, *start, *end),
    {
        let ghost v = self.document.buffer@;
        let mut text = String::new();
        if start.row == end.row {
            match self.document.buffer.line(start.row) {
                Some(line) => {
                    let n = crate::text::str_byte_len(line);
                    let a = if start.col < n {
                        start.col
                    } else {
                        n
                    };
                    let b = if end.col < n {
                        end.col
                    } else {
                        n
                    };
                    if a < b {
                        text = slice_str(line, a, b);
                    }
                },
                None => {},
            }
            text
        } else {
            let ghost mut first: Seq<char> = Seq::empty();
            match self.document.buffer.line(start.row) {
                Some(line) => {
                    let n = crate::text::str_byte_len(line);
                    let a = if start.col < n {
                        start.col
                    } else {
                        n
                    };
                    proof {
                        lemma_line_end(line@);
                    }
                    text = slice_str(line, a, n);
                    push_char(&mut text, '\n');
                    proof {
                        first = text@;
                    }
                },
                None => {},
            }
            let mid = self.collect_lines(start.row + 1, end.row);
            append_str(&mut text, mid.as_str());
            let ghost mut last: Seq<char> = Seq::empty();
            match self.document.buffer.line(end.row) {
                Some(line) => {
                    let n = crate::text::str_byte_len(line);
                    let b = if end.col < n {
                        end.col
                    } else {
                        n
                    };
                    proof {
                        lemma_line_end(line@);
                    }
                    let t = slice_str(line, 0, b);
                    append_str(&mut text, t.as_str());
                    proof {
                        last = t@;
                    }
                },
                None => {},
            }
            assert(text@ =~= text_in_range(v, *start, *end));
            text
        }
    }

    /// Yank the text from `start` up to `end` into the register, as
    /// content of kind `content_type`.
    pub fn yank_range(
        &mut self,
        start: &Cursor,
        end: &Cursor,
        register: Option<char>,
        content_type: ContentType,
    ) -> (r: Result<(), Error>)
        requires
            old(self).wf(),
            range_cuts_ok(old(self).document.buffer@, *start, *end),
        ensures
            final(self).wf(),
            r is Ok,
            final(self).document == old(self).document,
            final(self).state == (EditorState { registers: final(self).state.registers, ..old(self).state }),
            forall|q: Option<RegisterId>| #[trigger] final(self).state.registers.spec_get(q)
                == get_after_yank(
                old(self).state.registers,
                register_target(register),
                text_in_range(old(self).document.buffer@, *start, *end),
                content_type,
                q,
            ),
    {
        let text = self.get_text_in_range(start, end);
        self.state.registers.yank(register_id(register), RegisterContent::new(text, content_type));
        Ok(())
    }
}

} // verus!

verus! {

/// `a` records the deletion of `text` from `start` up to `end`.
pub open spec fn deletes_range(a: EditAction, start: Cursor, end: Cursor, text: Seq<char>) -> bool {
    a matches EditAction::DeleteRange { start_row, start_col, end_row, end_col, text: t }
        && start_row == start.row && start_col == start.col && end_row == end.row && end_col
        == end.col && t@ == text
}

/// `e2` is `e` after the text from `start` up to `end` was deleted into
/// `register` (as content of kind `content_type`) and the deletion
/// recorded for undo; `r` is the outcome: the buffer's error when it
/// refuses the range (the recording and the register write have then
/// already happened), else the cursor at `start`.
pub open spec fn range_deleted(
    e: Editor,
    e2: Editor,
    start: Cursor,
    end: Cursor,
    register: Option<char>,
    content_type: ContentType,
    r: Result<(), Error>,
) -> bool {
    let v = e.document.buffer@;
    let t = text_in_range(v, start, end);
    &&& e2.state == (EditorState {
        registers: e2.state.registers,
        undo_history: e2.state.undo_history,
        ..e.state
    })
    &&& forall|q: Option<RegisterId>| #[trigger] e2.state.registers.spec_get(q)
        == get_after_delete(e.state.registers, register_target(register), t, content_type, q)
    &&& crate::undo::recorded_last(e.state.undo_history, e2.state.undo_history)
    &&& deletes_range(crate::undo::last_action(e2.state.undo_history), start, end, t)
    &&& crate::editor::editing::same_doc_meta(e.document, e2.document)
    &&& match crate::buffer::delete_range_result(v, start, end) {
        Ok(v2) => {
            &&& r is Ok
            &&& e2.document.buffer@ == v2
            &&& e2.document.cursor.row == start.row
            &&& crate::editor::movement::clamp_col(
                e.state.mode,
                v2,
                start.row as int,
                start.col as int,
                e2.document.cursor.col as int,
            )
            &&& e2.document.modified
        },
        Err(be) => {
            &&& r == Err::<(), Error>(Error::Buffer(be))
            &&& e2.document.buffer@ == v
            &&& e2.document.cursor == e.document.cursor
            &&& e2.document.modified == e.document.modified
        },
    }
}

impl Editor {
    /// Delete the text from `start` up to `end` into the register (as
    /// content of kind `content_type`), recording the deletion for undo,
    /// and put the cursor at `start`. When the buffer refuses the range,
    /// its error is returned; the recording and the register write have
    /// then already happened.
    pub fn delete_motion_range_with_register(
        &mut self,
        start: &Cursor,
        end: &Cursor,
        register: Option<char>,
        content_type: ContentType,
    ) -> (r: Result<(), Error>)
        requires
            old(self).wf(),
            range_cuts_ok(old(self).document.buffer@, *start, *end),
        ensures
            final(self).wf(),
            range_deleted(*old(self), *final(self), *start, *end, register, content_type, r),
    {
        let text = self.get_text_in_range(start, end);
        let a = EditAction::DeleteRange {
            start_row: start.row,
            start_col: start.col,
            end_row: end.row,
            end_col: end.col,
            text: text.clone(),
        };
        let ghost h0 = self.state.undo_history;
        self.state.undo_history.record(a);
        proof {
            crate::undo::lemma_recorded_last(h0, self.state.undo_history, a);
        }
        self.state.registers.delete(register_id(register), register, RegisterContent::new(text, content_type));
        match self.document.buffer.delete_range(start, end) {
            Ok(()) => {},
            Err(e) => return Err(Error::Buffer(e)),
        }
        self.document.cursor = *start;
        self.clamp_cursor_to_line();
        self.document.modified = true;
        Ok(())
    }

    /// `D`: delete from the cursor to the end of its line into the
    /// register (characterwise), recording the deletion for undo. Nothing
    /// happens at or past the end of the line.
    pub fn delete_to_end_of_line(&mut self, register: Option<char>) -> (r: Result<(), Error>)
        requires
            old(self).wf(),
            ({
                let v = old(self).document.buffer@;
                let c = old(self).document.cursor;
                c.row < v.len() && c.col < byte_len(v[c.row as int]) ==> is_boundary(
                    v[c.row as int],
                    c.col as int,
                )
            }),
        ensures
            deleted_to_end(*old(self), *final(self), register, r),

    {
        let row = self.document.cursor.row;
        let col = self.document.cursor.col;
        let ghost v = self.document.buffer@;
        let (deleted, n) = match self.document.buffer.line(row) {
            Some(line) => {
                let n = crate::text::str_byte_len(line);
                if col >= n {
                    return Ok(());
                }
                proof {
                    lemma_line_end(line@);
                }
                (slice_str(line, col, n), n)
            },
            None => return Ok(()),
        };
        let end = Cursor::new(row, n);
        let a = EditAction::DeleteRange {
            start_row: row,
            start_col: col,
            end_row: row,
            end_col: n,
            text: deleted.clone(),
        };
        let ghost h0 = self.state.undo_history;
        self.state.undo_history.record(a);
        proof {
            crate::undo::lemma_recorded_last(h0, self.state.undo_history, a);
        }
        self.state.registers.delete(register_id(register), register, RegisterContent::characterwise(deleted));
        let start = self.document.cursor;
        proof {
            let line = v[row as int];
            lemma_line_end(line);
            assert(crate::buffer::position_error(v, row, col) is None);
            assert(crate::buffer::position_error(v, row, n) is None);
            assert(line.skip(line.len() as int) =~= Seq::<char>::empty());
            assert(crate::buffer::delete_between(v, start, end) =~= v.update(
                row as int,
                line.take(char_index(line, col as int)),
            ));
        }
        match self.document.buffer.delete_range(&start, &end) {
            Ok(()) => {},
            Err(e) => return Err(Error::Buffer(e)),
        }
        self.clamp_cursor_to_line();
        self.document.modified = true;
        Ok(())
    }
}

} // verus!

verus! {

impl Editor {
    /// `x`: delete the grapheme cluster at the cursor into the register
    /// (characterwise), recording one deletion per character for undo.
    /// Nothing happens at or past the end of the line.
    pub fn delete_char_at_cursor_with_register(&mut self, register: Option<char>) -> (r: Result<
        (),
        Error,
    >)
        requires
            old(self).wf(),
            ({
                let v = old(self).document.buffer@;
                let c = old(self).document.cursor;
                c.row < v.len() && c.col < byte_len(v[c.row as int]) ==> is_boundary(
                    v[c.row as int],
                    c.col as int,
                )
            }),
        ensures
            char_deleted_at_cursor(*old(self), *final(self), register, r),

    {
        let row = self.document.cursor.row;
        let col = self.document.cursor.col;
        let ghost v = self.document.buffer@;
        let (deleted, next) = match self.document.buffer.line(row) {
            Some(line) => {
                let n = crate::text::str_byte_len(line);
                if col >= n {
                    return Ok(());
                }
                let next = crate::buffer::unicode::next_grapheme_boundary(line, col);
                (slice_str(line, col, next), next)
            },
            None => return Ok(()),
        };
        let cs = chars_of(deleted.as_str());
        let ghost h0 = self.state.undo_history;
        proof {
            crate::undo::lemma_recorded_seq_empty(h0);
            crate::undo::lemma_recent_actions(h0, h0, Seq::empty());
        }
        let mut i: usize = 0;
        while i < cs.len()
            invariant
                i <= cs@.len(),
                cs@ == deleted@,
                self.document == old(self).document,
                self.state == (EditorState { undo_history: self.state.undo_history, ..old(self).state }),
                recorded_seq(h0, self.state.undo_history, recent_actions(h0, self.state.undo_history)),
                recent_actions(h0, self.state.undo_history).len() == i,
                forall|j: int|
                    0 <= j < i ==> #[trigger] recent_actions(h0, self.state.undo_history)[j] == (EditAction::DeleteChar { row, col, ch: cs@[j] }),
            decreases cs.len() - i,
        {
            let a = EditAction::DeleteChar { row, col, ch: cs[i] };
            let ghost hp = self.state.undo_history;
            self.state.undo_history.record(a.duplicate());
            let ghost hn = self.state.undo_history;
            proof {
                let before = recent_actions(h0, hp);
                crate::undo::lemma_recorded_seq_step(h0, hp, hn, before, a);
                crate::undo::lemma_recent_actions(h0, hn, before.push(a));
            }
            i = i + 1;
        }
        self.state.registers.delete(register_id(register), register, RegisterContent::characterwise(deleted));
        let start = self.document.cursor;
        let end = Cursor::new(row, next);
        proof {
            let line = v[row as int];
            assert(crate::buffer::position_error(v, row, col) is None);
            crate::text::lemma_byte_len_take_le(line, char_index(line, next as int));
            assert(crate::buffer::position_error(v, row, next) is None);
            assert(crate::buffer::delete_between(v, start, end) =~= v.update(
                row as int,
                line.take(char_index(line, col as int)) + line.skip(char_index(line, next as int)),
            ));
        }
        match self.document.buffer.delete_range(&start, &end) {
            Ok(()) => {},
            Err(e) => return Err(Error::Buffer(e)),
        }
        self.clamp_cursor_to_line();
        self.document.modified = true;
        Ok(())
    }
}

} // verus!

verus! {

impl Editor {
    /// `q` while recording: stop recording and store the recorded keys, as
    /// text, in the register being recorded into (characterwise), clearing
    /// the status message. Nothing happens when not recording.
    pub fn stop_macro_recording(&mut self)
        requires
            old(self).wf(),
        ensures
            recording_stopped(*old(self), *final(self)),

    {
        match self.state.macro_state.recording.take() {
            Some(ch) => {
                let mut keys: Vec<crate::terminal::Key> = Vec::new();
                std::mem::swap(&mut keys, &mut self.state.macro_state.buffer);
                let text = crate::editor::keys::keys_to_string(keys.as_slice());
                let content = RegisterContent::new(text, ContentType::Characterwise);
                match RegisterId::parse(ch) {
                    Some(id) => self.state.registers.yank(Some(id), content),
                    None => {},
                }
                self.state.status_message = None;
            },
            None => {},
        }
    }
}

} // verus!

verus! {

/// What `x` does to `e` with `register`, giving `e2` and `r`.
pub open spec fn char_deleted_at_cursor(e: Editor, e2: Editor, register: Option<char>, r: Result<(), Error>) -> bool {
    &&& (e2.wf())
    &&& (r is Ok)
    &&& (({
        let e = e;
        let e2 = e2;
        let v = e.document.buffer@;
        let c = e.document.cursor;
        if c.row < v.len() && c.col < byte_len(v[c.row as int]) {
            let line = v[c.row as int];
            let nx = crate::buffer::unicode::next_grapheme_end(line, c.col as int);
            let t = byte_slice(line, c.col as int, nx);
            let v2 = v.update(
                c.row as int,
                line.take(char_index(line, c.col as int)) + line.skip(char_index(line, nx)),
            );
            let acts = recent_actions(e.state.undo_history, e2.state.undo_history);
            &&& e2.state == (EditorState {
                registers: e2.state.registers,
                undo_history: e2.state.undo_history,
                ..e.state
            })
            &&& forall|q: Option<RegisterId>| #[trigger] e2.state.registers.spec_get(q)
                == get_after_delete(
                e.state.registers,
                register_target(register),
                t,
                ContentType::Characterwise,
                q,
            )
            &&& recorded_seq(e.state.undo_history, e2.state.undo_history, acts)
            &&& acts.len() == t.len()
            &&& forall|i: int|
                0 <= i < acts.len() ==> #[trigger] acts[i] == (EditAction::DeleteChar {
                    row: c.row,
                    col: c.col,
                    ch: t[i],
                })
            &&& e2.document.buffer@ == v2
            &&& e2.document.cursor.row == c.row
            &&& crate::editor::movement::clamp_col(
                e.state.mode,
                v2,
                c.row as int,
                c.col as int,
                e2.document.cursor.col as int,
            )
            &&& e2.document.modified
            &&& crate::editor::editing::same_doc_meta(e.document, e2.document)
        } else {
            e2 == e
        }
    }))
}

} // verus!

verus! {

/// What `D` does to `e` with `register`, giving `e2` and `r`.
pub open spec fn deleted_to_end(e: Editor, e2: Editor, register: Option<char>, r: Result<(), Error>) -> bool {
    &&& (e2.wf())
    &&& (r is Ok)
    &&& (({
        let e = e;
        let e2 = e2;
        let v = e.document.buffer@;
        let c = e.document.cursor;
        if c.row < v.len() && c.col < byte_len(v[c.row as int]) {
            let line = v[c.row as int];
            let n = byte_len(line) as int;
            let t = byte_slice(line, c.col as int, n);
            let v2 = v.update(c.row as int, line.take(char_index(line, c.col as int)));
            &&& e2.state == (EditorState {
                registers: e2.state.registers,
                undo_history: e2.state.undo_history,
                ..e.state
            })
            &&& forall|q: Option<RegisterId>| #[trigger] e2.state.registers.spec_get(q)
                == get_after_delete(
                e.state.registers,
                register_target(register),
                t,
                ContentType::Characterwise,
                q,
            )
            &&& crate::undo::recorded_last(e.state.undo_history, e2.state.undo_history)
            &&& deletes_range(
                crate::undo::last_action(e2.state.undo_history),
                c,
                Cursor { row: c.row, col: n as usize },
                t,
            )
            &&& e2.document.buffer@ == v2
            &&& e2.document.cursor.row == c.row
            &&& crate::editor::movement::clamp_col(
                e.state.mode,
                v2,
                c.row as int,
                c.col as int,
                e2.document.cursor.col as int,
            )
            &&& e2.document.modified
            &&& crate::editor::editing::same_doc_meta(e.document, e2.document)
        } else {
            e2 == e
        }
    }))
}

} // verus!

verus! {

/// What stopping macro recording does to `e`, giving `e2`.
pub open spec fn recording_stopped(e: Editor, e2: Editor) -> bool {
    &&& (e2.wf())
    &&& (({
        let e = e;
        let e2 = e2;
        match e.state.macro_state.recording {
            None => e2 == e,
            Some(ch) => {
                let t = crate::editor::keys::keys_text(e.state.macro_state.buffer@);
                &&& e2.document == e.document
                &&& e2.state == (EditorState {
                    registers: e2.state.registers,
                    status_message: None,
                    macro_state: e2.state.macro_state,
                    ..e.state
                })
                &&& e2.state.macro_state.recording is None
                &&& e2.state.macro_state.buffer@.len() == 0
                &&& e2.state.macro_state.playback_depth == e.state.macro_state.playback_depth
                &&& e2.state.macro_state.last_macro == e.state.macro_state.last_macro
                &&& match crate::registers::parse_register(ch) {
                    Some(id) => forall|q: Option<RegisterId>| #[trigger] e2.state.registers.spec_get(q)
                        == get_after_yank(e.state.registers, Some(id), t, ContentType::Characterwise, q),
                    None => e2.state.registers == e.state.registers,
                }
            },
        }
    }))
}

} // verus!
