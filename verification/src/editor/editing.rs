//! Text editing methods of the editor. Each edit records the action that
//! undoes it in the undo history.

use vstd::prelude::*;
use crate::buffer::{
    insert_at, pos_index, position_error, Buffer, Cursor,
};
use crate::editor::{Editor, EditorState};
use crate::error::{BufferError, Error};
use crate::text::{byte_len, char_width, lemma_byte_len_concat, lemma_byte_len_single, str_byte_len, utf8_width};
use crate::undo::{last_action, recorded, recorded_last, removes_line, replaces_line, EditAction};

verus! {

/// Characters of leading indentation (spaces and tabs) of `s`.
pub open spec fn indent_len(s: Seq<char>) -> nat
    decreases s.len(),
{
    if s.len() > 0 && (s[0] == ' ' || s[0] == '\t') {
        1 + indent_len(s.skip(1))
    } else {
        0
    }
}

/// The leading spaces and tabs of `s`.
pub open spec fn leading_whitespace(s: Seq<char>) -> Seq<char> {
    s.take(indent_len(s) as int)
}

/// Facts about the indent of a line.
pub proof fn lemma_indent_len(s: Seq<char>)
    ensures
        indent_len(s) <= s.len(),
        forall|i: int| 0 <= i < indent_len(s) ==> s[i] == ' ' || s[i] == '\t',
        indent_len(s) < s.len() ==> s[indent_len(s) as int] != ' ' && s[indent_len(s) as int]
            != '\t',
    decreases s.len(),
{
    if s.len() > 0 && (s[0] == ' ' || s[0] == '\t') {
        lemma_indent_len(s.skip(1));
        assert forall|i: int| 0 <= i < indent_len(s) implies s[i] == ' ' || s[i] == '\t' by {
            if i > 0 {
                assert(s[i] == s.skip(1)[i - 1]);
            }
        }
    }
}

/// Extract the leading whitespace (spaces and tabs) of a line.
pub fn get_leading_whitespace(line: &str) -> (r: String)
    ensures
        r@ == leading_whitespace(line@),
{
    let cs = crate::text::chars_of(line);
    let mut i: usize = 0;
    assert(cs@.skip(0) =~= cs@);
    while i < cs.len() && (cs[i] == ' ' || cs[i] == '\t')
        invariant
            i <= cs@.len(),
            cs@ == line@,
            indent_len(cs@) == i + indent_len(cs@.skip(i as int)),
        decreases cs.len() - i,
    {
        assert(cs@.skip(i as int).skip(1) =~= cs@.skip(i + 1));
        i = i + 1;
    }
    let empty: Vec<char> = Vec::new();
    let r = crate::text::splice_chars(cs.as_slice(), i, empty.as_slice(), empty.as_slice(), 0);
    assert(r@ =~= cs@.take(i as int));
    crate::text::string_from_chars(r.as_slice())
}

/// `b` has the name, selection and line ending of `a`.
pub open spec fn same_doc_meta(a: crate::editor::Document, b: crate::editor::Document) -> bool {
    &&& b.selection == a.selection
    &&& b.filename == a.filename
    &&& b.file_path == a.file_path
    &&& b.line_ending == a.line_ending
}

/// `b` is `a` unchanged: same text, cursor, modified flag and metadata.
pub open spec fn same_doc(a: crate::editor::Document, b: crate::editor::Document) -> bool {
    &&& same_doc_meta(a, b)
    &&& b.buffer@ == a.buffer@
    &&& b.cursor == a.cursor
    &&& b.modified == a.modified
}

/// `b` equals `a` except for the undo history.
pub open spec fn same_but_undo(a: EditorState, b: EditorState) -> bool {
    b == (EditorState { undo_history: b.undo_history, ..a })
}

impl Editor {
    /// The indent of the current line when `autoindent` is on, else empty.
    pub fn current_line_indent(&self) -> (r: String)
        ensures
            r@ == if self.state.settings.autoindent && self.document.cursor.row
                < self.document.buffer@.len() {
                leading_whitespace(self.document.buffer@[self.document.cursor.row as int])
            } else {
                Seq::<char>::empty()
            },
    {
        if self.state.settings.autoindent {
            match self.document.buffer.line(self.document.cursor.row) {
                Some(line) => get_leading_whitespace(line),
                None => String::new(),
            }
        } else {
            String::new()
        }
    }

    /// Insert a character at the cursor and move the cursor past it.
    pub fn insert_char(&mut self, c: char) -> (r: Result<(), Error>)
        requires
            old(self).wf(),
        ensures
            char_inserted(*old(self), *final(self), c, r),

    {
        let action = EditAction::InsertChar {
            row: self.document.cursor.row,
            col: self.document.cursor.col,
            ch: c,
        };
        self.state.undo_history.record(action);
        let cursor = self.document.cursor;
        match self.document.buffer.insert_char(&cursor, c) {
            Ok(()) => {},
            Err(e) => return Err(Error::Buffer(e)),
        }
        let w = utf8_width(c);
        let n = match self.document.buffer.line(cursor.row) {
            Some(l) => str_byte_len(l),
            None => 0,
        };
        proof {
            let v = old(self).document.buffer@;
            let line = v[cursor.row as int];
            let k = pos_index(v, cursor);
            lemma_byte_len_concat(line.take(k).push(c), line.skip(k));
            lemma_byte_len_concat(line.take(k), seq![c]);
            lemma_byte_len_single(c);
            assert(line.take(k).push(c) =~= line.take(k) + seq![c]);
        }
        self.document.cursor.col = cursor.col + w;
        self.document.modified = true;
        Ok(())
    }
}

} // verus!

verus! {

/// Where text `t` inserted at (`row`, `col`) ends.
pub open spec fn text_end(row: int, col: int, t: Seq<char>) -> (int, int) {
    let segs = crate::buffer::split_all(t);
    if segs.len() <= 1 {
        (row, col + byte_len(t))
    } else {
        (row + segs.len() - 1, byte_len(segs.last()) as int)
    }
}

/// The end of `t` inserted at (`row`, `col`) fits in `usize`.
pub open spec fn end_fits(row: int, col: int, t: Seq<char>) -> bool {
    text_end(row, col, t).0 <= usize::MAX && text_end(row, col, t).1 <= usize::MAX
}

/// Some prefix of `t`, inserted at (`row`, `col`), ends outside `usize`.
pub open spec fn end_overflows(row: int, col: int, t: Seq<char>) -> bool {
    exists|j: int| 0 <= j <= t.len() && !end_fits(row, col, #[trigger] t.take(j))
}

/// Byte length of a sequence extended by one character.
pub proof fn lemma_byte_len_push(s: Seq<char>, c: char)
    ensures
        byte_len(s.push(c)) == byte_len(s) + char_width(c),
{
    assert(s.push(c).drop_last() =~= s);
}

impl Editor {
    /// Insert `text` at (`row`, `col`); line feeds in it split the line.
    pub fn insert_text_at(&mut self, row: usize, col: usize, text: &str) -> (r: Result<(), Error>)
        requires
            old(self).wf(),
        ensures
            final(self).wf(),
            final(self).state == old(self).state,
            same_doc_meta(old(self).document, final(self).document),
            final(self).document.cursor == old(self).document.cursor,
            final(self).document.modified == old(self).document.modified,
            text@.len() == 0 ==> r is Ok && final(self).document.buffer@ == old(self).document.buffer@,
            text@.len() > 0 ==> match r {
                Ok(()) => position_error(old(self).document.buffer@, row, col) is None
                    && final(self).document.buffer@ == crate::buffer::insert_text_lines(
                    old(self).document.buffer@,
                    row as int,
                    crate::text::char_index(old(self).document.buffer@[row as int], col as int),
                    text@,
                ),
                Err(e) => position_error(old(self).document.buffer@, row, col) matches Some(be)
                    && e == Error::Buffer(be) && final(self).document.buffer@ == old(self).document.buffer@,
            },
    {
        match self.document.buffer.insert_text(row, col, text) {
            Ok(()) => Ok(()),
            Err(e) => Err(Error::Buffer(e)),
        }
    }

    /// Delete the text `text` that starts at (`row`, `col`): the range from
    /// there to where `text` would end. If that end position does not fit
    /// the integer range (computed character by character), the deletion is
    /// refused with `InvalidCursor`.
    #[verifier::loop_isolation(false)]
    pub fn delete_text_at(&mut self, row: usize, col: usize, text: &str) -> (r: Result<(), Error>)
        requires
            old(self).wf(),
        ensures
            final(self).wf(),
            final(self).state == old(self).state,
            same_doc_meta(old(self).document, final(self).document),
            final(self).document.cursor == old(self).document.cursor,
            final(self).document.modified == old(self).document.modified,
            end_overflows(row as int, col as int, text@) ==> (r matches Err(e) && e
                == Error::Buffer(crate::buffer::invalid_cursor(Cursor { row, col })))
                && final(self).document.buffer@ == old(self).document.buffer@,
            !end_overflows(row as int, col as int, text@) ==> ({
                let (er, ec) = text_end(row as int, col as int, text@);
                match crate::buffer::delete_range_result(
                    old(self).document.buffer@,
                    Cursor { row, col },
                    Cursor { row: er as usize, col: ec as usize },
                ) {
                    Ok(w) => r is Ok && final(self).document.buffer@ == w,
                    Err(e) => r == Err::<(), Error>(Error::Buffer(e))
                        && final(self).document.buffer@ == old(self).document.buffer@,
                }
            }),
    {
        let tc = crate::text::chars_of(text);
        let mut end_row: usize = row;
        let mut end_col: usize = col;
        let mut i: usize = 0;
        assert(tc@.take(0) =~= Seq::<char>::empty());
        while i < tc.len()
            invariant
                i <= tc@.len(),
                tc@ == text@,
                (end_row as int, end_col as int) == text_end(row as int, col as int, tc@.take(i as int)),
                forall|j: int| 0 <= j <= i ==> end_fits(row as int, col as int, #[trigger] tc@.take(j)),
            decreases tc.len() - i,
        {
            let ghost pre = tc@.take(i as int);
            assert(tc@.take(i + 1) =~= pre.push(tc@[i as int]));
            assert(tc@.take(i + 1).drop_last() =~= pre);
            proof {
                crate::buffer::lemma_split_all_nonempty(pre);
            }
            if tc[i] == '\n' {
                if end_row == usize::MAX {
                    assert(!end_fits(row as int, col as int, tc@.take(i + 1)));
                    assert(tc@.take(i + 1) =~= tc@.take(i + 1));
                    return Err(Error::Buffer(BufferError::InvalidCursor { row, col }));
                }
                end_row = end_row + 1;
                end_col = 0;
            } else {
                let w = utf8_width(tc[i]);
                proof {
                    lemma_byte_len_push(pre, tc@[i as int]);
                    lemma_byte_len_push(crate::buffer::split_all(pre).last(), tc@[i as int]);
                }
                match end_col.checked_add(w) {
                    Some(c) => {
                        end_col = c;
                    },
                    None => {
                        assert(!end_fits(row as int, col as int, tc@.take(i + 1)));
                        return Err(Error::Buffer(BufferError::InvalidCursor { row, col }));
                    },
                }
            }
            i = i + 1;
        }
        assert(tc@.take(tc@.len() as int) =~= tc@);
        let start = Cursor::new(row, col);
        let end = Cursor::new(end_row, end_col);
        match self.document.buffer.delete_range(&start, &end) {
            Ok(()) => Ok(()),
            Err(e) => Err(Error::Buffer(e)),
        }
    }
}

} // verus!

verus! {

/// `h2` is `h0` after recording `a` and then `b`.
pub open spec fn recorded_two(
    h0: crate::undo::UndoHistory,
    h2: crate::undo::UndoHistory,
    a: EditAction,
) -> bool {
    exists|h1: crate::undo::UndoHistory|
        recorded(h0, h1, a) && #[trigger] recorded(h1, h2, crate::undo::last_action(h2))
}

/// The indent `insert_newline` puts on the new line.
pub open spec fn newline_indent(e: Editor) -> Seq<char> {
    match e.state.insert_state.saved_indent {
        Some(s) => s@,
        None => if e.state.settings.autoindent && e.document.cursor.row < e.document.buffer@.len() {
            leading_whitespace(e.document.buffer@[e.document.cursor.row as int])
        } else {
            Seq::<char>::empty()
        },
    }
}

/// Indentation holds no line feed.
pub proof fn lemma_indent_no_newline(s: Seq<char>)
    ensures
        forall|i: int| 0 <= i < leading_whitespace(s).len() ==> leading_whitespace(s)[i] != '\n',
{
    lemma_indent_len(s);
}

impl Editor {
    /// Split the line at the cursor and move to the start of the new line;
    /// the new line gets the saved indent (after `^ Ctrl-D`) or, with
    /// `autoindent`, the indent of the current line.
    #[verifier::spinoff_prover]
    #[verifier::rlimit(50)]
    pub fn insert_newline(&mut self) -> (r: Result<(), Error>)
        requires
            old(self).wf(),
            old(self).state.insert_state.saved_indent matches Some(s) ==> forall|i: int|
                0 <= i < s@.len() ==> s@[i] != '\n',
        ensures
            newline_inserted(*old(self), *final(self), r),

    {
        let ghost indent_spec = newline_indent(*self);
        let indent = match self.state.insert_state.saved_indent.take() {
            Some(s) => s,
            None => self.current_line_indent(),
        };
        proof {
            if old(self).state.insert_state.saved_indent is None && old(self).state.settings.autoindent && old(self).document.cursor.row < old(self).document.buffer@.len() {
                lemma_indent_no_newline(old(self).document.buffer@[old(self).document.cursor.row as int]);
            }
        }
        assert(indent@ == indent_spec);
        let row = self.document.cursor.row;
        let col = self.document.cursor.col;
        let action = EditAction::InsertNewline { row, col };
        self.state.undo_history.record(action);
        let ghost h1 = self.state.undo_history;
        let cursor = self.document.cursor;
        match self.document.buffer.split_line(&cursor) {
            Ok(()) => {},
            Err(e) => return Err(Error::Buffer(e)),
        }
        let ghost v1 = self.document.buffer@;
        let nlines = self.document.buffer.len();
        assert(row + 1 < nlines);
        self.document.cursor.row = row + 1;
        self.document.cursor.col = 0;
        self.document.modified = true;
        let n = crate::text::str_byte_len(indent.as_str());
        if n > 0 {
            let text = indent.clone();
            let action2 = EditAction::InsertText { row: row + 1, col: 0, text };
            self.state.undo_history.record(action2);
            proof {
                crate::undo::lemma_recorded_last(h1, self.state.undo_history, action2);
            }
            let rr = self.insert_text_at(row + 1, 0, indent.as_str());
            proof {
                let v = old(self).document.buffer@;
                let k = pos_index(v, cursor);
                assert(v1[row + 1] == v[row as int].skip(k));
                assert(position_error(v1, (row + 1) as usize, 0) is None) by {
                    assert(v1[row + 1].take(0) =~= Seq::<char>::empty());
                    assert(byte_len(v1[row + 1].take(0)) == 0);
                    assert(crate::text::is_boundary(v1[row + 1], 0));
                }
                assert(crate::text::char_index(v1[row + 1], 0) == 0) by {
                    crate::text::lemma_char_index_unique(v1[row + 1], 0);
                    assert(v1[row + 1].take(0) =~= Seq::<char>::empty());
                }
                crate::buffer::lemma_split_all_plain(indent@);
            }
            match rr {
                Ok(()) => {},
                Err(e) => return Err(e),
            }
            proof {
                let v = old(self).document.buffer@;
                let k = pos_index(v, cursor);
                assert(v1[row + 1].take(0) =~= Seq::<char>::empty());
                assert(v1[row + 1].skip(0) =~= v1[row + 1]);
                assert(Seq::<char>::empty() + indent@ + v1[row + 1] =~= indent@ + v1[row + 1]);
                assert(self.document.buffer@ =~= crate::buffer::split_at(v, row as int, k).update(
                    row + 1,
                    indent@ + v[row as int].skip(k),
                ));
            }
            self.document.cursor.col = n;
        } else {
            proof {
                let v = old(self).document.buffer@;
                let k = pos_index(v, cursor);
                assert(indent@ =~= Seq::<char>::empty());
                assert(indent@ + v[row as int].skip(k) =~= v[row as int].skip(k));
                assert(v1 =~= crate::buffer::split_at(v, row as int, k).update(
                    row + 1,
                    indent@ + v[row as int].skip(k),
                ));
            }
        }
        Ok(())
    }
}

} // verus!

verus! {

/// The characters `from..to` of `cs` as a string.
fn substring(cs: &[char], from: usize, to: usize) -> (s: String)
    requires
        from <= to <= cs@.len(),
    ensures
        s@ == cs@.subrange(from as int, to as int),
{
    let mut v: Vec<char> = Vec::new();
    crate::text::extend_range(&mut v, cs, from, to);
    assert(v@ =~= cs@.subrange(from as int, to as int));
    crate::text::string_from_chars(v.as_slice())
}

/// What deleting backwards from the cursor does (Backspace, `X`).
pub open spec fn backspace_effect(e: Editor, e2: Editor, r: Result<(), Error>) -> bool {
    let v = e.document.buffer@;
    let row = e.document.cursor.row;
    let col = e.document.cursor.col;
    if col > 0 {
        if row < v.len() {
            let line = v[row as int];
            let p = crate::buffer::unicode::prev_grapheme_start(line, col as int);
            let kp = crate::text::char_index(line, p);
            let k = crate::text::char_index(line, col as int);
            &&& r is Ok
            &&& e2.document.buffer@ == v.update(row as int, line.take(kp) + line.skip(k))
            &&& e2.document.cursor == (Cursor { row, col: p as usize })
            &&& e2.document.modified
            &&& recorded(e.state.undo_history, e2.state.undo_history, crate::undo::last_action(e2.state.undo_history))
            &&& crate::undo::last_action(e2.state.undo_history) matches EditAction::DeleteRange {
                start_row,
                start_col,
                end_row,
                end_col,
                text,
            } && start_row == row && start_col == p && end_row == row && end_col == col && text@
                == line.subrange(kp, k)
        } else {
            e2.document.buffer@ == v && e2.document.cursor == e.document.cursor
                && e2.document.modified == e.document.modified && r is Ok
                && e2.state.undo_history == e.state.undo_history
        }
    } else if row > 0 {
        let prev = (row - 1) as usize;
        let plen = if prev < v.len() {
            byte_len(v[prev as int])
        } else {
            0
        };
        &&& recorded(
            e.state.undo_history,
            e2.state.undo_history,
            EditAction::JoinLines { row: prev, col: plen as usize },
        )
        &&& if row < v.len() {
            &&& r is Ok
            &&& e2.document.buffer@ == crate::buffer::join_at(v, prev as int)
            &&& e2.document.cursor == (Cursor { row: prev, col: plen as usize })
            &&& e2.document.modified
        } else {
            &&& r matches Err(err) && err == Error::Buffer(crate::buffer::row_error(prev, v))
            &&& e2.document.buffer@ == v
            &&& e2.document.cursor == e.document.cursor
            &&& e2.document.modified == e.document.modified
        }
    } else {
        &&& r is Ok
        &&& e2.document.buffer@ == v
        &&& e2.document.cursor == e.document.cursor
        &&& e2.document.modified == e.document.modified
        &&& e2.state.undo_history == e.state.undo_history
    }
}

impl Editor {
    /// Delete the grapheme before the cursor (Backspace in insert mode); at
    /// the start of a line, join it to the previous line.
    pub fn delete_char_before_cursor(&mut self) -> (r: Result<(), Error>)
        requires
            old(self).wf(),
            old(self).cursor_ok(),
        ensures
            backspaced(*old(self), *final(self), r),

    {
        self.backspace(None, false)
    }

    /// Delete the grapheme before the cursor (`X`) and store it in `register`
    /// (or the small-delete register); at the start of a line, store a line
    /// feed and join the line to the previous one.
    pub fn delete_char_before_cursor_with_register(&mut self, register: Option<char>) -> (r:
        Result<(), Error>)
        requires
            old(self).wf(),
            old(self).cursor_ok(),
        ensures
            char_deleted_before_cursor(*old(self), *final(self), register, r),

    {
        self.backspace(register, true)
    }

    /// Backspace, optionally storing the deleted text in a register.
    fn backspace(&mut self, register: Option<char>, store: bool) -> (r: Result<(), Error>)
        requires
            old(self).wf(),
            old(self).cursor_ok(),
        ensures
            final(self).wf(),
            same_doc_meta(old(self).document, final(self).document),
            backspace_effect(*old(self), *final(self), r),
            !store ==> same_but_undo(old(self).state, final(self).state),
            final(self).state.mode == old(self).state.mode,
            store && ((old(self).document.cursor.col > 0 && old(self).document.cursor.row < old(self).document.buffer@.len()) || (old(self).document.cursor.col == 0 && old(self).document.cursor.row > 0)) ==> ({
                let v = old(self).document.buffer@;
                let row = old(self).document.cursor.row;
                let col = old(self).document.cursor.col;
                let text = if col > 0 {
                    let line = v[row as int];
                    line.subrange(
                        crate::text::char_index(
                            line,
                            crate::buffer::unicode::prev_grapheme_start(line, col as int),
                        ),
                        crate::text::char_index(line, col as int),
                    )
                } else {
                    seq!['\n']
                };
                crate::registers::register_target(register) != Some(
                    crate::registers::RegisterId::BlackHole,
                ) ==> final(self).state.registers.spec_get(None) == Some(
                    (text, crate::registers::ContentType::Characterwise),
                )
            }),
    {
        let row = self.document.cursor.row;
        let col = self.document.cursor.col;
        if col > 0 {
            if row < self.document.buffer.len() {
                let line = match self.document.buffer.line(row) {
                    Some(l) => l,
                    None => return Ok(()),
                };
                let prev = crate::buffer::unicode::prev_grapheme_boundary(line, col);
                let cs = crate::text::chars_of(line);
                let kp = crate::text::index_at_byte(cs.as_slice(), prev);
                let k = crate::text::index_at_byte(cs.as_slice(), col);
                proof {
                    if k < kp {
                        crate::text::lemma_byte_len_take_strict(cs@, k as int, kp as int);
                    }
                }
                let deleted = substring(cs.as_slice(), kp, k);
                let action = EditAction::DeleteRange {
                    start_row: row,
                    start_col: prev,
                    end_row: row,
                    end_col: col,
                    text: deleted.clone(),
                };
                self.state.undo_history.record(action);
                proof {
                    crate::undo::lemma_recorded_last(
                        old(self).state.undo_history,
                        self.state.undo_history,
                        action,
                    );
                }
                if store {
                    let content = crate::registers::RegisterContent::new(
                        deleted,
                        crate::registers::ContentType::Characterwise,
                    );
                    let reg_id = match register {
                        Some(c) => crate::registers::RegisterId::parse(c),
                        None => None,
                    };
                    self.state.registers.delete(reg_id, register, content);
                }
                let start = Cursor::new(row, prev);
                let end = Cursor::new(row, col);
                match self.document.buffer.delete_range(&start, &end) {
                    Ok(()) => {},
                    Err(e) => return Err(Error::Buffer(e)),
                }
                proof {
                    let v = old(self).document.buffer@;
                    assert(crate::buffer::pos_index(v, start) == kp);
                    assert(crate::buffer::pos_index(v, end) == k);
                    assert(v.take(row as int).push(v[row as int].take(kp as int) + v[row as int].skip(
                        k as int,
                    )) + v.skip(row + 1) =~= v.update(
                        row as int,
                        v[row as int].take(kp as int) + v[row as int].skip(k as int),
                    ));
                }
                self.document.cursor.col = prev;
                self.document.modified = true;
            }
        } else if row > 0 {
            if store {
                let content = crate::registers::RegisterContent::new(
                    "\n".to_owned(),
                    crate::registers::ContentType::Characterwise,
                );
                let reg_id = match register {
                    Some(c) => crate::registers::RegisterId::parse(c),
                    None => None,
                };
                proof {
                    reveal_strlit("\n");
                }
                self.state.registers.delete(reg_id, register, content);
            }
            let prev_row = row - 1;
            let prev_len: usize = match self.document.buffer.line(prev_row) {
                Some(l) => crate::text::str_byte_len(l),
                None => 0,
            };
            let action = EditAction::JoinLines { row: prev_row, col: prev_len };
            self.state.undo_history.record(action);
            match self.document.buffer.join_lines(prev_row) {
                Ok(()) => {},
                Err(e) => return Err(Error::Buffer(e)),
            }
            self.document.cursor.row = prev_row;
            self.document.cursor.col = prev_len;
            self.document.modified = true;
        }
        Ok(())
    }
}

} // verus!

verus! {

/// Length of `s` once trailing whitespace is removed.
pub open spec fn trim_end_len(s: Seq<char>) -> nat
    decreases s.len(),
{
    if s.len() > 0 && crate::buffer::unicode::spec_is_whitespace(s.last()) {
        trim_end_len(s.drop_last())
    } else {
        s.len()
    }
}

/// Index of the last whitespace character of `s`, or -1.
pub open spec fn last_whitespace(s: Seq<char>) -> int
    decreases s.len(),
{
    if s.len() == 0 {
        -1
    } else if crate::buffer::unicode::spec_is_whitespace(s.last()) {
        s.len() - 1
    } else {
        last_whitespace(s.drop_last())
    }
}

/// Character index where Ctrl-W starts deleting in a line whose part before
/// the cursor is `prefix`: skip trailing whitespace, then the word before it.
pub open spec fn word_delete_start(prefix: Seq<char>) -> int {
    let t = trim_end_len(prefix);
    if t == 0 {
        0
    } else {
        last_whitespace(prefix.take(t as int)) + 1
    }
}

proof fn lemma_trim_end_len_le(s: Seq<char>)
    ensures
        trim_end_len(s) <= s.len(),
    decreases s.len(),
{
    if s.len() > 0 && crate::buffer::unicode::spec_is_whitespace(s.last()) {
        lemma_trim_end_len_le(s.drop_last());
    }
}

proof fn lemma_last_whitespace_range(s: Seq<char>)
    ensures
        -1 <= last_whitespace(s) < s.len(),
    decreases s.len(),
{
    if s.len() > 0 && !crate::buffer::unicode::spec_is_whitespace(s.last()) {
        lemma_last_whitespace_range(s.drop_last());
    }
}

/// The characters of `cs[..k]` after dropping trailing whitespace.
pub(crate) fn trim_end_count(cs: &[char], k: usize) -> (t: usize)
    requires
        k <= cs@.len(),
    ensures
        t == trim_end_len(cs@.take(k as int)),
        t <= k,
{
    let mut t: usize = k;
    while t > 0 && crate::buffer::unicode::is_whitespace(cs[t - 1])
        invariant
            t <= k <= cs@.len(),
            trim_end_len(cs@.take(k as int)) == trim_end_len(cs@.take(t as int)),
        decreases t,
    {
        assert(cs@.take(t as int).drop_last() =~= cs@.take(t - 1));
        t = t - 1;
    }
    t
}

/// Index of the last whitespace character of `cs[..t]`, plus one (0 if none).
fn after_last_whitespace(cs: &[char], t: usize) -> (s: usize)
    requires
        t <= cs@.len(),
    ensures
        s == last_whitespace(cs@.take(t as int)) + 1,
{
    let mut i: usize = t;
    while i > 0 && !crate::buffer::unicode::is_whitespace(cs[i - 1])
        invariant
            i <= t <= cs@.len(),
            last_whitespace(cs@.take(t as int)) == last_whitespace(cs@.take(i as int)),
        decreases i,
    {
        assert(cs@.take(i as int).drop_last() =~= cs@.take(i - 1));
        i = i - 1;
    }
    i
}

impl Editor {
    /// Delete the word before the cursor (Ctrl-W in insert mode): trailing
    /// whitespace first, then the word before it, never past the line start.
    pub fn delete_word_before_cursor(&mut self) -> (r: Result<(), Error>)
        requires
            old(self).wf(),
            old(self).cursor_ok(),
        ensures
            word_deleted_before_cursor(*old(self), *final(self), r),

    {
        let row = self.document.cursor.row;
        let col = self.document.cursor.col;
        if col == 0 {
            return Ok(());
        }
        let line = match self.document.buffer.line(row) {
            Some(l) => l,
            None => return Ok(()),
        };
        let total = crate::text::str_byte_len(line);
        let cs = crate::text::chars_of(line);
        let k = crate::text::index_at_byte(cs.as_slice(), col);
        let t = trim_end_count(cs.as_slice(), k);
        proof {
            lemma_trim_end_len_le(cs@.take(k as int));
            assert(cs@.take(k as int).take(t as int) =~= cs@.take(t as int));
            lemma_last_whitespace_range(cs@.take(t as int));
        }
        let s: usize = if t == 0 {
            0
        } else {
            after_last_whitespace(cs.as_slice(), t)
        };
        if s >= k {
            return Ok(());
        }
        proof {
            crate::text::lemma_byte_len_take_le(cs@, s as int);
        }
        let sb = crate::text::byte_offset(cs.as_slice(), s);
        let deleted = substring(cs.as_slice(), s, k);
        let action = EditAction::DeleteRange {
            start_row: row,
            start_col: sb,
            end_row: row,
            end_col: col,
            text: deleted,
        };
        self.state.undo_history.record(action);
        proof {
            crate::undo::lemma_recorded_last(old(self).state.undo_history, self.state.undo_history, action);
            crate::text::lemma_char_index_unique(cs@, s as int);
            crate::text::lemma_byte_len_take_strict(cs@, s as int, k as int);
            crate::text::lemma_byte_len_take_le(cs@, s as int);
        }
        let start = Cursor::new(row, sb);
        let end = Cursor::new(row, col);
        match self.document.buffer.delete_range(&start, &end) {
            Ok(()) => {},
            Err(e) => {
                assert(false);
                return Err(Error::Buffer(e));
            },
        }
        proof {
            let v = old(self).document.buffer@;
            assert(v.take(row as int).push(v[row as int].take(s as int) + v[row as int].skip(k as int))
                + v.skip(row + 1) =~= v.update(
                row as int,
                v[row as int].take(s as int) + v[row as int].skip(k as int),
            ));
        }
        self.document.cursor.col = sb;
        self.document.modified = true;
        Ok(())
    }

    /// Delete from the start of the line to the cursor (Ctrl-U in insert mode).
    pub fn delete_to_line_start(&mut self) -> (r: Result<(), Error>)
        requires
            old(self).wf(),
            old(self).cursor_ok(),
        ensures
            deleted_to_line_start(*old(self), *final(self), r),

    {
        let row = self.document.cursor.row;
        let col = self.document.cursor.col;
        if col == 0 {
            return Ok(());
        }
        let line = match self.document.buffer.line(row) {
            Some(l) => l,
            None => return Ok(()),
        };
        let cs = crate::text::chars_of(line);
        let k = crate::text::index_at_byte(cs.as_slice(), col);
        if k == 0 {
            proof {
                assert(cs@.take(0) =~= Seq::<char>::empty());
            }
            return Ok(());
        }
        let deleted = substring(cs.as_slice(), 0, k);
        let action = EditAction::DeleteRange {
            start_row: row,
            start_col: 0,
            end_row: row,
            end_col: col,
            text: deleted,
        };
        self.state.undo_history.record(action);
        proof {
            crate::undo::lemma_recorded_last(old(self).state.undo_history, self.state.undo_history, action);
            crate::text::lemma_char_index_unique(cs@, 0);
            assert(cs@.take(0) =~= Seq::<char>::empty());
            assert(cs@.subrange(0, k as int) =~= cs@.take(k as int));
        }
        let start = Cursor::new(row, 0);
        let end = Cursor::new(row, col);
        match self.document.buffer.delete_range(&start, &end) {
            Ok(()) => {},
            Err(e) => {
                assert(false);
                return Err(Error::Buffer(e));
            },
        }
        proof {
            let v = old(self).document.buffer@;
            assert(v[row as int].take(0) + v[row as int].skip(k as int) =~= v[row as int].skip(
                k as int,
            ));
            assert(v.take(row as int).push(v[row as int].skip(k as int)) + v.skip(row + 1)
                =~= v.update(row as int, v[row as int].skip(k as int)));
        }
        self.document.cursor.col = 0;
        self.document.modified = true;
        Ok(())
    }
}

} // verus!

verus! {

/// `h1` is `h0` after recording the replacement of line `row`'s `old`
/// content with `new`.
pub open spec fn recorded_replace(
    h0: crate::undo::UndoHistory,
    h1: crate::undo::UndoHistory,
    row: int,
    old: Seq<char>,
    new: Seq<char>,
) -> bool {
    recorded_last(h0, h1) && replaces_line(last_action(h1), row, old, new)
}

/// `h2` is `h0` after recording the replacement of line `row` (`old` by
/// `new`) and then the removal of line `row + 1` holding `next`.
pub open spec fn recorded_join(
    h0: crate::undo::UndoHistory,
    h2: crate::undo::UndoHistory,
    row: int,
    old: Seq<char>,
    new: Seq<char>,
    next: Seq<char>,
) -> bool {
    exists|h1: crate::undo::UndoHistory|
        recorded_replace(h0, h1, row, old, new) && #[trigger] recorded_last(h1, h2)
            && removes_line(last_action(h2), row + 1, next)
}

impl Editor {
    /// Replace line `row` with `new_content`, recording the replacement for
    /// undo; nothing happens when the line does not exist or already holds
    /// that content.
    pub fn replace_line_recorded(&mut self, row: usize, new_content: String) -> (r: Result<
        (),
        Error,
    >)
        requires
            old(self).wf(),
        ensures
            final(self).wf(),
            r is Ok,
            same_doc_meta(old(self).document, final(self).document),
            final(self).document.cursor == old(self).document.cursor,
            final(self).document.modified == old(self).document.modified,
            same_but_undo(old(self).state, final(self).state),
            ({
                let v = old(self).document.buffer@;
                if row < v.len() && v[row as int] != new_content@ {
                    &&& final(self).document.buffer@ == v.update(row as int, new_content@)
                    &&& recorded_replace(
                        old(self).state.undo_history,
                        final(self).state.undo_history,
                        row as int,
                        v[row as int],
                        new_content@,
                    )
                } else {
                    &&& final(self).document.buffer@ == v
                    &&& final(self).state.undo_history == old(self).state.undo_history
                }
            }),
    {
        let old_content = match self.document.buffer.line(row) {
            Some(l) => l.to_owned(),
            None => return Ok(()),
        };
        if old_content == new_content {
            return Ok(());
        }
        let action = EditAction::ReplaceLine { row, old_content, new_content: new_content.clone() };
        self.state.undo_history.record(action);
        proof {
            crate::undo::lemma_recorded_last(old(self).state.undo_history, self.state.undo_history, action);
        }
        match self.document.buffer.set_line(row, new_content) {
            Ok(()) => {},
            Err(e) => return Err(Error::Buffer(e)),
        }
        Ok(())
    }
}

} // verus!

verus! {

/// `cur` and `next` joined as `J` does: trailing whitespace of `cur` and
/// leading whitespace of `next` dropped, one space between unless either
/// side is then empty.
pub open spec fn joined_line(cur: Seq<char>, next: Seq<char>) -> Seq<char> {
    let tc = cur.take(trim_end_len(cur) as int);
    let tn = next.skip(crate::editor::movement::blank_len(next) as int);
    if tc.len() == 0 || tn.len() == 0 {
        tc + tn
    } else {
        tc + seq![' '] + tn
    }
}

/// What joining line `row` of `e` with the next line leaves in `e2`: the
/// buffer with `new` on line `row` and the next line removed, the cursor at
/// byte `col` of line `row`, the change recorded for undo.
pub open spec fn joined(e: Editor, e2: Editor, new: Seq<char>, col: int) -> bool {
    let v = e.document.buffer@;
    let row = e.document.cursor.row as int;
    if row + 1 >= v.len() {
        &&& same_doc(e.document, e2.document)
        &&& e2.state == e.state
    } else {
        &&& e2.document.buffer@ == v.update(row, new).remove(row + 1)
        &&& e2.document.cursor == (Cursor { row: row as usize, col: col as usize })
        &&& e2.document.modified
        &&& same_doc_meta(e.document, e2.document)
        &&& same_but_undo(e.state, e2.state)
        &&& recorded_join(e.state.undo_history, e2.state.undo_history, row, v[row], new, v[row + 1])
    }
}

impl Editor {
    /// Replace line `row` with `new` and remove line `row + 1`, recording
    /// both for undo, and put the cursor at byte `col` of line `row`.
    fn join_with(&mut self, row: usize, new: String, col: usize)
        requires
            old(self).wf(),
            row == old(self).document.cursor.row,
            row + 1 < old(self).document.buffer@.len(),
        ensures
            final(self).wf(),
            joined(*old(self), *final(self), new@, col as int),
    {
        let nlines = self.document.buffer.len();
        let cur = match self.document.buffer.line(row) {
            Some(l) => l.to_owned(),
            None => String::new(),
        };
        let next = match self.document.buffer.line(row + 1) {
            Some(l) => l.to_owned(),
            None => String::new(),
        };
        let ghost newv = new@;
        let a1 = EditAction::ReplaceLine { row, old_content: cur, new_content: new.clone() };
        self.state.undo_history.record(a1);
        let ghost h1 = self.state.undo_history;
        proof {
            crate::undo::lemma_recorded_last(old(self).state.undo_history, h1, a1);
        }
        let a2 = EditAction::RemoveLine { row: row + 1, content: next };
        self.state.undo_history.record(a2);
        proof {
            crate::undo::lemma_recorded_last(h1, self.state.undo_history, a2);
        }
        let _ = self.document.buffer.set_line(row, new);
        let _ = self.document.buffer.remove_line(row + 1);
        self.document.cursor.col = col;
        self.document.modified = true;
        proof {
            let v0 = old(self).document.buffer@;
            assert(self.document.buffer@ =~= v0.update(row as int, newv).remove(row + 1));
            assert(recorded_last(h1, self.state.undo_history));
            assert(recorded_replace(old(self).state.undo_history, h1, row as int, v0[row as int], newv));
        }
    }

    /// Join the next line onto the cursor's line (`J`): whitespace at the
    /// seam is reduced to one space (none if either side is blank), and the
    /// cursor goes to the join point. On the last line nothing happens.
    pub fn join_line_with_next(&mut self) -> (r: Result<(), Error>)
        requires
            old(self).wf(),
        ensures
            final(self).wf(),
            r is Ok,
            ({
                let v = old(self).document.buffer@;
                let row = old(self).document.cursor.row as int;
                let cur = if row < v.len() {
                    v[row]
                } else {
                    Seq::<char>::empty()
                };
                let next = if row + 1 < v.len() {
                    v[row + 1]
                } else {
                    Seq::<char>::empty()
                };
                joined(
                    *old(self),
                    *final(self),
                    joined_line(cur, next),
                    byte_len(cur.take(trim_end_len(cur) as int)) as int,
                )
            }),
    {
        let row = self.document.cursor.row;
        if row >= self.document.buffer.len() - 1 {
            return Ok(());
        }
        let (cc, nc) = match (self.document.buffer.line(row), self.document.buffer.line(row + 1)) {
            (Some(a), Some(b)) => {
                let n = crate::text::str_byte_len(a);
                (crate::text::chars_of(a), crate::text::chars_of(b))
            },
            _ => (Vec::new(), Vec::new()),
        };
        let t = trim_end_count(cc.as_slice(), cc.len());
        let b = crate::editor::movement::blank_count(nc.as_slice());
        proof {
            assert(cc@.take(cc@.len() as int) =~= cc@);
            lemma_trim_end_len_le(cc@);
        }
        let mut mid: Vec<char> = Vec::new();
        if t > 0 && b < nc.len() {
            mid.push(' ');
        }
        let joined_chars = crate::text::splice_chars(cc.as_slice(), t, mid.as_slice(), nc.as_slice(), b);
        let new = crate::text::string_from_chars(joined_chars.as_slice());
        let col = crate::text::byte_offset(cc.as_slice(), t);
        proof {
            crate::text::lemma_byte_len_take_le(cc@, t as int);
            let tc = cc@.take(t as int);
            let tn = nc@.skip(b as int);
            if t == 0 || b >= nc@.len() {
                assert(mid@ =~= Seq::<char>::empty());
                assert(new@ =~= tc + tn);
            } else {
                assert(mid@ =~= seq![' ']);
            }
        }
        self.join_with(row, new, col);
        Ok(())
    }

    /// Join the next line onto the cursor's line as it is (`gJ`), the
    /// cursor going to the join point. On the last line nothing happens.
    pub fn join_line_with_next_no_space(&mut self) -> (r: Result<(), Error>)
        requires
            old(self).wf(),
        ensures
            final(self).wf(),
            r is Ok,
            ({
                let v = old(self).document.buffer@;
                let row = old(self).document.cursor.row as int;
                let cur = if row < v.len() {
                    v[row]
                } else {
                    Seq::<char>::empty()
                };
                let next = if row + 1 < v.len() {
                    v[row + 1]
                } else {
                    Seq::<char>::empty()
                };
                joined(*old(self), *final(self), cur + next, byte_len(cur) as int)
            }),
    {
        let row = self.document.cursor.row;
        if row >= self.document.buffer.len() - 1 {
            return Ok(());
        }
        let (cur, n, next) = match (self.document.buffer.line(row), self.document.buffer.line(row + 1)) {
            (Some(a), Some(b)) => (a.to_owned(), crate::text::str_byte_len(a), b),
            _ => (String::new(), 0, ""),
        };
        let mut new = cur;
        crate::text::append_str(&mut new, next);
        self.join_with(row, new, n);
        Ok(())
    }
}

} // verus!

verus! {

/// The other case of `c`: its lowercase mapping if uppercase, its uppercase
/// mapping if lowercase, else `c` itself.
pub open spec fn toggled_case(c: char) -> Seq<char> {
    if crate::buffer::unicode::spec_is_uppercase(c) {
        crate::buffer::unicode::spec_to_lowercase(c)
    } else if crate::buffer::unicode::spec_is_lowercase(c) {
        crate::buffer::unicode::spec_to_uppercase(c)
    } else {
        seq![c]
    }
}

/// Whether `c` has a case to toggle.
pub open spec fn has_case(c: char) -> bool {
    crate::buffer::unicode::spec_is_uppercase(c) || crate::buffer::unicode::spec_is_lowercase(c)
}

impl Editor {
    /// Toggle the case of the character under the cursor (`~`) and move
    /// past it; a character without case is left as it is and the cursor
    /// moves one grapheme right. The line is replaced through
    /// `replace_line_recorded`. Off the text nothing happens.
    #[verifier::spinoff_prover]
    #[verifier::rlimit(60)]
    pub fn toggle_case_at_cursor(&mut self) -> (r: Result<(), Error>)
        requires
            old(self).wf(),
            old(self).cursor_ok(),
        ensures
            final(self).wf(),
            r is Ok,
            same_doc_meta(old(self).document, final(self).document),
            same_but_undo(old(self).state, final(self).state),
            final(self).document.cursor.row == old(self).document.cursor.row,
            ({
                let v = old(self).document.buffer@;
                let row = old(self).document.cursor.row as int;
                let col = old(self).document.cursor.col as int;
                let mode = old(self).state.mode;
                if row >= v.len() || col >= byte_len(v[row]) {
                    &&& same_doc(old(self).document, final(self).document)
                    &&& final(self).state == old(self).state
                } else {
                    let line = v[row];
                    let k = crate::text::char_index(line, col);
                    let c = line[k];
                    if !has_case(c) {
                        &&& final(self).document.buffer@ == v
                        &&& final(self).document.modified == old(self).document.modified
                        &&& final(self).state == old(self).state
                        &&& crate::editor::movement::clamp_col(
                            mode,
                            v,
                            row,
                            crate::buffer::unicode::next_grapheme_end(line, col),
                            final(self).document.cursor.col as int,
                        )
                    } else {
                        let new = line.take(k) + toggled_case(c) + line.skip(k + 1);
                        &&& final(self).document.buffer@ == v.update(row, new)
                        &&& final(self).document.modified
                        &&& if new != line {
                            recorded_replace(
                                old(self).state.undo_history,
                                final(self).state.undo_history,
                                row,
                                line,
                                new,
                            )
                        } else {
                            final(self).state.undo_history == old(self).state.undo_history
                        }
                        &&& crate::editor::movement::clamp_col(
                            mode,
                            v.update(row, new),
                            row,
                            col + byte_len(toggled_case(c)),
                            final(self).document.cursor.col as int,
                        )
                    }
                }
            }),
    {
        let row = self.document.cursor.row;
        let col = self.document.cursor.col;
        let (cs, n) = match self.document.buffer.line(row) {
            Some(l) => (crate::text::chars_of(l), crate::text::str_byte_len(l)),
            None => return Ok(()),
        };
        if col >= n {
            return Ok(());
        }
        let k = crate::text::index_at_byte(cs.as_slice(), col);
        proof {
            if k == cs@.len() {
                assert(cs@.take(k as int) =~= cs@);
            }
        }
        let nchars = cs.len();
        assert(k < nchars);
        let c = cs[k];
        let toggled: Vec<char> = if crate::buffer::unicode::is_uppercase(c) {
            crate::buffer::unicode::to_lowercase(c)
        } else if crate::buffer::unicode::is_lowercase(c) {
            crate::buffer::unicode::to_uppercase(c)
        } else {
            let next = match self.document.buffer.line(row) {
                Some(l) => crate::buffer::unicode::next_grapheme_boundary(l, col),
                None => col,
            };
            self.document.cursor.col = next;
            self.clamp_cursor_to_line();
            return Ok(());
        };
        let new_chars = crate::text::splice_chars(cs.as_slice(), k, toggled.as_slice(), cs.as_slice(), k + 1);
        let new = crate::text::string_from_chars(new_chars.as_slice());
        let total = crate::text::str_byte_len(new.as_str());
        proof {
            let t = toggled@;
            assert(t.take(t.len() as int) =~= t);
            lemma_byte_len_concat(cs@.take(k as int), t);
            lemma_byte_len_concat(cs@.take(k as int) + t, cs@.skip(k + 1));
        }
        let w = crate::text::byte_offset(toggled.as_slice(), toggled.len());
        self.replace_line_recorded(row, new);
        self.document.cursor.col = col + w;
        self.clamp_cursor_to_line();
        self.document.modified = true;
        Ok(())
    }
}

} // verus!

verus! {

/// The indent a line opened next to the cursor's line gets: with
/// `autoindent`, the indent of the cursor's line; else none.
pub open spec fn open_indent(e: Editor) -> Seq<char> {
    if e.state.settings.autoindent && e.document.cursor.row < e.document.buffer@.len() {
        leading_whitespace(e.document.buffer@[e.document.cursor.row as int])
    } else {
        Seq::<char>::empty()
    }
}

/// What opening a line at `new_row` (with the line feed recorded at
/// `split_col` of the cursor's row) leaves in `e2`, given the result `r`.
pub open spec fn opened(e: Editor, e2: Editor, r: Result<(), Error>, new_row: int, split_col: int) -> bool {
    let v = e.document.buffer@;
    let row = e.document.cursor.row;
    let indent = open_indent(e);
    &&& same_doc_meta(e.document, e2.document)
    &&& same_but_undo(e.state, e2.state)
    &&& if row < v.len() {
        &&& r is Ok
        &&& e2.document.buffer@ == v.insert(new_row, indent)
        &&& e2.document.cursor == (Cursor { row: new_row as usize, col: byte_len(indent) as usize })
        &&& e2.document.modified
        &&& if indent.len() == 0 {
            recorded(
                e.state.undo_history,
                e2.state.undo_history,
                EditAction::InsertNewline { row, col: split_col as usize },
            )
        } else {
            &&& recorded_two(
                e.state.undo_history,
                e2.state.undo_history,
                EditAction::InsertNewline { row, col: split_col as usize },
            )
            &&& last_action(e2.state.undo_history) matches EditAction::InsertText {
                row: r2,
                col: c2,
                text,
            } && r2 == new_row && c2 == 0 && text@ == indent
        }
    } else {
        &&& r == Err::<(), Error>(Error::Buffer(crate::buffer::row_error(row, v)))
        &&& e2.document.buffer@ == v
        &&& e2.document.cursor == (Cursor { row, col: 0 })
        &&& e2.document.modified == e.document.modified
        &&& recorded(
            e.state.undo_history,
            e2.state.undo_history,
            EditAction::InsertNewline { row, col: 0 },
        )
    }
}

impl Editor {
    /// Put `indent` at the start of line `row`, recording it, and move the
    /// cursor past it.
    fn indent_new_line(&mut self, row: usize, indent: String)
        requires
            old(self).wf(),
            row < old(self).document.buffer@.len(),
            old(self).document.buffer@[row as int].len() == 0,
            indent@.len() > 0,
            forall|i: int| 0 <= i < indent@.len() ==> indent@[i] != '\n',
        ensures
            final(self).wf(),
            final(self).document.buffer@ == old(self).document.buffer@.update(row as int, indent@),
            final(self).document.cursor == (Cursor { row, col: byte_len(indent@) as usize }),
            final(self).document.modified == old(self).document.modified,
            same_doc_meta(old(self).document, final(self).document),
            same_but_undo(old(self).state, final(self).state),
            recorded_last(old(self).state.undo_history, final(self).state.undo_history),
            last_action(final(self).state.undo_history) matches EditAction::InsertText {
                row: r2,
                col: c2,
                text,
            } && r2 == row && c2 == 0 && text@ == indent@,
    {
        let n = crate::text::str_byte_len(indent.as_str());
        let text = indent.clone();
        let action = EditAction::InsertText { row, col: 0, text };
        self.state.undo_history.record(action);
        proof {
            crate::undo::lemma_recorded_last(old(self).state.undo_history, self.state.undo_history, action);
            let v1 = self.document.buffer@;
            assert(v1[row as int].take(0) =~= Seq::<char>::empty());
            assert(byte_len(v1[row as int].take(0)) == 0);
            assert(crate::text::is_boundary(v1[row as int], 0));
            crate::text::lemma_char_index_unique(v1[row as int], 0);
            crate::buffer::lemma_split_all_plain(indent@);
        }
        let rr = self.insert_text_at(row, 0, indent.as_str());
        proof {
            let v1 = old(self).document.buffer@;
            assert(v1[row as int].skip(0) =~= v1[row as int]);
            assert(Seq::<char>::empty() + indent@ + v1[row as int] =~= indent@);
            assert(self.document.buffer@ =~= v1.update(row as int, indent@));
        }
        self.document.cursor = Cursor { row, col: n };
    }

    /// Open a new line below the cursor's line (`o`) and move to it; with
    /// `autoindent` it gets the indent of the cursor's line.
    pub fn open_line_below(&mut self) -> (r: Result<(), Error>)
        requires
            old(self).wf(),
        ensures
            final(self).wf(),
            opened(
                *old(self),
                *final(self),
                r,
                old(self).document.cursor.row + 1,
                if old(self).document.cursor.row < old(self).document.buffer@.len() {
                    byte_len(old(self).document.buffer@[old(self).document.cursor.row as int]) as int
                } else {
                    0
                },
            ),
    {
        let indent = self.current_line_indent();
        proof {
            if old(self).state.settings.autoindent && old(self).document.cursor.row < old(self).document.buffer@.len() {
                lemma_indent_no_newline(old(self).document.buffer@[old(self).document.cursor.row as int]);
            }
        }
        let end_col = match self.document.buffer.line(self.document.cursor.row) {
            Some(l) => crate::text::str_byte_len(l),
            None => 0,
        };
        self.document.cursor.col = end_col;
        let row = self.document.cursor.row;
        let action = EditAction::InsertNewline { row, col: end_col };
        self.state.undo_history.record(action);
        let ghost h1 = self.state.undo_history;
        let cursor = self.document.cursor;
        proof {
            let v = old(self).document.buffer@;
            if row < v.len() {
                lemma_end_boundary(v[row as int]);
            }
        }
        match self.document.buffer.split_line(&cursor) {
            Ok(()) => {},
            Err(e) => return Err(Error::Buffer(e)),
        }
        proof {
            let v = old(self).document.buffer@;
            let k = pos_index(v, cursor);
            crate::text::lemma_char_index_unique(v[row as int], v[row as int].len() as int);
            assert(v[row as int].take(v[row as int].len() as int) =~= v[row as int]);
            assert(v[row as int].skip(v[row as int].len() as int) =~= Seq::<char>::empty());
            assert(self.document.buffer@ =~= v.insert(row + 1, Seq::<char>::empty()));
        }
        let nlines = self.document.buffer.len();
        self.document.cursor.row = row + 1;
        self.document.cursor.col = 0;
        self.document.modified = true;
        let n = crate::text::str_byte_len(indent.as_str());
        if n > 0 {
            self.indent_new_line(row + 1, indent);
            proof {
                let v = old(self).document.buffer@;
                assert(self.document.buffer@ =~= v.insert(row + 1, open_indent(*old(self))));
                assert(recorded_last(h1, self.state.undo_history));
            }
        } else {
            proof {
                assert(indent@ =~= Seq::<char>::empty());
            }
        }
        Ok(())
    }

    /// Open a new line above the cursor's line (`O`) and move to it; with
    /// `autoindent` it gets the indent of the cursor's line.
    pub fn open_line_above(&mut self) -> (r: Result<(), Error>)
        requires
            old(self).wf(),
        ensures
            final(self).wf(),
            opened(*old(self), *final(self), r, old(self).document.cursor.row as int, 0),
    {
        let indent = self.current_line_indent();
        proof {
            if old(self).state.settings.autoindent && old(self).document.cursor.row < old(self).document.buffer@.len() {
                lemma_indent_no_newline(old(self).document.buffer@[old(self).document.cursor.row as int]);
            }
        }
        self.document.cursor.col = 0;
        let row = self.document.cursor.row;
        let action = EditAction::InsertNewline { row, col: 0 };
        self.state.undo_history.record(action);
        let ghost h1 = self.state.undo_history;
        let cursor = self.document.cursor;
        proof {
            let v = old(self).document.buffer@;
            if row < v.len() {
                assert(v[row as int].take(0) =~= Seq::<char>::empty());
                assert(byte_len(v[row as int].take(0)) == 0);
                assert(crate::text::is_boundary(v[row as int], 0));
            }
        }
        match self.document.buffer.split_line(&cursor) {
            Ok(()) => {},
            Err(e) => return Err(Error::Buffer(e)),
        }
        proof {
            let v = old(self).document.buffer@;
            crate::text::lemma_char_index_unique(v[row as int], 0);
            assert(v[row as int].take(0) =~= Seq::<char>::empty());
            assert(v[row as int].skip(0) =~= v[row as int]);
            assert(self.document.buffer@ =~= v.insert(row as int, Seq::<char>::empty()));
        }
        self.document.modified = true;
        let n = crate::text::str_byte_len(indent.as_str());
        if n > 0 {
            self.indent_new_line(row, indent);
            proof {
                let v = old(self).document.buffer@;
                assert(self.document.buffer@ =~= v.insert(row as int, open_indent(*old(self))));
                assert(recorded_last(h1, self.state.undo_history));
            }
        } else {
            proof {
                assert(indent@ =~= Seq::<char>::empty());
            }
        }
        Ok(())
    }
}

/// The end of a line is a character boundary.
proof fn lemma_end_boundary(s: Seq<char>)
    ensures
        crate::text::is_boundary(s, byte_len(s) as int),
{
    assert(s.take(s.len() as int) =~= s);
}

} // verus!

verus! {

/// `n` spaces.
pub open spec fn spaces(n: nat) -> Seq<char> {
    Seq::new(n, |i: int| ' ')
}

/// Characters `>>` removes from the front of `s`: spaces (one column each)
/// and tabs (`ts` columns each) while the columns removed, `cols` so far,
/// stay within `sw`.
pub open spec fn dedent_len(s: Seq<char>, sw: int, ts: int, cols: int) -> nat
    decreases s.len(),
{
    if s.len() == 0 || cols >= sw {
        0
    } else if s[0] == ' ' {
        1 + dedent_len(s.skip(1), sw, ts, cols + 1)
    } else if s[0] == '\t' && cols + ts <= sw {
        1 + dedent_len(s.skip(1), sw, ts, cols + ts)
    } else {
        0
    }
}

/// Line `s` shifted right by `sw` (empty lines stay empty).
pub open spec fn shift_right_line(s: Seq<char>, sw: nat) -> Seq<char> {
    if s.len() > 0 {
        spaces(sw) + s
    } else {
        s
    }
}

/// Line `s` shifted left by up to `sw` columns.
pub open spec fn shift_left_line(s: Seq<char>, sw: nat, ts: nat) -> Seq<char> {
    s.skip(dedent_len(s, sw as int, ts as int, 0) as int)
}

/// The new content of line `i` of `v` when the lines `start..end` are
/// shifted right (`right`) or left by `sw` columns.
pub open spec fn shifted_line(v: Seq<Seq<char>>, i: int, start: int, end: int, right: bool, sw: nat, ts: nat) -> Seq<char> {
    if start <= i < end {
        if right {
            shift_right_line(v[i], sw)
        } else {
            shift_left_line(v[i], sw, ts)
        }
    } else {
        v[i]
    }
}

/// `v` with the lines `start..end` shifted.
pub open spec fn shifted(v: Seq<Seq<char>>, start: int, end: int, right: bool, sw: nat, ts: nat) -> Seq<Seq<char>> {
    Seq::new(v.len(), |i: int| shifted_line(v, i, start, end, right, sw, ts))
}

/// Whether shifting touches line `s`: a non-empty line shifted right, or a
/// line with indentation to remove shifted left.
pub open spec fn shift_touches(s: Seq<char>, right: bool, sw: nat, ts: nat) -> bool {
    if right {
        s.len() > 0
    } else {
        dedent_len(s, sw as int, ts as int, 0) > 0
    }
}

/// The rows among `start..i` that shifting touches, each recorded for undo.
pub open spec fn shift_changes(v: Seq<Seq<char>>, start: int, i: int, right: bool, sw: nat, ts: nat) -> Seq<int>
    decreases i - start,
{
    if i <= start {
        Seq::<int>::empty()
    } else {
        let prev = shift_changes(v, start, i - 1, right, sw, ts);
        if shift_touches(v[i - 1], right, sw, ts) {
            prev.push(i - 1)
        } else {
            prev
        }
    }
}

/// The histories `hs` step from one to the next by recording, in order,
/// the replacement of each line `rows[j]` of `v` by its content in `w`.
pub open spec fn replace_steps(
    hs: Seq<crate::undo::UndoHistory>,
    v: Seq<Seq<char>>,
    w: Seq<Seq<char>>,
    rows: Seq<int>,
) -> bool {
    &&& hs.len() == rows.len() + 1
    &&& forall|j: int|
        0 <= j < rows.len() ==> #[trigger] recorded_replace(hs[j], hs[j + 1], rows[j], v[rows[j]], w[rows[j]])
}

/// `h1` is `h0` after recording, in order, the replacement of each line
/// `rows[j]` of `v` by its content in `w`.
pub open spec fn recorded_replaces(
    h0: crate::undo::UndoHistory,
    h1: crate::undo::UndoHistory,
    v: Seq<Seq<char>>,
    w: Seq<Seq<char>>,
    rows: Seq<int>,
) -> bool {
    exists|hs: Seq<crate::undo::UndoHistory>|
        #[trigger] replace_steps(hs, v, w, rows) && hs[0] == h0 && hs.last() == h1
}

/// What shifting the lines `start..end` of `e` leaves in `e2`.
pub open spec fn shifted_editor(e: Editor, e2: Editor, end: int, right: bool) -> bool {
    let v = e.document.buffer@;
    let start = e.document.cursor.row as int;
    let sw = e.state.settings.shiftwidth as nat;
    let ts = e.state.settings.tabstop as nat;
    let w = shifted(v, start, end, right, sw, ts);
    let changes = shift_changes(v, start, end, right, sw, ts);
    &&& e2.document.buffer@ == w
    &&& recorded_replaces(e.state.undo_history, e2.state.undo_history, v, w, changes)
    &&& e2.document.modified == (e.document.modified || changes.len() > 0)
    &&& same_doc_meta(e.document, e2.document)
    &&& same_but_undo(e.state, e2.state)
    &&& e2.document.cursor.row == start
    &&& e2.document.cursor.col == if start < v.len() {
        crate::editor::movement::min(
            crate::editor::movement::first_non_blank_col(w[start]),
            crate::editor::movement::max_col(e.state.mode, w[start]),
        )
    } else {
        e.document.cursor.col as int
    }
}

/// The number of characters `>>` removes from the front of `cs`.
fn dedent_count(cs: &[char], sw: usize, ts: usize) -> (k: usize)
    ensures
        k == dedent_len(cs@, sw as int, ts as int, 0),
        k <= cs@.len(),
{
    let mut i: usize = 0;
    let mut cols: usize = 0;
    assert(cs@.skip(0) =~= cs@);
    while i < cs.len() && cols < sw
        invariant
            i <= cs@.len(),
            cols <= sw,
            dedent_len(cs@, sw as int, ts as int, 0) == i + dedent_len(cs@.skip(i as int), sw as int, ts as int, cols as int),
        decreases cs.len() - i,
    {
        assert(cs@.skip(i as int).skip(1) =~= cs@.skip(i + 1));
        assert(cs@.skip(i as int)[0] == cs[i as int]);
        if cs[i] == ' ' {
            cols = cols + 1;
        } else if cs[i] == '\t' && ts <= sw - cols {
            cols = cols + ts;
        } else {
            return i;
        }
        i = i + 1;
    }
    i
}

impl Editor {
    /// Shift `line_count` lines from the cursor's line right or left by
    /// `shiftwidth` columns, recording each changed line.
    fn shift_lines(&mut self, line_count: usize, right: bool) -> (r: Result<(), Error>)
        requires
            old(self).wf(),
            old(self).document.cursor.row + line_count <= usize::MAX,
        ensures
            final(self).wf(),
            r is Ok,
            shifted_editor(
                *old(self),
                *final(self),
                crate::editor::movement::min(
                    old(self).document.cursor.row + line_count,
                    old(self).document.buffer@.len() as int,
                ),
                right,
            ),
    {
        let sw = self.state.settings.shiftwidth;
        let ts = self.state.settings.tabstop;
        let start = self.document.cursor.row;
        let n = self.document.buffer.len();
        let end = if start + line_count <= n {
            start + line_count
        } else {
            n
        };
        let mut indent: Vec<char> = Vec::new();
        while indent.len() < sw
            invariant
                indent.len() <= sw,
                indent@ == spaces(indent.len() as nat),
            decreases sw - indent.len(),
        {
            indent.push(' ');
            assert(indent@ =~= spaces(indent.len() as nat));
        }
        let ghost v = self.document.buffer@;
        let ghost w = shifted(v, start as int, end as int, right, sw as nat, ts as nat);
        let ghost h0 = self.state.undo_history;
        let ghost st0 = self.state;
        let ghost doc0 = self.document;
        let mut any_changed = false;
        let mut row = start;
        let ghost mut hs: Seq<crate::undo::UndoHistory> = seq![h0];
        while row < end
            invariant
                self.wf(),
                replace_steps(hs, v, w, shift_changes(v, start as int, row as int, right, sw as nat, ts as nat)),
                hs[0] == h0,
                hs.last() == self.state.undo_history,
                start <= row,
                row <= end || row == start,
                end <= n,
                n == v.len(),
                v == old(self).document.buffer@,
                w == shifted(v, start as int, end as int, right, sw as nat, ts as nat),
                indent@ == spaces(sw as nat),
                sw == old(self).state.settings.shiftwidth,
                ts == old(self).state.settings.tabstop,
                self.document.buffer@.len() == n,
                forall|i: int| 0 <= i < n ==> #[trigger] self.document.buffer@[i] == if start <= i < row {
                    w[i]
                } else {
                    v[i]
                },
                any_changed == (shift_changes(v, start as int, row as int, right, sw as nat, ts as nat).len() > 0),
                same_but_undo(st0, self.state),
                self.document.cursor == doc0.cursor,
                self.document.modified == doc0.modified,
                same_doc_meta(doc0, self.document),
                h0 == old(self).state.undo_history,
                st0 == old(self).state,
                doc0 == old(self).document,
            decreases end - row,
        {
            let cs = match self.document.buffer.line(row) {
                Some(l) => crate::text::chars_of(l),
                None => Vec::new(),
            };
            let k = dedent_count(cs.as_slice(), sw, ts);
            let touched = if right {
                cs.len() > 0
            } else {
                k > 0
            };
            let ghost changes = shift_changes(v, start as int, row as int, right, sw as nat, ts as nat);
            let ghost changes2 = shift_changes(v, start as int, row + 1, right, sw as nat, ts as nat);
            if touched {
                let empty: Vec<char> = Vec::new();
                let new_chars = if right {
                    crate::text::splice_chars(indent.as_slice(), indent.len(), empty.as_slice(), cs.as_slice(), 0)
                } else {
                    crate::text::splice_chars(cs.as_slice(), 0, empty.as_slice(), cs.as_slice(), k)
                };
                proof {
                    assert(indent@.take(indent@.len() as int) =~= indent@);
                    assert(cs@.skip(0) =~= cs@);
                    assert(cs@.take(0) =~= Seq::<char>::empty());
                    assert(new_chars@ =~= w[row as int]);
                }
                let new = crate::text::string_from_chars(new_chars.as_slice());
                let old_content = crate::text::string_from_chars(cs.as_slice());
                let ghost hb = self.state.undo_history;
                let action = EditAction::ReplaceLine { row, old_content, new_content: new.clone() };
                self.state.undo_history.record(action);
                proof {
                    crate::undo::lemma_recorded_last(hb, self.state.undo_history, action);
                    assert(changes2 == changes.push(row as int));
                    assert(recorded_replace(hb, self.state.undo_history, row as int, v[row as int], w[row as int]));
                }
                let _ = self.document.buffer.set_line(row, new);
                any_changed = true;
                proof {
                    let h1 = self.state.undo_history;
                    let hs2 = hs.push(h1);
                    assert forall|j: int| 0 <= j < changes2.len() implies #[trigger] recorded_replace(
                        hs2[j],
                        hs2[j + 1],
                        changes2[j],
                        v[changes2[j]],
                        w[changes2[j]],
                    ) by {
                        if j < changes.len() {
                            assert(recorded_replace(hs[j], hs[j + 1], changes[j], v[changes[j]], w[changes[j]]));
                        }
                    }
                    assert(replace_steps(hs2, v, w, changes2));
                    hs = hs2;
                }
            } else {
                proof {
                    assert(changes2 == changes);
                    if right {
                        assert(cs@ =~= Seq::<char>::empty());
                    } else {
                        assert(cs@.skip(0) =~= cs@);
                    }
                    assert(w[row as int] == v[row as int]);
                }
            }
            proof {
                assert forall|i: int| 0 <= i < n implies #[trigger] self.document.buffer@[i] == if start <= i < row + 1 {
                    w[i]
                } else {
                    v[i]
                } by {}
            }
            row = row + 1;
        }
        proof {
            assert(self.document.buffer@ =~= w);
            assert(recorded_replaces(h0, self.state.undo_history, v, w, shift_changes(v, start as int, row as int, right, sw as nat, ts as nat)));
        }
        self.move_to_first_non_blank();
        if any_changed {
            self.document.modified = true;
        }
        Ok(())
    }

    /// Shift `line_count` lines from the cursor's line right by `shiftwidth`
    /// spaces (`>>`); empty lines stay empty. The cursor goes to the first
    /// non-blank character of its line.
    pub fn shift_lines_right(&mut self, line_count: usize) -> (r: Result<(), Error>)
        requires
            old(self).wf(),
            old(self).document.cursor.row + line_count <= usize::MAX,
        ensures
            final(self).wf(),
            r is Ok,
            shifted_editor(
                *old(self),
                *final(self),
                crate::editor::movement::min(
                    old(self).document.cursor.row + line_count,
                    old(self).document.buffer@.len() as int,
                ),
                true,
            ),
    {
        self.shift_lines(line_count, true)
    }

    /// Shift `line_count` lines from the cursor's line left by up to
    /// `shiftwidth` columns (`<<`): leading spaces count one column, tabs
    /// `tabstop` columns, and a tab that would pass `shiftwidth` stays. The
    /// cursor goes to the first non-blank character of its line.
    pub fn shift_lines_left(&mut self, line_count: usize) -> (r: Result<(), Error>)
        requires
            old(self).wf(),
            old(self).document.cursor.row + line_count <= usize::MAX,
        ensures
            final(self).wf(),
            r is Ok,
            shifted_editor(
                *old(self),
                *final(self),
                crate::editor::movement::min(
                    old(self).document.cursor.row + line_count,
                    old(self).document.buffer@.len() as int,
                ),
                false,
            ),
    {
        self.shift_lines(line_count, false)
    }
}

} // verus!

verus! {

use crate::command::RepeatableChange;

/// What leaving an insert session records for `.`: a new `InsertSession`
/// with the keys `typed` when the session was entered by an insert command
/// (`kind`), else the keys attached to the pending change operator, if
/// that is the last change.
pub open spec fn finalized_change(
    last: Option<crate::command::RepeatableChange>,
    kind: Option<crate::command::ModeChangeKind>,
    count: usize,
    typed: Seq<crate::terminal::Key>,
    r: Option<crate::command::RepeatableChange>,
) -> bool {
    match kind {
        Some(k) => r matches Some(RepeatableChange::InsertSession { entry_kind, typed_keys, count: c })
            && entry_kind == k && typed_keys@ == typed && c == (if count >= 1 {
            count
        } else {
            1
        }),
        None => match last {
            Some(RepeatableChange::OperatorMotion { operator, motion, count: c, register, linewise_self, .. }) => r matches Some(
                RepeatableChange::OperatorMotion { operator: o2, motion: m2, count: c2, register: r2, insert_keys: Some(k2), linewise_self: l2 },
            ) && o2 == operator && m2 == motion && c2 == c && r2 == register && l2 == linewise_self && k2@ == typed,
            Some(RepeatableChange::OperatorTextObject { operator, kind: tk, object, count: c, register, .. }) => r matches Some(
                RepeatableChange::OperatorTextObject { operator: o2, kind: k2, object: ob2, count: c2, register: r2, insert_keys: Some(keys) },
            ) && o2 == operator && k2 == tk && ob2 == object && c2 == c && r2 == register && keys@ == typed,
            _ => r == last,
        },
    }
}

impl EditorState {
    /// Record, on leaving insert mode, what `.` repeats: the typed keys
    /// become an `InsertSession` (for `i`, `a`, `o`, ...) or are attached
    /// to the change operator that entered insert mode. The typed keys are
    /// cleared.
    pub fn finalize_insert_for_dot(&mut self)
        ensures
            dot_finalized(*old(self), *final(self)),

    {
        let mut typed_keys: Vec<crate::terminal::Key> = Vec::new();
        std::mem::swap(&mut typed_keys, &mut self.insert_state.insert_keys);
        match self.insert_state.insert_entry_kind {
            Some(entry_kind) => {
                let count = if self.insert_state.insert_count >= 1 {
                    self.insert_state.insert_count
                } else {
                    1
                };
                self.last_change = Some(RepeatableChange::InsertSession { entry_kind, typed_keys, count });
            },
            None => {
                let last = self.last_change.take();
                self.last_change = match last {
                    Some(RepeatableChange::OperatorMotion { operator, motion, count, register, insert_keys: _, linewise_self }) => Some(
                        RepeatableChange::OperatorMotion { operator, motion, count, register, insert_keys: Some(typed_keys), linewise_self },
                    ),
                    Some(RepeatableChange::OperatorTextObject { operator, kind, object, count, register, insert_keys: _ }) => Some(
                        RepeatableChange::OperatorTextObject { operator, kind, object, count, register, insert_keys: Some(typed_keys) },
                    ),
                    other => other,
                };
            },
        }
    }
}

} // verus!

verus! {

/// Character index just after the last non-word character of `s` (0 when
/// every character is a word character).
pub open spec fn word_start(s: Seq<char>) -> int
    decreases s.len(),
{
    if s.len() == 0 {
        0
    } else if !crate::buffer::unicode::spec_is_word_char(s.last()) {
        s.len() as int
    } else {
        word_start(s.drop_last())
    }
}

/// The expansion of the newest abbreviation of `w` in `a`, if any.
pub open spec fn abbrev_lookup(a: Seq<(Seq<char>, Seq<char>)>, w: Seq<char>) -> Option<Seq<char>>
    decreases a.len(),
{
    if a.len() == 0 {
        None
    } else if a.last().0 == w {
        Some(a.last().1)
    } else {
        abbrev_lookup(a.drop_last(), w)
    }
}

/// `h2` is `h0` after recording the deletion of `w` from bytes
/// `start..col` of line `row` and then the insertion of `rhs` at `start`.
pub open spec fn recorded_expansion(
    h0: crate::undo::UndoHistory,
    h2: crate::undo::UndoHistory,
    row: int,
    start: int,
    col: int,
    w: Seq<char>,
    rhs: Seq<char>,
) -> bool {
    exists|h1: crate::undo::UndoHistory|
        recorded_last(h0, h1) && (last_action(h1) matches EditAction::DeleteRange {
            start_row,
            start_col,
            end_row,
            end_col,
            text,
        } && start_row == row && start_col == start && end_row == row && end_col == col && text@ == w)
            && #[trigger] recorded_last(h1, h2) && (last_action(h2) matches EditAction::InsertText {
            row: r2,
            col: c2,
            text,
        } && r2 == row && c2 == start && text@ == rhs)
}

/// Index just after the last non-word character of `cs[..k]`.
fn after_last_non_word(cs: &[char], k: usize) -> (s: usize)
    requires
        k <= cs@.len(),
    ensures
        s == word_start(cs@.take(k as int)),
        s <= k,
{
    let mut i: usize = k;
    while i > 0 && crate::buffer::unicode::is_word_char(cs[i - 1])
        invariant
            i <= k <= cs@.len(),
            word_start(cs@.take(k as int)) == word_start(cs@.take(i as int)),
        decreases i,
    {
        assert(cs@.take(i as int).drop_last() =~= cs@.take(i - 1));
        i = i - 1;
    }
    proof {
        if i > 0 {
            assert(cs@.take(i as int).last() == cs@[i - 1]);
        }
    }
    i
}

/// The expansion of the newest abbreviation of `w`, if any.
fn find_abbreviation(a: &Vec<(String, String)>, w: &String) -> (r: Option<String>)
    ensures
        match r {
            Some(s) => abbrev_lookup(crate::editor::mappings::abbrevs_view(a@), w@) == Some(s@),
            None => abbrev_lookup(crate::editor::mappings::abbrevs_view(a@), w@) is None,
        },
{
    let mut i: usize = a.len();
    assert(a@.take(i as int) =~= a@);
    while i > 0
        invariant
            i <= a@.len(),
            abbrev_lookup(crate::editor::mappings::abbrevs_view(a@), w@) == abbrev_lookup(
                crate::editor::mappings::abbrevs_view(a@.take(i as int)),
                w@,
            ),
        decreases i,
    {
        let ghost av = crate::editor::mappings::abbrevs_view(a@.take(i as int));
        assert(a@.take(i as int).drop_last() =~= a@.take(i - 1));
        assert(av == crate::editor::mappings::abbrevs_view(a@.take(i - 1)).push((a@[i - 1].0@, a@[i - 1].1@)));
        assert(av.drop_last() =~= crate::editor::mappings::abbrevs_view(a@.take(i - 1)));
        if a[i - 1].0 == *w {
            return Some(a[i - 1].1.clone());
        }
        i = i - 1;
    }
    assert(a@.take(0) =~= Seq::<(String, String)>::empty());
    None
}

impl Editor {
    /// Expand the abbreviation that ends at the cursor, if the word before
    /// the cursor (word characters back to the last other character) is
    /// one: it is replaced by its expansion, both steps recorded for undo,
    /// and the cursor moves past the expansion. Returns whether it did.
    pub fn try_expand_abbreviation(&mut self) -> (r: Result<bool, Error>)
        requires
            old(self).wf(),
            old(self).cursor_ok(),
        ensures
            abbreviation_tried(*old(self), *final(self), r),

    {
        if self.state.mappings.abbreviations.len() == 0 {
            return Ok(false);
        }
        let row = self.document.cursor.row;
        let col = self.document.cursor.col;
        let (cs, n) = match self.document.buffer.line(row) {
            Some(l) => (crate::text::chars_of(l), str_byte_len(l)),
            None => return Ok(false),
        };
        let k = crate::text::index_at_byte(cs.as_slice(), col);
        let ws = after_last_non_word(cs.as_slice(), k);
        let mut wv: Vec<char> = Vec::new();
        crate::text::extend_range(&mut wv, cs.as_slice(), ws, k);
        let word = crate::text::string_from_chars(wv.as_slice());
        proof {
            assert(wv@ =~= cs@.take(k as int).skip(ws as int));
        }
        if wv.len() == 0 {
            return Ok(false);
        }
        let rhs = match find_abbreviation(&self.state.mappings.abbreviations, &word) {
            Some(r) => r,
            None => return Ok(false),
        };
        let start = crate::text::byte_offset(cs.as_slice(), ws);
        proof {
            crate::text::lemma_byte_len_take_le(cs@, ws as int);
        }
        let ghost h0 = self.state.undo_history;
        let a1 = EditAction::DeleteRange { start_row: row, start_col: start, end_row: row, end_col: col, text: word };
        self.state.undo_history.record(a1);
        let ghost h1 = self.state.undo_history;
        proof {
            crate::undo::lemma_recorded_last(h0, h1, a1);
        }
        let empty: Vec<char> = Vec::new();
        let new_chars = crate::text::splice_chars(cs.as_slice(), ws, empty.as_slice(), cs.as_slice(), k);
        let new_line = crate::text::string_from_chars(new_chars.as_slice());
        let ghost nl = new_line@;
        let _ = self.document.buffer.set_line(row, new_line);
        self.document.cursor.col = start;
        self.document.modified = true;
        let a2 = EditAction::InsertText { row, col: start, text: rhs.clone() };
        self.state.undo_history.record(a2);
        proof {
            crate::undo::lemma_recorded_last(h1, self.state.undo_history, a2);
            assert(nl =~= cs@.take(ws as int) + cs@.skip(k as int));
            assert(nl.take(ws as int) =~= cs@.take(ws as int));
            crate::text::lemma_char_index_unique(nl, ws as int);
            crate::text::lemma_byte_len_take_le(nl, ws as int);
            assert(byte_len(cs@.take(ws as int)) == start);
        }
        let rlen = str_byte_len(rhs.as_str());
        let rr = self.insert_text_at(row, start, rhs.as_str());
        match rr {
            Ok(()) => {},
            Err(e) => return Err(e),
        }
        self.document.cursor.col = start + rlen;
        proof {
            let v = old(self).document.buffer@;
            assert(v.update(row as int, nl) =~= v.update(row as int, cs@.take(ws as int) + cs@.skip(k as int)));
            assert(recorded_last(h1, self.state.undo_history));
        }
        Ok(true)
    }
}

} // verus!

verus! {

/// What inserting `c` at the cursor does to `e`, giving `e2` and `r`.
pub open spec fn char_inserted(e: Editor, e2: Editor, c: char, r: Result<(), Error>) -> bool {
    &&& (e2.wf())
    &&& (({
        let row = e.document.cursor.row;
        let col = e.document.cursor.col;
        let v = e.document.buffer@;
        &&& recorded(
            e.state.undo_history,
            e2.state.undo_history,
            EditAction::InsertChar { row, col, ch: c },
        )
        &&& same_but_undo(e.state, e2.state)
        &&& same_doc_meta(e.document, e2.document)
        &&& match r {
            Ok(()) => position_error(v, row, col) is None && e2.document.buffer@
                == v.update(
                row as int,
                insert_at(v[row as int], pos_index(v, e.document.cursor), c),
            ) && e2.document.cursor == (Cursor {
                row,
                col: (col + char_width(c)) as usize,
            }) && e2.document.modified,
            Err(err) => position_error(v, row, col) matches Some(be) && err == Error::Buffer(be)
                && same_doc(e.document, e2.document),
        }
    }))
}

} // verus!

verus! {

/// What splitting the line at the cursor does to `e`, giving `e2` and `r`.
pub open spec fn newline_inserted(e: Editor, e2: Editor, r: Result<(), Error>) -> bool {
    &&& (e2.wf())
    &&& (e2.state.insert_state.saved_indent is None)
    &&& (e2.state.mode == e.state.mode)
    &&& (e2.state.registers == e.state.registers)
    &&& (same_doc_meta(e.document, e2.document))
    &&& (({
        let row = e.document.cursor.row;
        let col = e.document.cursor.col;
        let v = e.document.buffer@;
        let indent = newline_indent(e);
        let k = pos_index(v, e.document.cursor);
        match r {
            Ok(()) => position_error(v, row, col) is None && e2.document.buffer@
                == crate::buffer::split_at(v, row as int, k).update(
                row + 1,
                indent + v[row as int].skip(k),
            ) && e2.document.cursor == (Cursor {
                row: (row + 1) as usize,
                col: byte_len(indent) as usize,
            }) && e2.document.modified && (if indent.len() == 0 {
                recorded(
                    e.state.undo_history,
                    e2.state.undo_history,
                    EditAction::InsertNewline { row, col },
                )
            } else {
                recorded_two(
                    e.state.undo_history,
                    e2.state.undo_history,
                    EditAction::InsertNewline { row, col },
                ) && (crate::undo::last_action(e2.state.undo_history) matches
                    EditAction::InsertText { row: r2, col: c2, text } && r2 == row + 1
                    && c2 == 0 && text@ == indent)
            }),
            Err(err) => position_error(v, row, col) matches Some(be) && err == Error::Buffer(be)
                && e2.document.buffer@ == v && e2.document.cursor
                == e.document.cursor,
        }
    }))
}

} // verus!

verus! {

/// What Backspace does to `e`, giving `e2` and `r`.
pub open spec fn backspaced(e: Editor, e2: Editor, r: Result<(), Error>) -> bool {
    &&& (e2.wf())
    &&& (same_doc_meta(e.document, e2.document))
    &&& (same_but_undo(e.state, e2.state))
    &&& (backspace_effect(e, e2, r))
}

} // verus!

verus! {

/// What leaving an insert session does to the state `e`, giving `e2`: the
/// typed keys become what `.` repeats and are cleared.
pub open spec fn dot_finalized(e: EditorState, e2: EditorState) -> bool {
    &&& (e2.insert_state.insert_keys@.len() == 0)
    &&& (finalized_change(
        e.last_change,
        e.insert_state.insert_entry_kind,
        e.insert_state.insert_count,
        e.insert_state.insert_keys@,
        e2.last_change,
    ))
    &&& (e2 == (EditorState {
        last_change: e2.last_change,
        insert_state: e2.insert_state,
        ..e
    }))
    &&& (e2.insert_state == (crate::editor::InsertState {
        insert_keys: e2.insert_state.insert_keys,
        ..e.insert_state
    }))
}

} // verus!

verus! {

/// What `X` does to `e` with `register`, giving `e2` and `r`.
pub open spec fn char_deleted_before_cursor(e: Editor, e2: Editor, register: Option<char>, r: Result<(), Error>) -> bool {
    &&& (e2.wf())
    &&& (same_doc_meta(e.document, e2.document))
    &&& (backspace_effect(e, e2, r))
    &&& (e2.state.mode == e.state.mode)
    &&& ((e.document.cursor.col > 0 && e.document.cursor.row < e.document.buffer@.len()) || (e.document.cursor.col == 0 && e.document.cursor.row > 0) ==> ({
        let v = e.document.buffer@;
        let row = e.document.cursor.row;
        let col = e.document.cursor.col;
        let text = if col > 0 {
            let line = v[row as int];
            line.subrange(
                crate::text::char_index(
                    line,
                    crate::buffer::unicode::prev_grapheme_start(line, col as int),
                ),
                crate::text::char_index(line, col as int),
            )
        } else {
            seq!['\n']
        };
        crate::registers::register_target(register) != Some(
            crate::registers::RegisterId::BlackHole,
        ) ==> e2.state.registers.spec_get(None) == Some(
            (text, crate::registers::ContentType::Characterwise),
        )
    }))
}

} // verus!

verus! {

/// What `~` does to `e`, giving `e2` and `r`.
pub open spec fn case_toggled_at_cursor(e: Editor, e2: Editor, r: Result<(), Error>) -> bool {
    &&& (e2.wf())
    &&& (r is Ok)
    &&& (same_doc_meta(e.document, e2.document))
    &&& (same_but_undo(e.state, e2.state))
    &&& (e2.document.cursor.row == e.document.cursor.row)
    &&& (({
        let v = e.document.buffer@;
        let row = e.document.cursor.row as int;
        let col = e.document.cursor.col as int;
        let mode = e.state.mode;
        if row >= v.len() || col >= byte_len(v[row]) {
            &&& same_doc(e.document, e2.document)
            &&& e2.state == e.state
        } else {
            let line = v[row];
            let k = crate::text::char_index(line, col);
            let c = line[k];
            if !has_case(c) {
                &&& e2.document.buffer@ == v
                &&& e2.document.modified == e.document.modified
                &&& e2.state == e.state
                &&& crate::editor::movement::clamp_col(
                    mode,
                    v,
                    row,
                    crate::buffer::unicode::next_grapheme_end(line, col),
                    e2.document.cursor.col as int,
                )
            } else {
                let new = line.take(k) + toggled_case(c) + line.skip(k + 1);
                &&& e2.document.buffer@ == v.update(row, new)
                &&& e2.document.modified
                &&& if new != line {
                    recorded_replace(
                        e.state.undo_history,
                        e2.state.undo_history,
                        row,
                        line,
                        new,
                    )
                } else {
                    e2.state.undo_history == e.state.undo_history
                }
                &&& crate::editor::movement::clamp_col(
                    mode,
                    v.update(row, new),
                    row,
                    col + byte_len(toggled_case(c)),
                    e2.document.cursor.col as int,
                )
            }
        }
    }))
}

} // verus!

verus! {

/// What Ctrl-W in insert mode leaves in `e2` and returns, starting from `e`.
pub open spec fn word_deleted_before_cursor(e: Editor, e2: Editor, r: Result<(), Error>) -> bool {
    &&& (e2.wf())
    &&& (r is Ok)
    &&& (same_doc_meta(e.document, e2.document))
    &&& (same_but_undo(e.state, e2.state))
    &&& (({
        let v = e.document.buffer@;
        let row = e.document.cursor.row;
        let col = e.document.cursor.col;
        if col > 0 && row < v.len() {
            let line = v[row as int];
            let k = crate::text::char_index(line, col as int);
            let s = word_delete_start(line.take(k));
            let sb = byte_len(line.take(s));
            if s < k {
                &&& e2.document.buffer@ == v.update(
                    row as int,
                    line.take(s) + line.skip(k),
                )
                &&& e2.document.cursor == (Cursor { row, col: sb as usize })
                &&& e2.document.modified
                &&& recorded(
                    e.state.undo_history,
                    e2.state.undo_history,
                    crate::undo::last_action(e2.state.undo_history),
                )
                &&& crate::undo::last_action(e2.state.undo_history) matches
                    EditAction::DeleteRange { start_row, start_col, end_row, end_col, text }
                    && start_row == row && start_col == sb && end_row == row && end_col
                    == col && text@ == line.subrange(s, k)
            } else {
                same_doc(e.document, e2.document)
                    && e2.state.undo_history == e.state.undo_history
            }
        } else {
            same_doc(e.document, e2.document)
                && e2.state.undo_history == e.state.undo_history
        }
    }))
}

} // verus!

verus! {

/// What Ctrl-U in insert mode leaves in `e2` and returns, starting from `e`.
pub open spec fn deleted_to_line_start(e: Editor, e2: Editor, r: Result<(), Error>) -> bool {
    &&& (e2.wf())
    &&& (r is Ok)
    &&& (same_doc_meta(e.document, e2.document))
    &&& (same_but_undo(e.state, e2.state))
    &&& (({
        let v = e.document.buffer@;
        let row = e.document.cursor.row;
        let col = e.document.cursor.col;
        if col > 0 && row < v.len() {
            let line = v[row as int];
            let k = crate::text::char_index(line, col as int);
            &&& e2.document.buffer@ == v.update(row as int, line.skip(k))
            &&& e2.document.cursor == (Cursor { row, col: 0 })
            &&& e2.document.modified
            &&& recorded(
                e.state.undo_history,
                e2.state.undo_history,
                crate::undo::last_action(e2.state.undo_history),
            )
            &&& crate::undo::last_action(e2.state.undo_history) matches
                EditAction::DeleteRange { start_row, start_col, end_row, end_col, text }
                && start_row == row && start_col == 0 && end_row == row && end_col == col
                && text@ == line.take(k)
        } else {
            same_doc(e.document, e2.document)
                && e2.state.undo_history == e.state.undo_history
        }
    }))
}

} // verus!

verus! {

/// What expanding the abbreviation before the cursor leaves in `e2` and returns, starting from `e`.
pub open spec fn abbreviation_tried(e: Editor, e2: Editor, r: Result<bool, Error>) -> bool {
    &&& (e2.wf())
    &&& (({
        let a = crate::editor::mappings::abbrevs_view(e.state.mappings.abbreviations@);
        let v = e.document.buffer@;
        let row = e.document.cursor.row as int;
        let col = e.document.cursor.col as int;
        let line = v[row];
        let k = crate::text::char_index(line, col);
        let ws = word_start(line.take(k));
        let w = line.take(k).skip(ws);
        if a.len() == 0 || row >= v.len() || w.len() == 0 || abbrev_lookup(a, w) is None {
            &&& r == Ok::<bool, Error>(false)
            &&& same_doc(e.document, e2.document)
            &&& e2.state == e.state
        } else {
            let rhs = abbrev_lookup(a, w)->Some_0;
            let start = byte_len(line.take(ws));
            let v1 = v.update(row, line.take(ws) + line.skip(k));
            &&& r == Ok::<bool, Error>(true)
            &&& e2.document.buffer@ == crate::buffer::insert_text_result(v1, row as usize, start as usize, rhs)->Ok_0
            &&& crate::buffer::insert_text_result(v1, row as usize, start as usize, rhs) is Ok
            &&& e2.document.cursor == (Cursor { row: row as usize, col: (start + byte_len(rhs)) as usize })
            &&& e2.document.modified
            &&& same_doc_meta(e.document, e2.document)
            &&& same_but_undo(e.state, e2.state)
            &&& recorded_expansion(
                e.state.undo_history,
                e2.state.undo_history,
                row,
                start as int,
                col,
                w,
                rhs,
            )
        }
    }))
}

} // verus!

verus! {

/// Trailing whitespace from `a` on, after a non-blank (or nothing), is
/// what `trim_end_len` keeps up to.
proof fn lemma_trim_end_at(s: Seq<char>, a: int)
    requires
        0 <= a <= s.len(),
        forall|i: int| a <= i < s.len() ==> crate::buffer::unicode::spec_is_whitespace(#[trigger] s[i]),
        a == 0 || !crate::buffer::unicode::spec_is_whitespace(s[a - 1]),
    ensures
        trim_end_len(s) == a,
    decreases s.len(),
{
    if s.len() > a {
        assert(crate::buffer::unicode::spec_is_whitespace(s[s.len() - 1]));
        lemma_trim_end_at(s.drop_last(), a);
    }
}

/// Leading whitespace up to `b`, followed by a non-blank (or the end), is
/// what `blank_len` counts.
proof fn lemma_blank_len_at(s: Seq<char>, b: int)
    requires
        0 <= b <= s.len(),
        forall|i: int| 0 <= i < b ==> crate::buffer::unicode::spec_is_whitespace(#[trigger] s[i]),
        b == s.len() || !crate::buffer::unicode::spec_is_whitespace(s[b]),
    ensures
        crate::editor::movement::blank_len(s) == b,
    decreases s.len(),
{
    if b > 0 {
        assert forall|i: int| 0 <= i < b - 1 implies crate::buffer::unicode::spec_is_whitespace(
            #[trigger] s.skip(1)[i],
        ) by {
            assert(s.skip(1)[i] == s[i + 1]);
        }
        if b < s.len() {
            assert(s.skip(1)[b - 1] == s[b]);
        }
        lemma_blank_len_at(s.skip(1), b - 1);
    }
}

/// `J` on a line that has a next line: the line becomes the current line
/// without its trailing whitespace (it ends at `a`), then one space when
/// both sides keep text, then the next line without its leading whitespace
/// (it starts at `b`); the next line is removed.
pub proof fn law_join_trims_seam(e: Editor, e2: Editor, a: int, b: int)
    requires
        e.document.cursor.row + 1 < e.document.buffer@.len(),
        ({
            let v = e.document.buffer@;
            let row = e.document.cursor.row as int;
            let cur = v[row];
            let next = v[row + 1];
            joined(e, e2, joined_line(cur, next), byte_len(cur.take(trim_end_len(cur) as int)) as int)
        }),
        ({
            let cur = e.document.buffer@[e.document.cursor.row as int];
            &&& 0 <= a <= cur.len()
            &&& forall|i: int| a <= i < cur.len() ==> crate::buffer::unicode::spec_is_whitespace(#[trigger] cur[i])
            &&& a == 0 || !crate::buffer::unicode::spec_is_whitespace(cur[a - 1])
        }),
        ({
            let next = e.document.buffer@[e.document.cursor.row + 1];
            &&& 0 <= b <= next.len()
            &&& forall|i: int| 0 <= i < b ==> crate::buffer::unicode::spec_is_whitespace(#[trigger] next[i])
            &&& b == next.len() || !crate::buffer::unicode::spec_is_whitespace(next[b])
        }),
    ensures
        ({
            let v = e.document.buffer@;
            let row = e.document.cursor.row as int;
            let cur = v[row];
            let next = v[row + 1];
            &&& e2.document.buffer@.len() == v.len() - 1
            &&& e2.document.buffer@[row] == cur.take(a) + (if a > 0 && b < next.len() {
                seq![' ']
            } else {
                Seq::<char>::empty()
            }) + next.skip(b)
            &&& forall|i: int| row < i < e2.document.buffer@.len() ==> e2.document.buffer@[i] == v[i + 1]
        }),
{
    let v = e.document.buffer@;
    let row = e.document.cursor.row as int;
    let cur = v[row];
    let next = v[row + 1];
    lemma_trim_end_at(cur, a);
    lemma_blank_len_at(next, b);
    let tc = cur.take(a);
    let tn = next.skip(b);
    assert(tc.len() == a);
    assert(tn.len() == next.len() - b);
    if tc.len() == 0 || tn.len() == 0 {
        assert(tc + tn =~= tc + Seq::<char>::empty() + tn);
    }
}

} // verus!

verus! {

/// The columns the indentation `p` takes: a space one, a tab `ts`.
pub open spec fn indent_columns(p: Seq<char>, ts: int) -> int
    decreases p.len(),
{
    if p.len() == 0 {
        0
    } else {
        (if p[0] == '\t' {
            ts
        } else {
            1
        }) + indent_columns(p.skip(1), ts)
    }
}

/// Removing the leading indentation of `s` from column `c` on: blanks
/// only, within `sw` columns, and as much as fits.
proof fn lemma_dedent_from(s: Seq<char>, sw: int, ts: int, c: int)
    requires
        0 <= c <= sw,
        0 <= ts,
    ensures
        ({
            let d = dedent_len(s, sw, ts, c) as int;
            &&& d <= s.len()
            &&& forall|i: int| 0 <= i < d ==> (#[trigger] s[i] == ' ' || s[i] == '\t')
            &&& c + indent_columns(s.take(d), ts) <= sw
            &&& d == s.len() || c + indent_columns(s.take(d), ts) >= sw || (s[d] != ' ' && s[d] != '\t') || (
            s[d] == '\t' && c + indent_columns(s.take(d), ts) + ts > sw)
        }),
    decreases s.len(),
{
    let d = dedent_len(s, sw, ts, c) as int;
    if s.len() == 0 || c >= sw {
        assert(s.take(0) =~= Seq::<char>::empty());
    } else if s[0] == ' ' || (s[0] == '\t' && c + ts <= sw) {
        let w = if s[0] == '\t' {
            ts
        } else {
            1
        };
        let t = s.skip(1);
        lemma_dedent_from(t, sw, ts, c + w);
        let d1 = dedent_len(t, sw, ts, c + w) as int;
        assert(d == 1 + d1);
        assert(s.take(d).skip(1) =~= t.take(d1));
        assert(s.take(d)[0] == s[0]);
        assert forall|i: int| 0 <= i < d implies (#[trigger] s[i] == ' ' || s[i] == '\t') by {
            if i > 0 {
                assert(s[i] == t[i - 1]);
            }
        }
        if d < s.len() {
            assert(s[d] == t[d1]);
        }
    } else {
        assert(s.take(0) =~= Seq::<char>::empty());
    }
}

/// `<<` over rows `start..end`: each row in range loses a prefix made only
/// of spaces and tabs, worth at most `shiftwidth` columns (a space one
/// column, a tab `tabstop`), and as much of its indentation as fits in
/// that: it stops only at the end of the line, at `shiftwidth` columns, at
/// a non-blank, or at a tab that would go past `shiftwidth`.
pub proof fn law_shift_left_removes_indent(e: Editor, e2: Editor, end: int, i: int)
    requires
        shifted_editor(e, e2, end, false),
        e.document.cursor.row <= i < end,
        i < e.document.buffer@.len(),
    ensures
        ({
            let l = e.document.buffer@[i];
            let l2 = e2.document.buffer@[i];
            let d = l.len() - l2.len();
            let sw = e.state.settings.shiftwidth as int;
            let ts = e.state.settings.tabstop as int;
            &&& 0 <= d
            &&& l2 == l.skip(d)
            &&& forall|j: int| 0 <= j < d ==> (#[trigger] l[j] == ' ' || l[j] == '\t')
            &&& indent_columns(l.take(d), ts) <= sw
            &&& d == l.len() || indent_columns(l.take(d), ts) >= sw || (l[d] != ' ' && l[d] != '\t') || (l[d]
                == '\t' && indent_columns(l.take(d), ts) + ts > sw)
        }),
{
    let l = e.document.buffer@[i];
    let sw = e.state.settings.shiftwidth as int;
    let ts = e.state.settings.tabstop as int;
    lemma_dedent_from(l, sw, ts, 0);
    let d = dedent_len(l, sw, ts, 0) as int;
    assert(e2.document.buffer@[i] == shifted_line(
        e.document.buffer@,
        i,
        e.document.cursor.row as int,
        end,
        false,
        e.state.settings.shiftwidth as nat,
        e.state.settings.tabstop as nat,
    ));
    assert(e2.document.buffer@[i] == l.skip(d));
}

} // verus!
