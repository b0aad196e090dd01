//! Undo and redo: what each recorded action does to the buffer, forwards
//! and backwards, and the editor commands that apply whole entries.

use vstd::prelude::*;
use crate::buffer::{
    delete_range_result, insert_char_result, insert_line_result, insert_text_result,
    invalid_cursor, join_lines_result, remove_line_result, set_line_result, split_line_result,
    Cursor,
};
use crate::editor::editing::{end_overflows, text_end};
use crate::editor::{Editor, EditorState, StatusMessage};
use crate::error::{BufferError, Error};
use crate::text::char_width;
use crate::undo::EditAction;

verus! {

/// The position just after character `c` starting at (`row`, `col`), if
/// its column fits in `usize`.
pub open spec fn char_end(row: usize, col: usize, c: char) -> Option<Cursor> {
    if col + char_width(c) <= usize::MAX {
        Some(Cursor { row, col: (col + char_width(c)) as usize })
    } else {
        None
    }
}

/// Deleting the character `c` that starts at (`row`, `col`).
pub open spec fn delete_char_result(v: Seq<Seq<char>>, row: usize, col: usize, c: char) -> Result<
    Seq<Seq<char>>,
    BufferError,
> {
    match char_end(row, col, c) {
        Some(end) => delete_range_result(v, Cursor { row, col }, end),
        None => Err(invalid_cursor(Cursor { row, col })),
    }
}

/// Deleting the text `t` that starts at (`row`, `col`).
pub open spec fn delete_text_result(v: Seq<Seq<char>>, row: usize, col: usize, t: Seq<char>) -> Result<
    Seq<Seq<char>>,
    BufferError,
> {
    if end_overflows(row as int, col as int, t) {
        Err(invalid_cursor(Cursor { row, col }))
    } else {
        let (er, ec) = text_end(row as int, col as int, t);
        delete_range_result(v, Cursor { row, col }, Cursor { row: er as usize, col: ec as usize })
    }
}

/// Replacing the character `out` at (`row`, `col`) by `inn`.
pub open spec fn replace_char_result(
    v: Seq<Seq<char>>,
    row: usize,
    col: usize,
    out: char,
    inn: char,
) -> Result<Seq<Seq<char>>, BufferError> {
    match delete_char_result(v, row, col, out) {
        Err(e) => Err(e),
        Ok(v1) => insert_char_result(v1, row, col, inn),
    }
}

/// What redoing action `a` does to the lines `v`.
pub open spec fn forward_step(v: Seq<Seq<char>>, a: EditAction) -> Result<Seq<Seq<char>>, BufferError> {
    match a {
        EditAction::InsertChar { row, col, ch } => insert_char_result(v, row, col, ch),
        EditAction::InsertNewline { row, col } => split_line_result(v, row, col),
        EditAction::DeleteChar { row, col, ch } => delete_char_result(v, row, col, ch),
        EditAction::DeleteRange { start_row, start_col, end_row, end_col, .. } => delete_range_result(
            v,
            Cursor { row: start_row, col: start_col },
            Cursor { row: end_row, col: end_col },
        ),
        EditAction::InsertText { row, col, text } => insert_text_result(v, row, col, text@),
        EditAction::InsertLine { row, content } => insert_line_result(v, row, content@),
        EditAction::RemoveLine { row, .. } => remove_line_result(v, row),
        EditAction::JoinLines { row, .. } => join_lines_result(v, row),
        EditAction::SplitLine { row, col } => split_line_result(v, row, col),
        EditAction::ReplaceChar { row, col, old_char, new_char } => replace_char_result(
            v,
            row,
            col,
            old_char,
            new_char,
        ),
        EditAction::ReplaceLine { row, new_content, .. } => set_line_result(v, row, new_content@),
    }
}

/// What undoing action `a` does to the lines `v`.
pub open spec fn inverse_step(v: Seq<Seq<char>>, a: EditAction) -> Result<Seq<Seq<char>>, BufferError> {
    match a {
        EditAction::InsertChar { row, col, ch } => delete_char_result(v, row, col, ch),
        EditAction::InsertNewline { row, .. } => join_lines_result(v, row),
        EditAction::DeleteChar { row, col, ch } => insert_char_result(v, row, col, ch),
        EditAction::DeleteRange { start_row, start_col, text, .. } => insert_text_result(
            v,
            start_row,
            start_col,
            text@,
        ),
        EditAction::InsertText { row, col, text } => delete_text_result(v, row, col, text@),
        EditAction::InsertLine { row, .. } => remove_line_result(v, row),
        EditAction::RemoveLine { row, content } => insert_line_result(v, row, content@),
        EditAction::JoinLines { row, col } => split_line_result(v, row, col),
        EditAction::SplitLine { row, .. } => join_lines_result(v, row),
        EditAction::ReplaceChar { row, col, old_char, new_char } => replace_char_result(
            v,
            row,
            col,
            new_char,
            old_char,
        ),
        EditAction::ReplaceLine { row, old_content, .. } => set_line_result(v, row, old_content@),
    }
}

/// Undoing the actions `acts`, last first: the lines reached and the
/// error that stopped it, if any.
pub open spec fn undo_all(v: Seq<Seq<char>>, acts: Seq<EditAction>) -> (Seq<Seq<char>>, Option<BufferError>)
    decreases acts.len(),
{
    if acts.len() == 0 {
        (v, None)
    } else {
        match inverse_step(v, acts.last()) {
            Err(e) => (v, Some(e)),
            Ok(v1) => undo_all(v1, acts.drop_last()),
        }
    }
}

/// Redoing the actions `acts`, first first: the lines reached and the
/// error that stopped it, if any.
pub open spec fn redo_all(v: Seq<Seq<char>>, acts: Seq<EditAction>) -> (Seq<Seq<char>>, Option<BufferError>)
    decreases acts.len(),
{
    if acts.len() == 0 {
        (v, None)
    } else {
        match forward_step(v, acts[0]) {
            Err(e) => (v, Some(e)),
            Ok(v1) => redo_all(v1, acts.skip(1)),
        }
    }
}

/// `e2` is `e` with its buffer replaced by the outcome of `res`, which
/// `r` reports; nothing else changes.
pub open spec fn stepped(e: Editor, e2: Editor, res: Result<Seq<Seq<char>>, BufferError>, r: Result<(), Error>) -> bool {
    &&& e2.state == e.state
    &&& e2.document.cursor == e.document.cursor
    &&& e2.document.modified == e.document.modified
    &&& crate::editor::editing::same_doc_meta(e.document, e2.document)
    &&& match res {
        Ok(w) => r is Ok && e2.document.buffer@ == w,
        Err(be) => r == Err::<(), Error>(Error::Buffer(be)) && e2.document.buffer@ == e.document.buffer@,
    }
}

impl Editor {
    /// Delete the character `c` that starts at (`row`, `col`).
    fn delete_char_at(&mut self, row: usize, col: usize, c: char) -> (r: Result<(), Error>)
        requires
            old(self).wf(),
        ensures
            final(self).wf(),
            stepped(*old(self), *final(self), delete_char_result(old(self).document.buffer@, row, col, c), r),
    {
        let end_col = match col.checked_add(crate::text::utf8_width(c)) {
            Some(e) => e,
            None => return Err(Error::Buffer(BufferError::InvalidCursor { row, col })),
        };
        let start = Cursor::new(row, col);
        let end = Cursor::new(row, end_col);
        match self.document.buffer.delete_range(&start, &end) {
            Ok(()) => Ok(()),
            Err(e) => Err(Error::Buffer(e)),
        }
    }

    /// Insert the character `c` at (`row`, `col`).
    fn insert_char_at(&mut self, row: usize, col: usize, c: char) -> (r: Result<(), Error>)
        requires
            old(self).wf(),
        ensures
            final(self).wf(),
            stepped(*old(self), *final(self), insert_char_result(old(self).document.buffer@, row, col, c), r),
    {
        let p = Cursor::new(row, col);
        match self.document.buffer.insert_char(&p, c) {
            Ok(()) => Ok(()),
            Err(e) => Err(Error::Buffer(e)),
        }
    }
}

/// After deleting a character, its position is still a valid position.
proof fn lemma_insert_after_delete(v: Seq<Seq<char>>, row: usize, col: usize, out: char, inn: char)
    requires
        delete_char_result(v, row, col, out) is Ok,
    ensures
        insert_char_result(delete_char_result(v, row, col, out)->Ok_0, row, col, inn) is Ok,
{
    let end = char_end(row, col, out)->Some_0;
    let start = Cursor { row, col };
    let v1 = delete_char_result(v, row, col, out)->Ok_0;
    let line = v[row as int];
    let k1 = crate::buffer::pos_index(v, start);
    let k2 = crate::buffer::pos_index(v, end);
    let joined = line.take(k1) + line.skip(k2);
    assert(v1 == v.take(row as int).push(joined) + v.skip(row + 1));
    assert(v1[row as int] == joined);
    crate::text::lemma_byte_len_concat(line.take(k1), line.skip(k2));
    assert(joined.take(k1) =~= line.take(k1));
    assert(crate::text::byte_len(joined.take(k1)) == col);
    assert(crate::text::is_boundary(joined, col as int));
}

impl Editor {
    /// Replace the character `out` at (`row`, `col`) by `inn`.
    fn replace_char_at(&mut self, row: usize, col: usize, out: char, inn: char) -> (r: Result<(), Error>)
        requires
            old(self).wf(),
        ensures
            final(self).wf(),
            stepped(*old(self), *final(self), replace_char_result(old(self).document.buffer@, row, col, out, inn), r),
    {
        match self.delete_char_at(row, col, out) {
            Ok(()) => {},
            Err(e) => return Err(e),
        }
        proof {
            lemma_insert_after_delete(old(self).document.buffer@, row, col, out, inn);
        }
        self.insert_char_at(row, col, inn)
    }

    /// Replace line `row` with `content`.
    fn set_line_at(&mut self, row: usize, content: &String) -> (r: Result<(), Error>)
        requires
            old(self).wf(),
        ensures
            final(self).wf(),
            stepped(*old(self), *final(self), set_line_result(old(self).document.buffer@, row, content@), r),
    {
        match self.document.buffer.set_line(row, content.clone()) {
            Ok(()) => Ok(()),
            Err(e) => Err(Error::Buffer(e)),
        }
    }

    /// Apply the inverse of `action` to the buffer (used by undo).
    fn apply_inverse_action(&mut self, action: &EditAction) -> (r: Result<(), Error>)
        requires
            old(self).wf(),
        ensures
            final(self).wf(),
            stepped(*old(self), *final(self), inverse_step(old(self).document.buffer@, *action), r),
    {
        match action {
            EditAction::InsertChar { row, col, ch } => self.delete_char_at(*row, *col, *ch),
            EditAction::InsertNewline { row, col: _ } => match self.document.buffer.join_lines(*row) {
                Ok(()) => Ok(()),
                Err(e) => Err(Error::Buffer(e)),
            },
            EditAction::DeleteChar { row, col, ch } => self.insert_char_at(*row, *col, *ch),
            EditAction::DeleteRange { start_row, start_col, text, .. } => self.insert_text_at(
                *start_row,
                *start_col,
                text.as_str(),
            ),
            EditAction::InsertText { row, col, text } => self.delete_text_at(*row, *col, text.as_str()),
            EditAction::InsertLine { row, .. } => match self.document.buffer.remove_line(*row) {
                Ok(()) => Ok(()),
                Err(e) => Err(Error::Buffer(e)),
            },
            EditAction::RemoveLine { row, content } => match self.document.buffer.insert_line(
                *row,
                content.clone(),
            ) {
                Ok(()) => Ok(()),
                Err(e) => Err(Error::Buffer(e)),
            },
            EditAction::JoinLines { row, col } => {
                let p = Cursor::new(*row, *col);
                match self.document.buffer.split_line(&p) {
                    Ok(()) => Ok(()),
                    Err(e) => Err(Error::Buffer(e)),
                }
            },
            EditAction::SplitLine { row, .. } => match self.document.buffer.join_lines(*row) {
                Ok(()) => Ok(()),
                Err(e) => Err(Error::Buffer(e)),
            },
            EditAction::ReplaceChar { row, col, old_char, new_char } => self.replace_char_at(
                *row,
                *col,
                *new_char,
                *old_char,
            ),
            EditAction::ReplaceLine { row, old_content, .. } => self.set_line_at(*row, old_content),
        }
    }

    /// Apply `action` to the buffer again (used by redo).
    fn apply_forward_action(&mut self, action: &EditAction) -> (r: Result<(), Error>)
        requires
            old(self).wf(),
        ensures
            final(self).wf(),
            stepped(*old(self), *final(self), forward_step(old(self).document.buffer@, *action), r),
    {
        match action {
            EditAction::InsertChar { row, col, ch } => self.insert_char_at(*row, *col, *ch),
            EditAction::InsertNewline { row, col } => {
                let p = Cursor::new(*row, *col);
                match self.document.buffer.split_line(&p) {
                    Ok(()) => Ok(()),
                    Err(e) => Err(Error::Buffer(e)),
                }
            },
            EditAction::DeleteChar { row, col, ch } => self.delete_char_at(*row, *col, *ch),
            EditAction::DeleteRange { start_row, start_col, end_row, end_col, .. } => {
                let start = Cursor::new(*start_row, *start_col);
                let end = Cursor::new(*end_row, *end_col);
                match self.document.buffer.delete_range(&start, &end) {
                    Ok(()) => Ok(()),
                    Err(e) => Err(Error::Buffer(e)),
                }
            },
            EditAction::InsertText { row, col, text } => self.insert_text_at(*row, *col, text.as_str()),
            EditAction::InsertLine { row, content } => match self.document.buffer.insert_line(
                *row,
                content.clone(),
            ) {
                Ok(()) => Ok(()),
                Err(e) => Err(Error::Buffer(e)),
            },
            EditAction::RemoveLine { row, .. } => match self.document.buffer.remove_line(*row) {
                Ok(()) => Ok(()),
                Err(e) => Err(Error::Buffer(e)),
            },
            EditAction::JoinLines { row, .. } => match self.document.buffer.join_lines(*row) {
                Ok(()) => Ok(()),
                Err(e) => Err(Error::Buffer(e)),
            },
            EditAction::SplitLine { row, col } => {
                let p = Cursor::new(*row, *col);
                match self.document.buffer.split_line(&p) {
                    Ok(()) => Ok(()),
                    Err(e) => Err(Error::Buffer(e)),
                }
            },
            EditAction::ReplaceChar { row, col, old_char, new_char } => self.replace_char_at(
                *row,
                *col,
                *old_char,
                *new_char,
            ),
            EditAction::ReplaceLine { row, new_content, .. } => self.set_line_at(*row, new_content),
        }
    }
}

/// What undo leaves in `e2`, given the result `r`: the newest entry moves
/// to the redo stack and its actions are undone, last first; then the
/// cursor and modified flag are those from before the entry, and the view
/// scrolls to show the cursor. An action that cannot be undone stops it
/// with its error. With nothing to undo, an error message is shown.
pub open spec fn undone(e: Editor, e2: Editor, r: Result<(), Error>) -> bool {
    let h = e.state.undo_history;
    let v = e.document.buffer@;
    &&& crate::editor::editing::same_doc_meta(e.document, e2.document)
    &&& if h.spec_undo().len() == 0 {
        &&& r is Ok
        &&& crate::editor::editing::same_doc(e.document, e2.document)
        &&& e2.state == (EditorState { status_message: e2.state.status_message, ..e.state })
        &&& e2.state.status_message matches Some(StatusMessage::Error(m)) && m@ == "Already at oldest change"@
    } else {
        let entry = h.spec_undo().last();
        let (w, err) = undo_all(v, entry.spec_actions());
        &&& e2.document.buffer@ == w
        &&& e2.state == (EditorState {
            undo_history: e2.state.undo_history,
            viewport: e2.state.viewport,
            ..e.state
        })
        &&& (e2.state.undo_history.spec_undo(), e2.state.undo_history.spec_redo())
            == crate::undo::stacks_after_undo(h.spec_undo(), h.spec_redo())
        &&& e2.state.undo_history.spec_current() == h.spec_current()
        &&& match err {
            None => {
                &&& r is Ok
                &&& e2.document.cursor == entry.spec_cursor_before()
                &&& e2.document.modified == entry.spec_modified_before()
                &&& e2.state.viewport.spec_top() == crate::render::top_showing(
                    e.state.viewport.spec_top() as int,
                    e.state.viewport.spec_height() as int,
                    entry.spec_cursor_before().row as int,
                )
                &&& e2.state.viewport.spec_height() == e.state.viewport.spec_height()
                &&& e2.state.viewport.spec_width() == e.state.viewport.spec_width()
            },
            Some(be) => {
                &&& r == Err::<(), Error>(Error::Buffer(be))
                &&& e2.document.cursor == e.document.cursor
                &&& e2.document.modified == e.document.modified
                &&& e2.state.viewport == e.state.viewport
            },
        }
    }
}

/// What redo leaves in `e2`, given the result `r`: the most recently
/// undone entry moves back to the undo stack and its actions are redone,
/// first first; then the cursor is the one after the entry, the document
/// is modified, and the view scrolls to show the cursor. An action that
/// cannot be redone stops it with its error. With nothing to redo, an error
/// message is shown.
pub open spec fn redone(e: Editor, e2: Editor, r: Result<(), Error>) -> bool {
    let h = e.state.undo_history;
    let v = e.document.buffer@;
    &&& crate::editor::editing::same_doc_meta(e.document, e2.document)
    &&& if h.spec_redo().len() == 0 {
        &&& r is Ok
        &&& crate::editor::editing::same_doc(e.document, e2.document)
        &&& e2.state == (EditorState { status_message: e2.state.status_message, ..e.state })
        &&& e2.state.status_message matches Some(StatusMessage::Error(m)) && m@ == "Already at newest change"@
    } else {
        let entry = h.spec_redo().last();
        let (w, err) = redo_all(v, entry.spec_actions());
        &&& e2.document.buffer@ == w
        &&& e2.state == (EditorState {
            undo_history: e2.state.undo_history,
            viewport: e2.state.viewport,
            ..e.state
        })
        &&& (e2.state.undo_history.spec_undo(), e2.state.undo_history.spec_redo())
            == crate::undo::stacks_after_redo(h.spec_undo(), h.spec_redo())
        &&& e2.state.undo_history.spec_current() == h.spec_current()
        &&& match err {
            None => {
                &&& r is Ok
                &&& e2.document.cursor == entry.spec_cursor_after()
                &&& e2.document.modified
                &&& e2.state.viewport.spec_top() == crate::render::top_showing(
                    e.state.viewport.spec_top() as int,
                    e.state.viewport.spec_height() as int,
                    entry.spec_cursor_after().row as int,
                )
                &&& e2.state.viewport.spec_height() == e.state.viewport.spec_height()
                &&& e2.state.viewport.spec_width() == e.state.viewport.spec_width()
            },
            Some(be) => {
                &&& r == Err::<(), Error>(Error::Buffer(be))
                &&& e2.document.cursor == e.document.cursor
                &&& e2.document.modified == e.document.modified
                &&& e2.state.viewport == e.state.viewport
            },
        }
    }
}

impl Editor {
    /// Undo the newest entry of the undo history (`u`).
    pub fn apply_undo(&mut self) -> (r: Result<(), Error>)
        requires
            old(self).wf(),
        ensures
            final(self).wf(),
            undone(*old(self), *final(self), r),
    {
        if !self.state.undo_history.can_undo() {
            self.state.status_message = Some(StatusMessage::Error("Already at oldest change".to_owned()));
            return Ok(());
        }
        let entry = match self.state.undo_history.undo() {
            Some(e) => e,
            None => return Ok(()),
        };
        let acts = entry.actions();
        let ghost v0 = self.document.buffer@;
        let mut i: usize = acts.len();
        assert(acts@.take(i as int) =~= acts@);
        while i > 0
            invariant
                self.wf(),
                i <= acts@.len(),
                acts@ == entry.spec_actions(),
                undo_all(v0, acts@) == undo_all(self.document.buffer@, acts@.take(i as int)),
                v0 == old(self).document.buffer@,
                old(self).state.undo_history.spec_undo().len() > 0,
                crate::undo::same_entry(entry, old(self).state.undo_history.spec_undo().last()),
                (self.state.undo_history.spec_undo(), self.state.undo_history.spec_redo())
                    == crate::undo::stacks_after_undo(
                    old(self).state.undo_history.spec_undo(),
                    old(self).state.undo_history.spec_redo(),
                ),
                self.state.undo_history.spec_current() == old(self).state.undo_history.spec_current(),
                crate::editor::editing::same_doc_meta(old(self).document, self.document),
                self.document.cursor == old(self).document.cursor,
                self.document.modified == old(self).document.modified,
                self.state == (EditorState { undo_history: self.state.undo_history, ..old(self).state }),
            decreases i,
        {
            proof {
                assert(acts@.take(i as int).drop_last() =~= acts@.take(i - 1));
                assert(acts@.take(i as int).last() == acts@[i - 1]);
            }
            match self.apply_inverse_action(&acts[i - 1]) {
                Ok(()) => {},
                Err(e) => {
                    return Err(e);
                },
            }
            i = i - 1;
        }
        assert(acts@.take(0) =~= Seq::<EditAction>::empty());
        self.document.cursor = entry.cursor_before();
        self.document.modified = entry.modified_before();
        let row = self.document.cursor.row;
        let n = self.document.buffer.len();
        self.state.viewport.ensure_visible(row, n);
        Ok(())
    }

    /// Redo the most recently undone entry (`Ctrl-R`).
    pub fn apply_redo(&mut self) -> (r: Result<(), Error>)
        requires
            old(self).wf(),
        ensures
            final(self).wf(),
            redone(*old(self), *final(self), r),
    {
        if !self.state.undo_history.can_redo() {
            self.state.status_message = Some(StatusMessage::Error("Already at newest change".to_owned()));
            return Ok(());
        }
        let entry = match self.state.undo_history.redo() {
            Some(e) => e,
            None => return Ok(()),
        };
        let acts = entry.actions();
        let ghost v0 = self.document.buffer@;
        let mut i: usize = 0;
        assert(acts@.skip(0) =~= acts@);
        while i < acts.len()
            invariant
                self.wf(),
                i <= acts@.len(),
                acts@ == entry.spec_actions(),
                redo_all(v0, acts@) == redo_all(self.document.buffer@, acts@.skip(i as int)),
                v0 == old(self).document.buffer@,
                old(self).state.undo_history.spec_redo().len() > 0,
                crate::undo::same_entry(entry, old(self).state.undo_history.spec_redo().last()),
                (self.state.undo_history.spec_undo(), self.state.undo_history.spec_redo())
                    == crate::undo::stacks_after_redo(
                    old(self).state.undo_history.spec_undo(),
                    old(self).state.undo_history.spec_redo(),
                ),
                self.state.undo_history.spec_current() == old(self).state.undo_history.spec_current(),
                crate::editor::editing::same_doc_meta(old(self).document, self.document),
                self.document.cursor == old(self).document.cursor,
                self.document.modified == old(self).document.modified,
                self.state == (EditorState { undo_history: self.state.undo_history, ..old(self).state }),
            decreases acts.len() - i,
        {
            proof {
                assert(acts@.skip(i as int).skip(1) =~= acts@.skip(i + 1));
                assert(acts@.skip(i as int)[0] == acts@[i as int]);
            }
            match self.apply_forward_action(&acts[i]) {
                Ok(()) => {},
                Err(e) => return Err(e),
            }
            i = i + 1;
        }
        assert(acts@.skip(i as int) =~= Seq::<EditAction>::empty());
        self.document.cursor = entry.cursor_after();
        self.document.modified = true;
        let row = self.document.cursor.row;
        let n = self.document.buffer.len();
        self.state.viewport.ensure_visible(row, n);
        Ok(())
    }
}

} // verus!
