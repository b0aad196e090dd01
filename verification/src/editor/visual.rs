//! Visual mode: entering and leaving it, the selection it keeps, and the
//! operators applied to that selection.

use vstd::prelude::*;
use crate::buffer::{cursor_before, normalized, Cursor, Selection, SelectionType};
use crate::editor::keys::visual_kind_to_selection_type;
use crate::editor::{Document, Editor, EditorState, InsertState, NavigationState};
use crate::error::Error;
use crate::mode::{Mode, VisualKind};
use crate::editor::case_ops::{
    changed_rows, is_case_op, replaced_each, rows_replaced, span_case, CaseSpan,
};
use crate::editor::editing::{same_doc_meta, shifted_editor};
use crate::buffer::unicode::next_grapheme_end;
use crate::editor::movement::{clamp_col, min};
use crate::editor::yank_put::{
    byte_slice, delete_lines_post, deletes_range, lines_text, range_cuts_ok, range_deleted, register_id,
    text_in_range,
};
use crate::registers::{
    get_after_delete, get_after_yank, register_target, ContentType, RegisterContent, RegisterId,
};
use crate::text::char_index;
use crate::undo::{ended, recent_actions, recorded_seq, EditAction, UndoHistory};
use crate::mode::Operator;
use crate::text::{byte_len, is_boundary};
use crate::undo::{begun, grouped, grouped_actions};

verus! {

broadcast use vstd::std_specs::hash::group_hash_axioms;

/// The selection type a visual mode selects with.
pub open spec fn selection_type_of(kind: VisualKind) -> SelectionType {
    match kind {
        VisualKind::Character => SelectionType::Character,
        VisualKind::Line => SelectionType::Line,
        VisualKind::Block => SelectionType::Block,
    }
}

/// The key under which mark `c` is kept.
pub open spec fn mark_key(c: char) -> u32 {
    c as u32
}

/// The marks after leaving a visual selection anchored at `anchor` with
/// the cursor at `cursor`: `<` at the earlier of the two, `>` at the later.
pub open spec fn visual_marks(marks: Map<u32, Cursor>, anchor: Option<Cursor>, cursor: Cursor) -> Map<
    u32,
    Cursor,
> {
    match anchor {
        Some(a) => {
            let (s, e) = if !cursor_before(cursor, a) {
                (a, cursor)
            } else {
                (cursor, a)
            };
            marks.insert(mark_key('<'), s).insert(mark_key('>'), e)
        },
        None => marks,
    }
}

/// The selection of `e` as visual mode `kind` shows it: from the anchor to
/// the cursor, when there is an anchor.
pub open spec fn visual_selection(e: Editor, kind: VisualKind) -> Option<Selection> {
    match e.state.visual_anchor {
        Some(a) => Some(Selection { start: a, end: e.document.cursor, kind: selection_type_of(kind) }),
        None => e.document.selection,
    }
}

/// `e2` is `e` having left visual mode for `mode`: the anchor and the
/// selection are gone and the visual marks are set; the rest of the state
/// but the insert session and the undo history stays.
pub open spec fn left_visual(e: Editor, e2: Editor, mode: Mode) -> bool {
    &&& e2.document == (Document { selection: None, ..e.document })
    &&& e2.state.mode == mode
    &&& e2.state.visual_anchor is None
    &&& e2.state.navigation == (NavigationState {
        marks: e2.state.navigation.marks,
        ..e.state.navigation
    })
    &&& e2.state.navigation.marks@ == visual_marks(
        e.state.navigation.marks@,
        e.state.visual_anchor,
        e.document.cursor,
    )
}

impl Editor {
    /// Set a visual mark: `<` or `>` under its code point.
    fn set_visual_marks(&mut self)
        ensures
            final(self).document == old(self).document,
            final(self).state == (EditorState { navigation: final(self).state.navigation, ..old(self).state }),
            final(self).state.navigation == (NavigationState {
                marks: final(self).state.navigation.marks,
                ..old(self).state.navigation
            }),
            final(self).state.navigation.marks@ == visual_marks(
                old(self).state.navigation.marks@,
                old(self).state.visual_anchor,
                old(self).document.cursor,
            ),
    {
        if let Some(anchor) = self.state.visual_anchor {
            let cursor = self.document.cursor;
            let anchor_first = !(cursor.row < anchor.row || (cursor.row == anchor.row && cursor.col
                < anchor.col));
            let (start, end) = if anchor_first {
                (anchor, cursor)
            } else {
                (cursor, anchor)
            };
            let lt: u32 = '<' as u32;
            let gt: u32 = '>' as u32;
            self.state.navigation.marks.insert(lt, start);
            self.state.navigation.marks.insert(gt, end);
        }
    }

    /// Enter visual mode `kind` (`v`, `V`, Ctrl-V): the anchor and an
    /// empty-width selection at the cursor.
    pub fn enter_visual_mode(&mut self, kind: VisualKind) -> (r: Result<(), Error>)
        ensures
            visual_entered(*old(self), *final(self), kind, r),

    {
        let anchor = self.document.cursor;
        self.state.mode = Mode::Visual(kind);
        self.state.visual_anchor = Some(anchor);
        let sel_type = visual_kind_to_selection_type(kind);
        self.document.selection = Some(Selection::new(anchor, anchor, sel_type));
        Ok(())
    }

    /// Make the selection run from the anchor to the cursor, as visual mode
    /// `kind` selects; without an anchor nothing changes.
    pub fn update_visual_selection(&mut self, kind: VisualKind)
        ensures
            selection_updated(*old(self), *final(self), kind),

    {
        if let Some(anchor) = self.state.visual_anchor {
            let sel_type = visual_kind_to_selection_type(kind);
            self.document.selection = Some(Selection::new(anchor, self.document.cursor, sel_type));
        }
    }

    /// Switch to visual mode `new_kind`, keeping the anchor.
    pub fn switch_visual_kind(&mut self, new_kind: VisualKind) -> (r: Result<(), Error>)
        ensures
            kind_switched(*old(self), *final(self), new_kind, r),

    {
        self.state.mode = Mode::Visual(new_kind);
        self.update_visual_selection(new_kind);
        Ok(())
    }

    /// Leave visual mode for normal mode: the anchor and the selection are
    /// cleared, and the marks `<` and `>` keep where the selection began
    /// and ended.
    pub fn exit_visual_mode(&mut self)
        ensures
            visual_exited(*old(self), *final(self)),

    {
        self.set_visual_marks();
        self.state.mode = Mode::Normal;
        self.state.visual_anchor = None;
        self.document.selection = None;
    }

    /// Leave visual mode for insert mode (`c`): as `exit_visual_mode`, then
    /// an undo group opens at the cursor and a fresh insert session starts.
    pub fn exit_visual_mode_to_insert(&mut self)
        ensures
            left_visual(*old(self), *final(self), Mode::Insert),
            final(self).state == (EditorState {
                mode: Mode::Insert,
                visual_anchor: None,
                navigation: final(self).state.navigation,
                undo_history: final(self).state.undo_history,
                insert_state: final(self).state.insert_state,
                ..old(self).state
            }),
            begun(
                old(self).state.undo_history,
                final(self).state.undo_history,
                old(self).document.cursor,
                old(self).document.modified,
            ),
            final(self).state.insert_state == (InsertState {
                insert_keys: final(self).state.insert_state.insert_keys,
                insert_entry_kind: None,
                ..old(self).state.insert_state
            }),
            final(self).state.insert_state.insert_keys@.len() == 0,
    {
        self.set_visual_marks();
        self.state.mode = Mode::Insert;
        self.state.visual_anchor = None;
        self.document.selection = None;
        self.state.undo_history.begin_group(self.document.cursor, self.document.modified);
        self.state.insert_state.insert_keys.clear();
        self.state.insert_state.insert_entry_kind = None;
    }
}

} // verus!

verus! {

/// The selection of `e` with its start not after its end, if any.
pub open spec fn ordered_selection(e: Editor) -> Option<Selection> {
    match e.document.selection {
        Some(s) => Some(normalized(s)),
        None => None,
    }
}

/// The span a visual case operation covers in mode `kind`.
pub open spec fn case_span_of(kind: VisualKind) -> CaseSpan {
    match kind {
        VisualKind::Character => CaseSpan::Selected,
        _ => CaseSpan::Lines,
    }
}

/// The columns a characterwise visual operation ends at are character
/// boundaries: the selection's end column on its row, cut to the line.
pub open spec fn selection_end_ok(v: Seq<Seq<char>>, n: Selection) -> bool {
    n.end.row < v.len() ==> is_boundary(
        v[n.end.row as int],
        min(n.end.col as int, byte_len(v[n.end.row as int]) as int),
    )
}

/// `e2` is `e` after the rows of the selection `n` (those that exist) were
/// each replaced by what `f` makes of them, as one undoable change; the
/// document is marked modified and the cursor goes to the selection's
/// start, clamped to its line.
pub open spec fn visual_rows_changed(
    e: Editor,
    e2: Editor,
    n: Selection,
    f: spec_fn(int, Seq<char>) -> Seq<char>,
) -> bool {
    let v = e.document.buffer@;
    let end = min(n.end.row + 1, v.len() as int);
    let acts = grouped_actions(
        e.state.undo_history,
        e2.state.undo_history,
        changed_rows(v, n.start.row as int, end, f).len() as int,
    );
    &&& e2.document.buffer@ == rows_replaced(v, n.start.row as int, end, f)
    &&& e2.document.modified
    &&& same_doc_meta(e.document, e2.document)
    &&& e2.document.cursor.row == n.start.row
    &&& clamp_col(
        e.state.mode,
        e2.document.buffer@,
        n.start.row as int,
        n.start.col as int,
        e2.document.cursor.col as int,
    )
    &&& e2.state == (EditorState { undo_history: e2.state.undo_history, ..e.state })
    &&& grouped(
        e.state.undo_history,
        e2.state.undo_history,
        e.document.cursor,
        e.document.modified,
        acts,
        e2.document.cursor,
    )
    &&& replaced_each(acts, v, n.start.row as int, end, f)
}

impl Editor {
    /// Apply the case operator `operator` to the visual selection of mode
    /// `kind`: characterwise from its start to the end of the grapheme
    /// cluster at its end, otherwise whole lines; one undoable change, the
    /// cursor going to the selection's start. Without a selection nothing
    /// happens.
    pub fn execute_visual_case_operator(&mut self, kind: VisualKind, operator: Operator) -> (r: Result<
        (),
        Error,
    >)
        requires
            old(self).wf(),
            is_case_op(operator),
            kind is Character ==> (ordered_selection(*old(self)) matches Some(n) ==> selection_end_ok(
                old(self).document.buffer@,
                n,
            )),
        ensures
            final(self).wf(),
            r is Ok,
            match ordered_selection(*old(self)) {
                None => *final(self) == *old(self),
                Some(n) => visual_rows_changed(
                    *old(self),
                    *final(self),
                    n,
                    span_case(case_span_of(kind), n.start, n.end, operator),
                ),
            },
    {
        let sel = match &self.document.selection {
            Some(s) => s.normalize(),
            None => return Ok(()),
        };
        let ghost e0 = *self;
        let ghost h0 = self.state.undo_history;
        self.state.undo_history.begin_group(self.document.cursor, self.document.modified);
        let ghost h1 = self.state.undo_history;
        let ghost e1 = *self;
        let n = self.document.buffer.len();
        let span = match kind {
            VisualKind::Character => CaseSpan::Selected,
            _ => CaseSpan::Lines,
        };
        if n > 0 {
            let last = n - 1;
            let t = if sel.end.row < last {
                sel.end.row
            } else {
                last
            };
            self.recase_rows(sel.start.row, t, sel.start, sel.end, span, operator);
        }
        let ghost e2 = *self;
        self.document.modified = true;
        self.document.cursor = sel.start;
        self.clamp_cursor_to_line();
        let ghost h2 = self.state.undo_history;
        self.state.undo_history.end_group(self.document.cursor);
        proof {
            let v = e0.document.buffer@;
            let f = span_case(span, sel.start, sel.end, operator);
            let end = min(sel.end.row + 1, v.len() as int);
            let acts = crate::undo::recent_actions(h1, h2);
            assert(n > 0);
            crate::undo::lemma_grouped(h0, h1, h2, self.state.undo_history, e0.document.cursor, e0.document.modified, acts, self.document.cursor);
        }
        Ok(())
    }

    /// Toggle the case of the visual selection of mode `kind` (`~`), as
    /// `execute_visual_case_operator` does with the toggle-case operator.
    pub fn execute_visual_toggle_case(&mut self, kind: VisualKind) -> (r: Result<(), Error>)
        requires
            old(self).wf(),
            kind is Character ==> (ordered_selection(*old(self)) matches Some(n) ==> selection_end_ok(
                old(self).document.buffer@,
                n,
            )),
        ensures
            visual_toggled(*old(self), *final(self), kind, r),

    {
        self.execute_visual_case_operator(kind, Operator::ToggleCase)
    }
}

} // verus!

verus! {

/// What the block selection `n` covers of `line`: from its start column to
/// the end of the grapheme cluster at its end column, both cut to the line.
pub open spec fn block_piece(line: Seq<char>, n: Selection) -> Seq<char> {
    let len = byte_len(line) as int;
    byte_slice(line, min(n.start.col as int, len), next_grapheme_end(line, min(n.end.col as int, len)))
}

/// The pieces of rows `n.start.row..e` under the block selection `n`,
/// joined by line feeds.
pub open spec fn block_rows_text(v: Seq<Seq<char>>, n: Selection, e: int) -> Seq<char>
    decreases e - n.start.row,
{
    if e <= n.start.row {
        Seq::empty()
    } else if e == n.start.row + 1 {
        block_piece(v[n.start.row as int], n)
    } else {
        block_rows_text(v, n, e - 1) + seq!['\n'] + block_piece(v[e - 1], n)
    }
}

/// The text of the block selection `n`: the pieces of its rows that exist,
/// joined by line feeds.
pub open spec fn block_text(v: Seq<Seq<char>>, n: Selection) -> Seq<char> {
    block_rows_text(v, n, min(n.end.row + 1, v.len() as int))
}

/// The block selection `n` runs left to right, and both its columns, cut to
/// each of its rows that exist, are character boundaries there.
pub open spec fn block_cuts_ok(v: Seq<Seq<char>>, n: Selection) -> bool {
    &&& n.start.col <= n.end.col
    &&& forall|r: int|
        n.start.row <= r <= n.end.row && r < v.len() ==> {
            &&& is_boundary(#[trigger] v[r], min(n.start.col as int, byte_len(v[r]) as int))
            &&& is_boundary(v[r], min(n.end.col as int, byte_len(v[r]) as int))
        }
}

/// The exclusive end of a characterwise visual selection `n`: past the
/// grapheme cluster at its end.
pub open spec fn char_end(v: Seq<Seq<char>>, n: Selection) -> Cursor {
    Cursor {
        row: n.end.row,
        col: if n.end.row < v.len() {
            next_grapheme_end(v[n.end.row as int], n.end.col as int) as usize
        } else {
            n.end.col
        },
    }
}

/// A characterwise visual selection `n` can be cut out of `v`: its end
/// column is a character boundary of its row, and the range it covers is
/// cut at character boundaries.
pub open spec fn char_cuts_ok(v: Seq<Seq<char>>, n: Selection) -> bool {
    &&& n.end.row < v.len() ==> is_boundary(v[n.end.row as int], n.end.col as int)
    &&& range_cuts_ok(v, n.start, char_end(v, n))
}

/// The selection of `e` can be cut as visual mode `kind` cuts it.
pub open spec fn visual_cuts_ok(e: Editor, kind: VisualKind) -> bool {
    ordered_selection(e) matches Some(n) ==> match kind {
        VisualKind::Character => char_cuts_ok(e.document.buffer@, n),
        VisualKind::Line => n.end.row < usize::MAX,
        VisualKind::Block => block_cuts_ok(e.document.buffer@, n),
    }
}

/// The text visual mode `kind` takes from the selection `n` of `v`, and the
/// kind of register content it makes.
pub open spec fn visual_text(v: Seq<Seq<char>>, n: Selection, kind: VisualKind) -> (Seq<char>, ContentType) {
    match kind {
        VisualKind::Character => (text_in_range(v, n.start, char_end(v, n)), ContentType::Characterwise),
        VisualKind::Line => (lines_text(v, n.start.row as int, min(n.end.row + 1, v.len() as int)), ContentType::Linewise),
        VisualKind::Block => (block_text(v, n), ContentType::Blockwise),
    }
}

/// `e2` is `e` after yanking `text` (as `kind` content) into `register`.
pub open spec fn yanked(e: Editor, e2: Editor, register: Option<char>, text: Seq<char>, kind: ContentType) -> bool {
    &&& e2.document == e.document
    &&& e2.state == (EditorState { registers: e2.state.registers, ..e.state })
    &&& forall|q: Option<RegisterId>| #[trigger] e2.state.registers.spec_get(q) == get_after_yank(
        e.state.registers,
        register_target(register),
        text,
        kind,
        q,
    )
}

/// The text the block selection `n` covers of `line`.
fn block_piece_of(line: &str, n: &Selection) -> (s: String)
    requires
        is_boundary(line@, min(n.start.col as int, byte_len(line@) as int)),
        is_boundary(line@, min(n.end.col as int, byte_len(line@) as int)),
        n.start.col <= n.end.col,
    ensures
        s@ == block_piece(line@, *n),
{
    let len = crate::text::str_byte_len(line);
    let a = if n.start.col < len {
        n.start.col
    } else {
        len
    };
    let b = if n.end.col < len {
        n.end.col
    } else {
        len
    };
    let e = crate::buffer::unicode::next_grapheme_boundary(line, b);
    crate::editor::yank_put::slice_str(line, a, e)
}

impl Editor {
    /// The text of the block selection `n`: the pieces of its rows,
    /// joined by line feeds.
    pub fn block_selection_text(&self, n: &Selection) -> (s: String)
        requires
            self.wf(),
            block_cuts_ok(self.document.buffer@, *n),
        ensures
            s@ == block_text(self.document.buffer@, *n),
    {
        let ghost v = self.document.buffer@;
        let len = self.document.buffer.len();
        let end = if n.end.row < len {
            n.end.row + 1
        } else {
            len
        };
        let mut s = String::new();
        let mut row = n.start.row;
        proof {
            if end <= n.start.row {
                assert(s@ =~= block_rows_text(v, *n, end as int));
            }
        }
        if row >= end {
            return s;
        }
        while row < end
            invariant
                n.start.row <= row <= end <= v.len(),
                end == min(n.end.row + 1, v.len() as int),
                v == self.document.buffer@,
                block_cuts_ok(v, *n),
                s@ == block_rows_text(v, *n, row as int),
            decreases end - row,
        {
            let line = match self.document.buffer.line(row) {
                Some(l) => l,
                None => "",
            };
            proof {
                assert(line@ == v[row as int]);
            }
            let piece = block_piece_of(line, n);
            if row > n.start.row {
                crate::text::push_char(&mut s, '\n');
            } else {
                assert(s@ =~= Seq::<char>::empty());
            }
            crate::text::append_str(&mut s, piece.as_str());
            proof {
                if row > n.start.row {
                    assert(block_rows_text(v, *n, row + 1) == block_rows_text(v, *n, row as int) + seq!['\n'] + block_piece(v[row as int], *n));
                } else {
                    assert(s@ =~= block_piece(v[row as int], *n));
                }
            }
            row = row + 1;
        }
        s
    }

    /// Yank whole lines of the selection (`Y`, or `y` in line mode) into
    /// `register`. Without a selection nothing happens.
    pub fn execute_visual_yank_linewise(&mut self, register: Option<char>) -> (r: Result<(), Error>)
        requires
            old(self).wf(),
            ordered_selection(*old(self)) matches Some(n) ==> n.end.row < usize::MAX,
        ensures
            visual_lines_yanked(*old(self), *final(self), register, r),

    {
        let sel = match &self.document.selection {
            Some(s) => s.normalize(),
            None => return Ok(()),
        };
        self.yank_lines_range(sel.start.row, sel.end.row + 1, register)
    }

    /// Yank the selection of visual mode `kind` into `register`:
    /// characterwise through the grapheme cluster at its end, whole lines,
    /// or the block. Without a selection nothing happens.
    pub fn execute_visual_yank(&mut self, kind: VisualKind, register: Option<char>) -> (r: Result<
        (),
        Error,
    >)
        requires
            old(self).wf(),
            visual_cuts_ok(*old(self), kind),
        ensures
            visual_yanked(*old(self), *final(self), kind, register, r),

    {
        let sel = match &self.document.selection {
            Some(s) => s.normalize(),
            None => return Ok(()),
        };
        match kind {
            VisualKind::Character => {
                let end_exclusive = match self.document.buffer.line(sel.end.row) {
                    Some(line) => crate::buffer::unicode::next_grapheme_boundary(line, sel.end.col),
                    None => sel.end.col,
                };
                let end_cursor = Cursor::new(sel.end.row, end_exclusive);
                self.yank_range(&sel.start, &end_cursor, register, ContentType::Characterwise)
            },
            VisualKind::Line => self.execute_visual_yank_linewise(register),
            VisualKind::Block => {
                let text = self.block_selection_text(&sel);
                self.state.registers.yank(register_id(register), RegisterContent::new(text, ContentType::Blockwise));
                Ok(())
            },
        }
    }
}

} // verus!

verus! {

/// The byte columns the block selection `n` covers of `line`.
pub open spec fn block_cols(line: Seq<char>, n: Selection) -> (int, int) {
    let len = byte_len(line) as int;
    (min(n.start.col as int, len), next_grapheme_end(line, min(n.end.col as int, len)))
}

/// What deleting the block selection `n` leaves of a line.
pub open spec fn block_cut(n: Selection) -> spec_fn(int, Seq<char>) -> Seq<char> {
    |r: int, l: Seq<char>|
        l.take(char_index(l, block_cols(l, n).0)) + l.skip(char_index(l, block_cols(l, n).1))
}

/// The rows of `lo..hi` where the block selection `n` covers some text,
/// last first.
pub open spec fn block_cut_rows(v: Seq<Seq<char>>, n: Selection, lo: int, hi: int) -> Seq<int>
    decreases hi - lo,
{
    if hi <= lo {
        Seq::empty()
    } else {
        let rest = block_cut_rows(v, n, lo + 1, hi);
        if block_cols(v[lo], n).0 < block_cols(v[lo], n).1 {
            rest.push(lo)
        } else {
            rest
        }
    }
}

/// `acts` delete, one by one, what the block selection `n` covers of the
/// rows `rows`.
pub open spec fn block_deletes(acts: Seq<EditAction>, v: Seq<Seq<char>>, n: Selection, rows: Seq<int>) -> bool {
    &&& acts.len() == rows.len()
    &&& forall|i: int|
        0 <= i < rows.len() ==> deletes_range(
            #[trigger] acts[i],
            Cursor { row: rows[i] as usize, col: block_cols(v[rows[i]], n).0 as usize },
            Cursor { row: rows[i] as usize, col: block_cols(v[rows[i]], n).1 as usize },
            block_piece(v[rows[i]], n),
        )
}

/// `e2` is `e` after the block selection `n` was deleted into `register`:
/// each row's piece removed (the last row first, each removal recorded),
/// the document marked modified, the cursor at the selection's top-left
/// corner clamped to its line.
pub open spec fn block_deleted(e: Editor, e2: Editor, n: Selection, register: Option<char>) -> bool {
    let v = e.document.buffer@;
    let end = min(n.end.row + 1, v.len() as int);
    let acts = recent_actions(e.state.undo_history, e2.state.undo_history);
    &&& e2.document.buffer@ == rows_replaced(v, n.start.row as int, end, block_cut(n))
    &&& e2.document.modified
    &&& same_doc_meta(e.document, e2.document)
    &&& e2.document.cursor.row == n.start.row
    &&& clamp_col(
        e.state.mode,
        e2.document.buffer@,
        n.start.row as int,
        n.start.col as int,
        e2.document.cursor.col as int,
    )
    &&& e2.state == (EditorState {
        registers: e2.state.registers,
        undo_history: e2.state.undo_history,
        ..e.state
    })
    &&& forall|q: Option<RegisterId>| #[trigger] e2.state.registers.spec_get(q) == get_after_delete(
        e.state.registers,
        register_target(register),
        block_text(v, n),
        ContentType::Blockwise,
        q,
    )
    &&& recorded_seq(e.state.undo_history, e2.state.undo_history, acts)
    &&& block_deletes(acts, v, n, block_cut_rows(v, n, n.start.row as int, end))
}

/// `e` with the cursor at `c`.
pub open spec fn with_cursor(e: Editor, c: Cursor) -> Editor {
    Editor { document: Document { cursor: c, ..e.document }, ..e }
}

/// `e` with the undo history `h`.
pub open spec fn with_undo(e: Editor, h: UndoHistory) -> Editor {
    Editor { state: EditorState { undo_history: h, ..e.state }, ..e }
}

/// `e2` is `e` after visual mode `kind` deleted the selection `n` into
/// `register`, with outcome `r`.
pub open spec fn visual_deleted(
    e: Editor,
    e2: Editor,
    n: Selection,
    kind: VisualKind,
    register: Option<char>,
    r: Result<(), Error>,
) -> bool {
    let v = e.document.buffer@;
    match kind {
        VisualKind::Character => range_deleted(
            e,
            e2,
            n.start,
            char_end(v, n),
            register,
            ContentType::Characterwise,
            r,
        ),
        VisualKind::Line => r is Ok && delete_lines_post(
            with_cursor(e, n.start),
            e2,
            (n.end.row - n.start.row + 1) as usize,
            register,
        ),
        VisualKind::Block => r is Ok && block_deleted(e, e2, n, register),
    }
}

/// The selection `n` can be deleted as visual mode `kind` deletes it from `v`.
pub open spec fn delete_ok(v: Seq<Seq<char>>, n: Selection, kind: VisualKind) -> bool {
    match kind {
        VisualKind::Character => char_cuts_ok(v, n),
        VisualKind::Line => n.start.row <= n.end.row < usize::MAX && n.start.row <= v.len(),
        VisualKind::Block => block_cuts_ok(v, n),
    }
}

/// `e2` is `e` after the selection was deleted as one undoable change:
/// `r` is the outcome of deleting `n` as visual mode `kind` deletes it,
/// between opening an undo group at the cursor and closing it.
pub open spec fn visual_deleted_grouped(
    e: Editor,
    e2: Editor,
    n: Selection,
    kind: VisualKind,
    register: Option<char>,
    r: Result<(), Error>,
) -> bool {
    exists|h1: UndoHistory, h2: UndoHistory|
        #![trigger begun(e.state.undo_history, h1, e.document.cursor, e.document.modified), ended(
            h2,
            e2.state.undo_history,
            e2.document.cursor,
        )]
        begun(e.state.undo_history, h1, e.document.cursor, e.document.modified) && visual_deleted(
            with_undo(e, h1),
            with_undo(e2, h2),
            n,
            kind,
            register,
            r,
        ) && ended(h2, e2.state.undo_history, e2.document.cursor)
}

/// `e2` is `e` after the rows of the selection `n` were shifted right (or
/// left) as one undoable change, the cursor having first gone to the start
/// of the selection's first row.
pub open spec fn visual_shifted(e: Editor, e2: Editor, n: Selection, right: bool) -> bool {
    exists|h1: UndoHistory, h2: UndoHistory|
        #![trigger begun(e.state.undo_history, h1, e.document.cursor, e.document.modified), ended(
            h2,
            e2.state.undo_history,
            e2.document.cursor,
        )]
        begun(e.state.undo_history, h1, e.document.cursor, e.document.modified) && shifted_editor(
            with_undo(with_cursor(e, Cursor { row: n.start.row, col: 0 }), h1),
            with_undo(e2, h2),
            min(n.end.row + 1, e.document.buffer@.len() as int),
            right,
        ) && ended(h2, e2.state.undo_history, e2.document.cursor)
}

impl Editor {
    /// Delete what the block selection `n` covers of each of its rows, the
    /// last row first, recording each deletion.
    fn cut_block(&mut self, n: &Selection) -> (r: Result<(), Error>)
        requires
            old(self).wf(),
            block_cuts_ok(old(self).document.buffer@, *n),
        ensures
            final(self).wf(),
            r is Ok,
            ({
                let e = *old(self);
                let e2 = *final(self);
                let v = e.document.buffer@;
                let end = min(n.end.row + 1, v.len() as int);
                let acts = recent_actions(e.state.undo_history, e2.state.undo_history);
                &&& e2.document.buffer@ == rows_replaced(v, n.start.row as int, end, block_cut(*n))
                &&& e2.document.cursor == e.document.cursor
                &&& e2.document.modified == e.document.modified
                &&& same_doc_meta(e.document, e2.document)
                &&& e2.state == (EditorState { undo_history: e2.state.undo_history, ..e.state })
                &&& recorded_seq(e.state.undo_history, e2.state.undo_history, acts)
                &&& block_deletes(acts, v, *n, block_cut_rows(v, *n, n.start.row as int, end))
            }),
    {
        let ghost v = self.document.buffer@;
        let ghost h0 = self.state.undo_history;
        let ghost f = block_cut(*n);
        let len = self.document.buffer.len();
        let end = if n.end.row < len {
            n.end.row + 1
        } else {
            len
        };
        let mut row = end;
        proof {
            crate::undo::lemma_recorded_seq_empty(h0);
            crate::undo::lemma_recent_actions(h0, h0, Seq::empty());
            assert(rows_replaced(v, end as int, end as int, f) =~= v);
        }
        while row > n.start.row
            invariant
                n.start.row <= row <= end || (row == end && end < n.start.row),
                end == min(n.end.row + 1, v.len() as int),
                end <= v.len(),
                v == old(self).document.buffer@,
                h0 == old(self).state.undo_history,
                f == block_cut(*n),
                block_cuts_ok(v, *n),
                self.document.buffer.wf(),
                self.document.buffer@ == rows_replaced(v, row as int, end as int, f),
                self.document == (Document { buffer: self.document.buffer, ..old(self).document }),
                self.state == (EditorState { undo_history: self.state.undo_history, ..old(self).state }),
                recorded_seq(h0, self.state.undo_history, recent_actions(h0, self.state.undo_history)),
                block_deletes(
                    recent_actions(h0, self.state.undo_history),
                    v,
                    *n,
                    block_cut_rows(v, *n, row as int, end as int),
                ),
            decreases row,
        {
            row = row - 1;
            let ghost w = self.document.buffer@;
            assert(w[row as int] == v[row as int]);
            let line = match self.document.buffer.line(row) {
                Some(l) => l.to_owned(),
                None => String::new(),
            };
            let ll = crate::text::str_byte_len(line.as_str());
            let s = if n.start.col < ll {
                n.start.col
            } else {
                ll
            };
            let b = if n.end.col < ll {
                n.end.col
            } else {
                ll
            };
            let e = crate::buffer::unicode::next_grapheme_boundary(line.as_str(), b);
            let ghost hp = self.state.undo_history;
            if s < e {
                let deleted = crate::editor::yank_put::slice_str(line.as_str(), s, e);
                let a = EditAction::DeleteRange {
                    start_row: row,
                    start_col: s,
                    end_row: row,
                    end_col: e,
                    text: deleted,
                };
                self.state.undo_history.record(a.duplicate());
                let start_c = Cursor::new(row, s);
                let end_c = Cursor::new(row, e);
                match self.document.buffer.delete_range(&start_c, &end_c) {
                    Ok(()) => {},
                    Err(err) => {
                        proof {
                            assert(crate::buffer::position_error(w, row, s) is None);
                            assert(false);
                        }
                        return Err(Error::Buffer(err));
                    },
                }
                proof {
                    let prev = recent_actions(h0, hp);
                    crate::undo::lemma_recorded_seq_step(h0, hp, self.state.undo_history, prev, a);
                    crate::undo::lemma_recent_actions(h0, self.state.undo_history, prev.push(a));
                    assert(self.document.buffer@ =~= rows_replaced(v, row as int, end as int, f));
                }
            } else {
                proof {
                    assert(v[row as int].take(char_index(v[row as int], s as int)) + v[row as int].skip(
                        char_index(v[row as int], e as int),
                    ) =~= v[row as int]);
                    assert(self.document.buffer@ =~= rows_replaced(v, row as int, end as int, f));
                }
            }
        }
        proof {
            if end < n.start.row {
                assert(block_cut_rows(v, *n, row as int, end as int) =~= Seq::<int>::empty());
            }
        }
        Ok(())
    }

    /// Delete the selection `sel` as visual mode `kind` does, into
    /// `register`: characterwise through the grapheme cluster at its end,
    /// whole lines, or the block, the last row first.
    pub fn execute_visual_delete_inner(
        &mut self,
        kind: VisualKind,
        register: Option<char>,
        sel: &Selection,
    ) -> (r: Result<(), Error>)
        requires
            old(self).wf(),
            delete_ok(old(self).document.buffer@, *sel, kind),
        ensures
            final(self).wf(),
            visual_deleted(*old(self), *final(self), *sel, kind, register, r),
    {
        match kind {
            VisualKind::Character => {
                let end_exclusive = match self.document.buffer.line(sel.end.row) {
                    Some(line) => crate::buffer::unicode::next_grapheme_boundary(line, sel.end.col),
                    None => sel.end.col,
                };
                let end_cursor = Cursor::new(sel.end.row, end_exclusive);
                self.delete_motion_range_with_register(
                    &sel.start,
                    &end_cursor,
                    register,
                    ContentType::Characterwise,
                )
            },
            VisualKind::Line => {
                let count = sel.end.row - sel.start.row + 1;
                self.document.cursor = sel.start;
                self.delete_lines_with_register(count, register)
            },
            VisualKind::Block => {
                let text = self.block_selection_text(sel);
                self.state.registers.delete(
                    register_id(register),
                    register,
                    RegisterContent::new(text, ContentType::Blockwise),
                );
                let _ = self.cut_block(sel);
                self.document.cursor = Cursor::new(sel.start.row, sel.start.col);
                self.clamp_cursor_to_line();
                self.document.modified = true;
                Ok(())
            },
        }
    }

    /// Delete the selection of visual mode `kind` into `register` (`d`,
    /// `x`) as one undoable change. Without a selection nothing happens.
    pub fn execute_visual_delete(&mut self, kind: VisualKind, register: Option<char>) -> (r: Result<
        (),
        Error,
    >)
        requires
            old(self).wf(),
            ordered_selection(*old(self)) matches Some(n) ==> delete_ok(old(self).document.buffer@, n, kind),
        ensures
            selection_deleted(*old(self), *final(self), kind, register, r),

    {
        let sel = match &self.document.selection {
            Some(s) => s.normalize(),
            None => return Ok(()),
        };
        let ghost e0 = *self;
        self.state.undo_history.begin_group(self.document.cursor, self.document.modified);
        let ghost h1 = self.state.undo_history;
        let ghost e1 = *self;
        let result = self.execute_visual_delete_inner(kind, register, &sel);
        let ghost h2 = self.state.undo_history;
        let ghost e2 = *self;
        self.state.undo_history.end_group(self.document.cursor);
        proof {
            assert(with_undo(e0, h1) == e1);
            assert(with_undo(*self, h2) == e2);
            assert(begun(e0.state.undo_history, h1, e0.document.cursor, e0.document.modified));
            assert(ended(h2, self.state.undo_history, self.document.cursor));
        }
        result
    }

    /// Shift the lines of the selection right (`>`) or left (`<`) by
    /// `shiftwidth`, as one undoable change. Without a selection nothing
    /// happens.
    pub fn execute_visual_indent(&mut self, _kind: VisualKind, indent: bool) -> (r: Result<(), Error>)
        requires
            old(self).wf(),
            ordered_selection(*old(self)) matches Some(n) ==> n.end.row < usize::MAX,
        ensures
            visual_indented(*old(self), *final(self), indent, r),

    {
        let sel = match &self.document.selection {
            Some(s) => s.normalize(),
            None => return Ok(()),
        };
        let line_count = sel.end.row - sel.start.row + 1;
        let ghost e0 = *self;
        self.state.undo_history.begin_group(self.document.cursor, self.document.modified);
        let ghost h1 = self.state.undo_history;
        self.document.cursor = Cursor::new(sel.start.row, 0);
        let ghost e1 = *self;
        if indent {
            let _ = self.shift_lines_right(line_count);
        } else {
            let _ = self.shift_lines_left(line_count);
        }
        let ghost h2 = self.state.undo_history;
        let ghost e2 = *self;
        self.state.undo_history.end_group(self.document.cursor);
        proof {
            assert(with_undo(with_cursor(e0, Cursor { row: sel.start.row, col: 0 }), h1) == e1);
            assert(with_undo(*self, h2) == e2);
            assert(begun(e0.state.undo_history, h1, e0.document.cursor, e0.document.modified));
            assert(ended(h2, self.state.undo_history, self.document.cursor));
        }
        Ok(())
    }
}

} // verus!

verus! {

/// What entering visual mode of `kind` leaves in `e2` and returns.
pub open spec fn visual_entered(e: Editor, e2: Editor, kind: VisualKind, r: Result<(), Error>) -> bool {
    &&& (r is Ok)
    &&& (e2.document == (Document {
        selection: Some(
            Selection {
                start: e.document.cursor,
                end: e.document.cursor,
                kind: selection_type_of(kind),
            },
        ),
        ..e.document
    }))
    &&& (e2.state == (EditorState {
        mode: Mode::Visual(kind),
        visual_anchor: Some(e.document.cursor),
        ..e.state
    }))
}

} // verus!

verus! {

/// What leaving visual mode leaves in `e2`, starting from `e`.
pub open spec fn visual_exited(e: Editor, e2: Editor) -> bool {
    &&& (left_visual(e, e2, Mode::Normal))
    &&& (e2.state == (EditorState {
        mode: Mode::Normal,
        visual_anchor: None,
        navigation: e2.state.navigation,
        ..e.state
    }))
}

} // verus!

verus! {

/// What switching to visual mode of `new_kind` leaves in `e2` and returns.
pub open spec fn kind_switched(e: Editor, e2: Editor, new_kind: VisualKind, r: Result<(), Error>) -> bool {
    &&& (r is Ok)
    &&& (e2.state == (EditorState { mode: Mode::Visual(new_kind), ..e.state }))
    &&& (e2.document == (Document {
        selection: visual_selection(e, new_kind),
        ..e.document
    }))
}

} // verus!

verus! {

/// What `~` on the selection leaves in `e2` and returns.
pub open spec fn visual_toggled(e: Editor, e2: Editor, kind: VisualKind, r: Result<(), Error>) -> bool {
    &&& (e2.wf())
    &&& (r is Ok)
    &&& (match ordered_selection(e) {
        None => e2 == e,
        Some(n) => visual_rows_changed(
            e,
            e2,
            n,
            span_case(case_span_of(kind), n.start, n.end, Operator::ToggleCase),
        ),
    })
}

} // verus!

verus! {

/// What `Y` on the selection leaves in `e2` and returns.
pub open spec fn visual_lines_yanked(e: Editor, e2: Editor, register: Option<char>, r: Result<(), Error>) -> bool {
    &&& (e2.wf())
    &&& (r is Ok)
    &&& (match ordered_selection(e) {
        None => e2 == e,
        Some(n) => yanked(
            e,
            e2,
            register,
            visual_text(e.document.buffer@, n, VisualKind::Line).0,
            ContentType::Linewise,
        ),
    })
}

} // verus!

verus! {

/// What `y` on the selection leaves in `e2` and returns.
pub open spec fn visual_yanked(e: Editor, e2: Editor, kind: VisualKind, register: Option<char>, r: Result<(), Error>) -> bool {
    &&& (e2.wf())
    &&& (r is Ok)
    &&& (match ordered_selection(e) {
        None => e2 == e,
        Some(n) => {
            let (text, ct) = visual_text(e.document.buffer@, n, kind);
            yanked(e, e2, register, text, ct)
        },
    })
}

} // verus!

verus! {

/// What `d` on the selection leaves in `e2` and returns.
pub open spec fn selection_deleted(e: Editor, e2: Editor, kind: VisualKind, register: Option<char>, r: Result<(), Error>) -> bool {
    &&& (e2.wf())
    &&& (match ordered_selection(e) {
        None => e2 == e && r is Ok,
        Some(n) => visual_deleted_grouped(e, e2, n, kind, register, r),
    })
}

} // verus!

verus! {

/// What `>` (`indent`) or `<` on the selection leaves in `e2` and returns.
pub open spec fn visual_indented(e: Editor, e2: Editor, indent: bool, r: Result<(), Error>) -> bool {
    &&& (e2.wf())
    &&& (r is Ok)
    &&& (match ordered_selection(e) {
        None => e2 == e,
        Some(n) => visual_shifted(e, e2, n, indent),
    })
}

} // verus!

verus! {

/// What updating the selection of `kind` to the cursor leaves in `e2`.
pub open spec fn selection_updated(e: Editor, e2: Editor, kind: VisualKind) -> bool {
    &&& (e2.state == e.state)
    &&& (e2.document == (Document {
        selection: visual_selection(e, kind),
        ..e.document
    }))
}

} // verus!
