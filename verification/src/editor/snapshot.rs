//! The line snapshot behind `U`: the content of a line when the cursor came
//! to it, which `U` puts back as one undoable change.

use vstd::prelude::*;
use crate::buffer::Cursor;
use crate::editor::editing::same_doc_meta;
use crate::editor::movement::clamp_col;
use crate::editor::{Editor, EditorState, NavigationState};
use crate::error::Error;
use crate::undo::{recorded_group, replaces_line, EditAction};

verus! {

/// Line `row` of `v`, or the empty line past the end.
pub open spec fn line_or_empty(v: Seq<Seq<char>>, row: int) -> Seq<char> {
    if 0 <= row < v.len() {
        v[row]
    } else {
        Seq::empty()
    }
}

/// The snapshot `U` would restore in `e`: the one taken on the cursor's row,
/// when it differs from that line now.
pub open spec fn restorable(e: Editor) -> bool {
    let row = e.document.cursor.row;
    e.state.navigation.line_snapshot matches Some((r, s)) && r == row && s@ != line_or_empty(
        e.document.buffer@,
        row as int,
    )
}

impl Editor {
    /// Take a snapshot of the cursor's line, unless the snapshot held is
    /// already of that row.
    pub fn update_line_snapshot(&mut self)
        ensures
            snapshot_updated(*old(self), *final(self)),

    {
        let row = self.document.cursor.row;
        let stale = match &self.state.navigation.line_snapshot {
            Some((r, _)) => *r != row,
            None => true,
        };
        if stale {
            let content = match self.document.buffer.line(row) {
                Some(l) => l.to_owned(),
                None => String::new(),
            };
            self.state.navigation.line_snapshot = Some((row, content));
        }
    }

    /// `U`: put back the cursor's line as it was when the cursor came to it,
    /// as one undoable replacement, with the cursor at the start of the
    /// line. Nothing happens without a snapshot of this row, or when the
    /// line already holds it.
    pub fn execute_undo_line(&mut self) -> (r: Result<(), Error>)
        requires
            old(self).wf(),
        ensures
            line_undone(*old(self), *final(self), r),

    {
        let row = self.document.cursor.row;
        let snapshot = match &self.state.navigation.line_snapshot {
            Some((r, s)) => {
                if *r == row {
                    s.clone()
                } else {
                    return Ok(());
                }
            },
            None => return Ok(()),
        };
        let current = match self.document.buffer.line(row) {
            Some(l) => l.to_owned(),
            None => String::new(),
        };
        if current == snapshot {
            return Ok(());
        }
        let ghost h0 = self.state.undo_history;
        self.state.undo_history.begin_group(self.document.cursor, self.document.modified);
        let ghost h1 = self.state.undo_history;
        let a = EditAction::ReplaceLine { row, old_content: current, new_content: snapshot.clone() };
        self.state.undo_history.record(a);
        let ghost h2 = self.state.undo_history;
        if row < self.document.buffer.len() {
            let _ = self.document.buffer.set_line(row, snapshot);
        }
        self.document.cursor.col = 0;
        self.clamp_cursor_to_line();
        self.document.modified = true;
        self.state.undo_history.end_group(self.document.cursor);
        proof {
            let h3 = self.state.undo_history;
            assert(h2.spec_current() is Some);
            let g = h2.spec_current()->Some_0;
            assert(h3.spec_undo().last().spec_actions() == g.spec_actions());
            assert(g.spec_actions().last() == a);
            match h0.spec_current() {
                Some(g0) => {
                    assert(g.spec_actions() =~= g0.spec_actions() + seq![a]);
                },
                None => {
                    assert(g.spec_actions() =~= Seq::<EditAction>::empty() + seq![a]);
                },
            }
        }
        Ok(())
    }
}

} // verus!

verus! {

/// What `U` does to `e`, giving `e2` and `r`.
pub open spec fn line_undone(e: Editor, e2: Editor, r: Result<(), Error>) -> bool {
    &&& (e2.wf())
    &&& (r is Ok)
    &&& (({
        let e = e;
        let e2 = e2;
        let row = e.document.cursor.row;
        let v = e.document.buffer@;
        if restorable(e) {
            let s = e.state.navigation.line_snapshot->Some_0.1@;
            let v2 = if row < v.len() {
                v.update(row as int, s)
            } else {
                v
            };
            let la = e2.state.undo_history.spec_undo().last().spec_actions().last();
            &&& e2.document.buffer@ == v2
            &&& e2.document.cursor.row == row
            &&& clamp_col(e.state.mode, v2, row as int, 0, e2.document.cursor.col as int)
            &&& e2.document.modified
            &&& same_doc_meta(e.document, e2.document)
            &&& e2.state == (EditorState { undo_history: e2.state.undo_history, ..e.state })
            &&& replaces_line(la, row as int, line_or_empty(v, row as int), s)
            &&& recorded_group(
                e.state.undo_history,
                e2.state.undo_history,
                e.document.cursor,
                e.document.modified,
                seq![la],
                e2.document.cursor,
            )
        } else {
            e2 == e
        }
    }))
}

} // verus!

verus! {

/// What refreshing the line snapshot for `U` leaves in `e2`, starting from `e`.
pub open spec fn snapshot_updated(e: Editor, e2: Editor) -> bool {
    &&& (({
        let e = e;
        let e2 = e2;
        let row = e.document.cursor.row;
        let stale = match e.state.navigation.line_snapshot {
            Some((r, _)) => r != row,
            None => true,
        };
        if stale {
            &&& e2.document == e.document
            &&& e2.state == (EditorState { navigation: e2.state.navigation, ..e.state })
            &&& e2.state.navigation == (NavigationState {
                line_snapshot: e2.state.navigation.line_snapshot,
                ..e.state.navigation
            })
            &&& e2.state.navigation.line_snapshot matches Some((r, c)) && r == row && c@
                == line_or_empty(e.document.buffer@, row as int)
        } else {
            e2 == e
        }
    }))
}

} // verus!
