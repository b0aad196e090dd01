//! The jump list: positions recorded before large motions, walked back with
//! `Ctrl-O` and forward again with `Ctrl-I`.

use vstd::prelude::*;
use crate::buffer::Cursor;
use crate::editor::movement::{first_non_blank_col, max_col, min, sat_sub};
use crate::editor::visual::mark_key;
use crate::editor::{Document, Editor, EditorState, NavigationState, StatusMessage};
use crate::render::top_showing;
use crate::text::{byte_len, str_byte_len};

verus! {

broadcast use vstd::std_specs::hash::group_hash_axioms;

/// Most positions the jump list keeps.
pub const MAX_JUMP_LIST: usize = 100;

/// `dest` moved onto the buffer `v`: its row at most the last row, its
/// column at most the last byte offset of that line (0 on an empty line).
pub open spec fn clamp_to_buffer(v: Seq<Seq<char>>, dest: Cursor) -> Cursor {
    let row = min(dest.row as int, sat_sub(v.len() as int, 1));
    Cursor {
        row: row as usize,
        col: if 0 <= row < v.len() {
            min(dest.col as int, sat_sub(byte_len(v[row]) as int, 1)) as usize
        } else {
            0
        },
    }
}

/// The jump list after recording `pos`: unchanged when `pos` is already the
/// newest entry; else `pos` is appended, and the oldest entry dropped when
/// the list would hold more than `MAX_JUMP_LIST` positions.
pub open spec fn pushed_jumps(jl: Seq<Cursor>, pos: Cursor) -> Seq<Cursor> {
    if jl.len() > 0 && jl.last() == pos {
        jl
    } else if jl.len() + 1 > MAX_JUMP_LIST {
        jl.push(pos).drop_first()
    } else {
        jl.push(pos)
    }
}

/// `e2` is `e` with the cursor at `c`, the view scrolled the least amount
/// that shows it, and navigation state `nav`; nothing else changes.
pub open spec fn jumped(e: Editor, e2: Editor, c: Cursor, nav: NavigationState) -> bool {
    &&& e2.document == (Document { cursor: c, ..e.document })
    &&& e2.state == (EditorState { viewport: e2.state.viewport, navigation: nav, ..e.state })
    &&& e2.state.viewport.spec_top() == top_showing(
        e.state.viewport.spec_top() as int,
        e.state.viewport.spec_height() as int,
        c.row as int,
    )
    &&& e2.state.viewport.spec_height() == e.state.viewport.spec_height()
    &&& e2.state.viewport.spec_width() == e.state.viewport.spec_width()
}

/// `e2` is `e` with only the status message changed, to the error `msg`,
/// and the navigation state `nav`.
pub open spec fn refused(e: Editor, e2: Editor, nav: NavigationState, msg: Seq<char>) -> bool {
    &&& e2.document == e.document
    &&& e2.state == (EditorState { status_message: e2.state.status_message, navigation: nav, ..e.state })
    &&& e2.state.status_message matches Some(StatusMessage::Error(s)) && s@ == msg
}

/// What `Ctrl-O` does to `e`, giving `e2`: with an empty list, nothing;
/// otherwise the cursor is saved as the origin when at the newest end, and
/// the next older entry is visited, or the error given when there is none.
pub open spec fn jump_back_post(e: Editor, e2: Editor) -> bool {
    let nav = e.state.navigation;
    let jl = nav.jump_list@;
    let idx = nav.jump_list_idx as int;
    let origin = if idx == 0 {
        Some(e.document.cursor)
    } else {
        nav.jump_origin
    };
    if jl.len() == 0 {
        e2 == e
    } else if idx + 1 > jl.len() {
        refused(e, e2, NavigationState { jump_origin: origin, ..nav }, "Already at oldest position"@)
    } else {
        jumped(
            e,
            e2,
            clamp_to_buffer(e.document.buffer@, jl[jl.len() - (idx + 1)]),
            NavigationState { jump_list_idx: (idx + 1) as usize, jump_origin: origin, ..nav },
        )
    }
}

/// What `Ctrl-I` does to `e`, giving `e2`: at the newest end, the error;
/// one step from it, back to the saved origin (which is cleared); further
/// back, the next newer entry.
pub open spec fn jump_forward_post(e: Editor, e2: Editor) -> bool {
    let nav = e.state.navigation;
    let jl = nav.jump_list@;
    let idx = nav.jump_list_idx as int;
    if idx == 0 {
        refused(e, e2, nav, "Already at newest position"@)
    } else if idx == 1 {
        match nav.jump_origin {
            Some(o) => jumped(
                e,
                e2,
                clamp_to_buffer(e.document.buffer@, o),
                NavigationState { jump_list_idx: 0, jump_origin: None, ..nav },
            ),
            None => {
                &&& e2.document == e.document
                &&& e2.state == (EditorState {
                    navigation: NavigationState { jump_list_idx: 0, ..nav },
                    ..e.state
                })
            },
        }
    } else if idx - 2 < jl.len() {
        jumped(
            e,
            e2,
            clamp_to_buffer(e.document.buffer@, jl[jl.len() - (idx - 1)]),
            NavigationState { jump_list_idx: (idx - 1) as usize, ..nav },
        )
    } else {
        &&& e2.document == e.document
        &&& e2.state == (EditorState {
            navigation: NavigationState { jump_list_idx: (idx - 1) as usize, ..nav },
            ..e.state
        })
    }
}

impl Editor {
    /// Record the cursor in the jump list before a large motion (`G`, `gg`,
    /// searches, marks, `:n`): it is appended unless it is already the
    /// newest entry, the oldest entry goes past `MAX_JUMP_LIST` entries, and
    /// the list is then walked from its newest end again.
    pub fn push_jump(&mut self)
        ensures
            jump_pushed(*old(self), *final(self)),

    {
        let pos = self.document.cursor;
        let n = self.state.navigation.jump_list.len();
        if n > 0 && self.state.navigation.jump_list[n - 1] == pos {
            return;
        }
        self.state.navigation.jump_list.push_back(pos);
        if self.state.navigation.jump_list.len() > MAX_JUMP_LIST {
            let _ = self.state.navigation.jump_list.pop_front();
            proof {
                let jl = old(self).state.navigation.jump_list@;
                assert(self.state.navigation.jump_list@ =~= jl.push(pos).drop_first());
            }
        }
        self.state.navigation.jump_list_idx = 0;
        self.state.navigation.jump_origin = None;
    }

    /// Put the cursor on `dest` clamped to the buffer, and scroll to it.
    fn place_cursor(&mut self, dest: Cursor)
        ensures
            jumped(
                *old(self),
                *final(self),
                clamp_to_buffer(old(self).document.buffer@, dest),
                old(self).state.navigation,
            ),
    {
        let n = self.document.buffer.len();
        let last = if n >= 1 {
            n - 1
        } else {
            0
        };
        let row = if dest.row < last {
            dest.row
        } else {
            last
        };
        let col = match self.document.buffer.line(row) {
            Some(line) => {
                let len = str_byte_len(line);
                let end = if len >= 1 {
                    len - 1
                } else {
                    0
                };
                if dest.col < end {
                    dest.col
                } else {
                    end
                }
            },
            None => 0,
        };
        self.document.cursor = Cursor::new(row, col);
        self.state.viewport.ensure_visible(row, n);
    }

    /// `Ctrl-O`: go to the next older position of the jump list, saving
    /// the cursor as the origin when leaving the newest end.
    pub fn execute_jump_back(&mut self)
        requires
            old(self).state.navigation.jump_list_idx < usize::MAX,
        ensures
            jump_back_post(*old(self), *final(self)),
    {
        let len = self.state.navigation.jump_list.len();
        if len == 0 {
            return;
        }
        if self.state.navigation.jump_list_idx == 0 {
            self.state.navigation.jump_origin = Some(self.document.cursor);
        }
        let new_idx = self.state.navigation.jump_list_idx + 1;
        if new_idx > len {
            self.state.status_message = Some(StatusMessage::Error("Already at oldest position".to_owned()));
            return;
        }
        self.state.navigation.jump_list_idx = new_idx;
        let dest = self.state.navigation.jump_list[len - new_idx];
        self.place_cursor(dest);
    }

    /// `Ctrl-I`: go to the next newer position of the jump list; one step
    /// from the newest end, back to where the first `Ctrl-O` started.
    pub fn execute_jump_forward(&mut self)
        ensures
            jump_forward_post(*old(self), *final(self)),
    {
        if self.state.navigation.jump_list_idx == 0 {
            self.state.status_message = Some(StatusMessage::Error("Already at newest position".to_owned()));
            return;
        }
        self.state.navigation.jump_list_idx = self.state.navigation.jump_list_idx - 1;
        let idx = self.state.navigation.jump_list_idx;
        if idx == 0 {
            match self.state.navigation.jump_origin.take() {
                Some(origin) => self.place_cursor(origin),
                None => {},
            }
            return;
        }
        let len = self.state.navigation.jump_list.len();
        if idx - 1 < len {
            let dest = self.state.navigation.jump_list[len - idx];
            self.place_cursor(dest);
        }
    }
}

/// What jumping to mark `mark` does to `e`, giving `e2`: with the mark
/// unset, the error `E20: Mark not set`; otherwise the cursor is kept as
/// the previous-position mark `` ` `` and goes to the mark's row (moved
/// onto the buffer), on its first non-blank character for `line_start`,
/// else at the mark's column moved onto the line; the view scrolls the
/// least amount that shows it.
pub open spec fn jumped_to_mark(e: Editor, e2: Editor, mark: char, line_start: bool) -> bool {
    let marks = e.state.navigation.marks@;
    let v = e.document.buffer@;
    if !marks.contains_key(mark_key(mark)) {
        &&& e2.document == e.document
        &&& e2.state == (EditorState { status_message: e2.state.status_message, ..e.state })
        &&& e2.state.status_message matches Some(StatusMessage::Error(s)) && s@ == "E20: Mark not set"@
    } else {
        let dest = marks[mark_key(mark)];
        let c = clamp_to_buffer(v, dest);
        let target = if line_start {
            Cursor {
                row: c.row,
                col: if c.row < v.len() {
                    min(first_non_blank_col(v[c.row as int]), max_col(e.state.mode, v[c.row as int])) as usize
                } else {
                    0
                },
            }
        } else {
            c
        };
        &&& jumped(e, e2, target, NavigationState { marks: e2.state.navigation.marks, ..e.state.navigation })
        &&& e2.state.navigation.marks@ == marks.insert(mark_key('`'), e.document.cursor)
    }
}

impl Editor {
    /// Jump to mark `mark` (`'x` to its line's first non-blank character
    /// when `line_start`, `` `x `` to its exact position); `` ` `` names the
    /// position before the latest mark jump, so two such jumps toggle.
    pub fn execute_jump_to_mark(&mut self, mark: char, line_start: bool)
        ensures
            jumped_to_mark(*old(self), *final(self), mark, line_start),
    {
        let key: u32 = mark as u32;
        let target = match self.state.navigation.marks.get(&key) {
            Some(d) => Some(*d),
            None => None,
        };
        match target {
            Some(dest) => {
                let prev = self.document.cursor;
                let back: u32 = '`' as u32;
                self.state.navigation.marks.insert(back, prev);
                let n = self.document.buffer.len();
                let last = if n >= 1 {
                    n - 1
                } else {
                    0
                };
                let row = if dest.row < last {
                    dest.row
                } else {
                    last
                };
                if line_start {
                    self.document.cursor.row = row;
                    self.document.cursor.col = 0;
                    self.move_to_first_non_blank();
                    self.state.viewport.ensure_visible(self.document.cursor.row, n);
                } else {
                    self.place_cursor(dest);
                }
            },
            None => {
                self.state.status_message = Some(StatusMessage::Error("E20: Mark not set".to_owned()));
            },
        }
    }
}

/// `Ctrl-O` followed by `Ctrl-I`, from the newest end of a non-empty jump
/// list, brings the cursor back to where it was (moved onto the buffer),
/// and leaves the jump list as it found it, walked from its newest end.
pub proof fn law_jump_back_then_forward(e0: Editor, e1: Editor, e2: Editor)
    requires
        e0.state.navigation.jump_list_idx == 0,
        e0.state.navigation.jump_list@.len() > 0,
        jump_back_post(e0, e1),
        jump_forward_post(e1, e2),
    ensures
        e2.document.cursor == clamp_to_buffer(e0.document.buffer@, e0.document.cursor),
        e2.document.buffer@ == e0.document.buffer@,
        e2.state.navigation.jump_list@ == e0.state.navigation.jump_list@,
        e2.state.navigation.jump_list_idx == 0,
        e2.state.navigation.jump_origin is None,
{
}

/// A cursor that is on a line of the buffer, at most at its last byte
/// offset, is left where it is by `clamp_to_buffer`; so `Ctrl-O` then
/// `Ctrl-I` returns it exactly.
pub proof fn lemma_clamp_keeps_valid_cursor(v: Seq<Seq<char>>, c: Cursor)
    requires
        c.row < v.len(),
        c.col == 0 || c.col < byte_len(v[c.row as int]),
    ensures
        clamp_to_buffer(v, c) == c,
{
}

} // verus!

verus! {

/// What recording the cursor in the jump list does to `e`, giving `e2`.
pub open spec fn jump_pushed(e: Editor, e2: Editor) -> bool {
    &&& (({
        let e = e;
        let e2 = e2;
        let jl = e.state.navigation.jump_list@;
        let pos = e.document.cursor;
        if jl.len() > 0 && jl.last() == pos {
            e2 == e
        } else {
            &&& e2.document == e.document
            &&& e2.state == (EditorState { navigation: e2.state.navigation, ..e.state })
            &&& e2.state.navigation.jump_list@ == pushed_jumps(jl, pos)
            &&& e2.state.navigation.jump_list_idx == 0
            &&& e2.state.navigation.jump_origin is None
            &&& e2.state.navigation.line_snapshot == e.state.navigation.line_snapshot
        }
    }))
}

} // verus!
