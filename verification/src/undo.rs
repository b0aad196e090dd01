//! Undo history: edit actions grouped into entries, with undo and redo stacks.

use vstd::prelude::*;
use crate::buffer::Cursor;

verus! {

/// One reversible change to the buffer.
#[derive(Debug, Clone, PartialEq, Eq)]
pub enum EditAction {
    /// A character was inserted at (row, col).
    InsertChar { row: usize, col: usize, ch: char },
    /// A line break was inserted at (row, col).
    InsertNewline { row: usize, col: usize },
    /// A character was deleted at (row, col).
    DeleteChar { row: usize, col: usize, ch: char },
    /// The text between two positions was deleted.
    DeleteRange { start_row: usize, start_col: usize, end_row: usize, end_col: usize, text: String },
    /// Text (possibly with line breaks) was inserted at (row, col).
    InsertText { row: usize, col: usize, text: String },
    /// A whole line was inserted before `row`.
    InsertLine { row: usize, content: String },
    /// Line `row` was removed.
    RemoveLine { row: usize, content: String },
    /// Line `row + 1` was appended to line `row`, whose length was `col`.
    JoinLines { row: usize, col: usize },
    /// Line `row` was split at `col`.
    SplitLine { row: usize, col: usize },
    /// The character at (row, col) was replaced.
    ReplaceChar { row: usize, col: usize, old_char: char, new_char: char },
    /// The content of line `row` was replaced.
    ReplaceLine { row: usize, old_content: String, new_content: String },
}

impl EditAction {
    /// An equal copy.
    pub fn duplicate(&self) -> (r: EditAction)
        ensures
            r == *self,
    {
        match self {
            EditAction::InsertChar { row, col, ch } => EditAction::InsertChar {
                row: *row,
                col: *col,
                ch: *ch,
            },
            EditAction::InsertNewline { row, col } => EditAction::InsertNewline {
                row: *row,
                col: *col,
            },
            EditAction::DeleteChar { row, col, ch } => EditAction::DeleteChar {
                row: *row,
                col: *col,
                ch: *ch,
            },
            EditAction::DeleteRange { start_row, start_col, end_row, end_col, text } =>
                EditAction::DeleteRange {
                start_row: *start_row,
                start_col: *start_col,
                end_row: *end_row,
                end_col: *end_col,
                text: text.clone(),
            },
            EditAction::InsertText { row, col, text } => EditAction::InsertText {
                row: *row,
                col: *col,
                text: text.clone(),
            },
            EditAction::InsertLine { row, content } => EditAction::InsertLine {
                row: *row,
                content: content.clone(),
            },
            EditAction::RemoveLine { row, content } => EditAction::RemoveLine {
                row: *row,
                content: content.clone(),
            },
            EditAction::JoinLines { row, col } => EditAction::JoinLines { row: *row, col: *col },
            EditAction::SplitLine { row, col } => EditAction::SplitLine { row: *row, col: *col },
            EditAction::ReplaceChar { row, col, old_char, new_char } => EditAction::ReplaceChar {
                row: *row,
                col: *col,
                old_char: *old_char,
                new_char: *new_char,
            },
            EditAction::ReplaceLine { row, old_content, new_content } => EditAction::ReplaceLine {
                row: *row,
                old_content: old_content.clone(),
                new_content: new_content.clone(),
            },
        }
    }
}

/// A group of actions undone and redone together.
#[derive(Debug)]
pub struct UndoEntry {
    actions: Vec<EditAction>,
    cursor_before: Cursor,
    cursor_after: Cursor,
    modified_before: bool,
}

impl UndoEntry {
    /// The recorded actions, in the order they were applied.
    pub closed spec fn spec_actions(&self) -> Seq<EditAction> {
        self.actions@
    }

    /// Cursor position before the group.
    pub closed spec fn spec_cursor_before(&self) -> Cursor {
        self.cursor_before
    }

    /// Cursor position after the group.
    pub closed spec fn spec_cursor_after(&self) -> Cursor {
        self.cursor_after
    }

    /// Whether the document was modified before the group.
    pub closed spec fn spec_modified_before(&self) -> bool {
        self.modified_before
    }

    /// The recorded actions, in the order they were applied.
    pub fn actions(&self) -> (r: &[EditAction])
        ensures
            r@ == self.spec_actions(),
    {
        self.actions.as_slice()
    }

    /// Cursor position before the group.
    pub fn cursor_before(&self) -> (c: Cursor)
        ensures
            c == self.spec_cursor_before(),
    {
        self.cursor_before
    }

    /// Cursor position after the group.
    pub fn cursor_after(&self) -> (c: Cursor)
        ensures
            c == self.spec_cursor_after(),
    {
        self.cursor_after
    }

    /// Whether the document was modified before the group.
    pub fn modified_before(&self) -> (b: bool)
        ensures
            b == self.spec_modified_before(),
    {
        self.modified_before
    }

    /// An equal copy.
    pub fn duplicate(&self) -> (r: UndoEntry)
        ensures
            same_entry(r, *self),
    {
        let mut actions: Vec<EditAction> = Vec::new();
        let mut i: usize = 0;
        while i < self.actions.len()
            invariant
                i <= self.actions@.len(),
                actions@ == self.actions@.take(i as int),
            decreases self.actions.len() - i,
        {
            actions.push(self.actions[i].duplicate());
            assert(self.actions@.take(i + 1) =~= self.actions@.take(i as int).push(
                self.actions@[i as int],
            ));
            i = i + 1;
        }
        assert(self.actions@.take(self.actions@.len() as int) =~= self.actions@);
        let r = UndoEntry {
            actions,
            cursor_before: self.cursor_before,
            cursor_after: self.cursor_after,
            modified_before: self.modified_before,
        };
        assert(r.actions@ =~= self.actions@);
        r
    }
}

/// Two entries record the same group.
pub open spec fn same_entry(a: UndoEntry, b: UndoEntry) -> bool {
    &&& a.spec_actions() == b.spec_actions()
    &&& a.spec_cursor_before() == b.spec_cursor_before()
    &&& a.spec_cursor_after() == b.spec_cursor_after()
    &&& a.spec_modified_before() == b.spec_modified_before()
}

/// The (undo, redo) stacks after undoing the newest entry.
pub open spec fn stacks_after_undo(u: Seq<UndoEntry>, r: Seq<UndoEntry>) -> (
    Seq<UndoEntry>,
    Seq<UndoEntry>,
) {
    (u.drop_last(), r.push(u.last()))
}

/// The (undo, redo) stacks after redoing the most recently undone entry.
pub open spec fn stacks_after_redo(u: Seq<UndoEntry>, r: Seq<UndoEntry>) -> (
    Seq<UndoEntry>,
    Seq<UndoEntry>,
) {
    (u.push(r.last()), r.drop_last())
}

/// Law: redo right after undo restores both stacks.
pub proof fn law_redo_undoes_undo(u: Seq<UndoEntry>, r: Seq<UndoEntry>)
    requires
        u.len() > 0,
    ensures
        ({
            let (u1, r1) = stacks_after_undo(u, r);
            stacks_after_redo(u1, r1) == (u, r)
        }),
{
    assert(u.drop_last().push(u.last()) =~= u);
    assert(r.push(u.last()).drop_last() =~= r);
}

/// Law: undo right after redo restores both stacks.
pub proof fn law_undo_undoes_redo(u: Seq<UndoEntry>, r: Seq<UndoEntry>)
    requires
        r.len() > 0,
    ensures
        ({
            let (u1, r1) = stacks_after_redo(u, r);
            stacks_after_undo(u1, r1) == (u, r)
        }),
{
    assert(r.drop_last().push(r.last()) =~= r);
    assert(u.push(r.last()).drop_last() =~= u);
}

/// `h1` is `h0` after recording action `a`.
pub open spec fn recorded(h0: UndoHistory, h1: UndoHistory, a: EditAction) -> bool {
    &&& h1.spec_redo().len() == 0
    &&& h0.spec_current() matches Some(g) ==> h1.spec_undo() == h0.spec_undo() && (
    h1.spec_current() matches Some(h) && h.spec_actions() == g.spec_actions().push(a)
        && h.spec_cursor_before() == g.spec_cursor_before() && h.spec_modified_before()
        == g.spec_modified_before())
    &&& h0.spec_current() is None ==> h1.spec_current() is None && h1.spec_undo().len()
        == h0.spec_undo().len() + 1 && h1.spec_undo().drop_last() == h0.spec_undo()
        && h1.spec_undo().last().spec_actions() == seq![a]
}

/// `h1` is `h0` after a complete group of the actions `acts` was recorded,
/// started at `before` (with the modified flag `modified`) and finished at
/// `after`. A group already being recorded in `h0` takes the actions and is
/// closed, keeping its own start.
pub open spec fn recorded_group(
    h0: UndoHistory,
    h1: UndoHistory,
    before: Cursor,
    modified: bool,
    acts: Seq<EditAction>,
    after: Cursor,
) -> bool {
    let (prev, cb, mb) = match h0.spec_current() {
        Some(g) => (g.spec_actions(), g.spec_cursor_before(), g.spec_modified_before()),
        None => (Seq::<EditAction>::empty(), before, modified),
    };
    &&& h1.spec_current() is None
    &&& h1.spec_redo().len() == 0
    &&& h1.spec_undo().len() == h0.spec_undo().len() + 1
    &&& h1.spec_undo().drop_last() == h0.spec_undo()
    &&& h1.spec_undo().last().spec_actions() == prev + acts
    &&& h1.spec_undo().last().spec_cursor_before() == cb
    &&& h1.spec_undo().last().spec_modified_before() == mb
    &&& h1.spec_undo().last().spec_cursor_after() == after
}

/// The actions recorded in `h1` since `h0`, oldest first: those added to
/// the group being recorded, or else the single actions of the entries
/// pushed on the undo stack.
pub open spec fn recent_actions(h0: UndoHistory, h1: UndoHistory) -> Seq<EditAction> {
    match h0.spec_current() {
        Some(g) => match h1.spec_current() {
            Some(g1) => g1.spec_actions().skip(g.spec_actions().len() as int),
            None => Seq::empty(),
        },
        None => Seq::new(
            (h1.spec_undo().len() - h0.spec_undo().len()) as nat,
            |i: int| h1.spec_undo()[h0.spec_undo().len() + i].spec_actions().last(),
        ),
    }
}

/// `h1` is `h0` after recording the actions `acts` one by one.
#[verifier::opaque]
pub open spec fn recorded_seq(h0: UndoHistory, h1: UndoHistory, acts: Seq<EditAction>) -> bool {
    &&& acts.len() == 0 ==> h1 == h0
    &&& acts.len() > 0 ==> h1.spec_redo().len() == 0
    &&& h0.spec_current() matches Some(g) ==> h1.spec_undo() == h0.spec_undo() && (
    h1.spec_current() matches Some(g1) && g1.spec_actions() == g.spec_actions() + acts
        && g1.spec_cursor_before() == g.spec_cursor_before() && g1.spec_modified_before()
        == g.spec_modified_before())
    &&& h0.spec_current() is None ==> {
        &&& h1.spec_current() is None
        &&& h1.spec_undo().len() == h0.spec_undo().len() + acts.len()
        &&& h1.spec_undo().take(h0.spec_undo().len() as int) == h0.spec_undo()
        &&& forall|i: int|
            0 <= i < acts.len() ==> (#[trigger] h1.spec_undo()[h0.spec_undo().len() + i]).spec_actions()
                == seq![acts[i]]
    }
}

/// Recording nothing is recording the empty sequence.
pub proof fn lemma_recorded_seq_empty(h0: UndoHistory)
    ensures
        recorded_seq(h0, h0, Seq::empty()),
{
    reveal(recorded_seq);
    assert(h0.spec_undo().take(h0.spec_undo().len() as int) =~= h0.spec_undo());
}

/// Recording one more action extends the recorded sequence.
pub proof fn lemma_recorded_seq_step(
    h0: UndoHistory,
    h1: UndoHistory,
    h2: UndoHistory,
    acts: Seq<EditAction>,
    a: EditAction,
)
    requires
        recorded_seq(h0, h1, acts),
        recorded(h1, h2, a),
    ensures
        recorded_seq(h0, h2, acts.push(a)),
{
    reveal(recorded_seq);
    match h0.spec_current() {
        Some(g) => {
            assert(g.spec_actions() + acts.push(a) =~= (g.spec_actions() + acts).push(a));
        },
        None => {
            let n = h0.spec_undo().len();
            assert(h2.spec_undo().take(n as int) =~= h1.spec_undo().take(n as int));
            assert forall|i: int| 0 <= i < acts.push(a).len() implies (#[trigger] h2.spec_undo()[n
                + i]).spec_actions() == seq![acts.push(a)[i]] by {
                assert(h1.spec_current() is None);
                if i < acts.len() {
                    assert(h2.spec_undo()[n + i] == h2.spec_undo().drop_last()[n + i]);
                    assert(h1.spec_undo()[n + i].spec_actions() == seq![acts[i]]);
                } else {
                    assert(h2.spec_undo()[n + i] == h2.spec_undo().last());
                }
            }
        },
    }
}

/// The recorded sequence is what `recent_actions` reads back.
pub proof fn lemma_recent_actions(h0: UndoHistory, h1: UndoHistory, acts: Seq<EditAction>)
    requires
        recorded_seq(h0, h1, acts),
    ensures
        recent_actions(h0, h1) == acts,
{
    reveal(recorded_seq);
    match h0.spec_current() {
        Some(g) => {
            if acts.len() == 0 {
                assert(g.spec_actions().skip(g.spec_actions().len() as int) =~= acts);
            } else {
                let g1 = h1.spec_current()->Some_0;
                assert(g1.spec_actions().skip(g.spec_actions().len() as int) =~= acts);
            }
        },
        None => {
            let n = h0.spec_undo().len();
            assert forall|i: int| 0 <= i < acts.len() implies recent_actions(h0, h1)[i] == acts[i] by {
                assert(h1.spec_undo()[n + i].spec_actions() == seq![acts[i]]);
            }
            assert(recent_actions(h0, h1) =~= acts);
        },
    }
}

/// `a` replaces the content `old` of line `row` with `new`.
pub open spec fn replaces_line(a: EditAction, row: int, old: Seq<char>, new: Seq<char>) -> bool {
    a matches EditAction::ReplaceLine { row: r, old_content, new_content } && r == row
        && old_content@ == old && new_content@ == new
}

/// `a` records the removal of line `row`, whose content was `content`;
/// when it was the sole line of the buffer (`sole`), which a buffer clears
/// rather than removes, `a` records that clearing as the line's replacement
/// by the empty line.
pub open spec fn removes_or_clears(a: EditAction, row: int, content: Seq<char>, sole: bool) -> bool {
    if sole {
        replaces_line(a, row, content, Seq::empty())
    } else {
        removes_line(a, row, content)
    }
}

/// `a` removes line `row`, whose content was `content`.
pub open spec fn removes_line(a: EditAction, row: int, content: Seq<char>) -> bool {
    a matches EditAction::RemoveLine { row: r, content: c } && r == row && c@ == content
}

/// `h1` is `h0` after recording one action, the most recent of `h1`.
pub open spec fn recorded_last(h0: UndoHistory, h1: UndoHistory) -> bool {
    recorded(h0, h1, last_action(h1))
}

/// The most recently recorded action of a history.
pub open spec fn last_action(h: UndoHistory) -> EditAction {
    match h.spec_current() {
        Some(g) => g.spec_actions().last(),
        None => h.spec_undo().last().spec_actions().last(),
    }
}

/// Recording `a` makes it the most recent action.
pub proof fn lemma_recorded_last(h0: UndoHistory, h1: UndoHistory, a: EditAction)
    requires
        recorded(h0, h1, a),
    ensures
        last_action(h1) == a,
{
}

/// `h1` is `h0` after starting a group at `cursor` (with the modified flag
/// `modified`), unless a group was already being recorded.
pub open spec fn begun(h0: UndoHistory, h1: UndoHistory, cursor: Cursor, modified: bool) -> bool {
    &&& h1.spec_undo() == h0.spec_undo()
    &&& h1.spec_redo() == h0.spec_redo()
    &&& h0.spec_current() is Some ==> h1.spec_current() == h0.spec_current()
    &&& h0.spec_current() is None ==> (h1.spec_current() matches Some(g) && g.spec_actions().len() == 0
        && g.spec_cursor_before() == cursor && g.spec_modified_before() == modified)
}

/// `h1` is `h0` after finishing the group being recorded at `cursor`: a
/// group with actions becomes the newest undo entry (clearing the redo
/// stack); an empty group is dropped.
pub open spec fn ended(h0: UndoHistory, h1: UndoHistory, cursor: Cursor) -> bool {
    &&& h1.spec_current() is None
    &&& h0.spec_current() is None ==> h1.spec_undo() == h0.spec_undo() && h1.spec_redo() == h0.spec_redo()
    &&& h0.spec_current() matches Some(g) ==> if g.spec_actions().len() == 0 {
        h1.spec_undo() == h0.spec_undo() && h1.spec_redo() == h0.spec_redo()
    } else {
        &&& h1.spec_redo().len() == 0
        &&& h1.spec_undo().drop_last() == h0.spec_undo()
        &&& h1.spec_undo().len() == h0.spec_undo().len() + 1
        &&& h1.spec_undo().last().spec_actions() == g.spec_actions()
        &&& h1.spec_undo().last().spec_cursor_before() == g.spec_cursor_before()
        &&& h1.spec_undo().last().spec_cursor_after() == cursor
        &&& h1.spec_undo().last().spec_modified_before() == g.spec_modified_before()
    }
}

/// `h1` is `h0` after a group was started at `before` (with the modified
/// flag `modified`), given the actions `acts` and finished at `after`: a
/// group already open in `h0` takes the actions and is closed; a group
/// left without actions is dropped.
pub open spec fn grouped(
    h0: UndoHistory,
    h1: UndoHistory,
    before: Cursor,
    modified: bool,
    acts: Seq<EditAction>,
    after: Cursor,
) -> bool {
    let prev = match h0.spec_current() {
        Some(g) => g.spec_actions().len(),
        None => 0,
    };
    if prev + acts.len() == 0 {
        &&& h1.spec_undo() == h0.spec_undo()
        &&& h1.spec_redo() == h0.spec_redo()
        &&& h1.spec_current() is None
    } else {
        recorded_group(h0, h1, before, modified, acts, after)
    }
}

/// Recording `a1` and then `a2` records `a1 + a2`.
pub proof fn lemma_recorded_seq_concat(
    h0: UndoHistory,
    h1: UndoHistory,
    h2: UndoHistory,
    a1: Seq<EditAction>,
    a2: Seq<EditAction>,
)
    requires
        recorded_seq(h0, h1, a1),
        recorded_seq(h1, h2, a2),
    ensures
        recorded_seq(h0, h2, a1 + a2),
{
    reveal(recorded_seq);
    if a1.len() == 0 {
        assert(a1 + a2 =~= a2);
    } else if a2.len() == 0 {
        assert(a1 + a2 =~= a1);
    } else {
        match h0.spec_current() {
            Some(g) => {
                assert(g.spec_actions() + a1 + a2 =~= g.spec_actions() + (a1 + a2));
            },
            None => {
                let n = h0.spec_undo().len();
                let m = h1.spec_undo().len();
                assert(h1.spec_current() is None);
                assert(h2.spec_undo().take(m as int) == h1.spec_undo());
                assert(h2.spec_undo().take(n as int) =~= h2.spec_undo().take(m as int).take(n as int));
                assert(h1.spec_undo().take(n as int) == h0.spec_undo());
                assert forall|i: int| 0 <= i < (a1 + a2).len() implies (#[trigger] h2.spec_undo()[n
                    + i]).spec_actions() == seq![(a1 + a2)[i]] by {
                    if i < a1.len() {
                        assert(h2.spec_undo()[n + i] == h2.spec_undo().take(m as int)[n + i]);
                    } else {
                        assert(h2.spec_undo()[m + (i - a1.len())].spec_actions() == seq![a2[i - a1.len()]]);
                    }
                }
            },
        }
    }
}

/// A group started, given the actions `acts` and finished is `grouped`.
pub proof fn lemma_grouped(
    h0: UndoHistory,
    h1: UndoHistory,
    h2: UndoHistory,
    h3: UndoHistory,
    before: Cursor,
    modified: bool,
    acts: Seq<EditAction>,
    after: Cursor,
)
    requires
        begun(h0, h1, before, modified),
        recorded_seq(h1, h2, acts),
        ended(h2, h3, after),
    ensures
        grouped(h0, h3, before, modified, acts, after),
        grouped_actions(h0, h3, acts.len() as int) == acts,
{
    reveal(recorded_seq);
    let g1 = h1.spec_current()->Some_0;
    if acts.len() == 0 {
        assert(h2 == h1);
    }
    match h0.spec_current() {
        Some(g) => {
            if g.spec_actions().len() + acts.len() > 0 {
                assert((g.spec_actions() + acts).skip(g.spec_actions().len() as int) =~= acts);
            }
        },
        None => {
            assert(g1.spec_actions() + acts =~= acts);
            assert(Seq::<EditAction>::empty() + acts =~= acts);
            if acts.len() > 0 {
                assert(acts.skip(0) =~= acts);
            }
        },
    }
}

/// The last `n` actions of the group `h1` closed after `h0` (none when
/// `n` is 0).
pub open spec fn grouped_actions(h0: UndoHistory, h1: UndoHistory, n: int) -> Seq<EditAction> {
    if n <= 0 {
        Seq::empty()
    } else {
        group_actions(h0, h1)
    }
}

/// The actions of the group that `h1` closed after `h0`: those of its
/// newest entry not already recorded in the group open in `h0`.
pub open spec fn group_actions(h0: UndoHistory, h1: UndoHistory) -> Seq<EditAction> {
    let prev = match h0.spec_current() {
        Some(g) => g.spec_actions().len(),
        None => 0,
    };
    h1.spec_undo().last().spec_actions().skip(prev as int)
}

/// A recorded group's actions read back by `group_actions`.
pub proof fn lemma_group_actions(
    h0: UndoHistory,
    h1: UndoHistory,
    before: Cursor,
    modified: bool,
    acts: Seq<EditAction>,
    after: Cursor,
)
    requires
        recorded_group(h0, h1, before, modified, acts, after),
    ensures
        group_actions(h0, h1) == acts,
{
    match h0.spec_current() {
        Some(g) => {
            assert((g.spec_actions() + acts).skip(g.spec_actions().len() as int) =~= acts);
        },
        None => {
            assert((Seq::<EditAction>::empty() + acts).skip(0) =~= acts);
        },
    }
}

/// A group started, given the actions `acts` one by one and finished,
/// records those actions as one group.
pub proof fn lemma_group_of_seq(
    h0: UndoHistory,
    h1: UndoHistory,
    h2: UndoHistory,
    h3: UndoHistory,
    before: Cursor,
    modified: bool,
    acts: Seq<EditAction>,
    after: Cursor,
)
    requires
        begun(h0, h1, before, modified),
        recorded_seq(h1, h2, acts),
        ended(h2, h3, after),
        acts.len() > 0,
    ensures
        recorded_group(h0, h3, before, modified, acts, after),
{
    reveal(recorded_seq);
    match h0.spec_current() {
        Some(g) => {},
        None => {
            let g1 = h1.spec_current()->Some_0;
            assert(g1.spec_actions() + acts =~= acts);
            assert(Seq::<EditAction>::empty() + acts =~= acts);
        },
    }
}

/// Undo and redo stacks, plus the group being recorded.
#[derive(Debug)]
pub struct UndoHistory {
    undo_stack: Vec<UndoEntry>,
    redo_stack: Vec<UndoEntry>,
    current: Option<UndoEntry>,
}

impl UndoHistory {
    /// Entries that can be undone, oldest first.
    pub closed spec fn spec_undo(&self) -> Seq<UndoEntry> {
        self.undo_stack@
    }

    /// Entries that can be redone, most recently undone last.
    pub closed spec fn spec_redo(&self) -> Seq<UndoEntry> {
        self.redo_stack@
    }

    /// The group being recorded, if any.
    pub closed spec fn spec_current(&self) -> Option<UndoEntry> {
        self.current
    }

    /// An empty history.
    pub fn new() -> (h: UndoHistory)
        ensures
            h.spec_undo().len() == 0,
            h.spec_redo().len() == 0,
            h.spec_current() is None,
    {
        UndoHistory { undo_stack: Vec::new(), redo_stack: Vec::new(), current: None }
    }

    /// Start recording a group, unless one is already being recorded (then
    /// the actions join that group).
    pub fn begin_group(&mut self, cursor: Cursor, modified: bool)
        ensures
            begun(*old(self), *final(self), cursor, modified),
    {
        if self.current.is_none() {
            self.current = Some(
                UndoEntry {
                    actions: Vec::new(),
                    cursor_before: cursor,
                    cursor_after: cursor,
                    modified_before: modified,
                },
            );
        }
    }

    /// Record an action: it joins the group being recorded, or else forms an
    /// entry of its own. Either way the redo stack is cleared.
    pub fn record(&mut self, action: EditAction)
        ensures
            recorded(*old(self), *final(self), action),
    {
        self.redo_stack = Vec::new();
        match self.current.take() {
            Some(mut g) => {
                g.actions.push(action);
                self.current = Some(g);
            },
            None => {
                let mut actions: Vec<EditAction> = Vec::new();
                actions.push(action);
                let entry = UndoEntry {
                    actions,
                    cursor_before: Cursor { row: 0, col: 0 },
                    cursor_after: Cursor { row: 0, col: 0 },
                    modified_before: true,
                };
                self.undo_stack.push(entry);
                assert(self.undo_stack@.drop_last() =~= old(self).undo_stack@);
            },
        }
    }

    /// Finish the group being recorded: a group with actions becomes the
    /// newest undo entry (and the redo stack is cleared); an empty group is
    /// dropped.
    pub fn end_group(&mut self, cursor: Cursor)
        ensures
            ended(*old(self), *final(self), cursor),
    {
        match self.current.take() {
            Some(mut g) => {
                if g.actions.len() > 0 {
                    g.cursor_after = cursor;
                    self.undo_stack.push(g);
                    self.redo_stack = Vec::new();
                    assert(self.undo_stack@.drop_last() =~= old(self).undo_stack@);
                }
            },
            None => {},
        }
    }

    /// Whether there is an entry to undo.
    pub fn can_undo(&self) -> (b: bool)
        ensures
            b == (self.spec_undo().len() > 0),
    {
        self.undo_stack.len() > 0
    }

    /// Whether there is an entry to redo.
    pub fn can_redo(&self) -> (b: bool)
        ensures
            b == (self.spec_redo().len() > 0),
    {
        self.redo_stack.len() > 0
    }

    /// Move the newest undo entry to the redo stack and return it.
    pub fn undo(&mut self) -> (r: Option<UndoEntry>)
        ensures
            final(self).spec_current() == old(self).spec_current(),
            old(self).spec_undo().len() == 0 ==> r is None && final(self).spec_undo() == old(
                self,
            ).spec_undo() && final(self).spec_redo() == old(self).spec_redo(),
            old(self).spec_undo().len() > 0 ==> (r matches Some(e) && same_entry(
                e,
                old(self).spec_undo().last(),
            )) && (final(self).spec_undo(), final(self).spec_redo()) == stacks_after_undo(
                old(self).spec_undo(),
                old(self).spec_redo(),
            ),
    {
        match self.undo_stack.pop() {
            Some(e) => {
                let copy = e.duplicate();
                self.redo_stack.push(e);
                assert(self.undo_stack@ =~= old(self).undo_stack@.drop_last());
                Some(copy)
            },
            None => None,
        }
    }

    /// Move the most recently undone entry back to the undo stack and return it.
    pub fn redo(&mut self) -> (r: Option<UndoEntry>)
        ensures
            final(self).spec_current() == old(self).spec_current(),
            old(self).spec_redo().len() == 0 ==> r is None && final(self).spec_undo() == old(
                self,
            ).spec_undo() && final(self).spec_redo() == old(self).spec_redo(),
            old(self).spec_redo().len() > 0 ==> (r matches Some(e) && same_entry(
                e,
                old(self).spec_redo().last(),
            )) && (final(self).spec_undo(), final(self).spec_redo()) == stacks_after_redo(
                old(self).spec_undo(),
                old(self).spec_redo(),
            ),
    {
        match self.redo_stack.pop() {
            Some(e) => {
                let copy = e.duplicate();
                self.undo_stack.push(e);
                assert(self.redo_stack@ =~= old(self).redo_stack@.drop_last());
                Some(copy)
            },
            None => None,
        }
    }
}

} // verus!
