//! One key pressed in visual mode.

use vstd::prelude::*;
use crate::editor::normal::{key_motion, key_moved, view_follows, KeyMotion};
use crate::editor::visual::{
    delete_ok, kind_switched, ordered_selection, selection_deleted, selection_end_ok, selection_updated,
    visual_cuts_ok, visual_exited, visual_indented, visual_lines_yanked, visual_toggled, visual_yanked,
};
use crate::editor::Editor;
use crate::error::Error;
use crate::mode::VisualKind;
use crate::terminal::Key;

verus! {

/// What a visual-mode key leaves for the caller.
#[derive(Debug, PartialEq, Eq, Structural)]
pub enum VisualOutcome {
    /// The key is handled.
    Done,
    /// The key needs what this library does not hold (the change, join,
    /// put and block-insert commands, the command line on the selection,
    /// jumping to the end); nothing was changed.
    Unsupported,
}

/// The key that enters visual mode of `kind`.
pub open spec fn kind_key(kind: VisualKind) -> Key {
    match kind {
        VisualKind::Character => Key::Char('v'),
        VisualKind::Line => Key::Char('V'),
        VisualKind::Block => Key::Ctrl('v'),
    }
}

/// After an operator on the selection left `e1` with result `r0`: when
/// it succeeded, visual mode is left, giving `e2`; `r` reports it.
pub open spec fn exited_after(e1: Editor, e2: Editor, r0: Result<(), Error>, r: Result<VisualOutcome, Error>) -> bool {
    &&& r0 is Err ==> e2 == e1 && r == Err::<VisualOutcome, Error>(r0->Err_0)
    &&& r0 is Ok ==> visual_exited(e1, e2) && r == Ok::<VisualOutcome, Error>(VisualOutcome::Done)
}

/// What key `key` does in visual mode of `kind` to `e`, leaving `e2` and
/// returning `r`. A register prefix or other multi-key command is not
/// taken here: the selection commands use the unnamed register.
pub open spec fn visual_step(e: Editor, key: Key, kind: VisualKind, e2: Editor, r: Result<VisualOutcome, Error>) -> bool {
    let done = r == Ok::<VisualOutcome, Error>(VisualOutcome::Done);
    let unsupported = e2 == e && r == Ok::<VisualOutcome, Error>(VisualOutcome::Unsupported);
    if key == Key::Esc || key == kind_key(kind) {
        visual_exited(e, e2) && done
    } else if key == Key::Char('v') {
        kind_switched(e, e2, VisualKind::Character, Ok(())) && done
    } else if key == Key::Char('V') {
        kind_switched(e, e2, VisualKind::Line, Ok(())) && done
    } else if key == Key::Ctrl('v') {
        kind_switched(e, e2, VisualKind::Block, Ok(())) && done
    } else {
        match key {
            Key::Char('d') | Key::Char('x') => exists|e1: Editor, r0: Result<(), Error>| #[trigger] selection_deleted(e, e1, kind, None, r0) && exited_after(e1, e2, r0, r),
            Key::Char('y') => exists|e1: Editor, r0: Result<(), Error>| #[trigger] visual_yanked(e, e1, kind, None, r0) && exited_after(e1, e2, r0, r),
            Key::Char('Y') => exists|e1: Editor, r0: Result<(), Error>| #[trigger] visual_lines_yanked(e, e1, None, r0) && exited_after(e1, e2, r0, r),
            Key::Char('~') => exists|e1: Editor, r0: Result<(), Error>| #[trigger] visual_toggled(e, e1, kind, r0) && exited_after(e1, e2, r0, r),
            Key::Char('>') => exists|e1: Editor, r0: Result<(), Error>| #[trigger] visual_indented(e, e1, true, r0) && exited_after(e1, e2, r0, r),
            Key::Char('<') => exists|e1: Editor, r0: Result<(), Error>| #[trigger] visual_indented(e, e1, false, r0) && exited_after(e1, e2, r0, r),
            Key::Char('c') | Key::Char('J') | Key::Char('o') | Key::Char(':') | Key::Char('p') | Key::Char(
                'I',
            ) | Key::Char('A') | Key::Char('G') => unsupported,
            _ => if key_motion(key) is Some {
                &&& done
                &&& exists|e1: Editor, e3: Editor|
                    #![trigger key_moved(e, e1, key_motion(key)->0), view_follows(e1, e3)]
                    key_moved(e, e1, key_motion(key)->0) && view_follows(e1, e3) && selection_updated(
                        e3,
                        e2,
                        kind,
                    )
            } else {
                e2 == e && done
            },
        }
    }
}

/// The inputs on which `handle_visual_key` works: a well-formed editor
/// with its cursor on a boundary, and a selection that the operator of
/// the key can take.
pub open spec fn visual_ready(e: Editor, key: Key, kind: VisualKind) -> bool {
    &&& e.wf()
    &&& e.cursor_ok()
    &&& (key == Key::Char('d') || key == Key::Char('x')) ==> (ordered_selection(e) matches Some(n)
        ==> delete_ok(e.document.buffer@, n, kind))
    &&& key == Key::Char('y') ==> visual_cuts_ok(e, kind)
    &&& (key == Key::Char('Y') || key == Key::Char('>') || key == Key::Char('<')) ==> (ordered_selection(
        e,
    ) matches Some(n) ==> n.end.row < usize::MAX)
    &&& (key == Key::Char('~') && kind is Character) ==> (ordered_selection(e) matches Some(n)
        ==> selection_end_ok(e.document.buffer@, n))
}

impl Editor {
    /// Handle `key` in visual mode of `kind`, as `visual_step` says.
    #[verifier::spinoff_prover]
    #[verifier::rlimit(100)]
    pub fn handle_visual_key(&mut self, key: Key, kind: VisualKind) -> (r: Result<VisualOutcome, Error>)
        requires
            visual_ready(*old(self), key, kind),
        ensures
            final(self).wf(),
            visual_step(*old(self), key, kind, *final(self), r),
    {
        let same = match kind {
            VisualKind::Character => key == Key::Char('v'),
            VisualKind::Line => key == Key::Char('V'),
            VisualKind::Block => key == Key::Ctrl('v'),
        };
        if key == Key::Esc || same {
            self.exit_visual_mode();
            return Ok(VisualOutcome::Done);
        }
        if key == Key::Char('v') {
            let _ = self.switch_visual_kind(VisualKind::Character);
            return Ok(VisualOutcome::Done);
        }
        if key == Key::Char('V') {
            let _ = self.switch_visual_kind(VisualKind::Line);
            return Ok(VisualOutcome::Done);
        }
        if key == Key::Ctrl('v') {
            let _ = self.switch_visual_kind(VisualKind::Block);
            return Ok(VisualOutcome::Done);
        }
        let ghost e0 = *self;
        let r0 = match key {
            Key::Char('d') | Key::Char('x') => self.execute_visual_delete(kind, None),
            Key::Char('y') => self.execute_visual_yank(kind, None),
            Key::Char('Y') => self.execute_visual_yank_linewise(None),
            Key::Char('~') => self.execute_visual_toggle_case(kind),
            Key::Char('>') => self.execute_visual_indent(kind, true),
            Key::Char('<') => self.execute_visual_indent(kind, false),
            Key::Char('c') | Key::Char('J') | Key::Char('o') | Key::Char(':') | Key::Char('p') | Key::Char(
                'I',
            ) | Key::Char('A') | Key::Char('G') => {
                return Ok(VisualOutcome::Unsupported);
            },
            _ => {
                match Self::visual_motion_of(key) {
                    Some(m) => {
                        self.key_motion_move(m);
                        let ghost e1 = *self;
                        let row = self.document.cursor.row;
                        let n = self.document.buffer.len();
                        self.state.viewport.ensure_visible(row, n);
                        let ghost e3 = *self;
                        self.update_visual_selection(kind);
                        proof {
                            assert(key_moved(e0, e1, m));
                            assert(view_follows(e1, e3));
                        }
                    },
                    None => {},
                }
                return Ok(VisualOutcome::Done);
            },
        };
        let ghost e1 = *self;
        let ghost g0 = r0;
        let out = match r0 {
            Err(err) => Err(err),
            Ok(()) => {
                self.exit_visual_mode();
                Ok(VisualOutcome::Done)
            },
        };
        proof {
            assert(exited_after(e1, *self, g0, out));
        }
        out
    }

    /// `key_motion`, computed, for the keys it gives in visual mode.
    fn visual_motion_of(key: Key) -> (r: Option<KeyMotion>)
        ensures
            key != Key::Char('G') ==> r == key_motion(key),
    {
        match key {
            Key::Char('h') | Key::Left => Some(KeyMotion::Left),
            Key::Char('l') | Key::Right => Some(KeyMotion::Right),
            Key::Char('k') | Key::Up => Some(KeyMotion::Up),
            Key::Char('j') | Key::Down => Some(KeyMotion::Down),
            Key::Char('0') | Key::Home => Some(KeyMotion::LineStart),
            Key::Char('$') | Key::End => Some(KeyMotion::LineEnd),
            Key::Char('^') => Some(KeyMotion::FirstNonBlank),
            Key::Char('w') => Some(KeyMotion::WordForward),
            _ => None,
        }
    }
}

} // verus!
