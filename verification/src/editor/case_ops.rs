//! The case operators (`gU`, `gu`, `g~`) on whole lines and on ranges.

use vstd::prelude::*;
use crate::buffer::Cursor;
use crate::editor::keys::recase;
use crate::editor::movement::{min, sat_sub};
use crate::editor::{Document, Editor, EditorState};
use crate::error::Error;
use crate::mode::Operator;
use crate::buffer::unicode::next_grapheme_end;
use crate::text::{byte_len, char_index, is_boundary};
use crate::undo::{recent_actions, recorded_seq, replaces_line, EditAction};

verus! {

/// `v` with each row `r` in `s..e` replaced by `f(r, v[r])`.
pub open spec fn rows_replaced(
    v: Seq<Seq<char>>,
    s: int,
    e: int,
    f: spec_fn(int, Seq<char>) -> Seq<char>,
) -> Seq<Seq<char>> {
    Seq::new(v.len(), |r: int| if s <= r < e { f(r, v[r]) } else { v[r] })
}

/// The rows in `s..e` whose line `f` changes, in order.
pub open spec fn changed_rows(
    v: Seq<Seq<char>>,
    s: int,
    e: int,
    f: spec_fn(int, Seq<char>) -> Seq<char>,
) -> Seq<int>
    decreases e - s,
{
    if e <= s {
        Seq::empty()
    } else {
        let p = changed_rows(v, s, e - 1, f);
        if f(e - 1, v[e - 1]) != v[e - 1] {
            p.push(e - 1)
        } else {
            p
        }
    }
}

/// `acts` replace, one by one, the lines of `changed_rows` by what `f` makes
/// of them.
pub open spec fn replaced_each(
    acts: Seq<EditAction>,
    v: Seq<Seq<char>>,
    s: int,
    e: int,
    f: spec_fn(int, Seq<char>) -> Seq<char>,
) -> bool {
    let rows = changed_rows(v, s, e, f);
    &&& acts.len() == rows.len()
    &&& forall|i: int|
        0 <= i < rows.len() ==> replaces_line(#[trigger] acts[i], rows[i], v[rows[i]], f(rows[i], v[rows[i]]))
}

/// What a case operator over rows `s..e` does to `e0`, giving `e2`, with
/// `f` giving each row's new line: the lines change, each changed line
/// recorded for undo as a replacement; nothing else changes.
pub open spec fn recased_rows(
    e0: Editor,
    e2: Editor,
    s: int,
    e: int,
    f: spec_fn(int, Seq<char>) -> Seq<char>,
) -> bool {
    let v = e0.document.buffer@;
    let acts = recent_actions(e0.state.undo_history, e2.state.undo_history);
    &&& e2.document == (Document { buffer: e2.document.buffer, ..e0.document })
    &&& e2.document.buffer@ == rows_replaced(v, s, e, f)
    &&& e2.state == (EditorState { undo_history: e2.state.undo_history, ..e0.state })
    &&& recorded_seq(e0.state.undo_history, e2.state.undo_history, acts)
    &&& replaced_each(acts, v, s, e, f)
}

/// The new line a case operator over the whole line makes.
pub open spec fn whole_line_case(op: Operator) -> spec_fn(int, Seq<char>) -> Seq<char> {
    |r: int, l: Seq<char>| recase(l, 0, 0, byte_len(l) as int, op)
}

/// The new line a case operator from `top` to `bot` makes of row `r`: the
/// first row from `top`'s column, the last up to `bot`'s (cut to the
/// line), the rows between whole.
pub open spec fn range_case(top: Cursor, bot: Cursor, op: Operator) -> spec_fn(int, Seq<char>) -> Seq<
    char,
> {
    |r: int, l: Seq<char>|
        recase(
            l,
            0,
            if r == top.row {
                top.col as int
            } else {
                0
            },
            if r == bot.row {
                min(bot.col as int, byte_len(l) as int)
            } else {
                byte_len(l) as int
            },
            op,
        )
}

/// The new line a case operator on a characterwise visual selection from
/// `top` to `bot` makes of row `r`: the first row from `top`'s column (cut
/// to the line), the last up to the end of the grapheme cluster at `bot`'s
/// column (cut to the line), the rows between whole.
pub open spec fn selected_case(top: Cursor, bot: Cursor, op: Operator) -> spec_fn(int, Seq<char>) -> Seq<
    char,
> {
    |r: int, l: Seq<char>|
        recase(
            l,
            0,
            if r == top.row {
                min(top.col as int, byte_len(l) as int)
            } else {
                0
            },
            if r == bot.row {
                next_grapheme_end(l, min(bot.col as int, byte_len(l) as int))
            } else {
                byte_len(l) as int
            },
            op,
        )
}

/// Which part of each row a case operation covers.
#[derive(Clone, Copy)]
pub enum CaseSpan {
    /// Whole lines.
    Lines,
    /// From one position to another.
    Range,
    /// A characterwise visual selection.
    Selected,
}

/// The new line of row `r` for a case operation over `span`.
pub open spec fn span_case(span: CaseSpan, top: Cursor, bot: Cursor, op: Operator) -> spec_fn(
    int,
    Seq<char>,
) -> Seq<char> {
    match span {
        CaseSpan::Lines => whole_line_case(op),
        CaseSpan::Range => range_case(top, bot, op),
        CaseSpan::Selected => selected_case(top, bot, op),
    }
}

/// `op` is one of the case operators.
pub open spec fn is_case_op(op: Operator) -> bool {
    op == Operator::Uppercase || op == Operator::Lowercase || op == Operator::ToggleCase
}

impl Editor {
    /// Replace each row `r` in `s..=t` (those that exist) by what the case
    /// operator `op` makes of its bytes `lo(r)..hi(r)`, where `lo` is
    /// `top_col` on row `top_row` and 0 elsewhere, and `hi` is `bot_col`
    /// (cut to the line) on row `bot_row` and the line's end elsewhere.
    pub(crate) fn recase_rows(
        &mut self,
        s: usize,
        t: usize,
        top: Cursor,
        bot: Cursor,
        span: CaseSpan,
        op: Operator,
    )
        requires
            old(self).wf(),
            is_case_op(op),
            t < old(self).document.buffer@.len(),
            span is Selected && bot.row < old(self).document.buffer@.len() ==> is_boundary(
                old(self).document.buffer@[bot.row as int],
                min(bot.col as int, byte_len(old(self).document.buffer@[bot.row as int]) as int),
            ),
        ensures
            final(self).wf(),
            recased_rows(*old(self), *final(self), s as int, t + 1, span_case(span, top, bot, op)),
    {
        let ghost v = self.document.buffer@;
        let ghost f = span_case(span, top, bot, op);
        let ghost h0 = self.state.undo_history;
        let n = self.document.buffer.len();
        proof {
            crate::undo::lemma_recorded_seq_empty(h0);
            crate::undo::lemma_recent_actions(h0, h0, Seq::empty());
            assert(rows_replaced(v, s as int, s as int, f) =~= v);
        }
        let mut row = s;
        while row <= t
            invariant
                s <= row <= t + 1 || (row == s && s > t),
                t < v.len() == n,
                old(self).wf(),
                v == old(self).document.buffer@,
                h0 == old(self).state.undo_history,
                f == span_case(span, top, bot, op),
                span is Selected && bot.row < v.len() ==> is_boundary(
                    v[bot.row as int],
                    min(bot.col as int, byte_len(v[bot.row as int]) as int),
                ),
                is_case_op(op),
                self.document.buffer.wf(),
                self.document.buffer@ == rows_replaced(v, s as int, row as int, f),
                self.document == (Document { buffer: self.document.buffer, ..old(self).document }),
                self.state == (EditorState { undo_history: self.state.undo_history, ..old(self).state }),
                recorded_seq(h0, self.state.undo_history, recent_actions(h0, self.state.undo_history)),
                replaced_each(recent_actions(h0, self.state.undo_history), v, s as int, row as int, f),
            decreases t + 1 - row,
        {
            let ghost w = self.document.buffer@;
            let old_line = match self.document.buffer.line(row) {
                Some(l) => l.to_owned(),
                None => String::new(),
            };
            proof {
                assert(old_line@ == v[row as int]);
            }
            let len = crate::text::str_byte_len(old_line.as_str());
            let (lo, hi) = match span {
                CaseSpan::Lines => (0, len),
                CaseSpan::Range => {
                    let lo = if row == top.row {
                        top.col
                    } else {
                        0
                    };
                    let hi = if row == bot.row {
                        if bot.col < len {
                            bot.col
                        } else {
                            len
                        }
                    } else {
                        len
                    };
                    (lo, hi)
                },
                CaseSpan::Selected => {
                    let lo = if row == top.row {
                        if top.col < len {
                            top.col
                        } else {
                            len
                        }
                    } else {
                        0
                    };
                    let hi = if row == bot.row {
                        let b = if bot.col < len {
                            bot.col
                        } else {
                            len
                        };
                        crate::buffer::unicode::next_grapheme_boundary(old_line.as_str(), b)
                    } else {
                        len
                    };
                    (lo, hi)
                },
            };
            let new_line = crate::editor::keys::apply_case_to_line(old_line.as_str(), lo, hi, op);
            proof {
                assert(new_line@ == f(row as int, v[row as int]));
            }
            let ghost hp = self.state.undo_history;
            let _ = self.replace_line_recorded(row, new_line);
            let ghost hn = self.state.undo_history;
            proof {
                let prev = recent_actions(h0, hp);
                assert(self.document.buffer@ =~= rows_replaced(v, s as int, row + 1, f));
                assert(changed_rows(v, s as int, row + 1, f) == if f(row as int, v[row as int]) != v[row as int] {
                    changed_rows(v, s as int, row as int, f).push(row as int)
                } else {
                    changed_rows(v, s as int, row as int, f)
                });
                if f(row as int, v[row as int]) != v[row as int] {
                    let a = crate::undo::last_action(hn);
                    crate::undo::lemma_recorded_seq_step(h0, hp, hn, prev, a);
                    crate::undo::lemma_recent_actions(h0, hn, prev.push(a));
                } else {
                    assert(hn == hp);
                }
            }
            row = row + 1;
        }
        proof {
            if s > t {
                assert(rows_replaced(v, s as int, t + 1, f) =~= rows_replaced(v, s as int, s as int, f));
            }
        }
    }

    /// Apply the case operator `op` to whole rows `row_start..=row_end`
    /// (those that exist), recording each changed line for undo.
    pub fn apply_case_operator_lines(&mut self, row_start: usize, row_end: usize, operator: Operator) -> (r:
        Result<(), Error>)
        requires
            old(self).wf(),
            is_case_op(operator),
        ensures
            final(self).wf(),
            r is Ok,
            recased_rows(
                *old(self),
                *final(self),
                row_start as int,
                min(row_end as int, sat_sub(old(self).document.buffer@.len() as int, 1)) + 1,
                whole_line_case(operator),
            ),
    {
        let n = self.document.buffer.len();
        let last = if n >= 1 {
            n - 1
        } else {
            0
        };
        let end = if row_end < last {
            row_end
        } else {
            last
        };
        let c = Cursor::new(0, 0);
        self.recase_rows(row_start, end, c, c, CaseSpan::Lines, operator);
        Ok(())
    }

    /// Apply the case operator `op` from `start` up to `end` (in either
    /// order), recording each changed line for undo.
    pub fn apply_case_operator_range(&mut self, start: &Cursor, end: &Cursor, operator: Operator) -> (r:
        Result<(), Error>)
        requires
            old(self).wf(),
            is_case_op(operator),
        ensures
            final(self).wf(),
            r is Ok,
            ({
                let (top, bot) = if !crate::buffer::cursor_before(*end, *start) {
                    (*start, *end)
                } else {
                    (*end, *start)
                };
                recased_rows(
                    *old(self),
                    *final(self),
                    top.row as int,
                    min(bot.row as int, sat_sub(old(self).document.buffer@.len() as int, 1)) + 1,
                    range_case(top, bot, operator),
                )
            }),
    {
        let before = end.row < start.row || (end.row == start.row && end.col < start.col);
        let (top, bot) = if !before {
            (*start, *end)
        } else {
            (*end, *start)
        };
        let n = self.document.buffer.len();
        let last = if n >= 1 {
            n - 1
        } else {
            0
        };
        let e = if bot.row < last {
            bot.row
        } else {
            last
        };
        self.recase_rows(top.row, e, top, bot, CaseSpan::Range, operator);
        Ok(())
    }
}

} // verus!

verus! {

/// `c` is an identifier character: an ASCII letter or digit, or `_`.
pub open spec fn is_ident(c: char) -> bool {
    ('a' <= c <= 'z') || ('A' <= c <= 'Z') || ('0' <= c <= '9') || c == '_'
}

/// The number of identifier characters at the end of `s`.
pub open spec fn ident_suffix_len(s: Seq<char>) -> nat
    decreases s.len(),
{
    if s.len() > 0 && is_ident(s.last()) {
        1 + ident_suffix_len(s.drop_last())
    } else {
        0
    }
}

/// The number of identifier characters at the start of `s`.
pub open spec fn ident_prefix_len(s: Seq<char>) -> nat
    decreases s.len(),
{
    if s.len() > 0 && is_ident(s[0]) {
        1 + ident_prefix_len(s.skip(1))
    } else {
        0
    }
}

/// The identifier of `line` around byte offset `col`: the run of
/// identifier characters through the character there, or nothing when
/// that character is not one (or `col` is at the end).
pub open spec fn word_at(line: Seq<char>, col: int) -> Seq<char> {
    let k = char_index(line, col);
    if k >= line.len() || !is_ident(line[k]) {
        Seq::empty()
    } else {
        line.subrange(k - ident_suffix_len(line.take(k)), k + ident_prefix_len(line.skip(k)))
    }
}

fn is_ident_char(c: char) -> (b: bool)
    ensures
        b == is_ident(c),
{
    ('a' <= c && c <= 'z') || ('A' <= c && c <= 'Z') || ('0' <= c && c <= '9') || c == '_'
}

proof fn lemma_ident_lens_bounded(s: Seq<char>)
    ensures
        ident_suffix_len(s) <= s.len(),
        ident_prefix_len(s) <= s.len(),
    decreases s.len(),
{
    if s.len() > 0 {
        lemma_ident_lens_bounded(s.drop_last());
        lemma_ident_lens_bounded(s.skip(1));
    }
}

impl Editor {
    /// The identifier (ASCII letters, digits and `_`) under the cursor, or
    /// the empty string when the cursor is not on one.
    pub fn word_under_cursor(&self) -> (s: String)
        requires
            ({
                let v = self.document.buffer@;
                let c = self.document.cursor;
                c.row < v.len() ==> c.col <= byte_len(v[c.row as int]) && crate::text::is_boundary(
                    v[c.row as int],
                    c.col as int,
                )
            }),
        ensures
            s@ == if self.document.cursor.row < self.document.buffer@.len() {
                word_at(
                    self.document.buffer@[self.document.cursor.row as int],
                    self.document.cursor.col as int,
                )
            } else {
                Seq::empty()
            },
    {
        let row = self.document.cursor.row;
        let col = self.document.cursor.col;
        let line = match self.document.buffer.line(row) {
            Some(l) => l,
            None => return String::new(),
        };
        let cs = crate::text::chars_of(line);
        let k = crate::text::index_at_byte(cs.as_slice(), col);
        if k >= cs.len() || !is_ident_char(cs[k]) {
            return String::new();
        }
        let mut a = k;
        while a > 0 && is_ident_char(cs[a - 1])
            invariant
                a <= k <= cs@.len(),
                ident_suffix_len(cs@.take(k as int)) == (k - a) + ident_suffix_len(cs@.take(a as int)),
            decreases a,
        {
            assert(cs@.take(a as int).drop_last() =~= cs@.take(a - 1));
            a = a - 1;
        }
        proof {
            if a > 0 {
                assert(cs@.take(a as int).last() == cs@[a - 1]);
            }
        }
        let mut b = k;
        while b < cs.len() && is_ident_char(cs[b])
            invariant
                k <= b <= cs@.len(),
                ident_prefix_len(cs@.skip(k as int)) == (b - k) + ident_prefix_len(cs@.skip(b as int)),
            decreases cs.len() - b,
        {
            assert(cs@.skip(b as int).skip(1) =~= cs@.skip(b + 1));
            b = b + 1;
        }
        let mut out: Vec<char> = Vec::new();
        crate::text::extend_range(&mut out, cs.as_slice(), a, b);
        crate::text::string_from_chars(out.as_slice())
    }
}

} // verus!
