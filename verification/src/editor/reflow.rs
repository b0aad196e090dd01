//! Reflowing a paragraph (`gq`): its words re-wrapped to a width.

use vstd::prelude::*;
use crate::buffer::Cursor;
use crate::editor::case_ops::{changed_rows, replaced_each, rows_replaced};
use crate::editor::movement::{min, sat_sub};
use crate::editor::put::inserts_line;
use crate::editor::{Document, Editor, EditorState};
use crate::error::Error;
use crate::text::{byte_len, chars_of, str_byte_len, string_from_chars};
use crate::undo::{recent_actions, recorded_seq, removes_line, EditAction};

verus! {

/// ASCII whitespace, as `char::is_ascii_whitespace`.
pub open spec fn is_ascii_ws(c: char) -> bool {
    c == ' ' || c == '\t' || c == '\n' || c == '\x0C' || c == '\r'
}

/// The words of `s` as `str::split_ascii_whitespace` gives them: the
/// maximal runs of characters other than ASCII whitespace.
pub open spec fn ascii_words(s: Seq<char>) -> Seq<Seq<char>>
    decreases s.len(),
{
    if s.len() == 0 {
        Seq::empty()
    } else {
        let p = ascii_words(s.drop_last());
        let c = s.last();
        if is_ascii_ws(c) {
            p
        } else if s.len() >= 2 && !is_ascii_ws(s[s.len() - 2]) {
            p.update(p.len() - 1, p.last().push(c))
        } else {
            p.push(seq![c])
        }
    }
}

/// The words of rows `s..e` of `v`, in order.
pub open spec fn rows_words(v: Seq<Seq<char>>, s: int, e: int) -> Seq<Seq<char>>
    decreases e - s,
{
    if e <= s {
        Seq::empty()
    } else {
        rows_words(v, s, e - 1) + ascii_words(v[e - 1])
    }
}

/// The number of ASCII whitespace characters at the start of `s`.
pub open spec fn ascii_indent_len(s: Seq<char>) -> nat
    decreases s.len(),
{
    if s.len() > 0 && is_ascii_ws(s[0]) {
        1 + ascii_indent_len(s.skip(1))
    } else {
        0
    }
}

/// The finished lines and the line being filled after wrapping the words
/// `ws` greedily: a word goes on the current line after a space when the
/// line (in bytes) stays within `width`, else it starts a new line after
/// `indent`; the first word of a line always goes on it.
pub open spec fn wrap_state(ws: Seq<Seq<char>>, indent: Seq<char>, width: int) -> (Seq<Seq<char>>, Seq<
    char,
>)
    decreases ws.len(),
{
    if ws.len() == 0 {
        (Seq::empty(), indent)
    } else {
        let (done, cur) = wrap_state(ws.drop_last(), indent, width);
        let w = ws.last();
        if cur == indent {
            (done, cur + w)
        } else if byte_len(cur) + 1 + byte_len(w) <= width {
            (done, cur + seq![' '] + w)
        } else {
            (done.push(cur), indent + w)
        }
    }
}

/// The lines the words `ws` wrap into.
pub open spec fn wrapped(ws: Seq<Seq<char>>, indent: Seq<char>, width: int) -> Seq<Seq<char>> {
    let (done, cur) = wrap_state(ws, indent, width);
    done.push(cur)
}

/// The function that gives row `r` the line `ls[r - s]`.
pub open spec fn from_lines(ls: Seq<Seq<char>>, s: int) -> spec_fn(int, Seq<char>) -> Seq<char> {
    |r: int, l: Seq<char>| ls[r - s]
}

/// The lines reflowing rows `s..=t` of `v` to `width` gives.
pub open spec fn reflowed(v: Seq<Seq<char>>, s: int, t: int, width: int) -> Seq<Seq<char>> {
    let indent = v[s].take(ascii_indent_len(v[s]) as int);
    wrapped(rows_words(v, s, t + 1), indent, width)
}

fn is_ascii_ws_char(c: char) -> (b: bool)
    ensures
        b == is_ascii_ws(c),
{
    c == ' ' || c == '\t' || c == '\n' || c == '\x0C' || c == '\r'
}

/// The words of `line`, appended to `words`.
fn push_words(words: &mut Vec<String>, line: &str)
    ensures
        final(words)@.map_values(|w: String| w@) == old(words)@.map_values(|w: String| w@) + ascii_words(
            line@,
        ),
{
    let cs = chars_of(line);
    let ghost base = old(words)@.map_values(|w: String| w@);
    let mut cur: Vec<char> = Vec::new();
    let mut i: usize = 0;
    assert(cs@.take(0) =~= Seq::<char>::empty());
    while i < cs.len()
        invariant
            i <= cs@.len(),
            cs@ == line@,
            base == old(words)@.map_values(|w: String| w@),
            words@.len() >= base.len(),
            (cur@.len() > 0) == (i > 0 && !is_ascii_ws(cs@[i - 1])),
            cur@.len() > 0 ==> words@.map_values(|w: String| w@).push(cur@) == base + ascii_words(
                cs@.take(i as int),
            ),
            cur@.len() == 0 ==> words@.map_values(|w: String| w@) == base + ascii_words(cs@.take(i as int)),
        decreases cs.len() - i,
    {
        let c = cs[i];
        let ghost pre = cs@.take(i as int);
        let ghost ws0 = words@.map_values(|w: String| w@);
        assert(cs@.take(i + 1).drop_last() =~= pre);
        assert(cs@.take(i + 1).last() == c);
        if is_ascii_ws_char(c) {
            if cur.len() > 0 {
                let w = string_from_chars(cur.as_slice());
                let ghost before = words@;
                words.push(w);
                assert(words@.map_values(|w: String| w@) =~= before.map_values(|w: String| w@).push(
                    cur@,
                ));
                cur = Vec::new();
            }
        } else {
            let ghost old_cur = cur@;
            cur.push(c);
            proof {
                if i > 0 && !is_ascii_ws(cs@[i - 1]) {
                    assert(cs@.take(i + 1)[i - 1] == cs@[i - 1]);
                    let p = ascii_words(pre);
                    assert(ws0.push(old_cur) == base + p);
                    assert(p.len() >= 1);
                    assert((base + p).update((base + p).len() - 1, (base + p).last().push(c)) =~= base
                        + p.update(p.len() - 1, p.last().push(c)));
                    assert(ws0.push(cur@) =~= (base + p).update((base + p).len() - 1, (base + p).last().push(
                        c,
                    )));
                } else {
                    if i > 0 {
                        assert(cs@.take(i + 1)[i - 1] == cs@[i - 1]);
                    }
                    assert(old_cur.len() == 0);
                    assert(cur@ =~= seq![c]);
                    assert(ws0.push(cur@) =~= base + ascii_words(pre).push(seq![c]));
                }
            }
        }
        i = i + 1;
    }
    if cur.len() > 0 {
        let w = string_from_chars(cur.as_slice());
        let ghost before = words@;
        words.push(w);
        assert(words@.map_values(|w: String| w@) =~= before.map_values(|w: String| w@).push(cur@));
    }
    assert(cs@.take(i as int) =~= cs@);
}

} // verus!

verus! {

/// The words `words` wrapped to `width` after `indent` (see `wrapped`).
fn wrap_words(words: &Vec<String>, indent: &String, width: usize) -> (r: Vec<String>)
    ensures
        r@.map_values(|l: String| l@) == wrapped(words@.map_values(|w: String| w@), indent@, width as int),
{
    let ghost ws = words@.map_values(|w: String| w@);
    let mut done: Vec<String> = Vec::new();
    let mut cur = indent.clone();
    let mut i: usize = 0;
    assert(ws.take(0) =~= Seq::<Seq<char>>::empty());
    while i < words.len()
        invariant
            i <= words@.len(),
            ws == words@.map_values(|w: String| w@),
            (done@.map_values(|l: String| l@), cur@) == wrap_state(ws.take(i as int), indent@, width as int),
        decreases words.len() - i,
    {
        let ghost pre = ws.take(i as int);
        assert(ws.take(i + 1).drop_last() =~= pre);
        assert(ws.take(i + 1).last() == words@[i as int]@);
        let w = &words[i];
        if cur == *indent {
            crate::text::append_str(&mut cur, w.as_str());
        } else {
            let cl = str_byte_len(cur.as_str());
            let wl = str_byte_len(w.as_str());
            if cl + 1 + wl <= width {
                crate::text::push_char(&mut cur, ' ');
                crate::text::append_str(&mut cur, w.as_str());
                proof {
                    let (d0, c0) = wrap_state(pre, indent@, width as int);
                    assert(cur@ =~= c0 + seq![' '] + words@[i as int]@);
                }
            } else {
                let ghost before = done@;
                let finished = cur;
                let ghost fv = finished@;
                done.push(finished);
                assert(done@.map_values(|l: String| l@) =~= before.map_values(|l: String| l@).push(fv));
                cur = indent.clone();
                crate::text::append_str(&mut cur, w.as_str());
            }
        }
        i = i + 1;
    }
    assert(ws.take(i as int) =~= ws);
    let ghost before = done@;
    let ghost cv = cur@;
    done.push(cur);
    assert(done@.map_values(|l: String| l@) =~= before.map_values(|l: String| l@).push(cv));
    done
}

impl Editor {
    /// The words of rows `s..=t`.
    fn collect_words(&self, s: usize, t: usize) -> (r: Vec<String>)
        requires
            s <= t < self.document.buffer@.len(),
        ensures
            r@.map_values(|w: String| w@) == rows_words(self.document.buffer@, s as int, t + 1),
    {
        let ghost v = self.document.buffer@;
        let n = self.document.buffer.len();
        let mut words: Vec<String> = Vec::new();
        let mut row = s;
        assert(words@.map_values(|w: String| w@) =~= Seq::<Seq<char>>::empty());
        while row <= t
            invariant
                s <= row <= t + 1,
                t < v.len() == n,
                v == self.document.buffer@,
                words@.map_values(|w: String| w@) == rows_words(v, s as int, row as int),
            decreases t + 1 - row,
        {
            match self.document.buffer.line(row) {
                Some(l) => push_words(&mut words, l),
                None => {},
            }
            row = row + 1;
        }
        words
    }

    /// The ASCII whitespace at the start of line `row`.
    fn ascii_indent(&self, row: usize) -> (r: String)
        requires
            row < self.document.buffer@.len(),
        ensures
            r@ == self.document.buffer@[row as int].take(
                ascii_indent_len(self.document.buffer@[row as int]) as int,
            ),
    {
        let cs = match self.document.buffer.line(row) {
            Some(l) => chars_of(l),
            None => Vec::new(),
        };
        let mut k: usize = 0;
        assert(cs@.skip(0) =~= cs@);
        while k < cs.len() && is_ascii_ws_char(cs[k])
            invariant
                k <= cs@.len(),
                ascii_indent_len(cs@) == k + ascii_indent_len(cs@.skip(k as int)),
                forall|j: int| 0 <= j < k ==> is_ascii_ws(cs@[j]),
            decreases cs.len() - k,
        {
            assert(cs@.skip(k as int).skip(1) =~= cs@.skip(k + 1));
            k = k + 1;
        }
        let mut out: Vec<char> = Vec::new();
        crate::text::extend_range(&mut out, cs.as_slice(), 0, k);
        assert(cs@.subrange(0, k as int) =~= cs@.take(k as int));
        string_from_chars(out.as_slice())
    }

    /// Replace rows `rs..rs + lines.len()` by `lines`, recording each
    /// changed line.
    fn replace_rows_with(&mut self, rs: usize, lines: &Vec<String>)
        requires
            old(self).wf(),
            rs + lines@.len() <= old(self).document.buffer@.len(),
        ensures
            final(self).wf(),
            ({
                let e = *old(self);
                let e2 = *final(self);
                let v = e.document.buffer@;
                let ls = lines@.map_values(|l: String| l@);
                let f = from_lines(ls, rs as int);
                let acts = recent_actions(e.state.undo_history, e2.state.undo_history);
                &&& e2.document == (Document { buffer: e2.document.buffer, ..e.document })
                &&& e2.document.buffer@ == rows_replaced(v, rs as int, rs + ls.len(), f)
                &&& e2.state == (EditorState { undo_history: e2.state.undo_history, ..e.state })
                &&& recorded_seq(e.state.undo_history, e2.state.undo_history, acts)
                &&& replaced_each(acts, v, rs as int, rs + ls.len(), f)
            }),
    {
        let ghost v = self.document.buffer@;
        let ghost ls = lines@.map_values(|l: String| l@);
        let ghost f = from_lines(ls, rs as int);
        let ghost h0 = self.state.undo_history;
        let n = self.document.buffer.len();
        proof {
            crate::undo::lemma_recorded_seq_empty(h0);
            crate::undo::lemma_recent_actions(h0, h0, Seq::empty());
            assert(rows_replaced(v, rs as int, rs as int, f) =~= v);
        }
        let mut i: usize = 0;
        while i < lines.len()
            invariant
                i <= lines@.len(),
                n == v.len(),
                rs + lines@.len() <= v.len(),
                old(self).wf(),
                v == old(self).document.buffer@,
                h0 == old(self).state.undo_history,
                ls == lines@.map_values(|l: String| l@),
                f == from_lines(ls, rs as int),
                self.document.buffer.wf(),
                self.document.buffer@ == rows_replaced(v, rs as int, rs + i, f),
                self.document == (Document { buffer: self.document.buffer, ..old(self).document }),
                self.state == (EditorState { undo_history: self.state.undo_history, ..old(self).state }),
                recorded_seq(h0, self.state.undo_history, recent_actions(h0, self.state.undo_history)),
                replaced_each(recent_actions(h0, self.state.undo_history), v, rs as int, rs + i, f),
            decreases lines.len() - i,
        {
            let row = rs + i;
            proof {
                assert(ls[i as int] == lines@[i as int]@);
                assert(self.document.buffer@[row as int] == v[row as int]);
            }
            let ghost hp = self.state.undo_history;
            let _ = self.replace_line_recorded(row, lines[i].clone());
            let ghost hn = self.state.undo_history;
            proof {
                let prev = recent_actions(h0, hp);
                assert(self.document.buffer@ =~= rows_replaced(v, rs as int, rs + i + 1, f));
                assert(changed_rows(v, rs as int, row + 1, f) == if f(row as int, v[row as int]) != v[row as int] {
                    changed_rows(v, rs as int, row as int, f).push(row as int)
                } else {
                    changed_rows(v, rs as int, row as int, f)
                });
                if f(row as int, v[row as int]) != v[row as int] {
                    let a = crate::undo::last_action(hn);
                    crate::undo::lemma_recorded_seq_step(h0, hp, hn, prev, a);
                    crate::undo::lemma_recent_actions(h0, hn, prev.push(a));
                } else {
                    assert(hn == hp);
                }
            }
            i = i + 1;
        }
    }

    /// Remove `count` lines at row `row`, recording each removal.
    fn remove_rows_at(&mut self, row: usize, count: usize)
        requires
            old(self).wf(),
            row >= 1,
            row + count <= old(self).document.buffer@.len(),
        ensures
            final(self).wf(),
            ({
                let e = *old(self);
                let e2 = *final(self);
                let v = e.document.buffer@;
                let acts = recent_actions(e.state.undo_history, e2.state.undo_history);
                &&& e2.document == (Document { buffer: e2.document.buffer, ..e.document })
                &&& e2.document.buffer@ == v.take(row as int) + v.skip(row + count)
                &&& e2.state == (EditorState { undo_history: e2.state.undo_history, ..e.state })
                &&& recorded_seq(e.state.undo_history, e2.state.undo_history, acts)
                &&& acts.len() == count
                &&& forall|i: int| 0 <= i < count ==> removes_line(#[trigger] acts[i], row as int, v[row + i])
            }),
    {
        let ghost v = self.document.buffer@;
        let ghost h0 = self.state.undo_history;
        proof {
            crate::undo::lemma_recorded_seq_empty(h0);
            crate::undo::lemma_recent_actions(h0, h0, Seq::empty());
            assert(v.take(row as int) + v.skip(row as int) =~= v);
        }
        let mut j: usize = 0;
        while j < count
            invariant
                j <= count,
                row >= 1,
                row + count <= v.len(),
                old(self).wf(),
                v == old(self).document.buffer@,
                h0 == old(self).state.undo_history,
                self.document.buffer.wf(),
                self.document.buffer@ == v.take(row as int) + v.skip(row + j),
                self.document == (Document { buffer: self.document.buffer, ..old(self).document }),
                self.state == (EditorState { undo_history: self.state.undo_history, ..old(self).state }),
                recorded_seq(h0, self.state.undo_history, recent_actions(h0, self.state.undo_history)),
                recent_actions(h0, self.state.undo_history).len() == j,
                forall|i: int|
                    0 <= i < j ==> removes_line(
                        #[trigger] recent_actions(h0, self.state.undo_history)[i],
                        row as int,
                        v[row + i],
                    ),
            decreases count - j,
        {
            let ghost w = self.document.buffer@;
            let content = match self.document.buffer.line(row) {
                Some(l) => l.to_owned(),
                None => String::new(),
            };
            proof {
                assert(w[row as int] == v[row + j]);
            }
            let a = EditAction::RemoveLine { row, content };
            let ghost hp = self.state.undo_history;
            self.state.undo_history.record(a.duplicate());
            let ghost hn = self.state.undo_history;
            proof {
                let prev = recent_actions(h0, hp);
                crate::undo::lemma_recorded_seq_step(h0, hp, hn, prev, a);
                crate::undo::lemma_recent_actions(h0, hn, prev.push(a));
            }
            let _ = self.document.buffer.remove_line(row);
            proof {
                assert(w.len() >= 2);
                assert(w.remove(row as int) =~= v.take(row as int) + v.skip(row + j + 1));
            }
            j = j + 1;
        }
    }
}

} // verus!

verus! {

/// What reflowing rows `s..=t` of `e` to `width` does, giving `e2`: the
/// rows are replaced by the reflowed lines; for undo, each changed line
/// among the first rows both hold is recorded as replaced, then the extra
/// old lines as removed or the extra new lines as inserted.
pub open spec fn reflow_post(e: Editor, e2: Editor, s: int, t: int, width: int) -> bool {
    let v = e.document.buffer@;
    let nl = reflowed(v, s, t, width);
    let old_n = t + 1 - s;
    let m = min(old_n, nl.len() as int);
    let f = from_lines(nl, s);
    let acts = recent_actions(e.state.undo_history, e2.state.undo_history);
    let k = changed_rows(v, s, s + m, f).len();
    &&& e2.document == (Document { buffer: e2.document.buffer, ..e.document })
    &&& e2.document.buffer@ == v.take(s) + nl + v.skip(t + 1)
    &&& e2.state == (EditorState { undo_history: e2.state.undo_history, ..e.state })
    &&& recorded_seq(e.state.undo_history, e2.state.undo_history, acts)
    &&& replaced_each(acts.take(k as int), v, s, s + m, f)
    &&& acts.len() == k + if old_n > nl.len() {
        old_n - nl.len()
    } else {
        nl.len() - old_n
    }
    &&& forall|i: int|
        0 <= i < old_n - nl.len() ==> removes_line(#[trigger] acts[k + i], s + nl.len(), v[s + nl.len() + i])
    &&& forall|i: int|
        0 <= i < nl.len() - old_n ==> inserts_line(#[trigger] acts[k + i], s + old_n + i, nl[old_n + i])
}

/// Reflowing always gives at least one line.
proof fn lemma_wrapped_nonempty(ws: Seq<Seq<char>>, indent: Seq<char>, width: int)
    ensures
        wrapped(ws, indent, width).len() >= 1,
{
}

impl Editor {
    /// `gq`: reflow rows `row_start..=row_end` (those that exist) to
    /// `width` columns: their words re-wrapped greedily after the first
    /// row's ASCII indent. A width of 0 or an empty range changes nothing.
    #[verifier::spinoff_prover]
    #[verifier::rlimit(100)]
    pub fn reflow_lines(&mut self, row_start: usize, row_end: usize, width: usize) -> (r: Result<(), Error>)
        requires
            old(self).wf(),
        ensures
            final(self).wf(),
            r is Ok,
            ({
                let e = *old(self);
                let t = min(row_end as int, sat_sub(e.document.buffer@.len() as int, 1));
                if width == 0 || row_start > t {
                    *final(self) == e
                } else {
                    reflow_post(e, *final(self), row_start as int, t, width as int)
                }
            }),
    {
        if width == 0 {
            return Ok(());
        }
        let n = self.document.buffer.len();
        let last = if n >= 1 {
            n - 1
        } else {
            0
        };
        let end = if row_end < last {
            row_end
        } else {
            last
        };
        if row_start > end {
            return Ok(());
        }
        let ghost v = self.document.buffer@;
        let ghost e0 = *self;
        let indent = self.ascii_indent(row_start);
        let words = self.collect_words(row_start, end);
        let new_lines = wrap_words(&words, &indent, width);
        let ghost nl = reflowed(v, row_start as int, end as int, width as int);
        proof {
            lemma_wrapped_nonempty(words@.map_values(|w: String| w@), indent@, width as int);
            assert(new_lines@.map_values(|l: String| l@) == nl);
        }
        let old_count = end - row_start + 1;
        let new_count = new_lines.len();
        let m = if old_count < new_count {
            old_count
        } else {
            new_count
        };
        let mut head: Vec<String> = Vec::new();
        let mut i: usize = 0;
        while i < m
            invariant
                i <= m <= new_lines@.len(),
                head@.map_values(|l: String| l@) == nl.take(i as int),
                nl == new_lines@.map_values(|l: String| l@),
            decreases m - i,
        {
            let ghost before = head@;
            let l = new_lines[i].clone();
            head.push(l);
            proof {
                assert(nl[i as int] == new_lines@[i as int]@);
                assert(head@.map_values(|l: String| l@) =~= before.map_values(|l: String| l@).push(l@));
                assert(nl.take(i + 1) =~= nl.take(i as int).push(nl[i as int]));
            }
            i = i + 1;
        }
        let ghost h0 = self.state.undo_history;
        self.replace_rows_with(row_start, &head);
        let ghost h1 = self.state.undo_history;
        let ghost v1 = self.document.buffer@;
        let ghost f = from_lines(nl, row_start as int);
        let ghost fh = from_lines(nl.take(m as int), row_start as int);
        proof {
            assert(rows_replaced(v, row_start as int, row_start + m, fh) =~= rows_replaced(
                v,
                row_start as int,
                row_start + m,
                f,
            ));
            lemma_changed_rows_same(v, row_start as int, row_start + m, fh, f);
            lemma_changed_rows_range(v, row_start as int, row_start + m, f);
            let rows = changed_rows(v, row_start as int, row_start + m, f);
            let a1 = recent_actions(h0, h1);
            assert forall|i: int| 0 <= i < rows.len() implies crate::undo::replaces_line(
                #[trigger] a1[i],
                rows[i],
                v[rows[i]],
                f(rows[i], v[rows[i]]),
            ) by {
                assert(fh(rows[i], v[rows[i]]) == f(rows[i], v[rows[i]]));
            }
        }
        if old_count > new_count {
            proof {
                assert(v1 =~= v.take(row_start as int) + nl + v.skip(row_start + new_count));
            }
            self.remove_rows_at(row_start + new_count, old_count - new_count);
            proof {
                let w = self.document.buffer@;
                let r0 = row_start + new_count;
                assert(v1.take(r0 as int) =~= v.take(row_start as int) + nl);
                assert(v1.skip(r0 + old_count - new_count) =~= v.skip(end + 1));
                assert(w =~= v.take(row_start as int) + nl + v.skip(end + 1));
                assert forall|j: int| 0 <= j < old_count - new_count implies #[trigger] v1[r0 + j] == v[r0 + j] by {}
            }
        } else if new_count > old_count {
            let mut tail: Vec<String> = Vec::new();
            let mut j: usize = old_count;
            while j < new_count
                invariant
                    old_count <= j <= new_count == new_lines@.len(),
                    tail@.map_values(|l: String| l@) == nl.subrange(old_count as int, j as int),
                    nl == new_lines@.map_values(|l: String| l@),
                decreases new_count - j,
            {
                let ghost before = tail@;
                let l = new_lines[j].clone();
                tail.push(l);
                proof {
                    assert(nl[j as int] == new_lines@[j as int]@);
                    assert(tail@.map_values(|l: String| l@) =~= before.map_values(|l: String| l@).push(
                        l@,
                    ));
                }
                j = j + 1;
            }
            proof {
                assert(v1 =~= v.take(row_start as int) + nl.take(old_count as int) + v.skip(end + 1));
            }
            self.insert_lines_recorded(row_start + old_count, &tail);
            proof {
                let w = self.document.buffer@;
                assert(w =~= v.take(row_start as int) + nl + v.skip(end + 1));
            }
        } else {
            proof {
                crate::undo::lemma_recorded_seq_empty(h1);
                crate::undo::lemma_recent_actions(h1, h1, Seq::empty());
                assert(v1 =~= v.take(row_start as int) + nl + v.skip(end + 1));
            }
        }
        let ghost h2 = self.state.undo_history;
        proof {
            let a1 = recent_actions(h0, h1);
            let a2 = recent_actions(h1, h2);
            crate::undo::lemma_recorded_seq_concat(h0, h1, h2, a1, a2);
            crate::undo::lemma_recent_actions(h0, h2, a1 + a2);
            assert((a1 + a2).take(a1.len() as int) =~= a1);
            assert forall|i: int| 0 <= i < a2.len() implies #[trigger] (a1 + a2)[a1.len() + i] == a2[i] by {}
        }
        Ok(())
    }
}

/// The rows `changed_rows` lists lie in `s..e`.
proof fn lemma_changed_rows_range(
    v: Seq<Seq<char>>,
    s: int,
    e: int,
    f: spec_fn(int, Seq<char>) -> Seq<char>,
)
    ensures
        forall|i: int|
            0 <= i < changed_rows(v, s, e, f).len() ==> s <= #[trigger] changed_rows(v, s, e, f)[i] < e,
    decreases e - s,
{
    if e > s {
        lemma_changed_rows_range(v, s, e - 1, f);
        let p = changed_rows(v, s, e - 1, f);
        let rows = changed_rows(v, s, e, f);
        assert forall|i: int| 0 <= i < rows.len() implies s <= #[trigger] rows[i] < e by {
            if i < p.len() {
                assert(rows[i] == p[i]);
            }
        }
    }
}

/// `changed_rows` depends only on what the two functions give on the rows.
proof fn lemma_changed_rows_same(
    v: Seq<Seq<char>>,
    s: int,
    e: int,
    f: spec_fn(int, Seq<char>) -> Seq<char>,
    g: spec_fn(int, Seq<char>) -> Seq<char>,
)
    requires
        forall|r: int| s <= r < e ==> #[trigger] f(r, v[r]) == g(r, v[r]),
    ensures
        changed_rows(v, s, e, f) == changed_rows(v, s, e, g),
    decreases e - s,
{
    if e > s {
        lemma_changed_rows_same(v, s, e - 1, f, g);
    }
}

} // verus!

verus! {

/// Line `l` of a reflow after `indent` with the words `ws` is within
/// `width` bytes, unless it holds a single word (or none) after the indent.
pub open spec fn line_fits(l: Seq<char>, indent: Seq<char>, ws: Seq<Seq<char>>, width: int) -> bool {
    ||| byte_len(l) <= width
    ||| l == indent
    ||| exists|j: int| 0 <= j < ws.len() && l == indent + #[trigger] ws[j]
}

/// A line that fits among the words `ws` fits among `ws` with more words after.
proof fn lemma_line_fits_more(l: Seq<char>, indent: Seq<char>, ws: Seq<Seq<char>>, w2: Seq<Seq<char>>, width: int)
    requires
        line_fits(l, indent, ws, width),
        ws.len() <= w2.len(),
        forall|j: int| 0 <= j < ws.len() ==> #[trigger] ws[j] == w2[j],
    ensures
        line_fits(l, indent, w2, width),
{
    if byte_len(l) > width && l != indent {
        let j = choose|j: int| 0 <= j < ws.len() && l == indent + #[trigger] ws[j];
        assert(l == indent + w2[j]);
    }
}

#[verifier::spinoff_prover]
#[verifier::rlimit(80)]
proof fn lemma_wrap_state_fits(ws: Seq<Seq<char>>, indent: Seq<char>, width: int)
    ensures
        ({
            let (done, cur) = wrap_state(ws, indent, width);
            &&& forall|i: int| 0 <= i < done.len() ==> line_fits(#[trigger] done[i], indent, ws, width)
            &&& line_fits(cur, indent, ws, width)
        }),
    decreases ws.len(),
{
    if ws.len() > 0 {
        let p = ws.drop_last();
        lemma_wrap_state_fits(p, indent, width);
        let (done, cur) = wrap_state(p, indent, width);
        let w = ws.last();
        let n = ws.len() - 1;
        assert forall|j: int| 0 <= j < p.len() implies #[trigger] p[j] == ws[j] by {}
        assert forall|i: int| 0 <= i < done.len() implies line_fits(#[trigger] done[i], indent, ws, width) by {
            lemma_line_fits_more(done[i], indent, p, ws, width);
        }
        lemma_line_fits_more(cur, indent, p, ws, width);
        if cur == indent {
            assert(cur + w == indent + ws[n]);
        } else if byte_len(cur) + 1 + byte_len(w) <= width {
            crate::text::lemma_byte_len_concat(cur, seq![' ']);
            crate::text::lemma_byte_len_concat(cur + seq![' '], w);
            let sp = seq![' '];
            assert(sp.drop_last() =~= Seq::<char>::empty());
            assert(sp.last() == ' ');
            assert(byte_len(Seq::<char>::empty()) == 0);
            assert(crate::text::char_width(' ') == 1);
            assert(byte_len(sp) == 1);
        } else {
            let d2 = done.push(cur);
            assert forall|i: int| 0 <= i < d2.len() implies line_fits(#[trigger] d2[i], indent, ws, width) by {
                if i < done.len() {
                    assert(d2[i] == done[i]);
                }
            }
            assert(indent + w == indent + ws[n]);
        }
    }
}

/// Reflowing (`gq`) rows `s..=t` to `width`: every line it puts in their
/// place is at most `width` bytes long, except a line holding a single
/// word after the first row's indent (a word longer than the width stays
/// whole) or the indent alone.
#[verifier::spinoff_prover]
#[verifier::rlimit(80)]
pub proof fn law_reflow_lines_fit(e: Editor, e2: Editor, s: int, t: int, width: int)
    requires
        0 <= s <= t < e.document.buffer@.len(),
        reflow_post(e, e2, s, t, width),
    ensures
        ({
            let v = e.document.buffer@;
            let v2 = e2.document.buffer@;
            let indent = v[s].take(ascii_indent_len(v[s]) as int);
            let ws = rows_words(v, s, t + 1);
            &&& v2.len() >= s + 1 + (v.len() - (t + 1))
            &&& v2.take(s) == v.take(s)
            &&& v2.skip(v2.len() - (v.len() - (t + 1))) == v.skip(t + 1)
            &&& forall|r: int| s <= r < v2.len() - (v.len() - (t + 1)) ==> line_fits(#[trigger] v2[r], indent, ws, width)
        }),
{
    let v = e.document.buffer@;
    let v2 = e2.document.buffer@;
    let indent = v[s].take(ascii_indent_len(v[s]) as int);
    let ws = rows_words(v, s, t + 1);
    let nl = reflowed(v, s, t, width);
    lemma_wrap_state_fits(ws, indent, width);
    lemma_wrapped_nonempty(ws, indent, width);
    let (done, cur) = wrap_state(ws, indent, width);
    assert(nl == done.push(cur));
    assert(v2 == v.take(s) + nl + v.skip(t + 1));
    assert(v2.take(s) =~= v.take(s));
    assert(v2.skip(v2.len() - (v.len() - (t + 1))) =~= v.skip(t + 1));
    assert forall|r: int| s <= r < v2.len() - (v.len() - (t + 1)) implies line_fits(#[trigger] v2[r], indent, ws, width) by {
        assert(v2[r] == nl[r - s]);
        if r - s < done.len() {
            assert(nl[r - s] == done[r - s]);
        }
    }
}


/// Line `nxt` starts with `indent` and a word of `ws` that would not fit
/// on line `l` after a space.
pub open spec fn no_room(l: Seq<char>, nxt: Seq<char>, indent: Seq<char>, ws: Seq<Seq<char>>, width: int) -> bool {
    exists|j: int|
        0 <= j < ws.len() && nxt.len() >= indent.len() + ws[j].len() && nxt.take((indent.len() + ws[j].len()) as int)
            == indent + #[trigger] ws[j] && byte_len(l) + 1 + byte_len(ws[j]) > width
}

/// `no_room` survives more words after `ws` and text added to `nxt`.
proof fn lemma_no_room_more(
    l: Seq<char>,
    nxt: Seq<char>,
    x: Seq<char>,
    indent: Seq<char>,
    ws: Seq<Seq<char>>,
    w2: Seq<Seq<char>>,
    width: int,
)
    requires
        no_room(l, nxt, indent, ws, width),
        ws.len() <= w2.len(),
        forall|j: int| 0 <= j < ws.len() ==> #[trigger] ws[j] == w2[j],
    ensures
        no_room(l, nxt + x, indent, w2, width),
{
    let j = choose|j: int|
        0 <= j < ws.len() && nxt.len() >= indent.len() + ws[j].len() && nxt.take((indent.len() + ws[j].len()) as int)
            == indent + #[trigger] ws[j] && byte_len(l) + 1 + byte_len(ws[j]) > width;
    let k = (indent.len() + ws[j].len()) as int;
    assert((nxt + x).take(k) =~= nxt.take(k));
    assert(w2[j] == ws[j]);
}

/// The state of wrapping: each finished line had no room for the first
/// word of the line after it.
#[verifier::spinoff_prover]
#[verifier::rlimit(80)]
proof fn lemma_wrap_state_full(ws: Seq<Seq<char>>, indent: Seq<char>, width: int)
    ensures
        ({
            let (done, cur) = wrap_state(ws, indent, width);
            forall|i: int|
                0 <= i < done.len() ==> no_room(
                    #[trigger] done[i],
                    if i + 1 < done.len() {
                        done[i + 1]
                    } else {
                        cur
                    },
                    indent,
                    ws,
                    width,
                )
        }),
    decreases ws.len(),
{
    if ws.len() > 0 {
        let p = ws.drop_last();
        lemma_wrap_state_full(p, indent, width);
        let (done, cur) = wrap_state(p, indent, width);
        let w = ws.last();
        let n = ws.len() - 1;
        assert forall|j: int| 0 <= j < p.len() implies #[trigger] p[j] == ws[j] by {}
        if cur == indent || byte_len(cur) + 1 + byte_len(w) <= width {
            let x = if cur == indent {
                w
            } else {
                seq![' '] + w
            };
            let cur2 = if cur == indent {
                cur + w
            } else {
                cur + seq![' '] + w
            };
            assert(cur2 =~= cur + x);
            assert forall|i: int| 0 <= i < done.len() implies no_room(
                #[trigger] done[i],
                if i + 1 < done.len() {
                    done[i + 1]
                } else {
                    cur2
                },
                indent,
                ws,
                width,
            ) by {
                if i + 1 < done.len() {
                    lemma_no_room_more(done[i], done[i + 1], Seq::<char>::empty(), indent, p, ws, width);
                    assert(done[i + 1] + Seq::<char>::empty() =~= done[i + 1]);
                } else {
                    lemma_no_room_more(done[i], cur, x, indent, p, ws, width);
                }
            }
        } else {
            let d2 = done.push(cur);
            let cur2 = indent + w;
            assert forall|i: int| 0 <= i < d2.len() implies no_room(
                #[trigger] d2[i],
                if i + 1 < d2.len() {
                    d2[i + 1]
                } else {
                    cur2
                },
                indent,
                ws,
                width,
            ) by {
                if i < done.len() {
                    assert(d2[i] == done[i]);
                    let nn = if i + 1 < done.len() {
                        done[i + 1]
                    } else {
                        cur
                    };
                    assert(d2[i + 1] == nn);
                    lemma_no_room_more(done[i], nn, Seq::<char>::empty(), indent, p, ws, width);
                    assert(nn + Seq::<char>::empty() =~= nn);
                } else {
                    assert(d2[i] == cur);
                    assert(cur2.take((indent.len() + ws[n].len()) as int) =~= indent + ws[n]);
                }
            }
        }
    }
}

/// Reflowing (`gq`) is greedy: no line it gives could take the first word
/// of the line after it (after a space) and stay within `width`.
#[verifier::spinoff_prover]
#[verifier::rlimit(80)]
pub proof fn law_reflow_fills_greedily(e: Editor, e2: Editor, s: int, t: int, width: int)
    requires
        0 <= s <= t < e.document.buffer@.len(),
        reflow_post(e, e2, s, t, width),
    ensures
        ({
            let v = e.document.buffer@;
            let v2 = e2.document.buffer@;
            let indent = v[s].take(ascii_indent_len(v[s]) as int);
            let ws = rows_words(v, s, t + 1);
            forall|r: int|
                s <= r && r + 1 < v2.len() - (v.len() - (t + 1)) ==> no_room(
                    #[trigger] v2[r],
                    v2[r + 1],
                    indent,
                    ws,
                    width,
                )
        }),
{
    let v = e.document.buffer@;
    let v2 = e2.document.buffer@;
    let indent = v[s].take(ascii_indent_len(v[s]) as int);
    let ws = rows_words(v, s, t + 1);
    let nl = reflowed(v, s, t, width);
    lemma_wrap_state_full(ws, indent, width);
    let (done, cur) = wrap_state(ws, indent, width);
    assert(nl == done.push(cur));
    assert(v2 == v.take(s) + nl + v.skip(t + 1));
    assert forall|r: int| s <= r && r + 1 < v2.len() - (v.len() - (t + 1)) implies no_room(
        #[trigger] v2[r],
        v2[r + 1],
        indent,
        ws,
        width,
    ) by {
        assert(v2[r] == nl[r - s]);
        assert(v2[r + 1] == nl[r + 1 - s]);
        assert(nl[r - s] == done[r - s]);
        if r + 1 - s < done.len() {
            assert(nl[r + 1 - s] == done[r + 1 - s]);
        } else {
            assert(nl[r + 1 - s] == cur);
        }
    }
}

} // verus!

verus! {

/// The words of the lines `ls`, line after line.
pub open spec fn lines_words(ls: Seq<Seq<char>>) -> Seq<Seq<char>>
    decreases ls.len(),
{
    if ls.len() == 0 {
        Seq::empty()
    } else {
        lines_words(ls.drop_last()) + ascii_words(ls.last())
    }
}

/// A word as reflow takes it: not empty, without ASCII whitespace.
pub open spec fn solid(w: Seq<char>) -> bool {
    w.len() > 0 && forall|i: int| 0 <= i < w.len() ==> !is_ascii_ws(#[trigger] w[i])
}

/// Appending a solid word after whitespace (or to nothing) adds it as a word.
#[verifier::spinoff_prover]
#[verifier::rlimit(80)]
proof fn lemma_words_append(a: Seq<char>, w: Seq<char>)
    requires
        a.len() == 0 || is_ascii_ws(a.last()),
        solid(w),
    ensures
        ascii_words(a + w) == ascii_words(a).push(w),
    decreases w.len(),
{
    if w.len() == 1 {
        assert((a + w).drop_last() =~= a);
        assert((a + w).last() == w[0]);
        assert(w =~= seq![w[0]]);
    } else {
        let w0 = w.drop_last();
        assert forall|i: int| 0 <= i < w0.len() implies !is_ascii_ws(#[trigger] w0[i]) by {
            assert(w0[i] == w[i]);
        }
        lemma_words_append(a, w0);
        assert((a + w).drop_last() =~= a + w0);
        assert((a + w).last() == w.last());
        assert((a + w)[(a + w).len() - 2] == w0.last());
        let p = ascii_words(a + w0);
        assert(!is_ascii_ws(w.last()));
        assert(ascii_words(a + w) == p.update(p.len() - 1, p.last().push(w.last())));
        assert(w0.push(w.last()) =~= w);
        assert(p.update(p.len() - 1, p.last().push(w.last())) =~= ascii_words(a).push(w));
    }
}

/// Whitespace alone has no words.
proof fn lemma_words_of_blank(a: Seq<char>)
    requires
        forall|i: int| 0 <= i < a.len() ==> is_ascii_ws(#[trigger] a[i]),
    ensures
        ascii_words(a) == Seq::<Seq<char>>::empty(),
    decreases a.len(),
{
    if a.len() > 0 {
        assert forall|i: int| 0 <= i < a.drop_last().len() implies is_ascii_ws(#[trigger] a.drop_last()[i]) by {
            assert(a.drop_last()[i] == a[i]);
        }
        lemma_words_of_blank(a.drop_last());
    }
}

/// The words of the wrap state are the words wrapped, in order.
#[verifier::spinoff_prover]
#[verifier::rlimit(80)]
proof fn lemma_wrap_state_words(ws: Seq<Seq<char>>, indent: Seq<char>, width: int)
    requires
        forall|i: int| 0 <= i < ws.len() ==> solid(#[trigger] ws[i]),
        forall|i: int| 0 <= i < indent.len() ==> is_ascii_ws(#[trigger] indent[i]),
    ensures
        ({
            let (done, cur) = wrap_state(ws, indent, width);
            lines_words(done) + ascii_words(cur) == ws
        }),
    decreases ws.len(),
{
    lemma_words_of_blank(indent);
    if ws.len() == 0 {
        assert(ascii_words(indent) + Seq::<Seq<char>>::empty() =~= Seq::<Seq<char>>::empty());
    } else {
        let p = ws.drop_last();
        assert forall|i: int| 0 <= i < p.len() implies solid(#[trigger] p[i]) by {
            assert(p[i] == ws[i]);
        }
        lemma_wrap_state_words(p, indent, width);
        let (done, cur) = wrap_state(p, indent, width);
        let w = ws.last();
        assert(solid(ws[ws.len() - 1]));
        if cur == indent {
            lemma_words_append(indent, w);
            assert(lines_words(done) + ascii_words(cur + w) =~= ws);
        } else if byte_len(cur) + 1 + byte_len(w) <= width {
            let a = cur + seq![' '];
            assert(a.drop_last() =~= cur);
            assert(ascii_words(a) == ascii_words(cur));
            lemma_words_append(a, w);
            assert(ascii_words(a + w) == ascii_words(cur).push(w));
            assert(p.push(w) =~= ws);
            assert(cur + seq![' '] + w == a + w);
            assert(lines_words(done) + ascii_words(a + w) =~= (lines_words(done) + ascii_words(cur)).push(w));
        } else {
            let d2 = done.push(cur);
            assert(d2.drop_last() =~= done);
            lemma_words_append(indent, w);
            assert(lines_words(d2) + ascii_words(indent + w) =~= ws);
        }
    }
}

/// The words `ascii_words` finds are solid.
#[verifier::spinoff_prover]
#[verifier::rlimit(80)]
proof fn lemma_ascii_words_solid(s: Seq<char>)
    ensures
        forall|i: int| 0 <= i < ascii_words(s).len() ==> solid(#[trigger] ascii_words(s)[i]),
    decreases s.len(),
{
    if s.len() > 0 {
        lemma_ascii_words_solid(s.drop_last());
        let p = ascii_words(s.drop_last());
        let c = s.last();
        if !is_ascii_ws(c) && s.len() >= 2 && !is_ascii_ws(s[s.len() - 2]) {
            if p.len() == 0 {
                lemma_words_nonempty_after_word(s.drop_last());
            }
            let q = p.update(p.len() - 1, p.last().push(c));
            assert forall|i: int| 0 <= i < q.len() implies solid(#[trigger] q[i]) by {
                if i == p.len() - 1 {
                    let w = p.last().push(c);
                    assert(solid(p[p.len() - 1]));
                    assert forall|j: int| 0 <= j < w.len() implies !is_ascii_ws(#[trigger] w[j]) by {
                        if j < w.len() - 1 {
                            assert(w[j] == p.last()[j]);
                        }
                    }
                }
            }
        } else if !is_ascii_ws(c) {
            let q = p.push(seq![c]);
            assert forall|i: int| 0 <= i < q.len() implies solid(#[trigger] q[i]) by {
                if i == p.len() {
                    assert(q[i] =~= seq![c]);
                }
            }
        }
    }
}

/// A text ending in a non-whitespace character has a word.
proof fn lemma_words_nonempty_after_word(s: Seq<char>)
    requires
        s.len() > 0,
        !is_ascii_ws(s.last()),
    ensures
        ascii_words(s).len() > 0,
    decreases s.len(),
{
    if s.len() >= 2 && !is_ascii_ws(s[s.len() - 2]) {
        assert(s.drop_last().last() == s[s.len() - 2]);
        lemma_words_nonempty_after_word(s.drop_last());
    }
}

/// The words of rows `s..e` are solid.
proof fn lemma_rows_words_solid(v: Seq<Seq<char>>, s: int, e: int)
    ensures
        forall|i: int| 0 <= i < rows_words(v, s, e).len() ==> solid(#[trigger] rows_words(v, s, e)[i]),
    decreases e - s,
{
    if e > s {
        lemma_rows_words_solid(v, s, e - 1);
        lemma_ascii_words_solid(v[e - 1]);
        let a = rows_words(v, s, e - 1);
        let b = ascii_words(v[e - 1]);
        assert forall|i: int| 0 <= i < (a + b).len() implies solid(#[trigger] (a + b)[i]) by {
            if i < a.len() {
                assert((a + b)[i] == a[i]);
            } else {
                assert((a + b)[i] == b[i - a.len()]);
            }
        }
    }
}

/// The leading whitespace of a line is whitespace.
proof fn lemma_indent_blank(l: Seq<char>)
    ensures
        forall|i: int| 0 <= i < ascii_indent_len(l) ==> is_ascii_ws(#[trigger] l[i]),
        ascii_indent_len(l) <= l.len(),
    decreases l.len(),
{
    if l.len() > 0 && is_ascii_ws(l[0]) {
        lemma_indent_blank(l.skip(1));
        assert forall|i: int| 0 <= i < ascii_indent_len(l) implies is_ascii_ws(#[trigger] l[i]) by {
            if i > 0 {
                assert(l[i] == l.skip(1)[i - 1]);
            }
        }
    }
}

/// Reflowing (`gq`) rows `s..=t` keeps their words: the words of the lines
/// it puts in their place are the words of the rows, in order, none lost,
/// split or added.
#[verifier::spinoff_prover]
#[verifier::rlimit(80)]
pub proof fn law_reflow_keeps_words(e: Editor, e2: Editor, s: int, t: int, width: int)
    requires
        0 <= s <= t < e.document.buffer@.len(),
        reflow_post(e, e2, s, t, width),
    ensures
        ({
            let v = e.document.buffer@;
            let v2 = e2.document.buffer@;
            lines_words(v2.subrange(s, v2.len() - (v.len() - (t + 1)))) == rows_words(v, s, t + 1)
        }),
{
    let v = e.document.buffer@;
    let v2 = e2.document.buffer@;
    let l = v[s];
    let indent = l.take(ascii_indent_len(l) as int);
    let ws = rows_words(v, s, t + 1);
    lemma_indent_blank(l);
    assert forall|i: int| 0 <= i < indent.len() implies is_ascii_ws(#[trigger] indent[i]) by {
        assert(indent[i] == l[i]);
    }
    lemma_rows_words_solid(v, s, t + 1);
    lemma_wrap_state_words(ws, indent, width);
    let (done, cur) = wrap_state(ws, indent, width);
    let nl = reflowed(v, s, t, width);
    assert(nl == done.push(cur));
    assert(v2 == v.take(s) + nl + v.skip(t + 1));
    assert(v2.subrange(s, v2.len() - (v.len() - (t + 1))) =~= nl);
    assert(nl.drop_last() =~= done);
}

} // verus!
