//! Laws of undo and redo: undoing an action right after doing it gives
//! back the lines it was done on, action by action and entry by entry.

use vstd::prelude::*;
use crate::buffer::{
    delete_between, insert_at, join_with_lf, no_lf, pos_index, position_error, split_all, split_at,
    Cursor,
};
use crate::editor::history::{forward_step, inverse_step, redo_all, undo_all};
use crate::error::BufferError;
use crate::text::{byte_len, char_index, char_width, is_boundary};
use crate::undo::EditAction;

verus! {

/// Lines a buffer can hold: at least one, as many as fit in `usize`, each
/// fitting in `usize` bytes and holding no line feed.
pub open spec fn valid_lines(v: Seq<Seq<char>>) -> bool {
    &&& 1 <= v.len() <= usize::MAX
    &&& forall|i: int| 0 <= i < v.len() ==> byte_len(#[trigger] v[i]) <= usize::MAX && no_lf(v[i])
}

/// The character at a valid position (`row`, `col`) of `v`, if there is one.
pub open spec fn char_at(v: Seq<Seq<char>>, row: usize, col: usize) -> Option<char> {
    if position_error(v, row, col) is None && pos_index(v, Cursor { row, col }) < v[row as int].len() {
        Some(v[row as int][pos_index(v, Cursor { row, col })])
    } else {
        None
    }
}

/// The lines of the text from `s` up to `e`: the rest of `s`'s line, the
/// lines between, and the start of `e`'s line (or the part between when
/// both are on one line).
pub open spec fn range_segments(v: Seq<Seq<char>>, s: Cursor, e: Cursor) -> Seq<Seq<char>> {
    let ks = pos_index(v, s);
    let ke = pos_index(v, e);
    if s.row == e.row {
        seq![v[s.row as int].subrange(ks, ke)]
    } else {
        seq![v[s.row as int].skip(ks)] + v.subrange(s.row + 1, e.row as int) + seq![
            v[e.row as int].take(ke),
        ]
    }
}

/// The text from `s` up to `e`, lines separated by line feeds.
pub open spec fn range_text(v: Seq<Seq<char>>, s: Cursor, e: Cursor) -> Seq<char> {
    join_with_lf(range_segments(v, s, e))
}

/// What an action recorded about the lines it was done on holds of `v`:
/// the deleted or replaced text is what `v` has there, and a removed line
/// was not the only one.
pub open spec fn consistent(v: Seq<Seq<char>>, a: EditAction) -> bool {
    match a {
        EditAction::DeleteChar { row, col, ch } => char_at(v, row, col) == Some(ch),
        EditAction::ReplaceChar { row, col, old_char, .. } => char_at(v, row, col) == Some(old_char),
        EditAction::DeleteRange { start_row, start_col, end_row, end_col, text } => text@
            == range_text(v, Cursor { row: start_row, col: start_col }, Cursor { row: end_row, col: end_col }),
        EditAction::RemoveLine { row, content } => v.len() >= 2 && (row < v.len() ==> v[row as int]
            == content@),
        EditAction::JoinLines { row, col } => row < v.len() ==> col == byte_len(v[row as int]),
        EditAction::ReplaceLine { row, old_content, .. } => row < v.len() ==> v[row as int]
            == old_content@,
        _ => true,
    }
}

/// Character index `k` of line `row` is the valid position at its byte
/// offset.
proof fn lemma_pos_at(v: Seq<Seq<char>>, row: usize, k: int)
    requires
        row < v.len(),
        0 <= k <= v[row as int].len(),
        byte_len(v[row as int]) <= usize::MAX,
    ensures
        byte_len(v[row as int].take(k)) <= byte_len(v[row as int]),
        position_error(v, row, byte_len(v[row as int].take(k)) as usize) is None,
        pos_index(v, Cursor { row, col: byte_len(v[row as int].take(k)) as usize }) == k,
{
    crate::text::lemma_byte_len_take_le(v[row as int], k);
    crate::text::lemma_char_index_unique(v[row as int], k);
}

/// The byte offset of character index `k` of `a + b` is that in `a`, for
/// `k` within `a`.
proof fn lemma_take_concat(a: Seq<char>, b: Seq<char>, k: int)
    requires
        0 <= k <= a.len(),
    ensures
        (a + b).take(k) == a.take(k),
{
    assert((a + b).take(k) =~= a.take(k));
}

/// Deleting a character right after inserting it gives back the lines.
proof fn lemma_undo_insert_char(v: Seq<Seq<char>>, row: usize, col: usize, ch: char)
    requires
        valid_lines(v),
        crate::buffer::insert_char_result(v, row, col, ch) is Ok,
        valid_lines(crate::buffer::insert_char_result(v, row, col, ch)->Ok_0),
    ensures
        crate::editor::history::delete_char_result(
            crate::buffer::insert_char_result(v, row, col, ch)->Ok_0,
            row,
            col,
            ch,
        ) == Ok::<Seq<Seq<char>>, BufferError>(v),
{
    let line = v[row as int];
    let k = pos_index(v, Cursor { row, col });
    let nl = insert_at(line, k, ch);
    let v1 = v.update(row as int, nl);
    assert(nl.take(k) =~= line.take(k));
    assert(nl.take(k + 1) =~= line.take(k).push(ch));
    crate::editor::editing::lemma_byte_len_push(line.take(k), ch);
    lemma_pos_at(v1, row, k);
    lemma_pos_at(v1, row, k + 1);
    assert(nl.take(k) + nl.skip(k + 1) =~= line);
    assert(v1.take(row as int).push(line) + v1.skip(row + 1) =~= v);
}

/// Deleting a character and putting it back gives back the lines.
proof fn lemma_undo_delete_char(v: Seq<Seq<char>>, row: usize, col: usize, ch: char)
    requires
        valid_lines(v),
        char_at(v, row, col) == Some(ch),
        crate::editor::history::delete_char_result(v, row, col, ch) is Ok,
    ensures
        crate::buffer::insert_char_result(
            crate::editor::history::delete_char_result(v, row, col, ch)->Ok_0,
            row,
            col,
            ch,
        ) == Ok::<Seq<Seq<char>>, BufferError>(v),
{
    let line = v[row as int];
    let k = pos_index(v, Cursor { row, col });
    let end = crate::editor::history::char_end(row, col, ch)->Some_0;
    crate::text::lemma_byte_len_take_step(line, k);
    crate::text::lemma_char_index_unique(line, k + 1);
    assert(pos_index(v, end) == k + 1);
    let nl = line.take(k) + line.skip(k + 1);
    let v1 = v.take(row as int).push(nl) + v.skip(row + 1);
    assert(v1 =~= v.update(row as int, nl));
    crate::text::lemma_byte_len_concat(line.take(k), line.skip(k + 1));
    assert(nl.take(k) =~= line.take(k));
    assert(byte_len(v1[row as int]) <= usize::MAX) by {
        crate::text::lemma_byte_len_concat(line.take(k + 1), line.skip(k + 1));
        assert(line.take(k + 1) + line.skip(k + 1) =~= line);
    }
    lemma_pos_at(v1, row, k);
    assert(insert_at(nl, k, ch) =~= line);
    assert(v1.update(row as int, line) =~= v);
}

/// Joining the two halves of a split line gives back the lines.
proof fn lemma_undo_split(v: Seq<Seq<char>>, row: usize, col: usize)
    requires
        crate::buffer::split_line_result(v, row, col) is Ok,
    ensures
        crate::buffer::join_lines_result(crate::buffer::split_line_result(v, row, col)->Ok_0, row)
            == Ok::<Seq<Seq<char>>, BufferError>(v),
{
    let k = pos_index(v, Cursor { row, col });
    let v1 = split_at(v, row as int, k);
    assert(v1[row as int] + v1[row + 1] =~= v[row as int]);
    assert(v1.update(row as int, v[row as int]).remove(row + 1) =~= v);
}

/// Splitting a joined line where the first part ended gives back the lines.
proof fn lemma_undo_join(v: Seq<Seq<char>>, row: usize, col: usize)
    requires
        valid_lines(v),
        row < v.len() ==> col == byte_len(v[row as int]),
        crate::buffer::join_lines_result(v, row) is Ok,
        valid_lines(crate::buffer::join_lines_result(v, row)->Ok_0),
    ensures
        crate::buffer::split_line_result(crate::buffer::join_lines_result(v, row)->Ok_0, row, col)
            == Ok::<Seq<Seq<char>>, BufferError>(v),
{
    let a = v[row as int];
    let b = v[row + 1];
    let v1 = crate::buffer::join_at(v, row as int);
    assert(v1[row as int] == a + b);
    lemma_take_concat(a, b, a.len() as int);
    assert(a.take(a.len() as int) =~= a);
    lemma_pos_at(v1, row, a.len() as int);
    assert((a + b).take(a.len() as int) =~= a);
    assert((a + b).skip(a.len() as int) =~= b);
    assert(split_at(v1, row as int, a.len() as int) =~= v);
}

/// Removing a line right after inserting it gives back the lines.
proof fn lemma_undo_insert_line(v: Seq<Seq<char>>, row: usize, content: Seq<char>)
    requires
        valid_lines(v),
        crate::buffer::insert_line_result(v, row, content) is Ok,
    ensures
        crate::buffer::remove_line_result(crate::buffer::insert_line_result(v, row, content)->Ok_0, row)
            == Ok::<Seq<Seq<char>>, BufferError>(v),
{
    assert(v.insert(row as int, content).remove(row as int) =~= v);
}

/// Putting back a removed line gives back the lines, unless it was the
/// only one.
proof fn lemma_undo_remove_line(v: Seq<Seq<char>>, row: usize, content: Seq<char>)
    requires
        v.len() >= 2,
        row < v.len() ==> v[row as int] == content,
        crate::buffer::remove_line_result(v, row) is Ok,
    ensures
        crate::buffer::insert_line_result(crate::buffer::remove_line_result(v, row)->Ok_0, row, content)
            == Ok::<Seq<Seq<char>>, BufferError>(v),
{
    assert(v.remove(row as int).insert(row as int, content) =~= v);
}

/// Restoring a replaced line gives back the lines.
proof fn lemma_undo_set_line(v: Seq<Seq<char>>, row: usize, old: Seq<char>, new: Seq<char>)
    requires
        row < v.len() ==> v[row as int] == old,
        crate::buffer::set_line_result(v, row, new) is Ok,
    ensures
        crate::buffer::set_line_result(crate::buffer::set_line_result(v, row, new)->Ok_0, row, old)
            == Ok::<Seq<Seq<char>>, BufferError>(v),
{
    assert(v.update(row as int, new).update(row as int, old) =~= v);
}

/// Deleting a character keeps the lines valid.
proof fn lemma_delete_char_valid(v: Seq<Seq<char>>, row: usize, col: usize, ch: char)
    requires
        valid_lines(v),
        char_at(v, row, col) == Some(ch),
        crate::editor::history::delete_char_result(v, row, col, ch) is Ok,
    ensures
        valid_lines(crate::editor::history::delete_char_result(v, row, col, ch)->Ok_0),
{
    let line = v[row as int];
    let k = pos_index(v, Cursor { row, col });
    let end = crate::editor::history::char_end(row, col, ch)->Some_0;
    crate::text::lemma_byte_len_take_step(line, k);
    crate::text::lemma_char_index_unique(line, k + 1);
    let nl = line.take(k) + line.skip(k + 1);
    let v1 = crate::editor::history::delete_char_result(v, row, col, ch)->Ok_0;
    assert(v1 =~= v.update(row as int, nl));
    crate::text::lemma_byte_len_concat(line.take(k), line.skip(k + 1));
    crate::text::lemma_byte_len_concat(line.take(k + 1), line.skip(k + 1));
    assert(line.take(k + 1) + line.skip(k + 1) =~= line);
    assert forall|i: int| 0 <= i < v1.len() implies byte_len(#[trigger] v1[i]) <= usize::MAX && no_lf(v1[i]) by {
        if i == row {
            assert forall|j: int| 0 <= j < nl.len() implies nl[j] != '\n' by {
                if j < k {
                    assert(nl[j] == line[j]);
                } else {
                    assert(nl[j] == line[j + 1]);
                }
            }
        }
    }
}

/// Replacing a character back gives back the lines.
proof fn lemma_undo_replace_char(v: Seq<Seq<char>>, row: usize, col: usize, old: char, new: char)
    requires
        valid_lines(v),
        char_at(v, row, col) == Some(old),
        crate::editor::history::replace_char_result(v, row, col, old, new) is Ok,
        valid_lines(crate::editor::history::replace_char_result(v, row, col, old, new)->Ok_0),
    ensures
        crate::editor::history::replace_char_result(
            crate::editor::history::replace_char_result(v, row, col, old, new)->Ok_0,
            row,
            col,
            new,
            old,
        ) == Ok::<Seq<Seq<char>>, BufferError>(v),
{
    let v1 = crate::editor::history::delete_char_result(v, row, col, old)->Ok_0;
    lemma_delete_char_valid(v, row, col, old);
    lemma_undo_insert_char(v1, row, col, new);
    lemma_undo_delete_char(v, row, col, old);
}

/// The segments of a range hold no line feed.
proof fn lemma_range_segments_no_lf(v: Seq<Seq<char>>, s: Cursor, e: Cursor)
    requires
        valid_lines(v),
        s.row <= e.row < v.len(),
        0 <= pos_index(v, s) <= v[s.row as int].len(),
        0 <= pos_index(v, e) <= v[e.row as int].len(),
        s.row == e.row ==> pos_index(v, s) <= pos_index(v, e),
    ensures
        range_segments(v, s, e).len() >= 1,
        forall|i: int| 0 <= i < range_segments(v, s, e).len() ==> no_lf(#[trigger] range_segments(v, s, e)[i]),
{
    let segs = range_segments(v, s, e);
    let ks = pos_index(v, s);
    let ke = pos_index(v, e);
    assert forall|i: int| 0 <= i < segs.len() implies no_lf(#[trigger] segs[i]) by {
        if s.row == e.row {
            let line = v[s.row as int];
            assert(no_lf(line));
            assert forall|j: int| 0 <= j < segs[i].len() implies segs[i][j] != '\n' by {
                assert(segs[i][j] == line[ks + j]);
            }
        } else if i == 0 {
            let line = v[s.row as int];
            assert(no_lf(line));
            assert forall|j: int| 0 <= j < segs[i].len() implies segs[i][j] != '\n' by {
                assert(segs[i][j] == line[ks + j]);
            }
        } else if i == segs.len() - 1 {
            let line = v[e.row as int];
            assert(no_lf(line));
            assert forall|j: int| 0 <= j < segs[i].len() implies segs[i][j] != '\n' by {
                assert(segs[i][j] == line[j]);
            }
        } else {
            assert(segs[i] == v[s.row + i]);
            assert(no_lf(v[s.row + i]));
        }
    }
}

/// A join of two or more segments is not empty.
proof fn lemma_join_with_lf_nonempty(segs: Seq<Seq<char>>)
    requires
        segs.len() >= 2,
    ensures
        join_with_lf(segs).len() >= 1,
{
}

/// Putting back deleted text gives back the lines.
#[verifier::spinoff_prover]
#[verifier::rlimit(50)]
proof fn lemma_undo_delete_range(v: Seq<Seq<char>>, s: Cursor, e: Cursor, text: Seq<char>)
    requires
        valid_lines(v),
        text == range_text(v, s, e),
        crate::buffer::delete_range_result(v, s, e) is Ok,
        valid_lines(crate::buffer::delete_range_result(v, s, e)->Ok_0),
    ensures
        crate::buffer::insert_text_result(crate::buffer::delete_range_result(v, s, e)->Ok_0, s.row, s.col, text)
            == Ok::<Seq<Seq<char>>, BufferError>(v),
{
    let ks = pos_index(v, s);
    let ke = pos_index(v, e);
    let ls = v[s.row as int];
    let le = v[e.row as int];
    let sr = s.row as int;
    let er = e.row as int;
    if sr == er && ke < ks {
        crate::text::lemma_byte_len_take_strict(ls, ke, ks);
    }
    lemma_range_segments_no_lf(v, s, e);
    let segs = range_segments(v, s, e);
    crate::buffer::lemma_split_join(segs);
    let j = ls.take(ks) + le.skip(ke);
    let v1 = v.take(sr).push(j) + v.skip(er + 1);
    assert(v1 == delete_between(v, s, e));
    assert(v1[sr] == j);
    if text.len() == 0 {
        if segs.len() >= 2 {
            lemma_join_with_lf_nonempty(segs);
        }
        assert(sr == er);
        assert(ls.subrange(ks, ke).len() == 0);
        assert(ls.take(ks) + ls.skip(ks) =~= ls);
        assert(v1 =~= v);
    } else {
        lemma_take_concat(ls.take(ks), le.skip(ke), ks);
        assert(ls.take(ks).take(ks) =~= ls.take(ks));
        lemma_pos_at(v1, s.row, ks);
        assert(j.take(ks) =~= ls.take(ks));
        assert(j.skip(ks) =~= le.skip(ke));
        assert(v1.take(sr) =~= v.take(sr));
        assert(v1.skip(sr + 1) =~= v.skip(er + 1));
        let js = crate::buffer::join_segments(ls.take(ks), segs, le.skip(ke));
        if sr == er {
            assert(ls.take(ks) + ls.subrange(ks, ke) + ls.skip(ke) =~= ls);
            assert(js =~= seq![ls]);
            assert(v.take(sr) + seq![ls] + v.skip(sr + 1) =~= v);
        } else {
            assert(ls.take(ks) + ls.skip(ks) =~= ls);
            assert(le.take(ke) + le.skip(ke) =~= le);
            assert(segs.subrange(1, segs.len() - 1) =~= v.subrange(sr + 1, er));
            assert(js =~= seq![ls] + v.subrange(sr + 1, er) + seq![le]);
            assert(v.take(sr) + (seq![ls] + v.subrange(sr + 1, er) + seq![le]) + v.skip(er + 1) =~= v);
        }
    }
}

/// Where inserted text lands: segment `i` of the text is in line `row + i`,
/// the first after the text before the position.
#[verifier::spinoff_prover]
#[verifier::rlimit(50)]
proof fn lemma_insert_text_shape(v: Seq<Seq<char>>, row: usize, col: usize, t: Seq<char>)
    requires
        valid_lines(v),
        position_error(v, row, col) is None,
        t.len() > 0,
        crate::buffer::insert_text_result(v, row, col, t) is Ok,
        valid_lines(crate::buffer::insert_text_result(v, row, col, t)->Ok_0),
    ensures
        ({
            let line = v[row as int];
            let k = pos_index(v, Cursor { row, col });
            let p = line.take(k);
            let q = line.skip(k);
            let segs = split_all(t);
            let n = segs.len() as int;
            let v1 = crate::buffer::insert_text_result(v, row, col, t)->Ok_0;
            &&& n >= 1
            &&& v1 == v.take(row as int) + crate::buffer::join_segments(p, segs, q) + v.skip(row + 1)
            &&& v1.len() == v.len() + n - 1
            &&& n == 1 ==> segs == seq![t] && v1[row as int] == p + t + q
            &&& n >= 2 ==> v1[row as int] == p + segs[0] && v1[row + n - 1] == segs.last() + q
            &&& forall|i: int| 0 <= i < n ==> byte_len(#[trigger] segs[i]) <= byte_len(v1[row + i])
            &&& col + byte_len(segs[0]) <= byte_len(v1[row as int])
            &&& byte_len(p) == col
        }),
{
    let line = v[row as int];
    let k = pos_index(v, Cursor { row, col });
    let r = row as int;
    let p = line.take(k);
    let q = line.skip(k);
    let segs = split_all(t);
    let n = segs.len() as int;
    crate::buffer::lemma_split_all_nonempty(t);
    let js = crate::buffer::join_segments(p, segs, q);
    let v1 = crate::buffer::insert_text_result(v, row, col, t)->Ok_0;
    assert(v1 == v.take(r) + js + v.skip(r + 1));
    assert(forall|i: int| 0 <= i < n ==> v1[r + i] == #[trigger] js[i]);
    if n == 1 {
        crate::buffer::lemma_split_all_single(t);
        crate::text::lemma_byte_len_concat(p, t);
        crate::text::lemma_byte_len_concat(p + t, q);
    } else {
        crate::text::lemma_byte_len_concat(p, segs[0]);
        crate::text::lemma_byte_len_concat(segs[n - 1], q);
    }
    assert forall|i: int| 0 <= i < n implies byte_len(#[trigger] segs[i]) <= byte_len(v1[r + i]) by {
        assert(v1[r + i] == js[i]);
        if n >= 2 && 0 < i < n - 1 {
            assert(js[i] == segs[i]);
        }
    }
}

/// No prefix of inserted text ends outside the lines it lands on.
#[verifier::spinoff_prover]
#[verifier::rlimit(50)]
proof fn lemma_insert_text_fits(v: Seq<Seq<char>>, row: usize, col: usize, t: Seq<char>)
    requires
        valid_lines(v),
        position_error(v, row, col) is None,
        t.len() > 0,
        crate::buffer::insert_text_result(v, row, col, t) is Ok,
        valid_lines(crate::buffer::insert_text_result(v, row, col, t)->Ok_0),
    ensures
        !crate::editor::editing::end_overflows(row as int, col as int, t),
{
    lemma_insert_text_shape(v, row, col, t);
    let segs = split_all(t);
    let v1 = crate::buffer::insert_text_result(v, row, col, t)->Ok_0;
    assert forall|j: int| 0 <= j <= t.len() implies crate::editor::editing::end_fits(
        row as int,
        col as int,
        #[trigger] t.take(j),
    ) by {
        crate::buffer::lemma_split_all_prefix(t, j);
        let pj = split_all(t.take(j));
        let m = pj.len() as int;
        let last = pj.last();
        crate::text::lemma_byte_len_take_le(segs[m - 1], last.len() as int);
        assert(byte_len(segs[m - 1]) <= byte_len(v1[row + m - 1]));
        assert(byte_len(v1[row + m - 1]) <= usize::MAX);
        if m == 1 {
            crate::buffer::lemma_split_all_single(t.take(j));
        }
    }
}

/// Deleting text right after inserting it gives back the lines.
#[verifier::spinoff_prover]
#[verifier::rlimit(50)]
proof fn lemma_undo_insert_text(v: Seq<Seq<char>>, row: usize, col: usize, t: Seq<char>)
    requires
        valid_lines(v),
        position_error(v, row, col) is None,
        crate::buffer::insert_text_result(v, row, col, t) is Ok,
        valid_lines(crate::buffer::insert_text_result(v, row, col, t)->Ok_0),
    ensures
        crate::editor::history::delete_text_result(
            crate::buffer::insert_text_result(v, row, col, t)->Ok_0,
            row,
            col,
            t,
        ) == Ok::<Seq<Seq<char>>, BufferError>(v),
{
    let line = v[row as int];
    let k = pos_index(v, Cursor { row, col });
    let r = row as int;
    let p = line.take(k);
    let q = line.skip(k);
    assert(p + q =~= line);
    let v1 = crate::buffer::insert_text_result(v, row, col, t)->Ok_0;
    if t.len() == 0 {
        assert(t.take(0) =~= t);
        assert(split_all(Seq::<char>::empty()) == seq![Seq::<char>::empty()]);
        assert(crate::editor::editing::end_fits(row as int, col as int, t.take(0)));
        assert(!crate::editor::editing::end_overflows(row as int, col as int, t));
        assert(v.take(r).push(p + q) + v.skip(r + 1) =~= v);
    } else {
        lemma_insert_text_shape(v, row, col, t);
        lemma_insert_text_fits(v, row, col, t);
        let segs = split_all(t);
        let n = segs.len() as int;
        assert(t.take(t.len() as int) =~= t);
        assert(crate::editor::editing::end_fits(row as int, col as int, t.take(t.len() as int)));
        let (er, ec) = crate::editor::editing::text_end(row as int, col as int, t);
        if n == 1 {
            let l0 = p + t + q;
            assert(l0.take(k) =~= p);
            lemma_pos_at(v1, row, k);
            assert(l0.take(k + t.len()) =~= p + t);
            crate::text::lemma_byte_len_concat(p, t);
            lemma_pos_at(v1, row, k + t.len());
            assert(l0.skip(k + t.len()) =~= q);
            assert(v1.take(r).push(p + q) + v1.skip(r + 1) =~= v);
        } else {
            let l0 = p + segs[0];
            let ll = segs.last() + q;
            assert(l0.take(k) =~= p);
            lemma_pos_at(v1, row, k);
            let m = segs.last().len() as int;
            assert(ll.take(m) =~= segs.last());
            lemma_pos_at(v1, er as usize, m);
            assert(ll.skip(m) =~= q);
            assert(v1.take(r) =~= v.take(r));
            assert(v1.skip(er + 1) =~= v.skip(r + 1));
            assert(v1.take(r).push(p + q) + v1.skip(er + 1) =~= v);
        }
    }
}

/// Law: undoing an action right after doing it gives back the lines it was
/// done on, when the action describes those lines (what it deletes or
/// replaces is what they hold there, a removed line is not the only one,
/// text is inserted at a valid position) and the lines before and after
/// are valid.
pub proof fn law_undo_restores(v: Seq<Seq<char>>, a: EditAction)
    requires
        valid_lines(v),
        consistent(v, a),
        a matches EditAction::InsertText { row, col, .. } ==> position_error(v, row, col) is None,
        forward_step(v, a) is Ok,
        valid_lines(forward_step(v, a)->Ok_0),
    ensures
        inverse_step(forward_step(v, a)->Ok_0, a) == Ok::<Seq<Seq<char>>, BufferError>(v),
{
    match a {
        EditAction::InsertChar { row, col, ch } => lemma_undo_insert_char(v, row, col, ch),
        EditAction::InsertNewline { row, col } => lemma_undo_split(v, row, col),
        EditAction::DeleteChar { row, col, ch } => lemma_undo_delete_char(v, row, col, ch),
        EditAction::DeleteRange { start_row, start_col, end_row, end_col, text } => lemma_undo_delete_range(
            v,
            Cursor { row: start_row, col: start_col },
            Cursor { row: end_row, col: end_col },
            text@,
        ),
        EditAction::InsertText { row, col, text } => lemma_undo_insert_text(v, row, col, text@),
        EditAction::InsertLine { row, content } => lemma_undo_insert_line(v, row, content@),
        EditAction::RemoveLine { row, content } => lemma_undo_remove_line(v, row, content@),
        EditAction::JoinLines { row, col } => lemma_undo_join(v, row, col),
        EditAction::SplitLine { row, col } => lemma_undo_split(v, row, col),
        EditAction::ReplaceChar { row, col, old_char, new_char } => lemma_undo_replace_char(
            v,
            row,
            col,
            old_char,
            new_char,
        ),
        EditAction::ReplaceLine { row, old_content, new_content } => lemma_undo_set_line(
            v,
            row,
            old_content@,
            new_content@,
        ),
    }
}

/// The actions `acts` replay on `v` one after another without error, each
/// describing the lines it is done on, through valid lines only.
pub open spec fn replays_cleanly(v: Seq<Seq<char>>, acts: Seq<EditAction>) -> bool
    decreases acts.len(),
{
    if acts.len() == 0 {
        valid_lines(v)
    } else {
        &&& valid_lines(v)
        &&& consistent(v, acts[0])
        &&& (acts[0] matches EditAction::InsertText { row, col, .. } ==> position_error(v, row, col) is None)
        &&& forward_step(v, acts[0]) is Ok
        &&& replays_cleanly(forward_step(v, acts[0])->Ok_0, acts.skip(1))
    }
}

/// Undoing `x + y` undoes `y`, then, unless that stopped, `x`.
proof fn lemma_undo_all_concat(w: Seq<Seq<char>>, x: Seq<EditAction>, y: Seq<EditAction>)
    ensures
        undo_all(w, x + y) == (if undo_all(w, y).1 is None {
            undo_all(undo_all(w, y).0, x)
        } else {
            undo_all(w, y)
        }),
    decreases y.len(),
{
    if y.len() == 0 {
        assert(x + y =~= x);
    } else {
        assert((x + y).drop_last() =~= x + y.drop_last());
        assert((x + y).last() == y.last());
        match inverse_step(w, y.last()) {
            Err(e) => {},
            Ok(w1) => {
                lemma_undo_all_concat(w1, x, y.drop_last());
            },
        }
    }
}

/// Law: undoing an entry right after redoing it gives back the lines, when
/// its actions replay cleanly.
pub proof fn law_undo_entry_restores(v: Seq<Seq<char>>, acts: Seq<EditAction>)
    requires
        replays_cleanly(v, acts),
    ensures
        redo_all(v, acts).1 is None,
        undo_all(redo_all(v, acts).0, acts) == (v, None::<BufferError>),
    decreases acts.len(),
{
    if acts.len() > 0 {
        let v1 = forward_step(v, acts[0])->Ok_0;
        assert(valid_lines(v1)) by {
            reveal_with_fuel(replays_cleanly, 2);
        }
        law_undo_entry_restores(v1, acts.skip(1));
        let w = redo_all(v, acts).0;
        assert(seq![acts[0]] + acts.skip(1) =~= acts);
        lemma_undo_all_concat(w, seq![acts[0]], acts.skip(1));
        law_undo_restores(v, acts[0]);
        assert(w == redo_all(v1, acts.skip(1)).0);
        assert(undo_all(w, acts.skip(1)) == (v1, None::<BufferError>));
        let one = seq![acts[0]];
        assert(one.drop_last() =~= Seq::<EditAction>::empty());
        assert(one.last() == acts[0]);
        assert(inverse_step(v1, acts[0]) == Ok::<Seq<Seq<char>>, BufferError>(v));
        assert(undo_all(v, one.drop_last()) == (v, None::<BufferError>));
        assert(undo_all(v1, one) == (v, None::<BufferError>));
    }
}

/// Law: `u` right after `Ctrl-R` gives back the text and the undo and redo
/// stacks, when the redone entry replays cleanly.
pub proof fn law_undo_after_redo(
    e0: crate::editor::Editor,
    e1: crate::editor::Editor,
    e2: crate::editor::Editor,
    r1: Result<(), crate::error::Error>,
    r2: Result<(), crate::error::Error>,
)
    requires
        e0.state.undo_history.spec_redo().len() > 0,
        replays_cleanly(e0.document.buffer@, e0.state.undo_history.spec_redo().last().spec_actions()),
        crate::editor::history::redone(e0, e1, r1),
        crate::editor::history::undone(e1, e2, r2),
    ensures
        r1 is Ok,
        r2 is Ok,
        e2.document.buffer@ == e0.document.buffer@,
        e2.state.undo_history.spec_undo() == e0.state.undo_history.spec_undo(),
        e2.state.undo_history.spec_redo() == e0.state.undo_history.spec_redo(),
{
    let h0 = e0.state.undo_history;
    let entry = h0.spec_redo().last();
    law_undo_entry_restores(e0.document.buffer@, entry.spec_actions());
    crate::undo::law_undo_undoes_redo(h0.spec_undo(), h0.spec_redo());
    assert(e1.state.undo_history.spec_undo() == h0.spec_undo().push(entry));
    assert(e1.state.undo_history.spec_undo().last() == entry);
}

} // verus!

verus! {

/// Undoing the records of removing rows `t` down to `s` of `v` (the last
/// of them a clearing when the rows were all of `v`) gives `v` back.
proof fn lemma_undo_removals(v: Seq<Seq<char>>, s: int, t: int, acts: Seq<EditAction>)
    requires
        valid_lines(v),
        0 <= s <= t + 1,
        t < v.len(),
        acts.len() == t + 1 - s,
        forall|i: int|
            0 <= i < acts.len() ==> crate::undo::removes_or_clears(
                #[trigger] acts[i],
                t - i,
                v[t - i],
                s == 0 && t + 1 == v.len() && i == t,
            ),
    ensures
        undo_all(crate::editor::yank_put::without_lines(v, s, t + 1), acts) == (v, None::<BufferError>),
    decreases t + 1 - s,
{
    let w = crate::editor::yank_put::without_lines(v, s, t + 1);
    if s == t + 1 {
        assert(v.take(s) + v.skip(s) =~= v);
    } else {
        let a = acts.last();
        let i = acts.len() - 1;
        assert(a == acts[i]);
        assert(t - i == s);
        let w1 = v.take(s + 1) + v.skip(t + 1);
        if s == 0 && t + 1 == v.len() {
            assert(v.take(s) + v.skip(t + 1) =~= Seq::<Seq<char>>::empty());
            assert(w == seq![Seq::<char>::empty()]);
            assert(w.update(0, v[0]) =~= w1);
        } else {
            assert(w == v.take(s) + v.skip(t + 1));
            assert(w.insert(s, v[s]) =~= w1);
        }
        assert(inverse_step(w, a) == Ok::<Seq<Seq<char>>, BufferError>(w1));
        let rest = acts.drop_last();
        assert forall|j: int| 0 <= j < rest.len() implies crate::undo::removes_or_clears(
            #[trigger] rest[j],
            t - j,
            v[t - j],
            s + 1 == 0 && t + 1 == v.len() && j == t,
        ) by {
            assert(rest[j] == acts[j]);
        }
        lemma_undo_removals(v, s + 1, t, rest);
        assert(crate::editor::yank_put::without_lines(v, s + 1, t + 1) == w1);
    }
}

/// Law: the actions `dd` records for `count` lines, undone last first,
/// give back the lines it was done on.
pub proof fn law_delete_lines_undo(
    e: crate::editor::Editor,
    e2: crate::editor::Editor,
    count: usize,
    register: Option<char>,
)
    requires
        valid_lines(e.document.buffer@),
        e.document.cursor.row < e.document.buffer@.len(),
        count >= 1,
        crate::editor::yank_put::delete_lines_post(e, e2, count, register),
    ensures
        undo_all(
            e2.document.buffer@,
            crate::undo::recent_actions(e.state.undo_history, e2.state.undo_history),
        ) == (e.document.buffer@, None::<BufferError>),
{
    let v = e.document.buffer@;
    let s = e.document.cursor.row as int;
    let end = crate::editor::yank_put::end_row(s, count as int, v.len() as int);
    let acts = crate::undo::recent_actions(e.state.undo_history, e2.state.undo_history);
    assert forall|i: int| 0 <= i < acts.len() implies crate::undo::removes_or_clears(
        #[trigger] acts[i],
        (end - 1) - i,
        v[(end - 1) - i],
        s == 0 && (end - 1) + 1 == v.len() && i == end - 1,
    ) by {}
    lemma_undo_removals(v, s, end - 1, acts);
}

/// Law: `u` right after `:[range]d` gives back the lines, the cursor and
/// the modified flag from before it, when no undo group was open.
pub proof fn law_ex_delete_then_undo(
    e0: crate::editor::Editor,
    e1: crate::editor::Editor,
    e2: crate::editor::Editor,
    range: crate::command::SubstituteRange,
    register: Option<char>,
    r: Result<(), crate::error::Error>,
)
    requires
        valid_lines(e0.document.buffer@),
        e0.state.undo_history.spec_current() is None,
        crate::editor::ex_lines::resolved(e0, range) matches Some((s, t)) && s <= t,
        crate::editor::ex_lines::ex_deleted(e0, e1, range, register),
        crate::editor::history::undone(e1, e2, r),
    ensures
        r is Ok,
        e2.document.buffer@ == e0.document.buffer@,
        e2.document.cursor == e0.document.cursor,
        e2.document.modified == e0.document.modified,
{
    let v = e0.document.buffer@;
    let (s, t) = crate::editor::ex_lines::resolved(e0, range)->Some_0;
    let h0 = e0.state.undo_history;
    let h1 = e1.state.undo_history;
    let acts = crate::undo::grouped_actions(h0, h1, t + 1 - s);
    let entry = h1.spec_undo().last();
    assert(entry.spec_actions().skip(0) =~= entry.spec_actions());
    assert(Seq::<EditAction>::empty() + acts =~= acts);
    assert(entry.spec_actions() == acts);
    assert forall|i: int| 0 <= i < acts.len() implies crate::undo::removes_or_clears(
        #[trigger] acts[i],
        t - i,
        v[t - i],
        s == 0 && t + 1 == v.len() && i == t,
    ) by {}
    lemma_undo_removals(v, s as int, t as int, acts);
}

} // verus!
