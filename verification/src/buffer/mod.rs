//! Text buffer: a non-empty sequence of lines, with cursor positions given as
//! (row, byte column).

pub mod unicode;

use vstd::prelude::*;
use crate::error::BufferError;
use crate::text::{
    byte_len, char_index, char_width, chars_of, is_boundary, lemma_byte_len_take_step,
    lemma_byte_len_take_strict, lemma_char_index_unique, splice_chars, str_byte_len,
    string_from_chars,
    utf8_width,
};

verus! {

/// A position in the buffer: a row and a byte offset within that row.
#[derive(Debug, Clone, Copy, PartialEq, Eq, Structural)]
pub struct Cursor {
    /// Line index (0-based).
    pub row: usize,
    /// Byte offset within the line.
    pub col: usize,
}

impl Cursor {
    /// Create a cursor at the given row and byte column.
    pub fn new(row: usize, col: usize) -> (c: Cursor)
        ensures
            c.row == row,
            c.col == col,
    {
        Cursor { row, col }
    }
}

/// `a` comes strictly before `b` in reading order.
pub open spec fn cursor_before(a: Cursor, b: Cursor) -> bool {
    a.row < b.row || (a.row == b.row && a.col < b.col)
}

/// The kind of a selection.
#[derive(Debug, Clone, Copy, PartialEq, Eq, Structural)]
pub enum SelectionType {
    /// Character-wise selection.
    Character,
    /// Line-wise selection.
    Line,
    /// Rectangular block selection.
    Block,
}

/// A selection between two cursor positions (both inclusive).
#[derive(Debug, Clone, Copy, PartialEq, Eq, Structural)]
pub struct Selection {
    /// Anchor position.
    pub start: Cursor,
    /// Moving end.
    pub end: Cursor,
    /// Selection kind.
    pub kind: SelectionType,
}

impl Selection {
    /// Create a selection.
    pub fn new(start: Cursor, end: Cursor, kind: SelectionType) -> (s: Selection)
        ensures
            s.start == start,
            s.end == end,
            s.kind == kind,
    {
        Selection { start, end, kind }
    }

    /// The same selection with `start` not after `end`.
    ///
    /// Character and line selections are ordered by position; a block
    /// selection takes the smaller row and column as start and the larger
    /// ones as end.
    pub fn normalize(&self) -> (s: Selection)
        ensures
            s == normalized(*self),
    {
        match self.kind {
            SelectionType::Block => {
                let (r0, r1) = if self.start.row <= self.end.row {
                    (self.start.row, self.end.row)
                } else {
                    (self.end.row, self.start.row)
                };
                let (c0, c1) = if self.start.col <= self.end.col {
                    (self.start.col, self.end.col)
                } else {
                    (self.end.col, self.start.col)
                };
                Selection { start: Cursor { row: r0, col: c0 }, end: Cursor { row: r1, col: c1 }, kind: self.kind }
            },
            _ => {
                let swap = self.end.row < self.start.row || (self.end.row == self.start.row
                    && self.end.col < self.start.col);
                if swap {
                    Selection { start: self.end, end: self.start, kind: self.kind }
                } else {
                    Selection { start: self.start, end: self.end, kind: self.kind }
                }
            },
        }
    }
}

/// A selection with its start not after its end (see `Selection::normalize`).
pub open spec fn normalized(sel: Selection) -> Selection {
    if sel.kind is Block {
        Selection {
            start: Cursor {
                row: if sel.start.row <= sel.end.row { sel.start.row } else { sel.end.row },
                col: if sel.start.col <= sel.end.col { sel.start.col } else { sel.end.col },
            },
            end: Cursor {
                row: if sel.start.row <= sel.end.row { sel.end.row } else { sel.start.row },
                col: if sel.start.col <= sel.end.col { sel.end.col } else { sel.start.col },
            },
            kind: sel.kind,
        }
    } else if cursor_before(sel.end, sel.start) {
        Selection { start: sel.end, end: sel.start, kind: sel.kind }
    } else {
        sel
    }
}

/// The lines of `s` separated at each `'\n'` (always at least one line).
pub open spec fn split_all(s: Seq<char>) -> Seq<Seq<char>>
    decreases s.len(),
{
    if s.len() == 0 {
        seq![Seq::<char>::empty()]
    } else if s.last() == '\n' {
        split_all(s.drop_last()).push(Seq::<char>::empty())
    } else {
        let p = split_all(s.drop_last());
        p.update(p.len() - 1, p.last().push(s.last()))
    }
}

/// The lines of a text: split at `'\n'`, where a final `'\n'` ends the
/// last line rather than starting a new one.
pub open spec fn text_lines(s: Seq<char>) -> Seq<Seq<char>> {
    if s.len() > 0 && s.last() == '\n' {
        split_all(s.drop_last())
    } else {
        split_all(s)
    }
}

/// `s` with `c` inserted before character index `k`.
pub open spec fn insert_at(s: Seq<char>, k: int, c: char) -> Seq<char> {
    s.take(k).push(c) + s.skip(k)
}

/// Why a position is not a valid insertion point of `v`, if it is not.
pub open spec fn position_error(v: Seq<Seq<char>>, row: usize, col: usize) -> Option<
    BufferError,
> {
    if row >= v.len() {
        Some(BufferError::RowOutOfBounds { row, len: v.len() as usize })
    } else if col > byte_len(v[row as int]) {
        Some(BufferError::ColOutOfBounds { col, len: byte_len(v[row as int]) as usize })
    } else if !is_boundary(v[row as int], col as int) {
        Some(BufferError::InvalidByteOffset { col })
    } else {
        None
    }
}

/// The error for a row outside `v`.
pub open spec fn row_error(row: usize, v: Seq<Seq<char>>) -> BufferError {
    BufferError::RowOutOfBounds { row, len: v.len() as usize }
}

/// The error for a position that does not fit the request.
pub open spec fn invalid_cursor(c: Cursor) -> BufferError {
    BufferError::InvalidCursor { row: c.row, col: c.col }
}

/// The character index of a valid position.
pub open spec fn pos_index(v: Seq<Seq<char>>, p: Cursor) -> int {
    char_index(v[p.row as int], p.col as int)
}

/// The lines after deleting the text from `start` up to (not including) `end`.
pub open spec fn delete_between(v: Seq<Seq<char>>, start: Cursor, end: Cursor) -> Seq<Seq<char>> {
    let joined = v[start.row as int].take(pos_index(v, start)) + v[end.row as int].skip(
        pos_index(v, end),
    );
    v.take(start.row as int).push(joined) + v.skip(end.row + 1)
}

/// The lines after splitting line `row` before character index `k`.
pub open spec fn split_at(v: Seq<Seq<char>>, row: int, k: int) -> Seq<Seq<char>> {
    v.update(row, v[row].take(k)).insert(row + 1, v[row].skip(k))
}

/// The lines after appending line `row + 1` to line `row`.
pub open spec fn join_at(v: Seq<Seq<char>>, row: int) -> Seq<Seq<char>> {
    v.update(row, v[row] + v[row + 1]).remove(row + 1)
}

/// The lines after removing line `row` (a buffer keeps one empty line when
/// its last line is removed).
pub open spec fn remove_at(v: Seq<Seq<char>>, row: int) -> Seq<Seq<char>> {
    if v.len() == 1 {
        seq![Seq::<char>::empty()]
    } else {
        v.remove(row)
    }
}

/// A text buffer holding one or more lines.
#[derive(Debug)]
pub struct Buffer {
    lines: Vec<String>,
}

impl View for Buffer {
    type V = Seq<Seq<char>>;

    closed spec fn view(&self) -> Seq<Seq<char>> {
        self.lines@.map_values(|l: String| l@)
    }
}

impl Buffer {
    /// A buffer always holds at least one line.
    pub open spec fn wf(&self) -> bool {
        self@.len() >= 1
    }

    /// Create an empty buffer (one empty line).
    pub fn new() -> (b: Buffer)
        ensures
            b.wf(),
            b@ == seq![Seq::<char>::empty()],
    {
        let mut lines: Vec<String> = Vec::new();
        lines.push(String::new());
        let b = Buffer { lines };
        assert(b@ =~= seq![Seq::<char>::empty()]);
        b
    }

    /// Create a buffer from text, one line per `'\n'`-separated segment
    /// (a trailing `'\n'` does not start an extra line).
    pub fn from_string(content: String) -> (b: Buffer)
        ensures
            b.wf(),
            b@ == text_lines(content@),
    {
        let cs = chars_of(content.as_str());
        let n: usize = if cs.len() > 0 && cs[cs.len() - 1] == '\n' {
            cs.len() - 1
        } else {
            cs.len()
        };
        let lines = split_segments(cs.as_slice(), n);
        let b = Buffer { lines };
        proof {
            if cs@.len() > 0 && cs@.last() == '\n' {
                assert(cs@.take(n as int) =~= cs@.drop_last());
            } else {
                assert(cs@.take(n as int) =~= cs@);
            }
            lemma_split_all_nonempty(cs@.take(n as int));
        }
        b
    }

    /// Number of lines.
    pub fn len(&self) -> (n: usize)
        ensures
            n == self@.len(),
    {
        self.lines.len()
    }

    /// Whether the buffer has no lines (never, for a well-formed buffer).
    pub fn is_empty(&self) -> (b: bool)
        ensures
            b == (self@.len() == 0),
    {
        self.lines.len() == 0
    }

    /// The text of line `row`, if it exists.
    pub fn line(&self, row: usize) -> (r: Option<&str>)
        ensures
            r is Some <==> row < self@.len(),
            r matches Some(s) ==> s@ == self@[row as int],
    {
        if row < self.lines.len() {
            Some(self.lines[row].as_str())
        } else {
            None
        }
    }

    /// All lines.
    pub fn lines(&self) -> (r: &[String])
        ensures
            r@.map_values(|l: String| l@) == self@,
    {
        self.lines.as_slice()
    }

    /// Locate a valid position: the characters of its line and its character index.
    fn locate(&self, row: usize, col: usize) -> (r: Result<(Vec<char>, usize), BufferError>)
        ensures
            match r {
                Ok((cs, k)) => position_error(self@, row, col) is None && row < self@.len()
                    && cs@ == self@[row as int] && k == char_index(self@[row as int], col as int)
                    && k <= cs@.len() && byte_len(cs@.take(k as int)) == col,
                Err(e) => position_error(self@, row, col) == Some(e),
            },
    {
        if row >= self.lines.len() {
            return Err(BufferError::RowOutOfBounds { row, len: self.lines.len() });
        }
        let total: usize = str_byte_len(self.lines[row].as_str());
        let cs = chars_of(self.lines[row].as_str());
        assert(cs@ == self@[row as int]);
        if col > total {
            return Err(BufferError::ColOutOfBounds { col, len: total });
        }
        let mut i: usize = 0;
        let mut acc: usize = 0;
        while i < cs.len()
            invariant
                i <= cs@.len(),
                row < self@.len(),
                cs@ == self@[row as int],
                acc == byte_len(cs@.take(i as int)),
                total == byte_len(cs@),
                col <= total,
                forall|j: int| 0 <= j < i ==> #[trigger] byte_len(cs@.take(j)) < col,
            decreases cs.len() - i,
        {
            if acc == col {
                proof {
                    lemma_char_index_unique(cs@, i as int);
                }
                return Ok((cs, i));
            }
            if acc > col {
                proof {
                    assert forall|k: int| 0 <= k <= cs@.len() implies #[trigger] byte_len(
                        cs@.take(k),
                    ) != col by {
                        if k > i {
                            lemma_byte_len_take_strict(cs@, i as int, k);
                        }
                    }
                }
                return Err(BufferError::InvalidByteOffset { col });
            }
            proof {
                lemma_byte_len_take_step(cs@, i as int);
                if i + 1 < cs@.len() {
                    lemma_byte_len_take_strict(cs@, i + 1, cs@.len() as int);
                }
                assert(cs@.take(cs@.len() as int) =~= cs@);
            }
            let w = utf8_width(cs[i]);
            acc = acc + w;
            i = i + 1;
        }
        assert(cs@.take(cs@.len() as int) =~= cs@);
        if acc == col {
            proof {
                lemma_char_index_unique(cs@, i as int);
            }
            Ok((cs, i))
        } else {
            proof {
                assert forall|k: int| 0 <= k <= cs@.len() implies #[trigger] byte_len(cs@.take(k))
                    != col by {}
            }
            Err(BufferError::InvalidByteOffset { col })
        }
    }
}

/// The `'\n'`-separated segments of `cs[..n]`.
pub fn split_segments(cs: &[char], n: usize) -> (lines: Vec<String>)
    requires
        n <= cs@.len(),
    ensures
        lines@.map_values(|l: String| l@) == split_all(cs@.take(n as int)),
{
    let mut lines: Vec<String> = Vec::new();
    let mut cur: Vec<char> = Vec::new();
    let mut i: usize = 0;
    while i < n
        invariant
            n <= cs@.len(),
            i <= n,
            lines@.map_values(|l: String| l@).push(cur@) == split_all(cs@.take(i as int)),
        decreases n - i,
    {
        let c = cs[i];
        let ghost prefix = cs@.take(i as int);
        assert(cs@.take(i + 1).drop_last() =~= prefix);
        if c == '\n' {
            let s = string_from_chars(cur.as_slice());
            lines.push(s);
            cur = Vec::new();
            assert(lines@.map_values(|l: String| l@).push(cur@) =~= split_all(prefix).push(
                Seq::<char>::empty(),
            ));
        } else {
            cur.push(c);
            assert(lines@.map_values(|l: String| l@).push(cur@) =~= split_all(prefix).update(
                split_all(prefix).len() - 1,
                split_all(prefix).last().push(c),
            ));
        }
        i = i + 1;
    }
    let s = string_from_chars(cur.as_slice());
    let ghost before = lines@.map_values(|l: String| l@);
    lines.push(s);
    assert(lines@.map_values(|l: String| l@) =~= before.push(cur@));
    lines
}

/// `split_all` always yields at least one line.
pub proof fn lemma_split_all_nonempty(s: Seq<char>)
    ensures
        split_all(s).len() >= 1,
    decreases s.len(),
{
    if s.len() > 0 {
        lemma_split_all_nonempty(s.drop_last());
    }
}

} // verus!

verus! {

impl Buffer {
    /// Replace line `row` with `content`.
    pub fn set_line(&mut self, row: usize, content: String) -> (r: Result<(), BufferError>)
        requires
            old(self).wf(),
        ensures
            final(self).wf(),
            r is Ok <==> row < old(self)@.len(),
            r is Ok ==> final(self)@ == old(self)@.update(row as int, content@),
            r matches Err(e) ==> e == row_error(row, old(self)@) && final(self)@ == old(self)@,
    {
        if row >= self.lines.len() {
            return Err(BufferError::RowOutOfBounds { row, len: self.lines.len() });
        }
        let ghost c = content@;
        self.lines.set(row, content);
        assert(self@ =~= old(self)@.update(row as int, c));
        Ok(())
    }

    /// Insert character `c` at `cursor`.
    pub fn insert_char(&mut self, cursor: &Cursor, c: char) -> (r: Result<(), BufferError>)
        requires
            old(self).wf(),
        ensures
            final(self).wf(),
            match r {
                Ok(()) => position_error(old(self)@, cursor.row, cursor.col) is None
                    && final(self)@ == old(self)@.update(
                    cursor.row as int,
                    insert_at(old(self)@[cursor.row as int], pos_index(old(self)@, *cursor), c),
                ),
                Err(e) => position_error(old(self)@, cursor.row, cursor.col) == Some(e)
                    && final(self)@ == old(self)@,
            },
    {
        let (cs, k) = match self.locate(cursor.row, cursor.col) {
            Ok(p) => p,
            Err(e) => return Err(e),
        };
        let mut mid: Vec<char> = Vec::new();
        mid.push(c);
        let new_chars = splice_chars(cs.as_slice(), k, mid.as_slice(), cs.as_slice(), k);
        let s = string_from_chars(new_chars.as_slice());
        let ghost sv = s@;
        self.lines.set(cursor.row, s);
        assert(sv =~= insert_at(old(self)@[cursor.row as int], k as int, c));
        assert(self@ =~= old(self)@.update(cursor.row as int, sv));
        Ok(())
    }

    /// Split the line at `cursor`: the text after it moves to a new line below.
    pub fn split_line(&mut self, cursor: &Cursor) -> (r: Result<(), BufferError>)
        requires
            old(self).wf(),
        ensures
            final(self).wf(),
            match r {
                Ok(()) => position_error(old(self)@, cursor.row, cursor.col) is None
                    && final(self)@ == split_at(
                    old(self)@,
                    cursor.row as int,
                    pos_index(old(self)@, *cursor),
                ),
                Err(e) => position_error(old(self)@, cursor.row, cursor.col) == Some(e)
                    && final(self)@ == old(self)@,
            },
    {
        let (cs, k) = match self.locate(cursor.row, cursor.col) {
            Ok(p) => p,
            Err(e) => return Err(e),
        };
        let empty: Vec<char> = Vec::new();
        let head_chars = splice_chars(cs.as_slice(), k, empty.as_slice(), cs.as_slice(), cs.len());
        let tail_chars = splice_chars(cs.as_slice(), 0, empty.as_slice(), cs.as_slice(), k);
        let head = string_from_chars(head_chars.as_slice());
        let tail = string_from_chars(tail_chars.as_slice());
        let ghost hv = head@;
        let ghost tv = tail@;
        assert(hv =~= cs@.take(k as int));
        assert(tv =~= cs@.skip(k as int));
        let n: usize = self.lines.len();
        self.lines.set(cursor.row, head);
        self.lines.insert(cursor.row + 1, tail);
        assert(self@ =~= split_at(old(self)@, cursor.row as int, k as int));
        Ok(())
    }

    /// Append line `row + 1` to line `row`, removing line `row + 1`.
    pub fn join_lines(&mut self, row: usize) -> (r: Result<(), BufferError>)
        requires
            old(self).wf(),
        ensures
            final(self).wf(),
            r is Ok <==> row + 1 < old(self)@.len(),
            r is Ok ==> final(self)@ == join_at(old(self)@, row as int),
            r matches Err(e) ==> e == row_error(row, old(self)@) && final(self)@ == old(self)@,
    {
        if row >= self.lines.len() - 1 {
            return Err(BufferError::RowOutOfBounds { row, len: self.lines.len() });
        }
        let a = chars_of(self.lines[row].as_str());
        let b = chars_of(self.lines[row + 1].as_str());
        let joined = splice_chars(a.as_slice(), a.len(), b.as_slice(), b.as_slice(), b.len());
        let s = string_from_chars(joined.as_slice());
        let ghost sv = s@;
        assert(sv =~= a@ + b@) by {
            assert(a@.take(a@.len() as int) =~= a@);
            assert(b@.skip(b@.len() as int) =~= Seq::<char>::empty());
        }
        self.lines.set(row, s);
        self.lines.remove(row + 1);
        assert(self@ =~= join_at(old(self)@, row as int));
        Ok(())
    }

    /// Insert a new line with `content` before line `row` (or at the end when
    /// `row` equals the number of lines).
    pub fn insert_line(&mut self, row: usize, content: String) -> (r: Result<(), BufferError>)
        requires
            old(self).wf(),
        ensures
            final(self).wf(),
            r is Ok <==> row <= old(self)@.len(),
            r is Ok ==> final(self)@ == old(self)@.insert(row as int, content@),
            r matches Err(e) ==> e == row_error(row, old(self)@) && final(self)@ == old(self)@,
    {
        if row > self.lines.len() {
            return Err(BufferError::RowOutOfBounds { row, len: self.lines.len() });
        }
        let ghost cv = content@;
        self.lines.insert(row, content);
        assert(self@ =~= old(self)@.insert(row as int, cv));
        Ok(())
    }

    /// Remove line `row`; removing the only line leaves one empty line.
    pub fn remove_line(&mut self, row: usize) -> (r: Result<(), BufferError>)
        requires
            old(self).wf(),
        ensures
            final(self).wf(),
            r is Ok <==> row < old(self)@.len(),
            r is Ok ==> final(self)@ == remove_at(old(self)@, row as int),
            r matches Err(e) ==> e == row_error(row, old(self)@) && final(self)@ == old(self)@,
    {
        if row >= self.lines.len() {
            return Err(BufferError::RowOutOfBounds { row, len: self.lines.len() });
        }
        if self.lines.len() == 1 {
            self.lines.set(0, String::new());
            assert(self@ =~= seq![Seq::<char>::empty()]);
        } else {
            self.lines.remove(row);
            assert(self@ =~= old(self)@.remove(row as int));
        }
        Ok(())
    }

    /// Delete the text from `start` up to (not including) `end`, which may
    /// lie on a later line; the lines in between are removed.
    pub fn delete_range(&mut self, start: &Cursor, end: &Cursor) -> (r: Result<(), BufferError>)
        requires
            old(self).wf(),
        ensures
            final(self).wf(),
            match r {
                Ok(()) => position_error(old(self)@, start.row, start.col) is None
                    && position_error(old(self)@, end.row, end.col) is None && !cursor_before(
                    *end,
                    *start,
                ) && final(self)@ == delete_between(old(self)@, *start, *end),
                Err(e) => final(self)@ == old(self)@ && if position_error(
                    old(self)@,
                    start.row,
                    start.col,
                ) is Some {
                    position_error(old(self)@, start.row, start.col) == Some(e)
                } else if position_error(old(self)@, end.row, end.col) is Some {
                    position_error(old(self)@, end.row, end.col) == Some(e)
                } else {
                    cursor_before(*end, *start) && e == invalid_cursor(*end)
                },
            },
    {
        let (sc, sk) = match self.locate(start.row, start.col) {
            Ok(p) => p,
            Err(e) => return Err(e),
        };
        let (ec, ek) = match self.locate(end.row, end.col) {
            Ok(p) => p,
            Err(e) => return Err(e),
        };
        if end.row < start.row || (end.row == start.row && end.col < start.col) {
            return Err(BufferError::InvalidCursor { row: end.row, col: end.col });
        }
        let empty: Vec<char> = Vec::new();
        let joined = splice_chars(sc.as_slice(), sk, empty.as_slice(), ec.as_slice(), ek);
        let s = string_from_chars(joined.as_slice());
        let ghost sv = s@;
        let ghost old_lines = self.lines@;
        let mut new_lines: Vec<String> = Vec::new();
        let mut i: usize = 0;
        while i < start.row
            invariant
                i <= start.row,
                start.row < self.lines@.len(),
                self.lines@ == old_lines,
                new_lines@ == old_lines.take(i as int),
            decreases start.row - i,
        {
            new_lines.push(self.lines[i].clone());
            assert(old_lines.take(i + 1) =~= old_lines.take(i as int).push(old_lines[i as int]));
            i = i + 1;
        }
        let ghost s_str = s;
        new_lines.push(s);
        let n: usize = self.lines.len();
        assert(end.row < n);
        let mut j: usize = end.row + 1;
        while j < self.lines.len()
            invariant
                end.row < j <= self.lines@.len(),
                self.lines@ == old_lines,
                new_lines@ == old_lines.take(start.row as int).push(s_str) + old_lines.subrange(
                    end.row + 1,
                    j as int,
                ),
                s_str@ == sv,
            decreases self.lines.len() - j,
        {
            new_lines.push(self.lines[j].clone());
            assert(old_lines.subrange(end.row + 1, j + 1) =~= old_lines.subrange(
                end.row + 1,
                j as int,
            ).push(old_lines[j as int]));
            j = j + 1;
        }
        self.lines = new_lines;
        proof {
            assert(sv =~= old(self)@[start.row as int].take(sk as int) + old(self)@[
                end.row as int].skip(ek as int));
            assert(old_lines.subrange(end.row + 1, old_lines.len() as int) =~= old_lines.skip(
                end.row + 1,
            ));
            assert(self@ =~= delete_between(old(self)@, *start, *end));
        }
        Ok(())
    }
}

} // verus!

verus! {

impl Buffer {
    /// Mutable access to line `row`, if it exists.
    pub fn line_mut(&mut self, row: usize) -> (r: Option<&mut String>)
        requires
            old(self).wf(),
        ensures
            r is Some <==> row < old(self)@.len(),
            r is None ==> final(self)@ == old(self)@,
            r matches Some(s) ==> s@ == old(self)@[row as int] && final(self)@ == old(self)@.update(row as int, final(s)@),
    {
        if row < self.lines.len() {
            Some(&mut self.lines[row])
        } else {
            None
        }
    }
}

} // verus!

verus! {

/// The lines that replace a line when text split into `segs` is inserted
/// between the line's prefix `p` and suffix `s`.
pub open spec fn join_segments(p: Seq<char>, segs: Seq<Seq<char>>, s: Seq<char>) -> Seq<
    Seq<char>,
> {
    if segs.len() <= 1 {
        seq![p + segs[0] + s]
    } else {
        seq![p + segs[0]] + segs.subrange(1, segs.len() - 1) + seq![segs.last() + s]
    }
}

/// The lines after inserting text `t` before character index `k` of line `row`.
pub open spec fn insert_text_lines(v: Seq<Seq<char>>, row: int, k: int, t: Seq<char>) -> Seq<
    Seq<char>,
> {
    v.take(row) + join_segments(v[row].take(k), split_all(t), v[row].skip(k)) + v.skip(row + 1)
}

impl Buffer {
    /// The lines before `from`, then `middle`, then the lines from `to` on.
    fn spliced_lines(&self, from: usize, to: usize, middle: Vec<String>) -> (r: Vec<String>)
        requires
            from <= to <= self@.len(),
        ensures
            r@.map_values(|l: String| l@) == self@.take(from as int) + middle@.map_values(
                |l: String| l@,
            ) + self@.skip(to as int),
    {
        let mut out: Vec<String> = Vec::new();
        let mut i: usize = 0;
        while i < from
            invariant
                i <= from <= to <= self.lines@.len(),
                out@.map_values(|l: String| l@) == self@.take(i as int),
            decreases from - i,
        {
            let ghost before = out@;
            let line = self.lines[i].clone();
            assert(line@ == self@[i as int]);
            out.push(line);
            assert(out@ == before.push(line));
            assert(out@.map_values(|l: String| l@) =~= before.map_values(|l: String| l@).push(
                line@,
            ));
            assert(out@.map_values(|l: String| l@) =~= self@.take(i + 1));
            i = i + 1;
        }
        let mut j: usize = 0;
        while j < middle.len()
            invariant
                j <= middle@.len(),
                out@.map_values(|l: String| l@) == self@.take(from as int) + middle@.map_values(
                    |l: String| l@,
                ).take(j as int),
            decreases middle.len() - j,
        {
            let ghost before = out@;
            let line = middle[j].clone();
            assert(line@ == middle@.map_values(|l: String| l@)[j as int]);
            out.push(line);
            assert(out@ == before.push(line));
            assert(out@.map_values(|l: String| l@) =~= before.map_values(|l: String| l@).push(
                line@,
            ));
            assert(out@.map_values(|l: String| l@) =~= self@.take(from as int)
                + middle@.map_values(|l: String| l@).take(j + 1));
            j = j + 1;
        }
        let mut k: usize = to;
        while k < self.lines.len()
            invariant
                from <= to <= k <= self.lines@.len(),
                j == middle@.len(),
                out@.map_values(|l: String| l@) == self@.take(from as int) + middle@.map_values(
                    |l: String| l@,
                ) + self@.subrange(to as int, k as int),
            decreases self.lines.len() - k,
        {
            let ghost before = out@;
            let line = self.lines[k].clone();
            assert(line@ == self@[k as int]);
            out.push(line);
            assert(out@ == before.push(line));
            assert(out@.map_values(|l: String| l@) =~= before.map_values(|l: String| l@).push(
                line@,
            ));
            assert(out@.map_values(|l: String| l@) =~= self@.take(from as int)
                + middle@.map_values(|l: String| l@) + self@.subrange(to as int, k + 1));
            k = k + 1;
        }
        assert(middle@.map_values(|l: String| l@).take(j as int) =~= middle@.map_values(
            |l: String| l@,
        ));
        assert(self@.subrange(to as int, k as int) =~= self@.skip(to as int));
        out
    }

    /// Insert `text` at (`row`, `col`); each `'\n'` in it starts a new line.
    /// Inserting empty text changes nothing and always succeeds.
    pub fn insert_text(&mut self, row: usize, col: usize, text: &str) -> (r: Result<
        (),
        BufferError,
    >)
        requires
            old(self).wf(),
        ensures
            final(self).wf(),
            text@.len() == 0 ==> r is Ok && final(self)@ == old(self)@,
            text@.len() > 0 ==> match r {
                Ok(()) => position_error(old(self)@, row, col) is None && final(self)@
                    == insert_text_lines(
                    old(self)@,
                    row as int,
                    char_index(old(self)@[row as int], col as int),
                    text@,
                ),
                Err(e) => position_error(old(self)@, row, col) == Some(e) && final(self)@ == old(
                    self,
                )@,
            },
    {
        let tc = chars_of(text);
        if tc.len() == 0 {
            return Ok(());
        }
        let (cs, k) = match self.locate(row, col) {
            Ok(p) => p,
            Err(e) => return Err(e),
        };
        let segs = split_segments(tc.as_slice(), tc.len());
        let ghost sv = segs@.map_values(|l: String| l@);
        assert(tc@.take(tc@.len() as int) =~= tc@);
        proof {
            lemma_split_all_nonempty(tc@);
        }
        let ghost p = cs@.take(k as int);
        let ghost q = cs@.skip(k as int);
        let mut middle: Vec<String> = Vec::new();
        let empty: Vec<char> = Vec::new();
        if segs.len() == 1 {
            let seg = chars_of(segs[0].as_str());
            let a = splice_chars(cs.as_slice(), k, seg.as_slice(), cs.as_slice(), k);
            middle.push(string_from_chars(a.as_slice()));
            assert(middle@.map_values(|l: String| l@) =~= join_segments(p, sv, q));
        } else {
            let first = chars_of(segs[0].as_str());
            let a = splice_chars(cs.as_slice(), k, first.as_slice(), empty.as_slice(), 0);
            middle.push(string_from_chars(a.as_slice()));
            let mut i: usize = 1;
            while i < segs.len() - 1
                invariant
                    1 <= i <= segs@.len() - 1,
                    sv == segs@.map_values(|l: String| l@),
                    middle@.map_values(|l: String| l@) == seq![p + sv[0]] + sv.subrange(
                        1,
                        i as int,
                    ),
                decreases segs.len() - 1 - i,
            {
                let ghost before = middle@;
                let line = segs[i].clone();
                assert(line@ == sv[i as int]);
                middle.push(line);
                assert(middle@ == before.push(line));
                assert(middle@.map_values(|l: String| l@) =~= before.map_values(|l: String| l@).push(
                    line@,
                ));
                assert(middle@.map_values(|l: String| l@) =~= seq![p + sv[0]] + sv.subrange(
                    1,
                    i + 1,
                ));
                i = i + 1;
            }
            let last = chars_of(segs[segs.len() - 1].as_str());
            let b = splice_chars(empty.as_slice(), 0, last.as_slice(), cs.as_slice(), k);
            middle.push(string_from_chars(b.as_slice()));
            assert(a@ =~= p + sv[0]);
            assert(b@ =~= sv.last() + q);
            assert(middle@.map_values(|l: String| l@) =~= join_segments(p, sv, q));
        }
        let n: usize = self.lines.len();
        let new_lines = self.spliced_lines(row, row + 1, middle);
        self.lines = new_lines;
        assert(self@ =~= insert_text_lines(old(self)@, row as int, k as int, text@));
        Ok(())
    }
}

} // verus!

verus! {

/// Text without a line feed is a single segment.
pub proof fn lemma_split_all_plain(t: Seq<char>)
    requires
        forall|i: int| 0 <= i < t.len() ==> t[i] != '\n',
    ensures
        split_all(t) == seq![t],
    decreases t.len(),
{
    if t.len() > 0 {
        lemma_split_all_plain(t.drop_last());
        assert(t.drop_last().push(t.last()) =~= t);
        assert(seq![t.drop_last()].update(0, t.drop_last().push(t.last())) =~= seq![t]);
    } else {
        assert(t =~= Seq::<char>::empty());
    }
}

} // verus!

verus! {

/// What `Buffer::insert_char` gives on lines `v`.
pub open spec fn insert_char_result(v: Seq<Seq<char>>, row: usize, col: usize, c: char) -> Result<
    Seq<Seq<char>>,
    BufferError,
> {
    match position_error(v, row, col) {
        Some(e) => Err(e),
        None => Ok(v.update(row as int, insert_at(v[row as int], pos_index(v, Cursor { row, col }), c))),
    }
}

/// What `Buffer::split_line` gives on lines `v`.
pub open spec fn split_line_result(v: Seq<Seq<char>>, row: usize, col: usize) -> Result<
    Seq<Seq<char>>,
    BufferError,
> {
    match position_error(v, row, col) {
        Some(e) => Err(e),
        None => Ok(split_at(v, row as int, pos_index(v, Cursor { row, col }))),
    }
}

/// What `Buffer::delete_range` gives on lines `v`.
pub open spec fn delete_range_result(v: Seq<Seq<char>>, start: Cursor, end: Cursor) -> Result<
    Seq<Seq<char>>,
    BufferError,
> {
    match position_error(v, start.row, start.col) {
        Some(e) => Err(e),
        None => match position_error(v, end.row, end.col) {
            Some(e) => Err(e),
            None => if cursor_before(end, start) {
                Err(invalid_cursor(end))
            } else {
                Ok(delete_between(v, start, end))
            },
        },
    }
}

/// What `Buffer::join_lines` gives on lines `v`.
pub open spec fn join_lines_result(v: Seq<Seq<char>>, row: usize) -> Result<Seq<Seq<char>>, BufferError> {
    if row + 1 < v.len() {
        Ok(join_at(v, row as int))
    } else {
        Err(row_error(row, v))
    }
}

/// What `Buffer::insert_line` gives on lines `v`.
pub open spec fn insert_line_result(v: Seq<Seq<char>>, row: usize, content: Seq<char>) -> Result<
    Seq<Seq<char>>,
    BufferError,
> {
    if row <= v.len() {
        Ok(v.insert(row as int, content))
    } else {
        Err(row_error(row, v))
    }
}

/// What `Buffer::remove_line` gives on lines `v`.
pub open spec fn remove_line_result(v: Seq<Seq<char>>, row: usize) -> Result<Seq<Seq<char>>, BufferError> {
    if row < v.len() {
        Ok(remove_at(v, row as int))
    } else {
        Err(row_error(row, v))
    }
}

/// What `Buffer::set_line` gives on lines `v`.
pub open spec fn set_line_result(v: Seq<Seq<char>>, row: usize, content: Seq<char>) -> Result<
    Seq<Seq<char>>,
    BufferError,
> {
    if row < v.len() {
        Ok(v.update(row as int, content))
    } else {
        Err(row_error(row, v))
    }
}

/// What `Buffer::insert_text` gives on lines `v`.
pub open spec fn insert_text_result(v: Seq<Seq<char>>, row: usize, col: usize, t: Seq<char>) -> Result<
    Seq<Seq<char>>,
    BufferError,
> {
    if t.len() == 0 {
        Ok(v)
    } else {
        match position_error(v, row, col) {
            Some(e) => Err(e),
            None => Ok(insert_text_lines(v, row as int, char_index(v[row as int], col as int), t)),
        }
    }
}

} // verus!

verus! {

/// `segs` joined with a `'\n'` between each two.
pub open spec fn join_with_lf(segs: Seq<Seq<char>>) -> Seq<char>
    decreases segs.len(),
{
    if segs.len() == 0 {
        Seq::<char>::empty()
    } else if segs.len() == 1 {
        segs[0]
    } else {
        join_with_lf(segs.drop_last()) + seq!['\n'] + segs.last()
    }
}

/// No character of `s` is a line feed.
pub open spec fn no_lf(s: Seq<char>) -> bool {
    forall|i: int| 0 <= i < s.len() ==> s[i] != '\n'
}

/// Splitting at a line feed splits the segments there.
pub proof fn lemma_split_all_concat_lf(a: Seq<char>, b: Seq<char>)
    ensures
        split_all(a + seq!['\n'] + b) == split_all(a) + split_all(b),
    decreases b.len(),
{
    let s = a + seq!['\n'] + b;
    if b.len() == 0 {
        assert(s.drop_last() =~= a);
        assert(split_all(a).push(Seq::<char>::empty()) =~= split_all(a) + seq![Seq::<char>::empty()]);
    } else {
        assert(s.drop_last() =~= a + seq!['\n'] + b.drop_last());
        assert(s.last() == b.last());
        lemma_split_all_concat_lf(a, b.drop_last());
        lemma_split_all_nonempty(b.drop_last());
        let p = split_all(a);
        let q = split_all(b.drop_last());
        if b.last() == '\n' {
            assert((p + q).push(Seq::<char>::empty()) =~= p + q.push(Seq::<char>::empty()));
        } else {
            let pq = p + q;
            assert(pq.update(pq.len() - 1, pq.last().push(b.last())) =~= p + q.update(
                q.len() - 1,
                q.last().push(b.last()),
            ));
        }
    }
}

/// Segments without line feeds come back from splitting their join.
pub proof fn lemma_split_join(segs: Seq<Seq<char>>)
    requires
        segs.len() >= 1,
        forall|i: int| 0 <= i < segs.len() ==> no_lf(#[trigger] segs[i]),
    ensures
        split_all(join_with_lf(segs)) == segs,
    decreases segs.len(),
{
    if segs.len() == 1 {
        lemma_split_all_plain(segs[0]);
        assert(seq![segs[0]] =~= segs);
    } else {
        let init = segs.drop_last();
        assert forall|i: int| 0 <= i < init.len() implies no_lf(#[trigger] init[i]) by {
            assert(init[i] == segs[i]);
        }
        lemma_split_join(init);
        lemma_split_all_concat_lf(join_with_lf(init), segs.last());
        assert(no_lf(segs[segs.len() - 1]));
        lemma_split_all_plain(segs.last());
        assert(init + seq![segs.last()] =~= segs);
    }
}

/// A text that splits into one segment has no line feed.
pub proof fn lemma_split_all_single(t: Seq<char>)
    requires
        split_all(t).len() == 1,
    ensures
        no_lf(t),
        split_all(t) == seq![t],
    decreases t.len(),
{
    if t.len() > 0 {
        lemma_split_all_nonempty(t.drop_last());
        if t.last() != '\n' {
            lemma_split_all_single(t.drop_last());
            assert forall|i: int| 0 <= i < t.len() implies t[i] != '\n' by {
                if i < t.len() - 1 {
                    assert(t[i] == t.drop_last()[i]);
                }
            }
        }
    }
    lemma_split_all_plain(t);
}

/// The segments of a text hold no line feed.
pub proof fn lemma_split_all_no_lf(t: Seq<char>)
    ensures
        forall|i: int| 0 <= i < split_all(t).len() ==> no_lf(#[trigger] split_all(t)[i]),
    decreases t.len(),
{
    if t.len() > 0 {
        lemma_split_all_no_lf(t.drop_last());
        lemma_split_all_nonempty(t.drop_last());
        let p = split_all(t.drop_last());
        if t.last() != '\n' {
            assert forall|i: int| 0 <= i < split_all(t).len() implies no_lf(#[trigger] split_all(t)[i]) by {
                if i == p.len() - 1 {
                    assert(no_lf(p[i]));
                    let s = p.last().push(t.last());
                    assert forall|j: int| 0 <= j < s.len() implies s[j] != '\n' by {
                        if j < p.last().len() {
                            assert(s[j] == p.last()[j]);
                        }
                    }
                } else {
                    assert(split_all(t)[i] == p[i]);
                }
            }
        } else {
            assert forall|i: int| 0 <= i < split_all(t).len() implies no_lf(#[trigger] split_all(t)[i]) by {
                if i < p.len() {
                    assert(split_all(t)[i] == p[i]);
                }
            }
        }
    }
}

/// The segments of a prefix of `t` are those of `t`, except that the last
/// may be cut short.
pub proof fn lemma_split_all_prefix(t: Seq<char>, j: int)
    requires
        0 <= j <= t.len(),
    ensures
        ({
            let p = split_all(t.take(j));
            let q = split_all(t);
            &&& 1 <= p.len() <= q.len()
            &&& forall|i: int| 0 <= i < p.len() - 1 ==> p[i] == q[i]
            &&& p.last().len() <= q[p.len() - 1].len()
            &&& q[p.len() - 1].take(p.last().len() as int) == p.last()
        }),
    decreases t.len(),
{
    lemma_split_all_nonempty(t.take(j));
    lemma_split_all_nonempty(t);
    if j == t.len() {
        assert(t.take(j) =~= t);
        let q = split_all(t);
        assert(q.last().take(q.last().len() as int) =~= q.last());
    } else {
        let u = t.drop_last();
        assert(t.take(j) =~= u.take(j));
        lemma_split_all_prefix(u, j);
        lemma_split_all_nonempty(u);
        let p = split_all(t.take(j));
        let r = split_all(u);
        let q = split_all(t);
        if t.last() == '\n' {
            assert(q == r.push(Seq::<char>::empty()));
            assert forall|i: int| 0 <= i < p.len() - 1 implies p[i] == q[i] by {
                assert(p[i] == r[i]);
            }
            assert(q[p.len() - 1] == r[p.len() - 1]);
        } else {
            assert(q == r.update(r.len() - 1, r.last().push(t.last())));
            assert forall|i: int| 0 <= i < p.len() - 1 implies p[i] == q[i] by {
                assert(p[i] == r[i]);
            }
            if p.len() == r.len() {
                let m = p.last().len() as int;
                assert(r.last().push(t.last()).take(m) =~= r.last().take(m));
            } else {
                assert(q[p.len() - 1] == r[p.len() - 1]);
            }
        }
    }
}

} // verus!
