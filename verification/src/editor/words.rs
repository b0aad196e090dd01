//! The word motion `w`: to the start of the next word, where a word is a
//! run of keyword characters or a run of other non-blank characters, and
//! an empty line counts as a word.

use vstd::prelude::*;
use crate::buffer::Cursor;
use crate::editor::Editor;
use crate::text::{byte_len, char_index};

verus! {

/// The class of a character for word motions: 0 for a blank (space or
/// tab), 1 for a keyword character (letter, digit, `_`), 2 for any other.
pub open spec fn char_class(c: char) -> int {
    if c == ' ' || c == '\t' {
        0
    } else if crate::buffer::unicode::spec_is_alphanumeric(c) || c == '_' {
        1
    } else {
        2
    }
}

/// From character `k` of `line`, past the characters of class `c`.
pub open spec fn skip_class(line: Seq<char>, k: int, c: int) -> int
    decreases line.len() - k,
{
    if 0 <= k < line.len() && char_class(line[k]) == c {
        skip_class(line, k + 1, c)
    } else {
        k
    }
}

/// From character `k` of row `r` of `v`, past blanks and line ends, up to
/// the next non-blank character, an empty line, or the end of the text.
pub open spec fn skip_blanks(v: Seq<Seq<char>>, r: int, k: int) -> (int, int)
    decreases v.len() - r, v[r].len() - k,
{
    if !(0 <= r < v.len()) || k < 0 {
        (r, k)
    } else if k < v[r].len() && char_class(v[r][k]) == 0 {
        skip_blanks(v, r, k + 1)
    } else if k >= v[r].len() && r + 1 < v.len() {
        if v[r + 1].len() == 0 {
            (r + 1, 0)
        } else {
            skip_blanks(v, r + 1, 0)
        }
    } else {
        (r, k)
    }
}

/// Where `w` takes the cursor `cur` in the lines `v`: past the rest of the
/// word under it, then past blanks and line ends; at the end of the text,
/// onto its last character.
pub open spec fn word_forward(v: Seq<Seq<char>>, cur: Cursor) -> Cursor {
    let r = cur.row as int;
    if r >= v.len() {
        cur
    } else {
        let line = v[r];
        let k = char_index(line, cur.col as int);
        let k1 = if k < line.len() && char_class(line[k]) != 0 {
            skip_class(line, k, char_class(line[k]))
        } else {
            k
        };
        let (r2, k2) = skip_blanks(v, r, k1);
        let l2 = v[r2];
        let k3 = if k2 >= l2.len() && l2.len() > 0 {
            l2.len() - 1
        } else {
            k2
        };
        Cursor { row: r2 as usize, col: byte_len(l2.take(k3)) as usize }
    }
}

/// `char_class`, computed.
fn class_of(c: char) -> (r: u8)
    ensures
        r as int == char_class(c),
{
    if c == ' ' || c == '\t' {
        0
    } else if crate::buffer::unicode::is_alphanumeric(c) || c == '_' {
        1
    } else {
        2
    }
}

/// `skip_blanks` stays on a row of the text.
proof fn lemma_skip_blanks_row(v: Seq<Seq<char>>, r: int, k: int)
    requires
        0 <= r < v.len(),
        0 <= k,
    ensures
        0 <= skip_blanks(v, r, k).0 < v.len(),
        0 <= skip_blanks(v, r, k).1,
    decreases v.len() - r, v[r].len() - k,
{
    if k < v[r].len() && char_class(v[r][k]) == 0 {
        lemma_skip_blanks_row(v, r, k + 1);
    } else if k >= v[r].len() && r + 1 < v.len() {
        if v[r + 1].len() != 0 {
            lemma_skip_blanks_row(v, r + 1, 0);
        }
    }
}

impl Editor {
    /// The cursor position `w` moves to, as `word_forward` says.
    pub fn word_forward_target(&self) -> (c: Cursor)
        requires
            self.wf(),
            self.cursor_ok(),
        ensures
            c == word_forward(self.document.buffer@, self.document.cursor),
    {
        let ghost v = self.document.buffer@;
        let n = self.document.buffer.len();
        let mut r = self.document.cursor.row;
        let mut cs = match self.document.buffer.line(r) {
            Some(line) => crate::text::chars_of(line),
            None => return self.document.cursor,
        };
        let mut k = crate::text::index_at_byte(cs.as_slice(), self.document.cursor.col);
        if k < cs.len() {
            let c0 = class_of(cs[k]);
            if c0 != 0 {
                let ghost k0 = k;
                while k < cs.len() && class_of(cs[k]) == c0
                    invariant
                        k0 <= k <= cs@.len(),
                        skip_class(cs@, k as int, c0 as int) == skip_class(cs@, k0 as int, c0 as int),
                    decreases cs@.len() - k,
                {
                    k = k + 1;
                }
            }
        }
        let ghost r0 = r;
        let ghost k1 = k;
        let ghost target = skip_blanks(v, r0 as int, k1 as int);
        proof {
            lemma_skip_blanks_row(v, r0 as int, k1 as int);
        }
        loop
            invariant_except_break
                r < n,
                n == v.len(),
                v == self.document.buffer@,
                cs@ == v[r as int],
                k <= cs@.len(),
                skip_blanks(v, r as int, k as int) == target,
            ensures
                r < n,
                cs@ == v[r as int],
                k <= cs@.len(),
                target == (r as int, k as int),
            decreases n - r, cs@.len() - k,
        {
            if k < cs.len() && class_of(cs[k]) == 0 {
                k = k + 1;
            } else if k >= cs.len() && r + 1 < n {
                r = r + 1;
                cs = match self.document.buffer.line(r) {
                    Some(line) => crate::text::chars_of(line),
                    None => Vec::new(),
                };
                k = 0;
                if cs.len() == 0 {
                    break;
                }
            } else {
                break;
            }
        }
        let k3 = if k >= cs.len() && cs.len() > 0 {
            cs.len() - 1
        } else {
            k
        };
        let _nb = match self.document.buffer.line(r) {
            Some(line) => crate::text::str_byte_len(line),
            None => 0,
        };
        proof {
            crate::text::lemma_byte_len_take_le(cs@, k3 as int);
        }
        let col = crate::text::byte_offset(cs.as_slice(), k3);
        Cursor { row: r, col }
    }
}

} // verus!

verus! {

/// A keyword character: a letter or digit (as `char::is_alphanumeric`)
/// or `_`.
pub open spec fn is_keyword_char(c: char) -> bool {
    crate::buffer::unicode::spec_is_alphanumeric(c) || c == '_'
}

/// A run of class `c` from `k` ending at `m` is skipped to `m`.
proof fn lemma_skip_class_run(line: Seq<char>, k: int, m: int, c: int)
    requires
        0 <= k <= m <= line.len(),
        forall|i: int| k <= i < m ==> char_class(#[trigger] line[i]) == c,
        m == line.len() || char_class(line[m]) != c,
    ensures
        skip_class(line, k, c) == m,
    decreases m - k,
{
    if k < m {
        lemma_skip_class_run(line, k + 1, m, c);
    }
}

/// Blanks from `m` up to a non-blank at `p` on the same row are skipped to `p`.
proof fn lemma_skip_blanks_run(v: Seq<Seq<char>>, r: int, m: int, p: int)
    requires
        0 <= r < v.len(),
        0 <= m <= p < v[r].len(),
        forall|i: int| m <= i < p ==> (#[trigger] v[r][i] == ' ' || v[r][i] == '\t'),
        v[r][p] != ' ' && v[r][p] != '\t',
    ensures
        skip_blanks(v, r, m) == (r, p),
    decreases p - m,
{
    if m < p {
        assert(char_class(v[r][m]) == 0);
        lemma_skip_blanks_run(v, r, m + 1, p);
    } else {
        assert(char_class(v[r][p]) != 0);
    }
}

/// `w` from the first character `k` of a run of keyword characters (letters,
/// digits and `_`, which are one word) that ends at `m`, followed by the
/// blanks `m..p` (at least one) and a non-blank at `p`, moves to `p`: the start of the
/// next word, past the whole run.
pub proof fn law_word_forward_skips_keyword_run(v: Seq<Seq<char>>, cur: Cursor, k: int, m: int, p: int)
    requires
        cur.row < v.len(),
        0 <= k < m < p < v[cur.row as int].len(),
        cur.col == byte_len(v[cur.row as int].take(k)),
        forall|i: int|
            k <= i < m ==> is_keyword_char(#[trigger] v[cur.row as int][i]) && v[cur.row as int][i] != ' '
                && v[cur.row as int][i] != '\t',
        forall|i: int| m <= i < p ==> (#[trigger] v[cur.row as int][i] == ' ' || v[cur.row as int][i] == '\t'),
        v[cur.row as int][p] != ' ' && v[cur.row as int][p] != '\t',
    ensures
        word_forward(v, cur) == (Cursor { row: cur.row, col: byte_len(v[cur.row as int].take(p)) as usize }),
{
    let r = cur.row as int;
    let line = v[r];
    crate::text::lemma_char_index_unique(line, k);
    assert(char_index(line, cur.col as int) == k);
    assert(char_class(line[k]) == 1);
    assert forall|i: int| k <= i < m implies char_class(#[trigger] line[i]) == 1 by {
        assert(is_keyword_char(line[i]));
    }
    assert(char_class(line[m]) == 0);
    lemma_skip_class_run(line, k, m, 1);
    lemma_skip_blanks_run(v, r, m, p);
}


/// `w` from the first character `k` of the last word of a line (a run of
/// keyword characters up to the line end) moves onto the next line when
/// that line is empty: an empty line counts as a word.
pub proof fn law_word_forward_stops_at_empty_line(v: Seq<Seq<char>>, cur: Cursor, k: int)
    requires
        cur.row + 1 < v.len(),
        v[cur.row + 1].len() == 0,
        0 <= k < v[cur.row as int].len(),
        cur.col == byte_len(v[cur.row as int].take(k)),
        forall|i: int|
            k <= i < v[cur.row as int].len() ==> is_keyword_char(#[trigger] v[cur.row as int][i])
                && v[cur.row as int][i] != ' ' && v[cur.row as int][i] != '\t',
    ensures
        word_forward(v, cur) == (Cursor { row: (cur.row + 1) as usize, col: 0 }),
{
    let r = cur.row as int;
    let line = v[r];
    crate::text::lemma_char_index_unique(line, k);
    assert(char_index(line, cur.col as int) == k);
    assert(char_class(line[k]) == 1);
    assert forall|i: int| k <= i < line.len() implies char_class(#[trigger] line[i]) == 1 by {
        assert(is_keyword_char(line[i]));
    }
    lemma_skip_class_run(line, k, line.len() as int, 1);
    assert(skip_blanks(v, r, line.len() as int) == (r + 1, 0int));
    assert(v[r + 1].take(0) =~= Seq::<char>::empty());
}


/// `w` from the first character `k` of a run of keyword characters that
/// ends at `m`, where a non-blank character that is not a keyword
/// character (punctuation) follows, moves to `m`: that character starts
/// the next word.
pub proof fn law_word_forward_stops_at_punctuation(v: Seq<Seq<char>>, cur: Cursor, k: int, m: int)
    requires
        cur.row < v.len(),
        0 <= k < m < v[cur.row as int].len(),
        cur.col == byte_len(v[cur.row as int].take(k)),
        forall|i: int|
            k <= i < m ==> is_keyword_char(#[trigger] v[cur.row as int][i]) && v[cur.row as int][i] != ' '
                && v[cur.row as int][i] != '\t',
        !is_keyword_char(v[cur.row as int][m]),
        v[cur.row as int][m] != ' ' && v[cur.row as int][m] != '\t',
    ensures
        word_forward(v, cur) == (Cursor { row: cur.row, col: byte_len(v[cur.row as int].take(m)) as usize }),
{
    let r = cur.row as int;
    let line = v[r];
    crate::text::lemma_char_index_unique(line, k);
    assert(char_index(line, cur.col as int) == k);
    assert(char_class(line[k]) == 1);
    assert forall|i: int| k <= i < m implies char_class(#[trigger] line[i]) == 1 by {
        assert(is_keyword_char(line[i]));
    }
    assert(char_class(line[m]) == 2);
    lemma_skip_class_run(line, k, m, 1);
    assert(skip_blanks(v, r, m) == (r, m));
}

} // verus!
