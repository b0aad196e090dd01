//! Cursor movement and scrolling.

use vstd::prelude::*;
use crate::buffer::Cursor;
use crate::buffer::unicode::{prev_grapheme_start, next_grapheme_end, spec_is_whitespace};
use crate::editor::{Document, Editor, EditorState};
use crate::mode::{spec_allows_cursor_past_end, Mode};
use crate::text::{byte_len, is_boundary};

verus! {

/// The largest column the cursor may take on `line` in `mode`: the end of
/// the line where the mode allows it, else the start of the last grapheme.
pub open spec fn max_col(mode: Mode, line: Seq<char>) -> int {
    if line.len() == 0 {
        0
    } else if spec_allows_cursor_past_end(mode) {
        byte_len(line) as int
    } else {
        prev_grapheme_start(line, byte_len(line) as int)
    }
}

/// `r` is the largest character boundary of `s` not after `col`.
pub open spec fn is_floor_boundary(s: Seq<char>, col: int, r: int) -> bool {
    &&& is_boundary(s, r)
    &&& r <= col
    &&& forall|j: int| 0 <= j <= s.len() && byte_len(#[trigger] s.take(j)) <= col ==> byte_len(s.take(j)) <= r
}

/// `a - b`, or 0 when `b > a`.
pub open spec fn sat_sub(a: int, b: int) -> int {
    if a >= b {
        a - b
    } else {
        0
    }
}

/// The end of a line is a character boundary.
pub proof fn lemma_end_is_boundary(s: Seq<char>)
    ensures
        is_boundary(s, byte_len(s) as int),
{
    assert(s.take(s.len() as int) =~= s);
}

/// The start of a line is a character boundary.
pub proof fn lemma_start_is_boundary(s: Seq<char>)
    ensures
        is_boundary(s, 0),
        crate::text::char_index(s, 0) == 0,
{
    assert(s.take(0) =~= Seq::<char>::empty());
    crate::text::lemma_char_index_unique(s, 0);
}

/// `r` is the column `col` becomes on row `row` of `v` when clamped for
/// `mode`: the mode's largest column when `col` is past it, else the
/// character boundary at or before `col`. Off the buffer, `col` stays.
pub open spec fn clamp_col(mode: Mode, v: Seq<Seq<char>>, row: int, col: int, r: int) -> bool {
    if 0 <= row < v.len() {
        let m = max_col(mode, v[row]);
        if col > m {
            r == m
        } else {
            is_floor_boundary(v[row], col, r)
        }
    } else {
        r == col
    }
}

/// Number of leading whitespace characters of `s`.
pub open spec fn blank_len(s: Seq<char>) -> nat
    decreases s.len(),
{
    if s.len() > 0 && spec_is_whitespace(s[0]) {
        1 + blank_len(s.skip(1))
    } else {
        0
    }
}

/// The column of the first non-blank character of `s`, or 0 when the line
/// is blank.
pub open spec fn first_non_blank_col(s: Seq<char>) -> int {
    if blank_len(s) < s.len() {
        byte_len(s.take(blank_len(s) as int)) as int
    } else {
        0
    }
}

/// `a + b`, or `usize::MAX` when that overflows.
pub open spec fn sat_add(a: int, b: int) -> int {
    if a + b > usize::MAX {
        usize::MAX as int
    } else {
        a + b
    }
}

/// `a * b`, or `usize::MAX` when that overflows.
pub open spec fn sat_mul(a: int, b: int) -> int {
    if a * b > usize::MAX {
        usize::MAX as int
    } else {
        a * b
    }
}

/// The smaller of `a` and `b`.
pub open spec fn min(a: int, b: int) -> int {
    if a <= b {
        a
    } else {
        b
    }
}

/// The larger of `a` and `b`.
pub open spec fn max(a: int, b: int) -> int {
    if a >= b {
        a
    } else {
        b
    }
}

/// Lines a full-screen scroll moves: the height less two lines of
/// context, at least one.
pub open spec fn page_size(height: int) -> int {
    max(sat_sub(height, 2), 1)
}

/// The last row of a buffer of `len` lines (0 when empty).
pub open spec fn last_row(len: int) -> int {
    sat_sub(len, 1)
}

/// `e2` is `e` with the viewport's top at `top`; text, cursor-independent
/// state other than the half-screen size, and the viewport's size stay.
pub open spec fn view_moved(e: Editor, e2: Editor, top: int) -> bool {
    &&& e2.document.buffer@ == e.document.buffer@
    &&& e2.document.modified == e.document.modified
    &&& crate::editor::editing::same_doc_meta(e.document, e2.document)
    &&& e2.state == (EditorState {
        viewport: e2.state.viewport,
        scroll_half_size: e2.state.scroll_half_size,
        ..e.state
    })
    &&& e2.state.viewport.spec_top() == top
    &&& e2.state.viewport.spec_height() == e.state.viewport.spec_height()
    &&& e2.state.viewport.spec_width() == e.state.viewport.spec_width()
}

/// The cursor of `e2` is on `row`, with the column of `e` clamped to it.
pub open spec fn cursor_clamped(e: Editor, e2: Editor, row: int) -> bool {
    &&& e2.document.cursor.row == row
    &&& clamp_col(
        e.state.mode,
        e.document.buffer@,
        row,
        e.document.cursor.col as int,
        e2.document.cursor.col as int,
    )
}

/// `e2` is `e` with the viewport's top at `top` and the cursor on `row`,
/// its column clamped to that row; everything else stays.
pub open spec fn scrolled(e: Editor, e2: Editor, top: int, row: int) -> bool {
    &&& view_moved(e, e2, top)
    &&& e2.state.scroll_half_size == e.state.scroll_half_size
    &&& cursor_clamped(e, e2, row)
}

/// Lines a half-screen scroll moves: the count when given, else the saved
/// size, else half the height; at least one unless a count of 0 is given.
pub open spec fn half_amount(count: Option<usize>, saved: Option<usize>, height: int) -> int {
    match count {
        Some(c) => c as int,
        None => max(
            match saved {
                Some(s) => s as int,
                None => height / 2,
            },
            1,
        ),
    }
}

/// The half-screen size saved after a half-screen scroll with `count`.
pub open spec fn saved_half(count: Option<usize>, saved: Option<usize>) -> Option<usize> {
    match count {
        Some(c) => Some(max(c as int, 1) as usize),
        None => saved,
    }
}

/// `e2` is `e` with the cursor on the first non-blank character of `row`
/// (see `move_to_first_non_blank`); everything else stays.
pub open spec fn at_first_non_blank(e: Editor, e2: Editor, row: int) -> bool {
    &&& e2.state == e.state
    &&& e2.document.buffer@ == e.document.buffer@
    &&& e2.document.modified == e.document.modified
    &&& crate::editor::editing::same_doc_meta(e.document, e2.document)
    &&& e2.document.cursor.row == row
    &&& e2.document.cursor.col == if 0 <= row < e.document.buffer@.len() {
        let line = e.document.buffer@[row];
        min(first_non_blank_col(line), max_col(e.state.mode, line))
    } else {
        e.document.cursor.col as int
    }
}

/// The largest character boundary of the characters `cs` not after `col`.
fn floor_boundary(cs: &[char], col: usize) -> (r: usize)
    requires
        byte_len(cs@) <= usize::MAX,
    ensures
        is_floor_boundary(cs@, col as int, r as int),
{
    let mut i: usize = 0;
    let mut acc: usize = 0;
    assert(cs@.take(0) =~= Seq::<char>::empty());
    while i < cs.len()
        invariant
            i <= cs@.len(),
            byte_len(cs@) <= usize::MAX,
            acc == byte_len(cs@.take(i as int)),
            acc <= col,
        decreases cs.len() - i,
    {
        proof {
            crate::text::lemma_byte_len_take_step(cs@, i as int);
            crate::text::lemma_byte_len_take_le(cs@, i + 1);
        }
        let w = crate::text::utf8_width(cs[i]);
        if acc + w > col {
            proof {
                assert forall|j: int| 0 <= j <= cs@.len() && byte_len(#[trigger] cs@.take(j))
                    <= col implies byte_len(cs@.take(j)) <= acc by {
                    if j > i {
                        if j > i + 1 {
                            crate::text::lemma_byte_len_take_strict(cs@, i + 1, j);
                        }
                    } else if j < i {
                        crate::text::lemma_byte_len_take_strict(cs@, j, i as int);
                    }
                }
            }
            return acc;
        }
        acc = acc + w;
        i = i + 1;
    }
    proof {
        assert forall|j: int| 0 <= j <= cs@.len() && byte_len(#[trigger] cs@.take(j))
            <= col implies byte_len(cs@.take(j)) <= acc by {
            if j < i {
                crate::text::lemma_byte_len_take_strict(cs@, j, i as int);
            }
        }
    }
    acc
}

/// Number of leading whitespace characters of `cs`.
pub(crate) fn blank_count(cs: &[char]) -> (k: usize)
    ensures
        k == blank_len(cs@),
        k <= cs@.len(),
{
    let mut i: usize = 0;
    assert(cs@.skip(0) =~= cs@);
    while i < cs.len() && crate::buffer::unicode::is_whitespace(cs[i])
        invariant
            i <= cs@.len(),
            blank_len(cs@) == i + blank_len(cs@.skip(i as int)),
        decreases cs.len() - i,
    {
        assert(cs@.skip(i as int).skip(1) =~= cs@.skip(i + 1));
        i = i + 1;
    }
    i
}

impl Editor {
    /// The largest column for `line` in the current mode.
    pub fn max_cursor_col(&self, line: &str) -> (c: usize)
        ensures
            c == max_col(self.state.mode, line@),
            is_boundary(line@, c as int),
    {
        let n = crate::text::str_byte_len(line);
        proof {
            lemma_end_is_boundary(line@);
            lemma_start_is_boundary(line@);
        }
        if n == 0 {
            proof {
                if line@.len() > 0 {
                    crate::text::lemma_byte_len_take_strict(line@, 0, line@.len() as int);
                    assert(line@.take(line@.len() as int) =~= line@);
                }
            }
            return 0;
        }
        if self.state.mode.allows_cursor_past_end() {
            n
        } else {
            crate::buffer::unicode::prev_grapheme_boundary(line, n)
        }
    }

    /// Clamp the cursor column to the current line: at most the mode's
    /// largest column, and on a character boundary.
    pub fn clamp_cursor_to_line(&mut self)
        ensures
            final(self).state == old(self).state,
            final(self).document.buffer@ == old(self).document.buffer@,
            final(self).document.cursor.row == old(self).document.cursor.row,
            final(self).document.modified == old(self).document.modified,
            crate::editor::editing::same_doc_meta(old(self).document, final(self).document),
            clamp_col(
                old(self).state.mode,
                old(self).document.buffer@,
                old(self).document.cursor.row as int,
                old(self).document.cursor.col as int,
                final(self).document.cursor.col as int,
            ),
            final(self).cursor_ok(),
    {
        let row = self.document.cursor.row;
        let col = self.document.cursor.col;
        let new_col = match self.document.buffer.line(row) {
            Some(line) => {
                let m = self.max_cursor_col(line);
                if col > m {
                    m
                } else {
                    let n = crate::text::str_byte_len(line);
                    let cs = crate::text::chars_of(line);
                    floor_boundary(cs.as_slice(), col)
                }
            },
            None => col,
        };
        self.document.cursor.col = new_col;
        proof {
            let v = self.document.buffer@;
            if row < v.len() {
                let line = v[row as int];
                let k = crate::text::char_index(line, new_col as int);
                crate::text::lemma_byte_len_take_le(line, k);
            }
        }
    }

    /// Move the cursor one grapheme left.
    pub fn move_left(&mut self)
        requires
            old(self).cursor_ok(),
        ensures
            move_left_post(*old(self), *final(self)),

    {
        if self.document.cursor.col > 0 {
            match self.document.buffer.line(self.document.cursor.row) {
                Some(line) => {
                    let p = crate::buffer::unicode::prev_grapheme_boundary(line, self.document.cursor.col);
                    self.document.cursor.col = p;
                    proof {
                        let k = crate::text::char_index(line@, p as int);
                        crate::text::lemma_byte_len_take_le(line@, k);
                    }
                },
                None => {},
            }
        }
    }

    /// Move the cursor one grapheme right, not past the mode's largest column.
    pub fn move_right(&mut self)
        requires
            old(self).cursor_ok(),
        ensures
            move_right_post(*old(self), *final(self)),

    {
        match self.document.buffer.line(self.document.cursor.row) {
            Some(line) => {
                let m = self.max_cursor_col(line);
                let next = crate::buffer::unicode::next_grapheme_boundary(line, self.document.cursor.col);
                if next <= m {
                    self.document.cursor.col = next;
                }
                proof {
                    let k = crate::text::char_index(line@, self.document.cursor.col as int);
                    crate::text::lemma_byte_len_take_le(line@, k);
                }
            },
            None => {},
        }
    }

    /// Move the cursor one grapheme right, possibly to the end of the line.
    pub fn move_right_unconstrained(&mut self)
        requires
            old(self).cursor_ok(),
        ensures
            move_right_unconstrained_post(*old(self), *final(self)),

    {
        match self.document.buffer.line(self.document.cursor.row) {
            Some(line) => {
                let next = crate::buffer::unicode::next_grapheme_boundary(line, self.document.cursor.col);
                self.document.cursor.col = next;
                proof {
                    let k = crate::text::char_index(line@, next as int);
                    crate::text::lemma_byte_len_take_le(line@, k);
                }
            },
            None => {},
        }
    }

    /// Move the cursor to the end of the line (past the last character).
    pub fn move_to_line_end_unconstrained(&mut self)
        ensures
            line_end_unconstrained_post(*old(self), *final(self)),

    {
        match self.document.buffer.line(self.document.cursor.row) {
            Some(line) => {
                self.document.cursor.col = crate::text::str_byte_len(line);
            },
            None => {},
        }
    }

    /// Move the cursor up one line, clamping its column.
    pub fn move_up(&mut self)
        ensures
            move_up_post(*old(self), *final(self)),

    {
        if self.document.cursor.row > 0 {
            self.document.cursor.row = self.document.cursor.row - 1;
            self.clamp_cursor_to_line();
        }
    }

    /// Move the cursor down one line, clamping its column.
    pub fn move_down(&mut self)
        requires
            old(self).wf(),
        ensures
            move_down_post(*old(self), *final(self)),

    {
        if self.document.cursor.row < self.document.buffer.len() - 1 {
            self.document.cursor.row = self.document.cursor.row + 1;
            self.clamp_cursor_to_line();
        }
    }

    /// Move the cursor to the first non-blank character of its line (column
    /// 0 on a blank line), not past the mode's largest column.
    pub fn move_to_first_non_blank(&mut self)
        ensures
            at_first_non_blank(*old(self), *final(self), old(self).document.cursor.row as int),
            final(self).document == (Document { cursor: final(self).document.cursor, ..old(self).document }),
            final(self).cursor_ok(),
    {
        match self.document.buffer.line(self.document.cursor.row) {
            Some(line) => {
                let n = crate::text::str_byte_len(line);
                let cs = crate::text::chars_of(line);
                let k = blank_count(cs.as_slice());
                let first = if k < cs.len() {
                    crate::text::byte_offset(cs.as_slice(), k)
                } else {
                    0
                };
                let m = self.max_cursor_col(line);
                let col = if first <= m {
                    first
                } else {
                    m
                };
                self.document.cursor.col = col;
                proof {
                    lemma_start_is_boundary(line@);
                    crate::text::lemma_byte_len_take_le(line@, k as int);
                    let j = crate::text::char_index(line@, col as int);
                    crate::text::lemma_byte_len_take_le(line@, j);
                }
            },
            None => {},
        }
    }

    /// Scroll forward `count` screens (Ctrl-f), keeping two lines of
    /// context, and put the cursor on the new top line.
    pub fn scroll_full_screen_forward(&mut self, count: usize)
        requires
            old(self).state.viewport.spec_top() + sat_mul(
                page_size(old(self).state.viewport.spec_height() as int),
                count as int,
            ) <= usize::MAX,
        ensures
            scrolled_forward(*old(self), *final(self), count),

    {
        let buf_len = self.document.buffer.len();
        let height = self.state.viewport.height();
        let page = if height.saturating_sub(2) >= 1 {
            height.saturating_sub(2)
        } else {
            1
        };
        let amount = match page.checked_mul(count) {
            Some(a) => a,
            None => usize::MAX,
        };
        let last = buf_len.saturating_sub(1);
        let sum = self.state.viewport.top_line() + amount;
        let new_top = if sum <= last {
            sum
        } else {
            last
        };
        self.state.viewport.set_top_line(new_top);
        self.document.cursor.row = new_top;
        self.clamp_cursor_to_line();
    }

    /// Scroll back `count` screens (Ctrl-b), keeping two lines of context,
    /// and put the cursor on the new top line.
    pub fn scroll_full_screen_backward(&mut self, count: usize)
        ensures
            scrolled_backward(*old(self), *final(self), count),

    {
        let height = self.state.viewport.height();
        let page = if height.saturating_sub(2) >= 1 {
            height.saturating_sub(2)
        } else {
            1
        };
        let amount = match page.checked_mul(count) {
            Some(a) => a,
            None => usize::MAX,
        };
        let new_top = self.state.viewport.top_line().saturating_sub(amount);
        self.state.viewport.set_top_line(new_top);
        let last = self.document.buffer.len().saturating_sub(1);
        self.document.cursor.row = if new_top <= last {
            new_top
        } else {
            last
        };
        self.clamp_cursor_to_line();
    }

    /// The half-screen amount for `count`, saving a given count as the new
    /// size.
    fn half_screen(&mut self, count: Option<usize>) -> (half: usize)
        ensures
            half == half_amount(
                count,
                old(self).state.scroll_half_size,
                old(self).state.viewport.spec_height() as int,
            ),
            final(self).state == (EditorState {
                scroll_half_size: saved_half(count, old(self).state.scroll_half_size),
                ..old(self).state
            }),
            final(self).document == old(self).document,
    {
        let height = self.state.viewport.height();
        match count {
            Some(c) => {
                self.state.scroll_half_size = Some(
                    if c >= 1 {
                        c
                    } else {
                        1
                    },
                );
                c
            },
            None => {
                let base = match self.state.scroll_half_size {
                    Some(s) => s,
                    None => height / 2,
                };
                if base >= 1 {
                    base
                } else {
                    1
                }
            },
        }
    }

    /// Scroll down half a screen (Ctrl-d), moving the cursor by as many
    /// lines. A count becomes the new half-screen size.
    pub fn scroll_half_screen_down(&mut self, count: Option<usize>)
        requires
            old(self).state.viewport.spec_top() + half_amount(
                count,
                old(self).state.scroll_half_size,
                old(self).state.viewport.spec_height() as int,
            ) <= usize::MAX,
            old(self).document.cursor.row + half_amount(
                count,
                old(self).state.scroll_half_size,
                old(self).state.viewport.spec_height() as int,
            ) <= usize::MAX,
        ensures
            half_scrolled_down(*old(self), *final(self), count),

    {
        let half = self.half_screen(count);
        let last = self.document.buffer.len().saturating_sub(1);
        let sum = self.state.viewport.top_line() + half;
        let new_top = if sum <= last {
            sum
        } else {
            last
        };
        self.state.viewport.set_top_line(new_top);
        let r = self.document.cursor.row + half;
        self.document.cursor.row = if r <= last {
            r
        } else {
            last
        };
        self.clamp_cursor_to_line();
    }

    /// Scroll up half a screen (Ctrl-u), moving the cursor by as many lines.
    /// A count becomes the new half-screen size.
    pub fn scroll_half_screen_up(&mut self, count: Option<usize>)
        ensures
            half_scrolled_up(*old(self), *final(self), count),

    {
        let half = self.half_screen(count);
        let new_top = self.state.viewport.top_line().saturating_sub(half);
        self.state.viewport.set_top_line(new_top);
        self.document.cursor.row = self.document.cursor.row.saturating_sub(half);
        self.clamp_cursor_to_line();
    }

    /// Scroll the view down `count` lines (Ctrl-e); a cursor left above the
    /// view moves to its top line.
    pub fn scroll_line_down(&mut self, count: usize)
        requires
            old(self).state.viewport.spec_top() + count <= usize::MAX,
        ensures
            lines_scrolled_down(*old(self), *final(self), count),

    {
        let last = self.document.buffer.len().saturating_sub(1);
        let sum = self.state.viewport.top_line() + count;
        let new_top = if sum <= last {
            sum
        } else {
            last
        };
        self.state.viewport.set_top_line(new_top);
        if self.document.cursor.row < new_top {
            self.document.cursor.row = new_top;
            self.clamp_cursor_to_line();
        }
    }

    /// Scroll the view up `count` lines (Ctrl-y); a cursor left below the
    /// view moves to its bottom line.
    pub fn scroll_line_up(&mut self, count: usize)
        requires
            sat_sub(old(self).state.viewport.spec_top() as int, count as int) + sat_sub(
                old(self).state.viewport.spec_height() as int,
                1,
            ) <= usize::MAX,
        ensures
            lines_scrolled_up(*old(self), *final(self), count),

    {
        let new_top = self.state.viewport.top_line().saturating_sub(count);
        self.state.viewport.set_top_line(new_top);
        let b = new_top + self.state.viewport.height().saturating_sub(1);
        let last = self.document.buffer.len().saturating_sub(1);
        let bottom = if b <= last {
            b
        } else {
            last
        };
        if self.document.cursor.row > bottom {
            self.document.cursor.row = bottom;
            self.clamp_cursor_to_line();
        }
    }

    /// Scroll so that the cursor line is the top of the screen (`zt`); the
    /// cursor stays.
    pub fn scroll_cursor_top(&mut self)
        ensures
            cursor_scrolled_top(*old(self), *final(self)),

    {
        let row = self.document.cursor.row;
        let buf_len = self.document.buffer.len();
        self.state.viewport.scroll_to_line(row, buf_len);
    }

    /// Scroll so that the cursor line is in the middle of the screen (`zz`),
    /// without scrolling past the last screenful; the cursor stays.
    pub fn scroll_cursor_middle(&mut self)
        ensures
            cursor_scrolled_middle(*old(self), *final(self)),

    {
        let row = self.document.cursor.row;
        let buf_len = self.document.buffer.len();
        let height = self.state.viewport.height();
        let new_top = row.saturating_sub(height / 2);
        let max_top = buf_len.saturating_sub(height);
        self.state.viewport.set_top_line(
            if new_top <= max_top {
                new_top
            } else {
                max_top
            },
        );
    }

    /// Scroll so that the cursor line is the bottom of the screen (`zb`),
    /// without scrolling past the last screenful; the cursor stays.
    pub fn scroll_cursor_bottom(&mut self)
        ensures
            cursor_scrolled_bottom(*old(self), *final(self)),

    {
        let row = self.document.cursor.row;
        let height = self.state.viewport.height();
        let buf_len = self.document.buffer.len();
        let new_top = row.saturating_sub(height.saturating_sub(1));
        let max_top = buf_len.saturating_sub(height);
        self.state.viewport.set_top_line(
            if new_top <= max_top {
                new_top
            } else {
                max_top
            },
        );
    }

    /// Move to the line `offset` below the top of the screen (`H`), on its
    /// first non-blank character.
    pub fn move_to_screen_top(&mut self, offset: usize)
        requires
            old(self).state.viewport.spec_top() + offset <= usize::MAX,
        ensures
            at_first_non_blank(
                *old(self),
                *final(self),
                min(
                    old(self).state.viewport.spec_top() + offset,
                    last_row(old(self).document.buffer@.len() as int),
                ),
            ),
    {
        let last = self.document.buffer.len().saturating_sub(1);
        let sum = self.state.viewport.top_line() + offset;
        self.document.cursor.row = if sum <= last {
            sum
        } else {
            last
        };
        self.move_to_first_non_blank();
    }

    /// Move to the middle line of the text shown on screen (`M`), on its
    /// first non-blank character.
    pub fn move_to_screen_middle(&mut self)
        ensures
            ({
                let len = old(self).document.buffer@.len() as int;
                let top = old(self).state.viewport.spec_top() as int;
                let visible = min(old(self).state.viewport.spec_height() as int, sat_sub(len, top));
                at_first_non_blank(*old(self), *final(self), min(top + visible / 2, last_row(len)))
            }),
    {
        let buf_len = self.document.buffer.len();
        let top = self.state.viewport.top_line();
        let h = self.state.viewport.height();
        let rest = buf_len.saturating_sub(top);
        let visible = if h <= rest {
            h
        } else {
            rest
        };
        let last = buf_len.saturating_sub(1);
        let mid = top + visible / 2;
        self.document.cursor.row = if mid <= last {
            mid
        } else {
            last
        };
        self.move_to_first_non_blank();
    }

    /// Move to the line `offset` above the bottom of the screen (`L`), not
    /// above the top line, on its first non-blank character.
    pub fn move_to_screen_bottom(&mut self, offset: usize)
        requires
            old(self).state.viewport.spec_top() + sat_sub(old(self).state.viewport.spec_height() as int, 1)
                <= usize::MAX,
        ensures
            ({
                let top = old(self).state.viewport.spec_top() as int;
                let last = last_row(old(self).document.buffer@.len() as int);
                let bottom = min(top + sat_sub(old(self).state.viewport.spec_height() as int, 1), last);
                let target = min(max(sat_sub(bottom, offset as int), top), last);
                at_first_non_blank(*old(self), *final(self), target)
            }),
    {
        let last = self.document.buffer.len().saturating_sub(1);
        let top = self.state.viewport.top_line();
        let b = top + self.state.viewport.height().saturating_sub(1);
        let bottom = if b <= last {
            b
        } else {
            last
        };
        let t = bottom.saturating_sub(offset);
        let t = if t >= top {
            t
        } else {
            top
        };
        self.document.cursor.row = if t <= last {
            t
        } else {
            last
        };
        self.move_to_first_non_blank();
    }
}

} // verus!

verus! {

/// What moving one grapheme left does to `e`, giving `e2`.
pub open spec fn move_left_post(e: Editor, e2: Editor) -> bool {
    &&& (e2.state == e.state)
    &&& (e2.document.buffer@ == e.document.buffer@)
    &&& (e2.document.modified == e.document.modified)
    &&& (crate::editor::editing::same_doc_meta(e.document, e2.document))
    &&& (e2.document.cursor.row == e.document.cursor.row)
    &&& (e2.document.cursor.col == if e.document.cursor.col > 0 && e.document.cursor.row < e.document.buffer@.len() {
        prev_grapheme_start(
            e.document.buffer@[e.document.cursor.row as int],
            e.document.cursor.col as int,
        ) as usize
    } else {
        e.document.cursor.col
    })
    &&& (e2.cursor_ok())
    &&& (e2.document.cursor.col <= e.document.cursor.col)
}

} // verus!

verus! {

/// What moving one grapheme right does to `e`, giving `e2`.
pub open spec fn move_right_post(e: Editor, e2: Editor) -> bool {
    &&& (e2.state == e.state)
    &&& (e2.document.buffer@ == e.document.buffer@)
    &&& (e2.document.modified == e.document.modified)
    &&& (crate::editor::editing::same_doc_meta(e.document, e2.document))
    &&& (e2.document.cursor.row == e.document.cursor.row)
    &&& (e2.document.cursor.col == ({
        let v = e.document.buffer@;
        let row = e.document.cursor.row;
        let col = e.document.cursor.col;
        if row < v.len() {
            let next = next_grapheme_end(v[row as int], col as int);
            if next <= max_col(e.state.mode, v[row as int]) {
                next as usize
            } else {
                col
            }
        } else {
            col
        }
    }))
    &&& (e2.cursor_ok())
}

} // verus!

verus! {

/// What moving up a line does to `e`, giving `e2`.
pub open spec fn move_up_post(e: Editor, e2: Editor) -> bool {
    &&& (e2.state == e.state)
    &&& (e2.document.buffer@ == e.document.buffer@)
    &&& (e2.document.modified == e.document.modified)
    &&& (crate::editor::editing::same_doc_meta(e.document, e2.document))
    &&& (e2.document.cursor.row == if e.document.cursor.row > 0 {
        (e.document.cursor.row - 1) as usize
    } else {
        e.document.cursor.row
    })
    &&& (e.document.cursor.row > 0 ==> e2.cursor_ok())
    &&& (e.document.cursor.row == 0 ==> (e2.document.cursor
        == e.document.cursor))
}

} // verus!

verus! {

/// What moving down a line does to `e`, giving `e2`.
pub open spec fn move_down_post(e: Editor, e2: Editor) -> bool {
    &&& (e2.state == e.state)
    &&& (e2.document.buffer@ == e.document.buffer@)
    &&& (e2.document.modified == e.document.modified)
    &&& (crate::editor::editing::same_doc_meta(e.document, e2.document))
    &&& (e2.document.cursor.row == if e.document.cursor.row + 1 < e.document.buffer@.len() {
        (e.document.cursor.row + 1) as usize
    } else {
        e.document.cursor.row
    })
    &&& (e.document.cursor.row + 1 < e.document.buffer@.len() ==> e2.cursor_ok())
}

} // verus!

verus! {

/// What moving one grapheme right, past the last character if need be,
/// does to `e`, giving `e2`.
pub open spec fn move_right_unconstrained_post(e: Editor, e2: Editor) -> bool {
    &&& (e2.state == e.state)
    &&& (e2.document.buffer@ == e.document.buffer@)
    &&& (e2.document.modified == e.document.modified)
    &&& (crate::editor::editing::same_doc_meta(e.document, e2.document))
    &&& (e2.document.cursor.row == e.document.cursor.row)
    &&& (e2.document.cursor.col == if e.document.cursor.row < e.document.buffer@.len() {
        next_grapheme_end(
            e.document.buffer@[e.document.cursor.row as int],
            e.document.cursor.col as int,
        ) as usize
    } else {
        e.document.cursor.col
    })
    &&& (e2.cursor_ok())
}

} // verus!

verus! {

/// What moving past the end of the line does to `e`, giving `e2`.
pub open spec fn line_end_unconstrained_post(e: Editor, e2: Editor) -> bool {
    &&& (e2.state == e.state)
    &&& (e2.document.buffer@ == e.document.buffer@)
    &&& (e2.document.modified == e.document.modified)
    &&& (crate::editor::editing::same_doc_meta(e.document, e2.document))
    &&& (e2.document.cursor.row == e.document.cursor.row)
    &&& (e2.document.cursor.col == if e.document.cursor.row < e.document.buffer@.len() {
        byte_len(e.document.buffer@[e.document.cursor.row as int]) as usize
    } else {
        e.document.cursor.col
    })
}

} // verus!

verus! {

/// What `zt` does to `e`, giving `e2`.
pub open spec fn cursor_scrolled_top(e: Editor, e2: Editor) -> bool {
    &&& (({
        let len = e.document.buffer@.len() as int;
        let row = e.document.cursor.row as int;
        &&& view_moved(e, e2, if row < len { row } else { last_row(len) })
        &&& e2.state.scroll_half_size == e.state.scroll_half_size
        &&& e2.document.cursor == e.document.cursor
    }))
}

} // verus!

verus! {

/// What `zz` does to `e`, giving `e2`.
pub open spec fn cursor_scrolled_middle(e: Editor, e2: Editor) -> bool {
    &&& (({
        let len = e.document.buffer@.len() as int;
        let h = e.state.viewport.spec_height() as int;
        let row = e.document.cursor.row as int;
        &&& view_moved(e, e2, min(sat_sub(row, h / 2), sat_sub(len, h)))
        &&& e2.state.scroll_half_size == e.state.scroll_half_size
        &&& e2.document.cursor == e.document.cursor
    }))
}

} // verus!

verus! {

/// What `zb` does to `e`, giving `e2`.
pub open spec fn cursor_scrolled_bottom(e: Editor, e2: Editor) -> bool {
    &&& (({
        let len = e.document.buffer@.len() as int;
        let h = e.state.viewport.spec_height() as int;
        let row = e.document.cursor.row as int;
        &&& view_moved(e, e2, min(sat_sub(row, sat_sub(h, 1)), sat_sub(len, h)))
        &&& e2.state.scroll_half_size == e.state.scroll_half_size
        &&& e2.document.cursor == e.document.cursor
    }))
}

} // verus!

verus! {

/// What Ctrl-F with `count` leaves in `e2`, starting from `e`.
pub open spec fn scrolled_forward(e: Editor, e2: Editor, count: usize) -> bool {
    &&& (({
        let top = min(
            e.state.viewport.spec_top() + sat_mul(
                page_size(e.state.viewport.spec_height() as int),
                count as int,
            ),
            last_row(e.document.buffer@.len() as int),
        );
        scrolled(e, e2, top, top)
    }))
}

} // verus!

verus! {

/// What Ctrl-B with `count` leaves in `e2`, starting from `e`.
pub open spec fn scrolled_backward(e: Editor, e2: Editor, count: usize) -> bool {
    &&& (({
        let top = sat_sub(
            e.state.viewport.spec_top() as int,
            sat_mul(page_size(e.state.viewport.spec_height() as int), count as int),
        );
        scrolled(
            e,
            e2,
            top,
            min(top, last_row(e.document.buffer@.len() as int)),
        )
    }))
}

} // verus!

verus! {

/// What Ctrl-D with `count` leaves in `e2`, starting from `e`.
pub open spec fn half_scrolled_down(e: Editor, e2: Editor, count: Option<usize>) -> bool {
    &&& (({
        let half = half_amount(
            count,
            e.state.scroll_half_size,
            e.state.viewport.spec_height() as int,
        );
        let last = last_row(e.document.buffer@.len() as int);
        &&& view_moved(e, e2, min(e.state.viewport.spec_top() + half, last))
        &&& e2.state.scroll_half_size == saved_half(count, e.state.scroll_half_size)
        &&& cursor_clamped(e, e2, min(e.document.cursor.row + half, last))
    }))
}

} // verus!

verus! {

/// What Ctrl-U with `count` leaves in `e2`, starting from `e`.
pub open spec fn half_scrolled_up(e: Editor, e2: Editor, count: Option<usize>) -> bool {
    &&& (({
        let half = half_amount(
            count,
            e.state.scroll_half_size,
            e.state.viewport.spec_height() as int,
        );
        &&& view_moved(e, e2, sat_sub(e.state.viewport.spec_top() as int, half))
        &&& e2.state.scroll_half_size == saved_half(count, e.state.scroll_half_size)
        &&& cursor_clamped(e, e2, sat_sub(e.document.cursor.row as int, half))
    }))
}

} // verus!

verus! {

/// What Ctrl-E with `count` leaves in `e2`, starting from `e`.
pub open spec fn lines_scrolled_down(e: Editor, e2: Editor, count: usize) -> bool {
    &&& (({
        let top = min(
            e.state.viewport.spec_top() + count,
            last_row(e.document.buffer@.len() as int),
        );
        &&& view_moved(e, e2, top)
        &&& e2.state.scroll_half_size == e.state.scroll_half_size
        &&& if e.document.cursor.row < top {
            cursor_clamped(e, e2, top)
        } else {
            e2.document.cursor == e.document.cursor
        }
    }))
}

} // verus!

verus! {

/// What Ctrl-Y with `count` leaves in `e2`, starting from `e`.
pub open spec fn lines_scrolled_up(e: Editor, e2: Editor, count: usize) -> bool {
    &&& (({
        let top = sat_sub(e.state.viewport.spec_top() as int, count as int);
        let bottom = min(
            top + sat_sub(e.state.viewport.spec_height() as int, 1),
            last_row(e.document.buffer@.len() as int),
        );
        &&& view_moved(e, e2, top)
        &&& e2.state.scroll_half_size == e.state.scroll_half_size
        &&& if e.document.cursor.row > bottom {
            cursor_clamped(e, e2, bottom)
        } else {
            e2.document.cursor == e.document.cursor
        }
    }))
}

} // verus!
