//! The visible window onto the buffer.

use vstd::prelude::*;

verus! {

/// The first visible row after scrolling the least amount from `top` that
/// shows `row` in a window of `height` rows.
pub open spec fn top_showing(top: int, height: int, row: int) -> int {
    if row < top {
        row
    } else if height > 0 && row >= top + height {
        row + 1 - height
    } else {
        top
    }
}

/// The rows of the buffer shown on screen: `height` rows from `top_line`.
#[derive(Debug, Clone, Copy, PartialEq, Eq, Structural)]
pub struct Viewport {
    top: usize,
    rows: usize,
    cols: usize,
}

impl Viewport {
    /// First visible row.
    pub closed spec fn spec_top(&self) -> usize {
        self.top
    }

    /// Number of visible rows.
    pub closed spec fn spec_height(&self) -> usize {
        self.rows
    }

    /// Number of visible columns.
    pub closed spec fn spec_width(&self) -> usize {
        self.cols
    }

    /// A viewport showing `height` rows from `top`, `width` columns wide.
    pub fn new(top: usize, height: usize, width: usize) -> (v: Viewport)
        ensures
            v.spec_top() == top,
            v.spec_height() == height,
            v.spec_width() == width,
    {
        Viewport { top, rows: height, cols: width }
    }

    /// First visible row.
    pub fn top_line(&self) -> (t: usize)
        ensures
            t == self.spec_top(),
    {
        self.top
    }

    /// Number of visible rows.
    pub fn height(&self) -> (h: usize)
        ensures
            h == self.spec_height(),
    {
        self.rows
    }

    /// Number of visible columns.
    pub fn width(&self) -> (w: usize)
        ensures
            w == self.spec_width(),
    {
        self.cols
    }

    /// Scroll so that `top` is the first visible row.
    pub fn set_top_line(&mut self, top: usize)
        ensures
            final(self).spec_top() == top,
            final(self).spec_height() == old(self).spec_height(),
            final(self).spec_width() == old(self).spec_width(),
    {
        self.top = top;
    }

    /// Change the size of the viewport.
    pub fn resize(&mut self, height: usize, width: usize)
        ensures
            final(self).spec_top() == old(self).spec_top(),
            final(self).spec_height() == height,
            final(self).spec_width() == width,
    {
        self.rows = height;
        self.cols = width;
    }

    /// Change the number of visible rows, keeping the width.
    pub fn set_height(&mut self, height: usize)
        ensures
            final(self).spec_top() == old(self).spec_top(),
            final(self).spec_height() == height,
            final(self).spec_width() == old(self).spec_width(),
    {
        self.rows = height;
    }

    /// Make `row` the first visible row, or the last row of a buffer of
    /// `buffer_len` rows where `row` lies past it.
    pub fn scroll_to_line(&mut self, row: usize, buffer_len: usize)
        ensures
            final(self).spec_top() == (if row < buffer_len {
                row as int
            } else if buffer_len > 0 {
                buffer_len - 1
            } else {
                0
            }),
            final(self).spec_height() == old(self).spec_height(),
            final(self).spec_width() == old(self).spec_width(),
    {
        self.top = if row < buffer_len {
            row
        } else {
            buffer_len.saturating_sub(1)
        };
    }

    /// Scroll the least amount that makes `row` visible.
    pub fn ensure_visible(&mut self, row: usize, _buffer_len: usize)
        ensures
            final(self).spec_height() == old(self).spec_height(),
            final(self).spec_width() == old(self).spec_width(),
            final(self).spec_top() == top_showing(
                old(self).spec_top() as int,
                old(self).spec_height() as int,
                row as int,
            ),
    {
        if row < self.top {
            self.top = row;
        } else if self.rows > 0 && row - self.top >= self.rows {
            self.top = row - (self.rows - 1);
        }
    }
}

} // verus!
