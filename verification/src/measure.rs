//! Text measurement.
//!
//! Shaping a line of text yields one advance width per character; the cursor
//! offset at a column is the sum of the widths before it. Widths enter the
//! library as plain data, in integer pixels: a width table indexed by
//! character code, with a default for characters beyond the table.

use crate::buffer::TextBuffer;
use crate::text::{line_at, line_count, line_len};
use vstd::prelude::*;

verus! {

/// Clamp an unbounded pixel count to what a `u64` can hold.
pub open spec fn sat64(x: int) -> int {
    if x > u64::MAX {
        u64::MAX as int
    } else {
        x
    }
}

/// Advance widths per character code, in pixels.
pub struct CharWidths {
    pub widths: Vec<u32>,
    pub default_width: u32,
}

impl CharWidths {
    /// Width of one character: from the table if its code is in range,
    /// otherwise the default.
    pub open spec fn spec_width(self, c: char) -> int {
        if (c as u32) < self.widths@.len() {
            self.widths@[c as u32 as int] as int
        } else {
            self.default_width as int
        }
    }

    /// Looks up the advance width of one character.
    pub fn width(&self, c: char) -> (r: u32)
        ensures
            r == self.spec_width(c),
    {
        let i = c as u32;
        if (i as usize) < self.widths.len() {
            self.widths[i as usize]
        } else {
            self.default_width
        }
    }
}

/// Pixel offset of column `col` on a line: the sum of the advance widths of
/// the characters before it.
pub open spec fn advance(w: CharWidths, line: Seq<char>, col: int) -> int
    decreases col,
{
    if col <= 0 {
        0
    } else {
        advance(w, line, col - 1) + w.spec_width(line[col - 1])
    }
}

/// Advances are non-negative.
pub proof fn lemma_advance_nonneg(w: CharWidths, line: Seq<char>, col: int)
    ensures
        0 <= advance(w, line, col),
    decreases col,
{
    if col > 0 {
        lemma_advance_nonneg(w, line, col - 1);
    }
}

/// Measured offsets are monotonically non-decreasing in the column, for a
/// fixed line: moving the cursor right never moves it left on the screen.
pub proof fn lemma_measure_monotonic(w: CharWidths, line: Seq<char>, c1: int, c2: int)
    requires
        c1 <= c2,
    ensures
        advance(w, line, c1) <= advance(w, line, c2),
    decreases c2 - c1,
{
    if c1 < c2 {
        lemma_measure_monotonic(w, line, c1, c2 - 1);
    }
}

/// Pixel offset of column `col` of `line`, saturating at `u64::MAX`.
pub fn measure(w: &CharWidths, line: &Vec<char>, col: usize) -> (r: u64)
    requires
        col <= line@.len(),
    ensures
        r == sat64(advance(*w, line@, col as int)),
{
    let mut acc: u64 = 0;
    let mut i: usize = 0;
    while i < col
        invariant
            0 <= i <= col <= line@.len(),
            acc == sat64(advance(*w, line@, i as int)),
        decreases col - i,
    {
        let cw = w.width(line[i]);
        proof {
            lemma_advance_nonneg(*w, line@, i as int);
        }
        if acc > u64::MAX - (cw as u64) {
            acc = u64::MAX;
        } else {
            acc = acc + (cw as u64);
        }
        i = i + 1;
    }
    acc
}

/// Total pixel width of a line.
pub fn line_length(line: &Vec<char>, w: &CharWidths) -> (r: u64)
    ensures
        r == sat64(advance(*w, line@, line@.len() as int)),
{
    measure(w, line, line.len())
}

/// The widest measured width among the first `rows` lines of `s`.
pub open spec fn max_width_up_to(w: CharWidths, s: Seq<char>, rows: int) -> int
    decreases rows,
{
    if rows <= 0 {
        0
    } else {
        let prev = max_width_up_to(w, s, rows - 1);
        let here = sat64(advance(w, line_at(s, rows - 1), line_len(s, rows - 1)));
        if here > prev {
            here
        } else {
            prev
        }
    }
}

/// The widest measured line of `s`.
pub open spec fn max_line_width(w: CharWidths, s: Seq<char>) -> int {
    max_width_up_to(w, s, line_count(s))
}

/// Width of the widest line of the buffer.
pub fn max_line_length(buffer: &TextBuffer, w: &CharWidths) -> (r: u64)
    ensures
        r == max_line_width(*w, buffer.text()),
{
    let lines = buffer.len_lines();
    let mut best: u64 = 0;
    let mut row: usize = 0;
    while row < lines
        invariant
            0 <= row <= lines,
            lines == line_count(buffer.text()),
            best == max_width_up_to(*w, buffer.text(), row as int),
        decreases lines - row,
    {
        proof {
            crate::text::lemma_line_start_props(buffer.text(), row as int);
        }
        let line = buffer.line_chars(row);
        let width = line_length(&line, w);
        if width > best {
            best = width;
        }
        row = row + 1;
    }
    best
}

/// Pixel offset of the cursor at `(row, column)`, or `None` when the column
/// lies beyond the end of the row.
pub fn cursor_x_position(row: usize, column: usize, buffer: &TextBuffer, w: &CharWidths) -> (r:
    Option<u64>)
    requires
        row < line_count(buffer.text()),
    ensures
        column <= line_len(buffer.text(), row as int) ==> r == Some(
            sat64(advance(*w, line_at(buffer.text(), row as int), column as int)) as u64,
        ),
        column > line_len(buffer.text(), row as int) ==> r is None,
{
    proof {
        crate::text::lemma_line_start_props(buffer.text(), row as int);
    }
    let len = buffer.line_len(row);
    if column <= len {
        let line = buffer.line_chars(row);
        Some(measure(w, &line, column))
    } else {
        None
    }
}

} // verus!
