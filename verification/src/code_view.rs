//! The code-editing view: the text area with its gutter, and the tab strip
//! that holds one such view per open buffer.
//!
//! `Code` composes the buffer, the cursor, the measurement table, the
//! viewport and the highlighter. Every input event leaves it in a
//! consistent state: the cursor inside the buffer with a fresh pixel
//! offset, the widest-line cache exact, the scroll offsets clamped, and the
//! highlight spans covering the buffer.

use crate::buffer::TextBuffer;
use crate::highlight::{spans_cover, Color, Config, HighlightNames, Span};
use crate::input::{
    edit_cursor_spec, edit_text_spec, input_char, input_special, move_spec, Cursor, Key,
};
use crate::measure::{advance, line_length, max_line_length, max_line_width, measure, sat64, CharWidths};
use crate::text::{lemma_line_start_props, lemma_newline_count_le_len, line_at, line_count};
use crate::viewport::{
    clamp_x, clamp_y, visible_lower, visible_upper, Dimensions, Viewport,
};
use vstd::math::{max, min};
use vstd::prelude::*;

verus! {

/// Clamp an unbounded pixel coordinate to what an `i64` can hold.
pub open spec fn sat_i64(x: int) -> int {
    if x > i64::MAX {
        i64::MAX as int
    } else if x < i64::MIN {
        i64::MIN as int
    } else {
        x
    }
}

/// A colored run of text: a character range and the color it is drawn in.
pub type Run = (usize, usize, Color);

/// The color a span is drawn in: its category's palette entry, or the
/// default for unclassified text.
pub open spec fn span_color(cat: Option<HighlightNames>) -> Color {
    match cat {
        Some(h) => h.color_spec(),
        None => crate::highlight::default_color_spec(),
    }
}

/// The runs that fall inside `[a, b)`: each span clamped to the range,
/// empty leftovers dropped, colors resolved.
pub open spec fn runs_spec(spans: Seq<Span>, a: int, b: int) -> Seq<Run>
    decreases spans.len(),
{
    if spans.len() == 0 {
        Seq::empty()
    } else {
        let rest = runs_spec(spans.drop_first(), a, b);
        let lo = max(spans[0].0 as int, a);
        let hi = min(spans[0].1 as int, b);
        if lo < hi {
            seq![(lo as usize, hi as usize, span_color(spans[0].2))] + rest
        } else {
            rest
        }
    }
}

/// The editable text area.
pub struct Code {
    pub widths: CharWidths,
    pub font_height: u32,
    pub buffer: TextBuffer,
    pub viewport: Viewport,
    pub cursor: Cursor,
    pub max_line_length: u64,
    pub dimensions: Dimensions,
    pub highlight_config: Option<Config>,
}

impl Code {
    /// The characters of the buffer.
    pub open spec fn text(self) -> Seq<char> {
        self.buffer.text()
    }

    /// Everything an input event must preserve: the cursor is inside the
    /// buffer with a consistent pixel offset, the widest-line cache is
    /// exact, the viewport is clamped against the current line count, and
    /// the highlight spans cover the buffer.
    pub open spec fn wf(self) -> bool {
        &&& self.font_height >= 1
        &&& self.viewport.wf()
        &&& self.viewport.line_height == self.font_height
        &&& self.cursor.wf(self.text())
        &&& self.cursor.x_consistent(self.text(), self.widths)
        &&& self.max_line_length == max_line_width(self.widths, self.text())
        &&& self.viewport.y_clamped(line_count(self.text()))
        &&& (self.highlight_config matches Some(c) ==> spans_cover(
            c.spans(),
            self.text().len() as int,
        ))
    }

    /// Builds a view over `text`, with the cursor at the origin, nothing
    /// scrolled, and the spans freshly derived when a highlighter is given.
    pub fn new(
        buffer: TextBuffer,
        widths: CharWidths,
        font_height: u32,
        dimensions: Dimensions,
        highlight_config: Option<Config>,
    ) -> (r: Code)
        requires
            font_height >= 1,
        ensures
            r.wf(),
            r.text() == buffer.text(),
            r.cursor.row == 0,
            r.cursor.column == 0,
            r.cursor.x_offset == 0,
            r.dimensions == dimensions,
            r.viewport.scroll_x == 0,
            r.viewport.scroll_y == 0,
            r.viewport.width == dimensions.width,
            r.viewport.height == dimensions.height,
            r.font_height == font_height,
            r.widths == widths,
            r.max_line_length == max_line_width(widths, buffer.text()),
            (r.highlight_config is Some) <==> (highlight_config is Some),
    {
        let cursor = Cursor::new();
        let max_len = max_line_length(&buffer, &widths);
        let viewport = Viewport::new(dimensions.width, dimensions.height, font_height);
        let config = match highlight_config {
            Some(mut c) => {
                c.generate(&buffer);
                Some(c)
            },
            None => None,
        };
        proof {
            crate::text::lemma_newline_count_nonneg(buffer.text());
            lemma_line_start_props(buffer.text(), 0);
            assert(advance(widths, line_at(buffer.text(), 0), 0) == 0);
        }
        Code {
            widths,
            font_height,
            buffer,
            viewport,
            cursor,
            max_line_length: max_len,
            dimensions,
            highlight_config: config,
        }
    }

    /// Applies a directional key to the cursor. The buffer does not change,
    /// so the highlight spans are left alone.
    pub fn input_special(&mut self, key: Key)
        requires
            old(self).wf(),
        ensures
            final (self).wf(),
            final (self).text() == old(self).text(),
            (final (self).cursor.row as int, final (self).cursor.column as int) == move_spec(
                old(self).text(),
                old(self).cursor.row as int,
                old(self).cursor.column as int,
                key,
            ),
            final (self).viewport == old(self).viewport,
            final (self).dimensions == old(self).dimensions,
            final (self).widths == old(self).widths,
            final (self).font_height == old(self).font_height,
            final (self).max_line_length == old(self).max_line_length,
            final (self).highlight_config == old(self).highlight_config,
    {
        input_special(key, &self.buffer, &mut self.cursor, &self.widths);
    }

    /// Applies a typed character: edits the buffer, moves the cursor,
    /// refreshes the widest-line cache, re-derives the highlight spans, and
    /// re-clamps the viewport against the new line count.
    pub fn input_char(&mut self, ch: char)
        requires
            old(self).wf(),
            old(self).text().len() < usize::MAX,
        ensures
            final (self).wf(),
            final (self).text() == edit_text_spec(
                old(self).text(),
                old(self).cursor.row as int,
                old(self).cursor.column as int,
                ch,
            ),
            (final (self).cursor.row as int, final (self).cursor.column as int) == edit_cursor_spec(
                old(self).text(),
                old(self).cursor.row as int,
                old(self).cursor.column as int,
                ch,
            ),
            final (self).max_line_length == max_line_width(final (self).widths, final (self).text()),
            (final (self).highlight_config is Some) <==> (old(self).highlight_config is Some),
            final (self).widths == old(self).widths,
            final (self).font_height == old(self).font_height,
            final (self).dimensions == old(self).dimensions,
    {
        let new_max = input_char(ch, &mut self.buffer, &mut self.cursor, &self.widths);
        match &mut self.highlight_config {
            Some(c) => {
                c.generate(&self.buffer);
            },
            None => {},
        }
        let lines = self.buffer.len_lines();
        proof {
            lemma_newline_count_le_len(self.buffer.text());
        }
        self.max_line_length = new_max;
        self.viewport.scroll(0, 0, lines, new_max);
    }

    /// Applies one scroll event, dominant axis only.
    pub fn scroll(&mut self, dx: i64, dy: i64)
        requires
            old(self).wf(),
        ensures
            final (self).wf(),
            final (self).text() == old(self).text(),
            final (self).cursor == old(self).cursor,
            if crate::viewport::abs_of(dx as int) > crate::viewport::abs_of(dy as int) {
                final (self).viewport.scroll_x == clamp_x(
                    old(self).viewport.scroll_x - dx,
                    old(self).viewport.width as int,
                    old(self).max_line_length as int,
                ) && final (self).viewport.scroll_y == old(self).viewport.scroll_y
            } else {
                final (self).viewport.scroll_y == clamp_y(
                    old(self).viewport.scroll_y + dy,
                    line_count(old(self).text()),
                    old(self).font_height as int,
                ) && final (self).viewport.scroll_x == old(self).viewport.scroll_x
            },
            final (self).widths == old(self).widths,
            final (self).font_height == old(self).font_height,
            final (self).max_line_length == old(self).max_line_length,
            final (self).dimensions == old(self).dimensions,
            final (self).highlight_config == old(self).highlight_config,
            final (self).viewport.width == old(self).viewport.width,
            final (self).viewport.height == old(self).viewport.height,
    {
        let lines = self.buffer.len_lines();
        proof {
            lemma_newline_count_le_len(self.buffer.text());
        }
        self.viewport.scroll(dx, dy, lines, self.max_line_length);
    }

    /// Re-clamps the offsets for a new screen size; the text area keeps its
    /// left edge and takes the rest of the screen width.
    pub fn resize(&mut self, screen_width: u32, screen_height: u32)
        requires
            old(self).wf(),
            old(self).dimensions.x <= screen_width,
        ensures
            final (self).wf(),
            final (self).text() == old(self).text(),
            final (self).dimensions.width == screen_width - old(self).dimensions.x,
            final (self).viewport.scroll_x == clamp_x(
                old(self).viewport.scroll_x as int,
                (screen_width - old(self).dimensions.x) as int,
                old(self).max_line_length as int,
            ),
            final (self).viewport.scroll_y == clamp_y(
                old(self).viewport.scroll_y as int,
                line_count(old(self).text()),
                old(self).font_height as int,
            ),
            final (self).cursor == old(self).cursor,
            final (self).widths == old(self).widths,
            final (self).font_height == old(self).font_height,
            final (self).max_line_length == old(self).max_line_length,
            final (self).highlight_config == old(self).highlight_config,
            final (self).dimensions.x == old(self).dimensions.x,
            final (self).dimensions.y == old(self).dimensions.y,
            final (self).dimensions.height == screen_height,
    {
        let lines = self.buffer.len_lines();
        proof {
            lemma_newline_count_le_len(self.buffer.text());
        }
        self.dimensions.width = screen_width - self.dimensions.x;
        self.dimensions.height = screen_height;
        self.viewport.resize(
            self.dimensions.width,
            screen_height,
            lines,
            self.max_line_length,
        );
    }

    /// Places the cursor at the position a click at view-relative pixel
    /// coordinates `(x, y)` selects: the row under the pointer, clamped to
    /// the last line, and the first column whose pixel offset exceeds the
    /// click.
    pub fn click(&mut self, x: u64, y: u32)
        requires
            old(self).wf(),
        ensures
            final (self).wf(),
            final (self).text() == old(self).text(),
            final (self).cursor.row as int == min(
                (y - old(self).viewport.scroll_y) / (old(self).font_height as int),
                line_count(old(self).text()) - 1,
            ),
            final (self).cursor.column as int == click_col_spec(
                final (self).widths,
                line_at(final (self).text(), final (self).cursor.row as int),
                x as int,
                0,
            ),
            final (self).viewport == old(self).viewport,
            final (self).widths == old(self).widths,
            final (self).font_height == old(self).font_height,
            final (self).max_line_length == old(self).max_line_length,
            final (self).dimensions == old(self).dimensions,
            final (self).highlight_config == old(self).highlight_config,
    {
        let lines = self.buffer.len_lines();
        proof {
            lemma_newline_count_le_len(self.buffer.text());
        }
        let row_wide = self.viewport.click_row(y);
        let row: usize = if row_wide < (lines - 1) as u64 {
            row_wide as usize
        } else {
            lines - 1
        };
        proof {
            lemma_line_start_props(self.buffer.text(), row as int);
        }
        let line = self.buffer.line_chars(row);
        let col = click_col(&self.widths, &line, x);
        self.cursor.row = row;
        self.cursor.column = col;
        self.cursor.x_offset = measure(&self.widths, &line, col);
    }

    /// The half-open range of visible rows.
    pub fn visible_range(&self) -> (r: (usize, usize))
        requires
            self.wf(),
        ensures
            r.0 == visible_upper(self.viewport.scroll_y as int, self.font_height as int),
            r.1 == visible_lower(
                self.viewport.scroll_y as int,
                self.font_height as int,
                self.viewport.height as int,
                line_count(self.text()),
            ),
            r.0 <= r.1 <= line_count(self.text()),
    {
        let lines = self.buffer.len_lines();
        proof {
            crate::text::lemma_newline_count_nonneg(self.buffer.text());
            lemma_newline_count_le_len(self.buffer.text());
        }
        self.viewport.visible_line_range(lines)
    }

    /// The colored runs of the character range `[start_char, end_char)`,
    /// from the current spans; one default-colored run when no highlighter
    /// is present.
    pub fn generate_glyph_text(&self, start_char: usize, end_char: usize) -> (r: Vec<Run>)
        requires
            start_char <= end_char <= self.text().len(),
        ensures
            match self.highlight_config {
                Some(c) => r@ == runs_spec(c.spans(), start_char as int, end_char as int),
                None => r@ =~= if start_char < end_char {
                    seq![
                        (start_char, end_char, crate::highlight::default_color_spec()),
                    ]
                } else {
                    Seq::<Run>::empty()
                },
            },
    {
        match &self.highlight_config {
            Some(c) => runs_in_range(c.spans_ref(), start_char, end_char),
            None => {
                let mut out: Vec<Run> = Vec::new();
                if start_char < end_char {
                    out.push((start_char, end_char, crate::highlight::default_color()));
                }
                out
            },
        }
    }

    /// The screen position visible text is drawn from: the view origin
    /// shifted by the horizontal scroll, minus the fraction of a line that
    /// the vertical scroll has cut off above the first visible row.
    pub fn redraw_origin(&self) -> (r: (i64, i64))
        requires
            self.wf(),
            self.viewport.scroll_y > i64::MIN,
        ensures
            r.0 == sat_i64(self.dimensions.x + self.viewport.scroll_x),
            r.1 == self.dimensions.y - ((-self.viewport.scroll_y) % (self.font_height as int)),
    {
        let phase = ((-self.viewport.scroll_y) as u64) % (self.font_height as u64);
        let x = sat_i64_exec((self.dimensions.x as i128) + (self.viewport.scroll_x as i128));
        let y = (self.dimensions.y as i64) - (phase as i64);
        (x, y)
    }

    /// The rectangle the cursor is drawn at: the view origin shifted by the
    /// scroll offsets, the cached pixel offset, and the cursor's row.
    pub fn cursor_rect(&self) -> (r: (i64, i64, u32, u32))
        requires
            self.wf(),
        ensures
            r.0 == sat_i64(
                self.dimensions.x + self.viewport.scroll_x + self.cursor.x_offset,
            ),
            r.1 == sat_i64(
                self.dimensions.y + self.viewport.scroll_y + (self.cursor.row as int) * (
                self.font_height as int),
            ),
            r.2 == 4,
            r.3 == self.font_height,
    {
        let x_wide: i128 = (self.dimensions.x as i128) + (self.viewport.scroll_x as i128) + (
        self.cursor.x_offset as i128);
        proof {
            assert(0 <= (self.cursor.row as i128) * (self.font_height as i128)
                <= 0x10000000000000000000000000i128) by (nonlinear_arith)
                requires
                    0 <= self.cursor.row as i128 <= 0x10000000000000000i128,
                    0 <= self.font_height as i128 <= 0x100000000i128,
            ;
        }
        let row_px: i128 = (self.cursor.row as i128) * (self.font_height as i128);
        let y_wide: i128 = (self.dimensions.y as i128) + (self.viewport.scroll_y as i128) + row_px;
        (sat_i64_exec(x_wide), sat_i64_exec(y_wide), 4, self.font_height)
    }
}

/// Law: in any consistent view — so after any scroll, resize or edit,
/// each of which re-establishes `Code::wf` — the visible line range is
/// well-formed: its start does not exceed its end, which does not exceed
/// the line count.
pub proof fn lemma_visible_range_invariant(c: Code)
    requires
        c.wf(),
    ensures
        0 <= visible_upper(c.viewport.scroll_y as int, c.font_height as int),
        visible_upper(c.viewport.scroll_y as int, c.font_height as int) <= visible_lower(
            c.viewport.scroll_y as int,
            c.font_height as int,
            c.viewport.height as int,
            line_count(c.text()),
        ),
        visible_lower(
            c.viewport.scroll_y as int,
            c.font_height as int,
            c.viewport.height as int,
            line_count(c.text()),
        ) <= line_count(c.text()),
{
    crate::text::lemma_newline_count_nonneg(c.text());
    crate::viewport::lemma_visible_range_wf(
        c.viewport.scroll_y as int,
        c.font_height as int,
        c.viewport.height as int,
        line_count(c.text()),
    );
}

/// The first column of `line` whose pixel offset exceeds `x`, scanning from
/// column `c`; the end of the line when none does.
pub open spec fn click_col_spec(w: CharWidths, line: Seq<char>, x: int, c: int) -> int
    decreases line.len() - c,
{
    if c >= line.len() || sat64(advance(w, line, c)) > x {
        c
    } else {
        click_col_spec(w, line, x, c + 1)
    }
}

/// Walks the glyph advances of `line` to find the column a click at pixel
/// offset `x` selects.
fn click_col(w: &CharWidths, line: &Vec<char>, x: u64) -> (r: usize)
    ensures
        r == click_col_spec(*w, line@, x as int, 0),
        r <= line@.len(),
{
    let mut c: usize = 0;
    while c < line.len()
        invariant
            0 <= c <= line@.len(),
            click_col_spec(*w, line@, x as int, 0) == click_col_spec(*w, line@, x as int, c as int),
            forall|i: int| 0 <= i < c ==> sat64(advance(*w, line@, i)) <= x,
        decreases line@.len() - c,
    {
        let pos = measure(w, line, c);
        proof {
            crate::measure::lemma_advance_nonneg(*w, line@, c as int);
        }
        if pos > x {
            return c;
        }
        c = c + 1;
    }
    c
}

fn sat_i64_exec(x: i128) -> (r: i64)
    ensures
        r == sat_i64(x as int),
{
    if x > i64::MAX as i128 {
        i64::MAX
    } else if x < i64::MIN as i128 {
        i64::MIN
    } else {
        x as i64
    }
}

/// Clamps the spans to `[a, b)` and resolves their colors.
fn runs_in_range(spans: &Vec<Span>, a: usize, b: usize) -> (r: Vec<Run>)
    ensures
        r@ == runs_spec(spans@, a as int, b as int),
{
    let mut out: Vec<Run> = Vec::new();
    let mut i: usize = 0;
    proof {
        assert(spans@.skip(0) =~= spans@);
        assert(Seq::<Run>::empty() + runs_spec(spans@, a as int, b as int) =~= runs_spec(
            spans@,
            a as int,
            b as int,
        ));
    }
    while i < spans.len()
        invariant
            0 <= i <= spans@.len(),
            runs_spec(spans@, a as int, b as int) == out@ + runs_spec(
                spans@.skip(i as int),
                a as int,
                b as int,
            ),
        decreases spans@.len() - i,
    {
        proof {
            assert(spans@.skip(i as int)[0] == spans@[i as int]);
            assert(spans@.skip(i as int).drop_first() =~= spans@.skip(i as int + 1));
        }
        let (s, e, cat) = spans[i];
        let lo = if s > a {
            s
        } else {
            a
        };
        let hi = if e < b {
            e
        } else {
            b
        };
        if lo < hi {
            let color = match cat {
                Some(h) => h.color(),
                None => crate::highlight::default_color(),
            };
            out.push((lo, hi, color));
            proof {
                assert(out@ + runs_spec(spans@.skip(i as int + 1), a as int, b as int)
                    =~= out@.drop_last() + (seq![(lo, hi, span_color(spans@[i as int].2))]
                    + runs_spec(spans@.skip(i as int + 1), a as int, b as int)));
            }
        }
        i = i + 1;
    }
    proof {
        assert(spans@.skip(spans@.len() as int) =~= Seq::<Span>::empty());
        assert(out@ + Seq::<Run>::empty() =~= out@);
    }
    out
}

/// Gutter width added around the line numbers, in pixels.
pub const GUTTER_PADDING: u32 = 10;

/// Gap between the gutter and the code area, in pixels.
pub const GUTTER_MARGIN: u32 = 10;

/// Clamp an unbounded pixel count to what a `u32` can hold.
pub open spec fn sat_u32(x: int) -> int {
    if x > u32::MAX {
        u32::MAX as int
    } else {
        x
    }
}

/// The decimal digit characters of `n`, most significant first.
pub open spec fn decimal_spec(n: int) -> Seq<char>
    decreases n,
{
    if n < 10 {
        seq![digit_char_spec(n)]
    } else {
        decimal_spec(n / 10).push(digit_char_spec(n % 10))
    }
}

/// The character of one decimal digit.
pub open spec fn digit_char_spec(d: int) -> char {
    if d == 0 {
        '0'
    } else if d == 1 {
        '1'
    } else if d == 2 {
        '2'
    } else if d == 3 {
        '3'
    } else if d == 4 {
        '4'
    } else if d == 5 {
        '5'
    } else if d == 6 {
        '6'
    } else if d == 7 {
        '7'
    } else if d == 8 {
        '8'
    } else {
        '9'
    }
}

fn digit_char(d: u64) -> (c: char)
    requires
        d < 10,
    ensures
        c == digit_char_spec(d as int),
{
    match d {
        0u64 => '0',
        1u64 => '1',
        2u64 => '2',
        3u64 => '3',
        4u64 => '4',
        5u64 => '5',
        6u64 => '6',
        7u64 => '7',
        8u64 => '8',
        _ => '9',
    }
}

/// Renders a number in decimal.
pub fn decimal_chars(n: u64) -> (r: Vec<char>)
    ensures
        r@ == decimal_spec(n as int),
    decreases n,
{
    if n < 10 {
        let mut v: Vec<char> = Vec::new();
        v.push(digit_char(n));
        proof {
            assert(v@ =~= decimal_spec(n as int));
        }
        v
    } else {
        let mut v = decimal_chars(n / 10);
        v.push(digit_char(n % 10));
        v
    }
}

/// The width of the widest rendered line number among `0 .. count`.
pub open spec fn numbers_width(w: CharWidths, count: int) -> int
    decreases count,
{
    if count <= 0 {
        0
    } else {
        let prev = numbers_width(w, count - 1);
        let here = sat64(advance(w, decimal_spec(count - 1), decimal_spec(count - 1).len() as int));
        if here > prev {
            here
        } else {
            prev
        }
    }
}

/// The line-number gutter beside the code area.
pub struct Gutter {
    pub dimensions: Dimensions,
    pub scroll_offset_y: i64,
    pub font_height: u32,
}

impl Gutter {
    /// Positive line height, non-positive scroll offset.
    pub open spec fn wf(self) -> bool {
        &&& self.font_height >= 1
        &&& self.scroll_offset_y <= 0
    }

    /// Builds the gutter, sized to the widest line number the buffer needs
    /// plus padding and an outer margin.
    pub fn new(widths: &CharWidths, font_height: u32, dimensions: Dimensions, lines: usize) -> (r:
        Gutter)
        requires
            font_height >= 1,
            lines >= 1,
        ensures
            r.wf(),
            r.scroll_offset_y == 0,
            r.font_height == font_height,
            r.dimensions.width == sat_u32(
                sat_u32(numbers_width(*widths, lines - 1) + GUTTER_PADDING) + GUTTER_MARGIN,
            ),
            r.dimensions.x == dimensions.x,
            r.dimensions.y == dimensions.y,
            r.dimensions.height == dimensions.height,
    {
        let mut best: u64 = 0;
        let mut i: usize = 0;
        while i < lines - 1
            invariant
                0 <= i <= lines - 1,
                best == numbers_width(*widths, i as int),
            decreases lines - 1 - i,
        {
            let digits = decimal_chars(i as u64);
            let width = line_length(&digits, widths);
            if width > best {
                best = width;
            }
            i = i + 1;
        }
        let rect_size = sat_u32_add(best, GUTTER_PADDING);
        let full = sat_u32_add(rect_size as u64, GUTTER_MARGIN);
        Gutter {
            dimensions: Dimensions { width: full, ..dimensions },
            scroll_offset_y: 0,
            font_height,
        }
    }

    /// Applies a vertical scroll delta, clamped against the line count.
    pub fn scroll(&mut self, dy: i64, lines: usize)
        requires
            old(self).wf(),
        ensures
            final (self).wf(),
            final (self).scroll_offset_y == clamp_y(
                old(self).scroll_offset_y + dy,
                lines as int,
                old(self).font_height as int,
            ),
            final (self).dimensions == old(self).dimensions,
            final (self).font_height == old(self).font_height,
    {
        self.scroll_offset_y = crate::viewport::clamp_y_exec(
            self.scroll_offset_y as i128 + dy as i128,
            lines,
            self.font_height,
        );
    }

    /// The rendered line numbers for the visible rows `[upper, lower)`,
    /// one-based.
    pub fn line_numbers(&self, upper: usize, lower: usize) -> (r: Vec<Vec<char>>)
        requires
            upper <= lower,
        ensures
            r@.len() == lower - upper,
            forall|i: int|
                0 <= i < r@.len() ==> (#[trigger] r@[i])@ == decimal_spec(upper + i + 1),
    {
        let mut out: Vec<Vec<char>> = Vec::new();
        let mut row: usize = upper;
        while row < lower
            invariant
                upper <= row <= lower,
                out@.len() == row - upper,
                forall|i: int|
                    0 <= i < out@.len() ==> (#[trigger] out@[i])@ == decimal_spec(upper + i + 1),
            decreases lower - row,
        {
            out.push(decimal_chars((row as u64) + 1));
            row = row + 1;
        }
        out
    }
}

fn sat_u32_add(a: u64, b: u32) -> (r: u32)
    ensures
        r == sat_u32(a + b),
{
    let wide: u64 = if a > u64::MAX - (b as u64) {
        u64::MAX
    } else {
        a + (b as u64)
    };
    if wide > u32::MAX as u64 {
        u32::MAX
    } else {
        wide as u32
    }
}

/// A code area paired with its gutter.
pub struct CodeView {
    pub gutter: Gutter,
    pub code: Code,
    pub dimensions: Dimensions,
}

impl CodeView {
    /// Both halves are consistent.
    pub open spec fn wf(self) -> bool {
        &&& self.gutter.wf()
        &&& self.code.wf()
    }

    /// Builds the view: the gutter is sized from the line count, and the
    /// code area takes the rest of the rectangle.
    pub fn new(
        text: &str,
        widths: CharWidths,
        font_height: u32,
        dimensions: Dimensions,
        highlight_config: Option<Config>,
    ) -> (r: CodeView)
        requires
            font_height >= 1,
        ensures
            r.wf(),
            r.code.text() == text@,
            r.dimensions == dimensions,
            r.code.dimensions.x == sat_u32(dimensions.x + r.gutter.dimensions.width),
            r.code.dimensions.width == if dimensions.width > r.gutter.dimensions.width {
                dimensions.width - r.gutter.dimensions.width
            } else {
                0
            },
            r.code.cursor.row == 0,
            r.code.cursor.column == 0,
            r.code.cursor.x_offset == 0,
            r.code.viewport.scroll_x == 0,
            r.code.viewport.scroll_y == 0,
            r.code.font_height == font_height,
            r.code.widths == widths,
            r.code.max_line_length == max_line_width(widths, text@),
            (r.code.highlight_config is Some) <==> (highlight_config is Some),
            r.gutter.font_height == font_height,
            r.gutter.scroll_offset_y == 0,
    {
        let buffer = TextBuffer::new(text);
        let lines = buffer.len_lines();
        proof {
            crate::text::lemma_newline_count_nonneg(text@);
        }
        let gutter = Gutter::new(&widths, font_height, dimensions, lines);
        let gw = gutter.dimensions.width;
        let code_x = sat_u32_add(dimensions.x as u64, gw);
        let code_w = if dimensions.width > gw {
            dimensions.width - gw
        } else {
            0
        };
        let code_dims = Dimensions {
            x: code_x,
            y: dimensions.y,
            width: code_w,
            height: dimensions.height,
        };
        let code = Code::new(buffer, widths, font_height, code_dims, highlight_config);
        CodeView { gutter, code, dimensions }
    }

    /// Forwards a directional key to the code area.
    pub fn input_special(&mut self, key: Key)
        requires
            old(self).wf(),
        ensures
            final (self).wf(),
            final (self).code.text() == old(self).code.text(),
            (final (self).code.cursor.row as int, final (self).code.cursor.column as int)
                == move_spec(
                old(self).code.text(),
                old(self).code.cursor.row as int,
                old(self).code.cursor.column as int,
                key,
            ),
            final (self).code.viewport == old(self).code.viewport,
            final (self).code.max_line_length == old(self).code.max_line_length,
            final (self).code.highlight_config == old(self).code.highlight_config,
            final (self).gutter == old(self).gutter,
            final (self).dimensions == old(self).dimensions,
    {
        self.code.input_special(key);
    }

    /// Forwards a typed character to the code area.
    pub fn input_char(&mut self, ch: char)
        requires
            old(self).wf(),
            old(self).code.text().len() < usize::MAX,
        ensures
            final (self).wf(),
            final (self).code.text() == edit_text_spec(
                old(self).code.text(),
                old(self).code.cursor.row as int,
                old(self).code.cursor.column as int,
                ch,
            ),
            (final (self).code.cursor.row as int, final (self).code.cursor.column as int)
                == edit_cursor_spec(
                old(self).code.text(),
                old(self).code.cursor.row as int,
                old(self).code.cursor.column as int,
                ch,
            ),
            final (self).code.max_line_length == max_line_width(
                final (self).code.widths,
                final (self).code.text(),
            ),
            (final (self).code.highlight_config is Some) <==> (old(
                self,
            ).code.highlight_config is Some),
            final (self).gutter == old(self).gutter,
            final (self).dimensions == old(self).dimensions,
    {
        self.code.input_char(ch);
    }

    /// Scrolls both halves: the code area by the dominant axis, the gutter
    /// vertically against the same line count, so the two stay in step.
    pub fn scroll(&mut self, dx: i64, dy: i64)
        requires
            old(self).wf(),
        ensures
            final (self).wf(),
            final (self).code.text() == old(self).code.text(),
            final (self).code.cursor == old(self).code.cursor,
            if crate::viewport::abs_of(dx as int) > crate::viewport::abs_of(dy as int) {
                final (self).code.viewport.scroll_x == clamp_x(
                    old(self).code.viewport.scroll_x - dx,
                    old(self).code.viewport.width as int,
                    old(self).code.max_line_length as int,
                ) && final (self).code.viewport.scroll_y == old(self).code.viewport.scroll_y
            } else {
                final (self).code.viewport.scroll_y == clamp_y(
                    old(self).code.viewport.scroll_y + dy,
                    line_count(old(self).code.text()),
                    old(self).code.font_height as int,
                ) && final (self).code.viewport.scroll_x == old(self).code.viewport.scroll_x
            },
            final (self).gutter.scroll_offset_y == clamp_y(
                old(self).gutter.scroll_offset_y + dy,
                line_count(old(self).code.text()),
                old(self).gutter.font_height as int,
            ),
            final (self).gutter.dimensions == old(self).gutter.dimensions,
            final (self).dimensions == old(self).dimensions,
    {
        let lines = self.code.buffer.len_lines();
        self.code.scroll(dx, dy);
        self.gutter.scroll(dy, lines);
    }

    /// Routes a click at view-relative coordinates to the code area when it
    /// lands there, translated to code-area coordinates; clicks on the
    /// gutter change nothing.
    pub fn click(&mut self, px: u32, py: u32)
        requires
            old(self).wf(),
        ensures
            final (self).wf(),
            final (self).code.text() == old(self).code.text(),
            crate::viewport::contains_spec(old(self).code.dimensions, px as int, py as int) ==> {
                &&& final (self).code.cursor.row as int == min(
                    ((py - old(self).code.dimensions.y) - old(self).code.viewport.scroll_y) / (
                    old(self).code.font_height as int),
                    line_count(old(self).code.text()) - 1,
                )
                &&& final (self).code.cursor.column as int == click_col_spec(
                    final (self).code.widths,
                    line_at(final (self).code.text(), final (self).code.cursor.row as int),
                    (px - old(self).code.dimensions.x) as int,
                    0,
                )
                &&& final (self).code.viewport == old(self).code.viewport
                &&& final (self).gutter == old(self).gutter
            },
            !crate::viewport::contains_spec(old(self).code.dimensions, px as int, py as int)
                ==> *final (self) == *old(self),
    {
        let hit = self.code.dimensions.contains(px, py);
        match hit {
            Some((rx, ry)) => {
                self.code.click(rx as u64, ry);
            },
            None => {},
        }
    }

    /// Re-clamps the code area for a new screen size, without resetting
    /// the scroll offsets; the gutter keeps its shape.
    pub fn resize(&mut self, screen_width: u32, screen_height: u32)
        requires
            old(self).wf(),
            old(self).code.dimensions.x <= screen_width,
        ensures
            final (self).wf(),
            final (self).code.text() == old(self).code.text(),
            final (self).code.cursor == old(self).code.cursor,
            final (self).code.dimensions.width == screen_width - old(self).code.dimensions.x,
            final (self).code.viewport.scroll_x == clamp_x(
                old(self).code.viewport.scroll_x as int,
                (screen_width - old(self).code.dimensions.x) as int,
                old(self).code.max_line_length as int,
            ),
            final (self).code.viewport.scroll_y == clamp_y(
                old(self).code.viewport.scroll_y as int,
                line_count(old(self).code.text()),
                old(self).code.font_height as int,
            ),
            final (self).gutter == old(self).gutter,
            final (self).dimensions == old(self).dimensions,
    {
        self.code.resize(screen_width, screen_height);
    }
}

} // verus!
