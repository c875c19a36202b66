//! Cursor movement and text editing.
//!
//! The cursor is a `(row, column)` pair with a cached horizontal pixel
//! offset. Every movement and edit keeps the pair inside the buffer and the
//! cached offset equal to re-measuring the position.

use crate::buffer::TextBuffer;
use crate::measure::{advance, max_line_length, max_line_width, measure, sat64, CharWidths};
use crate::text::{
    lemma_insert_char, lemma_insert_newline, lemma_line_start_props, lemma_remove_char,
    lemma_remove_newline, line_at, line_count, line_len, line_start,
};
use vstd::prelude::*;

verus! {

/// Special (non-printing) keys the editor reacts to.
pub enum Key {
    Up,
    Down,
    Left,
    Right,
    Escape,
}

/// An editing cursor: a logical position and its cached pixel offset.
pub struct Cursor {
    pub row: usize,
    pub column: usize,
    pub x_offset: u64,
}

impl Cursor {
    /// The position lies inside the buffer: on a real row, at a column no
    /// further than the end of that row.
    pub open spec fn wf(self, s: Seq<char>) -> bool {
        &&& (self.row as int) < line_count(s)
        &&& (self.column as int) <= line_len(s, self.row as int)
    }

    /// The cached pixel offset equals re-measuring `(row, column)`.
    pub open spec fn x_consistent(self, s: Seq<char>, w: CharWidths) -> bool {
        self.x_offset == sat64(advance(w, line_at(s, self.row as int), self.column as int))
    }

    /// A cursor at the origin.
    pub fn new() -> (r: Cursor)
        ensures
            r.row == 0,
            r.column == 0,
            r.x_offset == 0,
    {
        Cursor { row: 0, column: 0, x_offset: 0 }
    }
}

/// Where a directional key moves the cursor.
///
/// Up and Down keep the column where possible and clamp it to the end of the
/// new row; Up on the first row goes to column 0 and Down on the last row to
/// the end of the line. Left at column 0 wraps to the end of the previous
/// row; Right at the end of a row wraps to the start of the next. Right at
/// the very end of the buffer stays put.
pub open spec fn move_spec(s: Seq<char>, row: int, col: int, key: Key) -> (int, int) {
    match key {
        Key::Up => {
            if row == 0 {
                (0int, 0int)
            } else {
                if col <= line_len(s, row - 1) {
                    (row - 1, col)
                } else {
                    (row - 1, line_len(s, row - 1))
                }
            }
        },
        Key::Down => {
            if row == line_count(s) - 1 {
                (row, line_len(s, row))
            } else {
                if col <= line_len(s, row + 1) {
                    (row + 1, col)
                } else {
                    (row + 1, line_len(s, row + 1))
                }
            }
        },
        Key::Left => {
            if col > 0 {
                (row, col - 1)
            } else if row > 0 {
                (row - 1, line_len(s, row - 1))
            } else {
                (0int, 0int)
            }
        },
        Key::Right => {
            if col < line_len(s, row) {
                (row, col + 1)
            } else if row < line_count(s) - 1 {
                (row + 1, 0int)
            } else {
                (row, col)
            }
        },
        Key::Escape => (row, col),
    }
}

/// Applies a directional key to the cursor, re-measuring its pixel offset on
/// the new row.
pub fn input_special(key: Key, buffer: &TextBuffer, cursor: &mut Cursor, w: &CharWidths)
    requires
        old(cursor).wf(buffer.text()),
        old(cursor).x_consistent(buffer.text(), *w),
    ensures
        final (cursor).wf(buffer.text()),
        final (cursor).x_consistent(buffer.text(), *w),
        (final (cursor).row as int, final (cursor).column as int) == move_spec(
            buffer.text(),
            old(cursor).row as int,
            old(cursor).column as int,
            key,
        ),
{
    proof {
        lemma_line_start_props(buffer.text(), cursor.row as int);
    }
    match key {
        Key::Up => {
            if cursor.row != 0 {
                cursor.row = cursor.row - 1;
                let len = buffer.line_len(cursor.row);
                if cursor.column > len {
                    cursor.column = len;
                }
                proof {
                    lemma_line_start_props(buffer.text(), cursor.row as int);
                }
                let line = buffer.line_chars(cursor.row);
                cursor.x_offset = measure(w, &line, cursor.column);
            } else {
                cursor.column = 0;
                cursor.x_offset = 0;
            }
        },
        Key::Down => {
            let lines = buffer.len_lines();
            if cursor.row != lines - 1 {
                cursor.row = cursor.row + 1;
                let len = buffer.line_len(cursor.row);
                if cursor.column > len {
                    cursor.column = len;
                }
            } else {
                cursor.column = buffer.line_len(cursor.row);
            }
            proof {
                lemma_line_start_props(buffer.text(), cursor.row as int);
            }
            let line = buffer.line_chars(cursor.row);
            cursor.x_offset = measure(w, &line, cursor.column);
        },
        Key::Left => {
            if cursor.column > 0 {
                cursor.column = cursor.column - 1;
                let line = buffer.line_chars(cursor.row);
                cursor.x_offset = measure(w, &line, cursor.column);
            } else if cursor.row > 0 {
                cursor.row = cursor.row - 1;
                cursor.column = buffer.line_len(cursor.row);
                proof {
                    lemma_line_start_props(buffer.text(), cursor.row as int);
                }
                let line = buffer.line_chars(cursor.row);
                cursor.x_offset = measure(w, &line, cursor.column);
            }
        },
        Key::Right => {
            let len = buffer.line_len(cursor.row);
            let lines = buffer.len_lines();
            if cursor.column < len {
                cursor.column = cursor.column + 1;
                let line = buffer.line_chars(cursor.row);
                cursor.x_offset = measure(w, &line, cursor.column);
            } else if cursor.row < lines - 1 {
                cursor.row = cursor.row + 1;
                cursor.column = 0;
                cursor.x_offset = 0;
                proof {
                    lemma_line_start_props(buffer.text(), cursor.row as int);
                }
            }
        },
        Key::Escape => {},
    }
}

/// The buffer contents after a character is typed at `(row, col)`.
///
/// `'\u{7f}'` is Backspace, `'\r'` is Enter (which inserts a newline),
/// `'\u{1b}'` is Escape (a no-op); anything else is inserted at the cursor.
pub open spec fn edit_text_spec(s: Seq<char>, row: int, col: int, ch: char) -> Seq<char> {
    if ch == '\u{7f}' {
        if col > 0 {
            s.remove(line_start(s, row) + col - 1)
        } else if row > 0 {
            s.remove(line_start(s, row) - 1)
        } else {
            s
        }
    } else if ch == '\u{1b}' {
        s
    } else if ch == '\r' {
        s.insert(line_start(s, row) + col, '\n')
    } else {
        s.insert(line_start(s, row) + col, ch)
    }
}

/// Where the cursor stands after a character is typed at `(row, col)`.
///
/// Backspace moves left, joining with the previous line at column 0; a
/// newline moves to the start of the next row; an ordinary insertion moves
/// right by one.
pub open spec fn edit_cursor_spec(s: Seq<char>, row: int, col: int, ch: char) -> (int, int) {
    if ch == '\u{7f}' {
        if col > 0 {
            (row, col - 1)
        } else if row > 0 {
            (row - 1, line_len(s, row - 1))
        } else {
            (0int, 0int)
        }
    } else if ch == '\u{1b}' {
        (row, col)
    } else if ch == '\r' || ch == '\n' {
        (row + 1, 0int)
    } else {
        (row, col + 1)
    }
}

/// Applies a typed character to the buffer and the cursor, and returns the
/// re-measured width of the widest line.
pub fn input_char(ch: char, buffer: &mut TextBuffer, cursor: &mut Cursor, w: &CharWidths) -> (r:
    u64)
    requires
        old(cursor).wf(old(buffer).text()),
        old(cursor).x_consistent(old(buffer).text(), *w),
        old(buffer).text().len() < usize::MAX,
    ensures
        final (buffer).text() == edit_text_spec(
            old(buffer).text(),
            old(cursor).row as int,
            old(cursor).column as int,
            ch,
        ),
        (final (cursor).row as int, final (cursor).column as int) == edit_cursor_spec(
            old(buffer).text(),
            old(cursor).row as int,
            old(cursor).column as int,
            ch,
        ),
        final (cursor).wf(final (buffer).text()),
        final (cursor).x_consistent(final (buffer).text(), *w),
        r == max_line_width(*w, final (buffer).text()),
{
    let ghost s = old(buffer).text();
    let row = cursor.row;
    let col = cursor.column;
    proof {
        lemma_line_start_props(s, row as int);
        crate::text::lemma_newline_count_le_len(s);
    }
    if ch == '\u{7f}' {
        if col > 0 {
            let ls = buffer.line_to_char(row);
            let i = ls + col;
            proof {
                lemma_remove_char(s, i - 1, row as int);
            }
            buffer.remove_range(i - 1, i);
            proof {
                assert(buffer.text() =~= s.remove(i - 1));
            }
            cursor.column = col - 1;
            let line = buffer.line_chars(row);
            cursor.x_offset = measure(w, &line, col - 1);
        } else if row > 0 {
            let ls = buffer.line_to_char(row);
            let prev_len = buffer.line_len(row - 1);
            proof {
                lemma_line_start_props(s, row as int - 1);
                lemma_remove_newline(s, row as int - 1);
            }
            buffer.remove_range(ls - 1, ls);
            proof {
                assert(buffer.text() =~= s.remove(ls - 1));
            }
            cursor.row = row - 1;
            cursor.column = prev_len;
            let line = buffer.line_chars(row - 1);
            cursor.x_offset = measure(w, &line, prev_len);
        }
    } else if ch == '\u{1b}' {
        // Escape: a diagnostic no-op; the buffer and the cursor stay put.
    } else {
        let ls = buffer.line_to_char(row);
        let i = ls + col;
        let c = if ch == '\r' {
            '\n'
        } else {
            ch
        };
        buffer.insert_char(i, c);
        proof {
            if c == '\n' {
                lemma_insert_newline(s, i as int, row as int);
            } else {
                lemma_insert_char(s, i as int, c, row as int);
            }
        }
        if c == '\n' {
            cursor.row = row + 1;
            cursor.column = 0;
            cursor.x_offset = 0;
        } else {
            cursor.column = col + 1;
            let line = buffer.line_chars(row);
            cursor.x_offset = measure(w, &line, col + 1);
        }
    }
    max_line_length(buffer, w)
}

/// Law: inserting a character at the cursor and then pressing Backspace
/// restores both the buffer contents and the cursor position.
pub proof fn lemma_insert_backspace_round_trip(s: Seq<char>, row: int, col: int, ch: char)
    requires
        0 <= row < line_count(s),
        0 <= col <= line_len(s, row),
        ch != '\u{7f}',
        ch != '\u{1b}',
    ensures
        edit_text_spec(
            edit_text_spec(s, row, col, ch),
            edit_cursor_spec(s, row, col, ch).0,
            edit_cursor_spec(s, row, col, ch).1,
            '\u{7f}',
        ) == s,
        edit_cursor_spec(
            edit_text_spec(s, row, col, ch),
            edit_cursor_spec(s, row, col, ch).0,
            edit_cursor_spec(s, row, col, ch).1,
            '\u{7f}',
        ) == (row, col),
{
    lemma_line_start_props(s, row);
    let i = line_start(s, row) + col;
    let c = if ch == '\r' {
        '\n'
    } else {
        ch
    };
    let s2 = s.insert(i, c);
    s.insert_ensures(i, c);
    if c == '\n' {
        lemma_insert_newline(s, i, row);
        assert(line_start(s2, row + 1) == i + 1);
        assert(line_len(s2, row) == col);
        assert(s2.remove(i) =~= s);
    } else {
        lemma_insert_char(s, i, c, row);
        assert(line_start(s2, row) == line_start(s, row));
        assert(s2.remove(i) =~= s);
    }
}

} // verus!
