//! Editable text buffer.
//!
//! Storage is a rope, so line- and character-indexed access and localized
//! edits are efficient. The rope is built with line breaks restricted to
//! `'\n'`, which matches the line model in [`crate::text`]: a text with `k`
//! newline characters has `k + 1` lines.

use crate::text::{
    char_of_byte, lemma_line_start_props, lemma_next_newline, lemma_row_of_props, line_at,
    line_count, line_len, line_start, newline_count, row_of, utf8_len,
};
use vstd::prelude::*;

verus! {

#[verifier::external_type_specification]
#[verifier::external_body]
pub struct ExRope(ropey::Rope);

/// The sequence of characters a rope holds.
pub uninterp spec fn rope_text(rope: ropey::Rope) -> Seq<char>;

/// Relies on `ropey::Rope::from_str`: builds a rope holding exactly the
/// characters of `s`.
#[verifier::external_body]
fn rope_from_str(s: &str) -> (r: ropey::Rope)
    ensures
        rope_text(r) == s@,
{
    ropey::Rope::from_str(s)
}

/// Relies on `ropey::Rope::len_chars`: the total number of characters.
#[verifier::external_body]
fn rope_len_chars(rope: &ropey::Rope) -> (r: usize)
    ensures
        r == rope_text(*rope).len(),
{
    rope.len_chars()
}

/// Relies on `ropey::Rope::len_lines`: one more than the number of line
/// breaks, which are exactly the `'\n'` characters here.
#[verifier::external_body]
fn rope_len_lines(rope: &ropey::Rope) -> (r: usize)
    ensures
        r == newline_count(rope_text(*rope)) + 1,
{
    rope.len_lines()
}

/// Relies on `ropey::Rope::line_to_char`: the character offset at which the
/// given line starts.
#[verifier::external_body]
fn rope_line_to_char(rope: &ropey::Rope, row: usize) -> (r: usize)
    requires
        row < line_count(rope_text(*rope)),
    ensures
        r == line_start(rope_text(*rope), row as int),
{
    rope.line_to_char(row)
}

/// Relies on `ropey::Rope::insert_char`: inserts one character at the given
/// character offset.
#[verifier::external_body]
fn rope_insert_char(rope: &mut ropey::Rope, i: usize, c: char)
    requires
        i <= rope_text(*old(rope)).len(),
    ensures
        rope_text(*final (rope)) == rope_text(*old(rope)).insert(i as int, c),
{
    rope.insert_char(i, c)
}

/// Relies on `ropey::Rope::remove`: removes the character range
/// `start..end`.
#[verifier::external_body]
fn rope_remove_range(rope: &mut ropey::Rope, start: usize, end: usize)
    requires
        start <= end <= rope_text(*old(rope)).len(),
    ensures
        rope_text(*final (rope)) == rope_text(*old(rope)).subrange(0, start as int) + rope_text(
            *old(rope),
        ).subrange(end as int, rope_text(*old(rope)).len() as int),
{
    rope.remove(start..end)
}

/// Relies on `ropey::Rope::slice` and `ropey::iter::Chars`: the characters
/// of the character range `start..end`, in order.
#[verifier::external_body]
fn rope_chars_range(rope: &ropey::Rope, start: usize, end: usize) -> (r: Vec<char>)
    requires
        start <= end <= rope_text(*rope).len(),
    ensures
        r@ == rope_text(*rope).subrange(start as int, end as int),
{
    rope.slice(start..end).chars().collect()
}

/// Relies on `ropey::Rope::char_to_line`: the number of line breaks before
/// the given character offset.
#[verifier::external_body]
fn rope_char_to_line(rope: &ropey::Rope, pos: usize) -> (r: usize)
    requires
        pos <= rope_text(*rope).len(),
    ensures
        r == row_of(rope_text(*rope), pos as int),
{
    rope.char_to_line(pos)
}

/// Relies on `ropey::Rope::len_bytes`: the total UTF-8 encoded length.
#[verifier::external_body]
fn rope_len_bytes(rope: &ropey::Rope) -> (r: usize)
    ensures
        r == utf8_len(rope_text(*rope)),
{
    rope.len_bytes()
}

/// Relies on `ropey::Rope::byte_to_char`: the index of the character that
/// contains the given byte of the UTF-8 encoding, with one-past-the-end
/// mapping to one-past-the-end.
#[verifier::external_body]
fn rope_byte_to_char(rope: &ropey::Rope, b: usize) -> (r: usize)
    requires
        b <= utf8_len(rope_text(*rope)),
    ensures
        r == char_of_byte(rope_text(*rope), b as int),
{
    rope.byte_to_char(b)
}

/// Relies on `ropey::Rope::bytes`: ropey stores text as UTF-8 and the
/// iterator yields its bytes in order, so the result is exactly the UTF-8
/// encoding of the contents.
#[verifier::external_body]
fn rope_bytes(rope: &ropey::Rope) -> (r: Vec<u8>)
    ensures
        r@ == vstd::utf8::encode_utf8(rope_text(*rope)),
{
    rope.bytes().collect()
}

/// A mutable text buffer with line- and character-indexed access.
pub struct TextBuffer {
    rope: ropey::Rope,
}

impl TextBuffer {
    /// The characters this buffer holds.
    pub closed spec fn text(self) -> Seq<char> {
        rope_text(self.rope)
    }

    /// Builds a buffer holding exactly the characters of `s`.
    pub fn new(s: &str) -> (r: TextBuffer)
        ensures
            r.text() == s@,
    {
        TextBuffer { rope: rope_from_str(s) }
    }

    /// Total number of characters.
    pub fn len_chars(&self) -> (r: usize)
        ensures
            r == self.text().len(),
    {
        rope_len_chars(&self.rope)
    }

    /// Total number of logical lines; one more than the number of newlines.
    pub fn len_lines(&self) -> (r: usize)
        ensures
            r == line_count(self.text()),
    {
        rope_len_lines(&self.rope)
    }

    /// Character offset at which line `row` starts.
    pub fn line_to_char(&self, row: usize) -> (r: usize)
        requires
            row < line_count(self.text()),
        ensures
            r == line_start(self.text(), row as int),
    {
        rope_line_to_char(&self.rope, row)
    }

    /// Length in characters of line `row`, excluding its newline.
    pub fn line_len(&self, row: usize) -> (r: usize)
        requires
            row < line_count(self.text()),
        ensures
            r == line_len(self.text(), row as int),
    {
        proof {
            lemma_line_start_props(self.text(), row as int);
            lemma_next_newline(self.text(), line_start(self.text(), row as int));
        }
        let lines = self.len_lines();
        let start = self.line_to_char(row);
        if row + 1 < lines {
            let next = self.line_to_char(row + 1);
            next - 1 - start
        } else {
            self.len_chars() - start
        }
    }

    /// The characters of line `row`, excluding its newline.
    pub fn line_chars(&self, row: usize) -> (r: Vec<char>)
        requires
            row < line_count(self.text()),
        ensures
            r@ == line_at(self.text(), row as int),
    {
        proof {
            lemma_line_start_props(self.text(), row as int);
        }
        let total = self.len_chars();
        let start = self.line_to_char(row);
        let len = self.line_len(row);
        assert(start + len <= total);
        rope_chars_range(&self.rope, start, start + len)
    }

    /// Inserts one character at character offset `i`.
    pub fn insert_char(&mut self, i: usize, c: char)
        requires
            i <= old(self).text().len(),
        ensures
            final (self).text() == old(self).text().insert(i as int, c),
    {
        rope_insert_char(&mut self.rope, i, c)
    }

    /// Removes the character range `start..end`.
    pub fn remove_range(&mut self, start: usize, end: usize)
        requires
            start <= end <= old(self).text().len(),
        ensures
            final (self).text() == old(self).text().subrange(0, start as int) + old(
                self,
            ).text().subrange(end as int, old(self).text().len() as int),
    {
        rope_remove_range(&mut self.rope, start, end)
    }

    /// The characters of the range `start..end`.
    pub fn chars_range(&self, start: usize, end: usize) -> (r: Vec<char>)
        requires
            start <= end <= self.text().len(),
        ensures
            r@ == self.text().subrange(start as int, end as int),
    {
        rope_chars_range(&self.rope, start, end)
    }

    /// The `(row, column)` position of character offset `pos`.
    pub fn char_to_line_offset(&self, pos: usize) -> (r: (usize, usize))
        requires
            pos <= self.text().len(),
        ensures
            r.0 == row_of(self.text(), pos as int),
            r.1 == pos - line_start(self.text(), r.0 as int),
            r.1 <= line_len(self.text(), r.0 as int),
    {
        proof {
            lemma_row_of_props(self.text(), pos as int);
        }
        let row = rope_char_to_line(&self.rope, pos);
        let start = self.line_to_char(row);
        (row, pos - start)
    }

    /// Total UTF-8 encoded length, in bytes.
    pub fn len_bytes(&self) -> (r: usize)
        ensures
            r == utf8_len(self.text()),
    {
        rope_len_bytes(&self.rope)
    }

    /// The character containing byte `b` of the UTF-8 encoding.
    pub fn byte_to_char(&self, b: usize) -> (r: usize)
        requires
            b <= utf8_len(self.text()),
        ensures
            r == char_of_byte(self.text(), b as int),
    {
        rope_byte_to_char(&self.rope, b)
    }

    /// The UTF-8 encoding of the contents.
    pub fn bytes(&self) -> (r: Vec<u8>)
        ensures
            r@ == vstd::utf8::encode_utf8(self.text()),
            r@.len() == utf8_len(self.text()),
    {
        proof {
            crate::text::lemma_utf8_len_is_encoding_len(self.text());
        }
        rope_bytes(&self.rope)
    }
}

} // verus!
