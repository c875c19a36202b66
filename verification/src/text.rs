//! Mathematical model of line-structured text.
//!
//! A buffer is a sequence of characters; lines are the maximal runs not
//! containing `'\n'`. A text with `k` newline characters has `k + 1` logical
//! lines, so a trailing newline yields one further empty line.

use vstd::prelude::*;

verus! {

/// Number of `'\n'` characters in `s`.
pub open spec fn newline_count(s: Seq<char>) -> int
    decreases s.len(),
{
    if s.len() == 0 {
        0
    } else {
        newline_count(s.drop_last()) + if s.last() == '\n' {
            1int
        } else {
            0int
        }
    }
}

/// Number of logical lines of `s`: one more than the number of newlines.
pub open spec fn line_count(s: Seq<char>) -> int {
    newline_count(s) + 1
}

/// Index of the first `'\n'` at or after `from`, or `s.len()` if there is none.
pub open spec fn next_newline(s: Seq<char>, from: int) -> int
    decreases s.len() - from,
{
    if from < 0 {
        0
    } else if from >= s.len() {
        s.len() as int
    } else if s[from] == '\n' {
        from
    } else {
        next_newline(s, from + 1)
    }
}

/// Character offset at which line `row` starts.
pub open spec fn line_start(s: Seq<char>, row: int) -> int
    decreases row,
{
    if row <= 0 {
        0
    } else {
        next_newline(s, line_start(s, row - 1)) + 1
    }
}

/// Length in characters of line `row`, excluding its terminating newline.
pub open spec fn line_len(s: Seq<char>, row: int) -> int {
    next_newline(s, line_start(s, row)) - line_start(s, row)
}

/// The characters of line `row`, excluding its terminating newline.
pub open spec fn line_at(s: Seq<char>, row: int) -> Seq<char> {
    s.subrange(line_start(s, row), line_start(s, row) + line_len(s, row))
}

/// UTF-8 encoded length of one character, in bytes.
pub open spec fn char_utf8_len(c: char) -> int {
    if (c as u32) < 0x80 {
        1
    } else if (c as u32) < 0x800 {
        2
    } else if (c as u32) < 0x10000 {
        3
    } else {
        4
    }
}

/// UTF-8 encoded length of a character sequence, in bytes.
pub open spec fn utf8_len(s: Seq<char>) -> int
    decreases s.len(),
{
    if s.len() == 0 {
        0
    } else {
        char_utf8_len(s[0]) + utf8_len(s.drop_first())
    }
}

/// Index of the character that contains byte `b` of the UTF-8 encoding of `s`,
/// or `s.len()` if `b` is at or past the end of the encoding.
pub open spec fn char_of_byte(s: Seq<char>, b: int) -> int
    decreases s.len(),
{
    if s.len() == 0 || b < char_utf8_len(s[0]) {
        0
    } else {
        1 + char_of_byte(s.drop_first(), b - char_utf8_len(s[0]))
    }
}

/// Newline counts add over concatenation.
pub proof fn lemma_newline_count_concat(a: Seq<char>, b: Seq<char>)
    ensures
        newline_count(a + b) == newline_count(a) + newline_count(b),
    decreases b.len(),
{
    if b.len() == 0 {
        assert(a + b =~= a);
    } else {
        lemma_newline_count_concat(a, b.drop_last());
        assert((a + b).drop_last() =~= a + b.drop_last());
        assert((a + b).last() == b.last());
    }
}

/// Extending a sequence by one character adds that character's newline count.
pub proof fn lemma_newline_count_take_step(s: Seq<char>, i: int)
    requires
        0 <= i < s.len(),
    ensures
        newline_count(s.take(i + 1)) == newline_count(s.take(i)) + if s[i] == '\n' {
            1int
        } else {
            0int
        },
{
    assert(s.take(i + 1).drop_last() =~= s.take(i));
    assert(s.take(i + 1).last() == s[i]);
}

/// Bounds and characterization of `next_newline`.
pub proof fn lemma_next_newline(s: Seq<char>, from: int)
    requires
        0 <= from <= s.len(),
    ensures
        from <= next_newline(s, from) <= s.len(),
        next_newline(s, from) < s.len() ==> s[next_newline(s, from)] == '\n',
        forall|i: int| from <= i < next_newline(s, from) ==> s[i] != '\n',
    decreases s.len() - from,
{
    if from < s.len() && s[from] != '\n' {
        lemma_next_newline(s, from + 1);
    }
}

/// A range free of newlines does not change the newline count of prefixes.
pub proof fn lemma_newline_count_flat_range(s: Seq<char>, a: int, b: int)
    requires
        0 <= a <= b <= s.len(),
        forall|i: int| a <= i < b ==> s[i] != '\n',
    ensures
        newline_count(s.take(b)) == newline_count(s.take(a)),
    decreases b - a,
{
    if a < b {
        lemma_newline_count_flat_range(s, a, b - 1);
        lemma_newline_count_take_step(s, b - 1);
    }
}

/// A sequence has at most as many newlines as characters.
pub proof fn lemma_newline_count_le_len(s: Seq<char>)
    ensures
        newline_count(s) <= s.len(),
    decreases s.len(),
{
    if s.len() > 0 {
        lemma_newline_count_le_len(s.drop_last());
    }
}

/// Newline counts are non-negative.
pub proof fn lemma_newline_count_nonneg(s: Seq<char>)
    ensures
        0 <= newline_count(s),
    decreases s.len(),
{
    if s.len() > 0 {
        lemma_newline_count_nonneg(s.drop_last());
    }
}

/// A prefix has at most as many newlines as the whole sequence.
pub proof fn lemma_newline_count_prefix_le(s: Seq<char>, i: int)
    requires
        0 <= i <= s.len(),
    ensures
        newline_count(s.take(i)) <= newline_count(s),
    decreases s.len() - i,
{
    if i < s.len() {
        lemma_newline_count_prefix_le(s, i + 1);
        lemma_newline_count_take_step(s, i);
    } else {
        assert(s.take(i) =~= s);
    }
}

/// Moving the starting point forward within a newline-free stretch does not
/// change where the next newline is.
pub proof fn lemma_next_newline_inside(s: Seq<char>, a: int, b: int)
    requires
        0 <= a <= b <= next_newline(s, a),
        a <= s.len(),
    ensures
        next_newline(s, b) == next_newline(s, a),
    decreases b - a,
{
    lemma_next_newline(s, a);
    if a < b {
        lemma_next_newline_inside(s, a + 1, b);
    }
}

/// Where each line starts: bounds, the newline count of the prefix before it,
/// and whether the line is the last one.
pub proof fn lemma_line_start_props(s: Seq<char>, row: int)
    requires
        0 <= row < line_count(s),
    ensures
        0 <= line_start(s, row) <= s.len(),
        newline_count(s.take(line_start(s, row))) == row,
        row > 0 ==> s[line_start(s, row) - 1] == '\n',
        0 <= line_len(s, row),
        line_start(s, row) + line_len(s, row) <= s.len(),
        (row == line_count(s) - 1) <==> (next_newline(s, line_start(s, row)) == s.len()),
        row < line_count(s) - 1 ==> s[line_start(s, row) + line_len(s, row)] == '\n',
    decreases row,
{
    lemma_newline_count_nonneg(s);
    if row == 0 {
        assert(s.take(0) =~= Seq::<char>::empty());
    } else {
        lemma_line_start_props(s, row - 1);
        let prev = line_start(s, row - 1);
        let nn = next_newline(s, prev);
        lemma_next_newline(s, prev);
        lemma_newline_count_flat_range(s, prev, nn);
        if nn == s.len() {
            assert(s.take(s.len() as int) =~= s);
            assert(false);
        }
        lemma_newline_count_take_step(s, nn);
    }
    let ls = line_start(s, row);
    let nn2 = next_newline(s, ls);
    lemma_next_newline(s, ls);
    lemma_newline_count_flat_range(s, ls, nn2);
    if nn2 == s.len() {
        assert(s.take(s.len() as int) =~= s);
    } else {
        lemma_newline_count_take_step(s, nn2);
        lemma_newline_count_prefix_le(s, nn2 + 1);
    }
}

/// Line starts are strictly increasing row by row.
pub proof fn lemma_line_start_monotone(s: Seq<char>, r1: int, r2: int)
    requires
        0 <= r1 <= r2 < line_count(s),
    ensures
        line_start(s, r1) <= line_start(s, r2),
        r1 < r2 ==> line_start(s, r1) + line_len(s, r1) < line_start(s, r2),
    decreases r2 - r1,
{
    if r1 < r2 {
        lemma_line_start_monotone(s, r1 + 1, r2);
        lemma_line_start_props(s, r1);
        lemma_next_newline(s, line_start(s, r1));
    }
}

/// How `next_newline` changes when one character is inserted at or after the
/// starting point.
pub proof fn lemma_next_newline_insert_before(s: Seq<char>, p: int, c: char, from: int)
    requires
        0 <= from <= p <= s.len(),
    ensures
        next_newline(s, from) < p ==> next_newline(s.insert(p, c), from) == next_newline(s, from),
        next_newline(s, from) >= p && c == '\n' ==> next_newline(s.insert(p, c), from) == p,
        next_newline(s, from) >= p && c != '\n' ==> next_newline(s.insert(p, c), from)
            == next_newline(s, from) + 1,
    decreases p - from,
{
    let s2 = s.insert(p, c);
    s.insert_ensures(p, c);
    lemma_next_newline(s, from);
    if from == p {
        if c != '\n' {
            lemma_next_newline_insert_after_aux(s, p, c, from + 1);
        }
    } else {
        if s[from] != '\n' {
            lemma_next_newline_insert_before(s, p, c, from + 1);
        }
    }
}

/// How `next_newline` changes when one character is inserted strictly before
/// the starting point; stated on the shifted index.
pub proof fn lemma_next_newline_insert_after(s: Seq<char>, p: int, c: char, from: int)
    requires
        0 <= p < from <= s.len() + 1,
    ensures
        next_newline(s.insert(p, c), from) == next_newline(s, from - 1) + 1,
    decreases s.len() + 1 - from,
{
    lemma_next_newline_insert_after_aux(s, p, c, from);
}

proof fn lemma_next_newline_insert_after_aux(s: Seq<char>, p: int, c: char, from: int)
    requires
        0 <= p <= s.len(),
        p < from <= s.len() + 1,
    ensures
        next_newline(s.insert(p, c), from) == next_newline(s, from - 1) + 1,
    decreases s.len() + 1 - from,
{
    let s2 = s.insert(p, c);
    s.insert_ensures(p, c);
    if from <= s.len() && s2[from] != '\n' {
        lemma_next_newline_insert_after_aux(s, p, c, from + 1);
    }
}

proof fn lemma_line_start_insert_prefix(s: Seq<char>, p: int, c: char, row: int, r: int)
    requires
        0 <= row < line_count(s),
        line_start(s, row) <= p <= s.len(),
        0 <= r <= row,
    ensures
        line_start(s.insert(p, c), r) == line_start(s, r),
    decreases r,
{
    if r > 0 {
        lemma_line_start_insert_prefix(s, p, c, row, r - 1);
        lemma_line_start_monotone(s, r - 1, row);
        lemma_line_start_props(s, r - 1);
        lemma_next_newline_insert_before(s, p, c, line_start(s, r - 1));
    }
}

proof fn lemma_line_start_insert_suffix(s: Seq<char>, p: int, c: char, row: int, r: int)
    requires
        0 <= row < line_count(s),
        c != '\n',
        line_start(s, row) <= p <= line_start(s, row) + line_len(s, row),
        row < r < line_count(s),
    ensures
        line_start(s.insert(p, c), r) == line_start(s, r) + 1,
    decreases r,
{
    lemma_line_start_props(s, row);
    if r == row + 1 {
        lemma_line_start_insert_prefix(s, p, c, row, row);
        lemma_next_newline_insert_before(s, p, c, line_start(s, row));
    } else {
        lemma_line_start_insert_suffix(s, p, c, row, r - 1);
        lemma_line_start_monotone(s, row + 1, r - 1);
        lemma_line_start_props(s, r - 1);
        lemma_next_newline(s, line_start(s, row));
        lemma_next_newline_insert_after(s, p, c, line_start(s, r - 1) + 1);
    }
}

/// Full line-structure characterization of inserting one non-newline
/// character at position `p` of line `row`.
#[verifier::rlimit(100)]
#[verifier::spinoff_prover]
pub proof fn lemma_insert_char(s: Seq<char>, p: int, c: char, row: int)
    requires
        0 <= row < line_count(s),
        c != '\n',
        line_start(s, row) <= p <= line_start(s, row) + line_len(s, row),
    ensures
        line_count(s.insert(p, c)) == line_count(s),
        forall|r: int|
            0 <= r <= row ==> #[trigger] line_start(s.insert(p, c), r) == line_start(s, r),
        forall|r: int|
            row < r < line_count(s) ==> #[trigger] line_start(s.insert(p, c), r) == line_start(
                s,
                r,
            ) + 1,
        line_len(s.insert(p, c), row) == line_len(s, row) + 1,
        forall|r: int|
            0 <= r < line_count(s) && r != row ==> #[trigger] line_len(s.insert(p, c), r)
                == line_len(s, r),
        line_at(s.insert(p, c), row) == line_at(s, row).insert(p - line_start(s, row), c),
        forall|r: int|
            0 <= r < line_count(s) && r != row ==> #[trigger] line_at(s.insert(p, c), r)
                == line_at(s, r),
{
    lemma_line_start_props(s, row);
    let s2 = s.insert(p, c);
    s.insert_ensures(p, c);
    let ls = line_start(s, row);
    let ll = line_len(s, row);

    // line counts agree
    assert(s2 =~= s.take(p).push(c) + s.skip(p));
    lemma_newline_count_concat(s.take(p).push(c), s.skip(p));
    assert(s.take(p).push(c).drop_last() =~= s.take(p));
    lemma_newline_count_concat(s.take(p), s.skip(p));
    assert(s.take(p) + s.skip(p) =~= s);

    assert forall|r: int| 0 <= r <= row implies #[trigger] line_start(s2, r) == line_start(
        s,
        r,
    ) by {
        lemma_line_start_insert_prefix(s, p, c, row, r);
    }
    assert forall|r: int| row < r < line_count(s) implies #[trigger] line_start(s2, r)
        == line_start(s, r) + 1 by {
        lemma_line_start_insert_suffix(s, p, c, row, r);
    }

    // length of the edited row
    lemma_next_newline_insert_before(s, p, c, ls);
    assert(line_len(s2, row) == ll + 1);

    // lengths of the other rows
    assert forall|r: int| 0 <= r < line_count(s) && r != row implies #[trigger] line_len(s2, r)
        == line_len(s, r) by {
        lemma_line_start_props(s, r);
        if r < row {
            lemma_line_start_monotone(s, r, row);
            lemma_next_newline_insert_before(s, p, c, line_start(s, r));
        } else {
            lemma_line_start_monotone(s, row + 1, r);
            lemma_next_newline(s, ls);
            lemma_next_newline_insert_after(s, p, c, line_start(s, r) + 1);
        }
    }

    // contents of the edited row
    lemma_next_newline(s, ls);
    assert(line_at(s2, row) =~= line_at(s, row).insert(p - ls, c));

    // contents of the other rows
    assert forall|r: int| 0 <= r < line_count(s) && r != row implies #[trigger] line_at(s2, r)
        == line_at(s, r) by {
        lemma_line_start_props(s, r);
        if r < row {
            lemma_line_start_monotone(s, r, row);
            assert(line_at(s2, r) =~= line_at(s, r));
        } else {
            lemma_line_start_monotone(s, row + 1, r);
            lemma_next_newline(s, ls);
            assert(line_at(s2, r) =~= line_at(s, r));
        }
    }
}

proof fn lemma_line_start_insert_nl_suffix(s: Seq<char>, p: int, row: int, r: int)
    requires
        0 <= row < line_count(s),
        line_start(s, row) <= p <= line_start(s, row) + line_len(s, row),
        row + 1 <= r < line_count(s) + 1,
    ensures
        r == row + 1 ==> line_start(s.insert(p, '\n'), r) == p + 1,
        r > row + 1 ==> line_start(s.insert(p, '\n'), r) == line_start(s, r - 1) + 1,
    decreases r,
{
    let s2 = s.insert(p, '\n');
    lemma_line_start_props(s, row);
    let ls = line_start(s, row);
    lemma_next_newline(s, ls);
    if r == row + 1 {
        lemma_line_start_insert_prefix(s, p, '\n', row, row);
        lemma_next_newline_insert_before(s, p, '\n', ls);
    } else if r == row + 2 {
        lemma_line_start_insert_nl_suffix(s, p, row, row + 1);
        lemma_next_newline_inside(s, ls, p);
        lemma_next_newline_insert_after(s, p, '\n', p + 1);
    } else {
        lemma_line_start_insert_nl_suffix(s, p, row, r - 1);
        lemma_line_start_monotone(s, row + 1, r - 2);
        lemma_line_start_props(s, r - 2);
        lemma_next_newline_insert_after(s, p, '\n', line_start(s, r - 2) + 1);
    }
}

/// Full line-structure characterization of inserting a newline at position
/// `p` of line `row`: the line splits in two.
#[verifier::rlimit(100)]
pub proof fn lemma_insert_newline(s: Seq<char>, p: int, row: int)
    requires
        0 <= row < line_count(s),
        line_start(s, row) <= p <= line_start(s, row) + line_len(s, row),
    ensures
        line_count(s.insert(p, '\n')) == line_count(s) + 1,
        forall|r: int|
            0 <= r <= row ==> #[trigger] line_start(s.insert(p, '\n'), r) == line_start(s, r),
        line_start(s.insert(p, '\n'), row + 1) == p + 1,
        line_len(s.insert(p, '\n'), row) == p - line_start(s, row),
        line_len(s.insert(p, '\n'), row + 1) == line_start(s, row) + line_len(s, row) - p,
        line_at(s.insert(p, '\n'), row) == line_at(s, row).take(p - line_start(s, row)),
        line_at(s.insert(p, '\n'), row + 1) == line_at(s, row).skip(p - line_start(s, row)),
        forall|r: int|
            0 <= r < row ==> #[trigger] line_len(s.insert(p, '\n'), r) == line_len(s, r),
        forall|r: int| 0 <= r < row ==> #[trigger] line_at(s.insert(p, '\n'), r) == line_at(s, r),
        forall|r: int|
            row + 1 < r < line_count(s) + 1 ==> #[trigger] line_start(s.insert(p, '\n'), r)
                == line_start(s, r - 1) + 1,
        forall|r: int|
            row + 1 < r < line_count(s) + 1 ==> #[trigger] line_len(s.insert(p, '\n'), r)
                == line_len(s, r - 1),
        forall|r: int|
            row + 1 < r < line_count(s) + 1 ==> #[trigger] line_at(s.insert(p, '\n'), r)
                == line_at(s, r - 1),
{
    lemma_line_start_props(s, row);
    let s2 = s.insert(p, '\n');
    s.insert_ensures(p, '\n');
    let ls = line_start(s, row);
    let ll = line_len(s, row);

    // one more newline, one more line
    assert(s2 =~= s.take(p).push('\n') + s.skip(p));
    lemma_newline_count_concat(s.take(p).push('\n'), s.skip(p));
    assert(s.take(p).push('\n').drop_last() =~= s.take(p));
    lemma_newline_count_concat(s.take(p), s.skip(p));
    assert(s.take(p) + s.skip(p) =~= s);

    assert forall|r: int| 0 <= r <= row implies #[trigger] line_start(s2, r) == line_start(
        s,
        r,
    ) by {
        lemma_line_start_insert_prefix(s, p, '\n', row, r);
    }
    lemma_line_start_insert_nl_suffix(s, p, row, row + 1);
    assert forall|r: int| row + 1 < r < line_count(s) + 1 implies #[trigger] line_start(s2, r)
        == line_start(s, r - 1) + 1 by {
        lemma_line_start_insert_nl_suffix(s, p, row, r);
    }

    // lengths around the split point
    lemma_next_newline(s, ls);
    lemma_next_newline_insert_before(s, p, '\n', ls);
    lemma_next_newline_inside(s, ls, p);
    lemma_next_newline_insert_after(s, p, '\n', p + 1);
    assert(line_len(s2, row) == p - ls);
    assert(line_len(s2, row + 1) == ls + ll - p);
    assert(line_at(s2, row) =~= line_at(s, row).take(p - ls));
    assert(line_at(s2, row + 1) =~= line_at(s, row).skip(p - ls));

    // earlier rows unchanged
    assert forall|r: int| 0 <= r < row implies #[trigger] line_len(s2, r) == line_len(s, r) by {
        lemma_line_start_props(s, r);
        lemma_line_start_monotone(s, r, row);
        lemma_next_newline_insert_before(s, p, '\n', line_start(s, r));
    }
    assert forall|r: int| 0 <= r < row implies #[trigger] line_at(s2, r) == line_at(s, r) by {
        lemma_line_start_props(s, r);
        lemma_line_start_monotone(s, r, row);
        lemma_next_newline_insert_before(s, p, '\n', line_start(s, r));
        assert(line_at(s2, r) =~= line_at(s, r));
    }

    // later rows shifted by one position and one index
    assert forall|r: int| row + 1 < r < line_count(s) + 1 implies #[trigger] line_len(s2, r)
        == line_len(s, r - 1) by {
        lemma_line_start_props(s, r - 1);
        lemma_line_start_monotone(s, row + 1, r - 1);
        lemma_next_newline_insert_after(s, p, '\n', line_start(s, r - 1) + 1);
    }
    assert forall|r: int| row + 1 < r < line_count(s) + 1 implies #[trigger] line_at(s2, r)
        == line_at(s, r - 1) by {
        lemma_line_start_props(s, r - 1);
        lemma_line_start_monotone(s, row + 1, r - 1);
        lemma_next_newline_insert_after(s, p, '\n', line_start(s, r - 1) + 1);
        assert(line_at(s2, r) =~= line_at(s, r - 1));
    }
}

/// How `next_newline` changes when the character at `i` is removed, for
/// starting points at or before `i`.
proof fn lemma_next_newline_remove_before(s: Seq<char>, i: int, from: int)
    requires
        0 <= from <= i < s.len(),
    ensures
        next_newline(s, from) < i ==> next_newline(s.remove(i), from) == next_newline(s, from),
        next_newline(s, from) >= i ==> next_newline(s.remove(i), from) == next_newline(s, i + 1)
            - 1,
    decreases i - from,
{
    let s3 = s.remove(i);
    s.remove_ensures(i);
    lemma_next_newline(s, from);
    if from == i {
        lemma_next_newline_remove_after(s, i, i + 1);
    } else {
        if s[from] != '\n' {
            lemma_next_newline_remove_before(s, i, from + 1);
        }
    }
}

/// How `next_newline` changes when the character at `i` is removed, for
/// starting points strictly after `i`; stated on the shifted index.
proof fn lemma_next_newline_remove_after(s: Seq<char>, i: int, from: int)
    requires
        0 <= i < from <= s.len(),
    ensures
        next_newline(s.remove(i), from - 1) == next_newline(s, from) - 1,
    decreases s.len() - from,
{
    let s3 = s.remove(i);
    s.remove_ensures(i);
    if from < s.len() && s[from] != '\n' {
        lemma_next_newline_remove_after(s, i, from + 1);
    }
}

proof fn lemma_line_start_remove_prefix(s: Seq<char>, i: int, row: int, r: int)
    requires
        0 <= row < line_count(s),
        line_start(s, row) <= i < s.len(),
        0 <= r <= row,
    ensures
        line_start(s.remove(i), r) == line_start(s, r),
    decreases r,
{
    if r > 0 {
        lemma_line_start_remove_prefix(s, i, row, r - 1);
        lemma_line_start_monotone(s, r - 1, row);
        lemma_line_start_props(s, r - 1);
        lemma_next_newline_remove_before(s, i, line_start(s, r - 1));
    }
}

proof fn lemma_line_start_remove_suffix_char(s: Seq<char>, i: int, row: int, r: int)
    requires
        0 <= row < line_count(s),
        line_start(s, row) <= i < line_start(s, row) + line_len(s, row),
        row < r < line_count(s),
    ensures
        line_start(s.remove(i), r) == line_start(s, r) - 1,
    decreases r,
{
    let s3 = s.remove(i);
    lemma_line_start_props(s, row);
    let ls = line_start(s, row);
    let ll = line_len(s, row);
    lemma_next_newline(s, ls);
    if r == row + 1 {
        lemma_line_start_remove_prefix(s, i, row, row);
        lemma_next_newline_remove_before(s, i, ls);
        lemma_next_newline_inside(s, ls, i + 1);
    } else {
        lemma_line_start_remove_suffix_char(s, i, row, r - 1);
        lemma_line_start_monotone(s, row + 1, r - 1);
        lemma_line_start_props(s, r - 1);
        lemma_next_newline_remove_after(s, i, line_start(s, r - 1));
    }
}

/// Full line-structure characterization of removing the non-newline character
/// at position `i` of line `row`.
#[verifier::rlimit(100)]
pub proof fn lemma_remove_char(s: Seq<char>, i: int, row: int)
    requires
        0 <= row < line_count(s),
        line_start(s, row) <= i < line_start(s, row) + line_len(s, row),
    ensures
        line_count(s.remove(i)) == line_count(s),
        forall|r: int| 0 <= r <= row ==> #[trigger] line_start(s.remove(i), r) == line_start(s, r),
        forall|r: int|
            row < r < line_count(s) ==> #[trigger] line_start(s.remove(i), r) == line_start(s, r)
                - 1,
        line_len(s.remove(i), row) == line_len(s, row) - 1,
        forall|r: int|
            0 <= r < line_count(s) && r != row ==> #[trigger] line_len(s.remove(i), r) == line_len(
                s,
                r,
            ),
        line_at(s.remove(i), row) == line_at(s, row).remove(i - line_start(s, row)),
        forall|r: int|
            0 <= r < line_count(s) && r != row ==> #[trigger] line_at(s.remove(i), r) == line_at(
                s,
                r,
            ),
{
    lemma_line_start_props(s, row);
    let s3 = s.remove(i);
    s.remove_ensures(i);
    let ls = line_start(s, row);
    let ll = line_len(s, row);
    lemma_next_newline(s, ls);

    // newline counts agree: the removed character is not a newline
    assert(s =~= s.take(i + 1) + s.skip(i + 1));
    lemma_newline_count_concat(s.take(i + 1), s.skip(i + 1));
    lemma_newline_count_take_step(s, i);
    assert(s3 =~= s.take(i) + s.skip(i + 1));
    lemma_newline_count_concat(s.take(i), s.skip(i + 1));

    assert forall|r: int| 0 <= r <= row implies #[trigger] line_start(s3, r) == line_start(
        s,
        r,
    ) by {
        lemma_line_start_remove_prefix(s, i, row, r);
    }
    assert forall|r: int| row < r < line_count(s) implies #[trigger] line_start(s3, r)
        == line_start(s, r) - 1 by {
        lemma_line_start_remove_suffix_char(s, i, row, r);
    }

    // length of the edited row
    lemma_next_newline_remove_before(s, i, ls);
    lemma_next_newline_inside(s, ls, i + 1);
    assert(line_len(s3, row) == ll - 1);
    assert(line_at(s3, row) =~= line_at(s, row).remove(i - ls));

    // other rows unchanged
    assert forall|r: int| 0 <= r < line_count(s) && r != row implies #[trigger] line_len(s3, r)
        == line_len(s, r) by {
        lemma_line_start_props(s, r);
        if r < row {
            lemma_line_start_monotone(s, r, row);
            lemma_next_newline_remove_before(s, i, line_start(s, r));
        } else {
            lemma_line_start_monotone(s, row + 1, r);
            lemma_next_newline_remove_after(s, i, line_start(s, r));
        }
    }
    assert forall|r: int| 0 <= r < line_count(s) && r != row implies #[trigger] line_at(s3, r)
        == line_at(s, r) by {
        lemma_line_start_props(s, r);
        if r < row {
            lemma_line_start_monotone(s, r, row);
            lemma_next_newline_remove_before(s, i, line_start(s, r));
            assert(line_at(s3, r) =~= line_at(s, r));
        } else {
            lemma_line_start_monotone(s, row + 1, r);
            lemma_next_newline_remove_after(s, i, line_start(s, r));
            assert(line_at(s3, r) =~= line_at(s, r));
        }
    }
}

proof fn lemma_line_start_remove_suffix_nl(s: Seq<char>, row: int, r: int)
    requires
        0 <= row < line_count(s) - 1,
        row < r < line_count(s) - 1,
    ensures
        line_start(s.remove(line_start(s, row) + line_len(s, row)), r) == line_start(s, r + 1) - 1,
    decreases r,
{
    lemma_line_start_props(s, row);
    let ls = line_start(s, row);
    let ll = line_len(s, row);
    let i = ls + ll;
    let s3 = s.remove(i);
    lemma_next_newline(s, ls);
    lemma_line_start_props(s, row + 1);
    if r == row + 1 {
        lemma_line_start_remove_prefix(s, i, row, row);
        lemma_next_newline_remove_before(s, i, ls);
        lemma_next_newline(s, i + 1);
    } else {
        lemma_line_start_remove_suffix_nl(s, row, r - 1);
        lemma_line_start_monotone(s, row + 1, r);
        lemma_line_start_props(s, r);
        lemma_next_newline_remove_after(s, i, line_start(s, r));
    }
}

/// Full line-structure characterization of removing the newline that ends
/// line `row`: lines `row` and `row + 1` join.
#[verifier::rlimit(100)]
pub proof fn lemma_remove_newline(s: Seq<char>, row: int)
    requires
        0 <= row < line_count(s) - 1,
    ensures
        line_count(s.remove(line_start(s, row) + line_len(s, row))) == line_count(s) - 1,
        forall|r: int|
            0 <= r <= row ==> #[trigger] line_start(
                s.remove(line_start(s, row) + line_len(s, row)),
                r,
            ) == line_start(s, r),
        line_len(s.remove(line_start(s, row) + line_len(s, row)), row) == line_len(s, row)
            + line_len(s, row + 1),
        line_at(s.remove(line_start(s, row) + line_len(s, row)), row) == line_at(s, row) + line_at(
            s,
            row + 1,
        ),
        forall|r: int|
            0 <= r < row ==> #[trigger] line_len(s.remove(line_start(s, row) + line_len(s, row)), r)
                == line_len(s, r),
        forall|r: int|
            0 <= r < row ==> #[trigger] line_at(s.remove(line_start(s, row) + line_len(s, row)), r)
                == line_at(s, r),
        forall|r: int|
            row < r < line_count(s) - 1 ==> #[trigger] line_start(
                s.remove(line_start(s, row) + line_len(s, row)),
                r,
            ) == line_start(s, r + 1) - 1,
        forall|r: int|
            row < r < line_count(s) - 1 ==> #[trigger] line_len(
                s.remove(line_start(s, row) + line_len(s, row)),
                r,
            ) == line_len(s, r + 1),
        forall|r: int|
            row < r < line_count(s) - 1 ==> #[trigger] line_at(
                s.remove(line_start(s, row) + line_len(s, row)),
                r,
            ) == line_at(s, r + 1),
{
    lemma_line_start_props(s, row);
    lemma_line_start_props(s, row + 1);
    let ls = line_start(s, row);
    let ll = line_len(s, row);
    let i = ls + ll;
    let s3 = s.remove(i);
    s.remove_ensures(i);
    lemma_next_newline(s, ls);
    lemma_next_newline(s, i + 1);

    // one newline fewer, one line fewer
    assert(s =~= s.take(i + 1) + s.skip(i + 1));
    lemma_newline_count_concat(s.take(i + 1), s.skip(i + 1));
    lemma_newline_count_take_step(s, i);
    assert(s3 =~= s.take(i) + s.skip(i + 1));
    lemma_newline_count_concat(s.take(i), s.skip(i + 1));

    assert forall|r: int| 0 <= r <= row implies #[trigger] line_start(s3, r) == line_start(
        s,
        r,
    ) by {
        lemma_line_start_remove_prefix(s, i, row, r);
    }
    assert forall|r: int| row < r < line_count(s) - 1 implies #[trigger] line_start(s3, r)
        == line_start(s, r + 1) - 1 by {
        lemma_line_start_remove_suffix_nl(s, row, r);
    }

    // the joined row
    lemma_next_newline_remove_before(s, i, ls);
    assert(line_len(s3, row) == ll + line_len(s, row + 1));
    assert(line_at(s3, row) =~= line_at(s, row) + line_at(s, row + 1));

    // earlier rows unchanged
    assert forall|r: int| 0 <= r < row implies #[trigger] line_len(s3, r) == line_len(s, r) by {
        lemma_line_start_props(s, r);
        lemma_line_start_monotone(s, r, row);
        lemma_next_newline_remove_before(s, i, line_start(s, r));
    }
    assert forall|r: int| 0 <= r < row implies #[trigger] line_at(s3, r) == line_at(s, r) by {
        lemma_line_start_props(s, r);
        lemma_line_start_monotone(s, r, row);
        lemma_next_newline_remove_before(s, i, line_start(s, r));
        assert(line_at(s3, r) =~= line_at(s, r));
    }

    // later rows shifted down
    assert forall|r: int| row < r < line_count(s) - 1 implies #[trigger] line_len(s3, r)
        == line_len(s, r + 1) by {
        lemma_line_start_props(s, r + 1);
        lemma_line_start_monotone(s, row + 1, r + 1);
        lemma_next_newline_remove_after(s, i, line_start(s, r + 1));
    }
    assert forall|r: int| row < r < line_count(s) - 1 implies #[trigger] line_at(s3, r)
        == line_at(s, r + 1) by {
        lemma_line_start_props(s, r + 1);
        lemma_line_start_monotone(s, row + 1, r + 1);
        lemma_next_newline_remove_after(s, i, line_start(s, r + 1));
        assert(line_at(s3, r) =~= line_at(s, r + 1));
    }
}

/// The row that the character at offset `pos` lies on: the number of
/// newlines before it.
pub open spec fn row_of(s: Seq<char>, pos: int) -> int {
    newline_count(s.take(pos))
}

/// Prefix newline counts are monotone.
pub proof fn lemma_newline_count_take_monotone(s: Seq<char>, a: int, b: int)
    requires
        0 <= a <= b <= s.len(),
    ensures
        newline_count(s.take(a)) <= newline_count(s.take(b)),
    decreases b - a,
{
    if a < b {
        lemma_newline_count_take_monotone(s, a, b - 1);
        lemma_newline_count_take_step(s, b - 1);
    }
}

/// The character at `pos` lies on row `row_of(s, pos)`, at a column within
/// that row's length.
pub proof fn lemma_row_of_props(s: Seq<char>, pos: int)
    requires
        0 <= pos <= s.len(),
    ensures
        0 <= row_of(s, pos) < line_count(s),
        line_start(s, row_of(s, pos)) <= pos,
        pos - line_start(s, row_of(s, pos)) <= line_len(s, row_of(s, pos)),
{
    let row = row_of(s, pos);
    lemma_newline_count_nonneg(s.take(pos));
    lemma_newline_count_prefix_le(s, pos);
    lemma_line_start_props(s, row);
    let ls = line_start(s, row);
    if ls > pos {
        // the newline just before the row start would be an extra break
        lemma_newline_count_take_monotone(s, pos, ls - 1);
        lemma_newline_count_take_step(s, ls - 1);
        assert(false);
    }
    let ll = line_len(s, row);
    if pos > ls + ll {
        lemma_next_newline(s, ls);
        lemma_newline_count_take_step(s, ls + ll);
        lemma_newline_count_flat_range(s, ls, ls + ll);
        lemma_newline_count_take_monotone(s, ls + ll + 1, pos);
        assert(false);
    }
}

/// The byte length of a sequence is the length of its UTF-8 encoding.
pub proof fn lemma_utf8_len_is_encoding_len(s: Seq<char>)
    ensures
        utf8_len(s) == vstd::utf8::encode_utf8(s).len(),
    decreases s.len(),
{
    if s.len() > 0 {
        vstd::utf8::char_is_scalar(s[0]);
        lemma_utf8_len_is_encoding_len(s.drop_first());
    }
}

/// Byte lengths of characters are at least one.
pub proof fn lemma_utf8_len_bounds(s: Seq<char>)
    ensures
        s.len() <= utf8_len(s),
        0 <= utf8_len(s),
    decreases s.len(),
{
    if s.len() > 0 {
        lemma_utf8_len_bounds(s.drop_first());
    }
}

/// Bounds of `char_of_byte`: it stays within the character count, starts at
/// zero, and reaches the character count at or past the end of the encoding.
pub proof fn lemma_char_of_byte_bounds(s: Seq<char>, b: int)
    requires
        0 <= b,
    ensures
        0 <= char_of_byte(s, b) <= s.len(),
        b == 0 ==> char_of_byte(s, b) == 0,
        b >= utf8_len(s) ==> char_of_byte(s, b) == s.len(),
    decreases s.len(),
{
    if s.len() > 0 {
        lemma_utf8_len_bounds(s.drop_first());
        if b >= char_utf8_len(s[0]) {
            lemma_char_of_byte_bounds(s.drop_first(), b - char_utf8_len(s[0]));
        }
    }
}

/// `char_of_byte` is monotone in the byte offset.
pub proof fn lemma_char_of_byte_monotone(s: Seq<char>, b1: int, b2: int)
    requires
        0 <= b1 <= b2,
    ensures
        char_of_byte(s, b1) <= char_of_byte(s, b2),
    decreases s.len(),
{
    if s.len() > 0 && b1 >= char_utf8_len(s[0]) {
        lemma_char_of_byte_monotone(s.drop_first(), b1 - char_utf8_len(s[0]), b2 - char_utf8_len(
            s[0],
        ));
    } else {
        lemma_char_of_byte_bounds(s, b2);
    }
}

} // verus!
