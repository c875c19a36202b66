use code_editor_core::buffer::TextBuffer;
use code_editor_core::code_view::{decimal_chars, Code, CodeView, Gutter};
use code_editor_core::input::{input_char, input_special, Cursor, Key};
use code_editor_core::measure::{cursor_x_position, line_length, max_line_length, measure, CharWidths};
use code_editor_core::viewport::{Dimensions, Region, Viewport};

fn mono(width: u32) -> CharWidths {
    CharWidths { widths: Vec::new(), default_width: width }
}

fn dims(x: u32, y: u32, width: u32, height: u32) -> Dimensions {
    Dimensions { x, y, width, height }
}

#[test]
fn buffer_lines_and_offsets() {
    let b = TextBuffer::new("ab\ncd\n");
    assert_eq!(b.len_chars(), 6);
    assert_eq!(b.len_lines(), 3);
    assert_eq!(b.line_to_char(0), 0);
    assert_eq!(b.line_to_char(1), 3);
    assert_eq!(b.line_to_char(2), 6);
    assert_eq!(b.line_len(0), 2);
    assert_eq!(b.line_len(2), 0);
    assert_eq!(b.line_chars(1), vec!['c', 'd']);
    assert_eq!(b.chars_range(1, 4), vec!['b', '\n', 'c']);
}

#[test]
fn buffer_char_to_line_offset() {
    let b = TextBuffer::new("ab\ncd\n");
    assert_eq!(b.char_to_line_offset(0), (0, 0));
    assert_eq!(b.char_to_line_offset(1), (0, 1));
    assert_eq!(b.char_to_line_offset(2), (0, 2));
    assert_eq!(b.char_to_line_offset(3), (1, 0));
    assert_eq!(b.char_to_line_offset(4), (1, 1));
    assert_eq!(b.char_to_line_offset(6), (2, 0));
}

#[test]
fn buffer_byte_offsets_multibyte() {
    let b = TextBuffer::new("aé\nz");
    // 'é' is two bytes in UTF-8
    assert_eq!(b.len_chars(), 4);
    assert_eq!(b.len_bytes(), 5);
    assert_eq!(b.bytes().len(), 5);
    assert_eq!(b.byte_to_char(0), 0);
    assert_eq!(b.byte_to_char(1), 1);
    assert_eq!(b.byte_to_char(2), 1);
    assert_eq!(b.byte_to_char(3), 2);
    assert_eq!(b.byte_to_char(5), 4);
}

#[test]
fn empty_buffer_has_one_empty_line() {
    let mut b = TextBuffer::new("");
    assert_eq!(b.len_chars(), 0);
    assert_eq!(b.len_lines(), 1);
    assert_eq!(b.line_len(0), 0);
    let w = mono(1);
    let mut c = Cursor::new();
    // movement on an empty buffer stays at the origin
    input_special(Key::Left, &b, &mut c, &w);
    input_special(Key::Up, &b, &mut c, &w);
    input_special(Key::Right, &b, &mut c, &w);
    input_special(Key::Down, &b, &mut c, &w);
    assert_eq!((c.row, c.column), (0, 0));
    // backspace at the very start is a no-op
    input_char('\u{7f}', &mut b, &mut c, &w);
    assert_eq!(b.len_chars(), 0);
    assert_eq!((c.row, c.column), (0, 0));
}

#[test]
fn right_at_end_of_buffer_stays_put() {
    let b = TextBuffer::new("ab");
    let w = mono(1);
    let mut c = Cursor::new();
    for _ in 0..5 {
        input_special(Key::Right, &b, &mut c, &w);
    }
    assert_eq!((c.row, c.column), (0, 2));
}

#[test]
fn measure_is_monotonic_in_column() {
    let w = CharWidths { widths: vec![5; 128], default_width: 7 };
    let line: Vec<char> = "wide text".chars().collect();
    let mut last = 0u64;
    for col in 0..=line.len() {
        let x = measure(&w, &line, col);
        assert!(x >= last);
        last = x;
    }
}

#[test]
fn measure_exact_values() {
    let mut table = vec![0u32; 128];
    table['a' as usize] = 10;
    table['b' as usize] = 20;
    let w = CharWidths { widths: table, default_width: 3 };
    let line: Vec<char> = vec!['a', 'b', 'é'];
    assert_eq!(measure(&w, &line, 0), 0);
    assert_eq!(measure(&w, &line, 1), 10);
    assert_eq!(measure(&w, &line, 2), 30);
    assert_eq!(measure(&w, &line, 3), 33);
    assert_eq!(line_length(&line, &w), 33);
}

#[test]
fn max_line_length_over_buffer() {
    let b = TextBuffer::new("ab\ncdef\nx");
    let w = mono(2);
    assert_eq!(max_line_length(&b, &w), 8);
}

#[test]
fn cursor_x_position_in_and_out_of_line() {
    let b = TextBuffer::new("ab\ncd");
    let w = mono(4);
    assert_eq!(cursor_x_position(0, 0, &b, &w), Some(0));
    assert_eq!(cursor_x_position(0, 2, &b, &w), Some(8));
    assert_eq!(cursor_x_position(0, 3, &b, &w), None);
}

#[test]
fn right_at_end_of_line_wraps_down() {
    // buffer "ab\ncd", cursor at (0,2): Right moves to (1,0)
    let b = TextBuffer::new("ab\ncd");
    let w = mono(1);
    let mut c = Cursor::new();
    input_special(Key::Right, &b, &mut c, &w);
    input_special(Key::Right, &b, &mut c, &w);
    assert_eq!((c.row, c.column), (0, 2));
    input_special(Key::Right, &b, &mut c, &w);
    assert_eq!((c.row, c.column), (1, 0));
}

#[test]
fn left_at_start_of_line_wraps_up() {
    // buffer "ab\ncd", cursor at (1,0): Left moves to (0,2)
    let b = TextBuffer::new("ab\ncd");
    let w = mono(1);
    let mut c = Cursor::new();
    for _ in 0..3 {
        input_special(Key::Right, &b, &mut c, &w);
    }
    assert_eq!((c.row, c.column), (1, 0));
    input_special(Key::Left, &b, &mut c, &w);
    assert_eq!((c.row, c.column), (0, 2));
}

#[test]
fn up_and_down_clamp_columns() {
    let b = TextBuffer::new("long line\nab\nlonger line");
    let w = mono(1);
    let mut c = Cursor::new();
    for _ in 0..6 {
        input_special(Key::Right, &b, &mut c, &w);
    }
    assert_eq!((c.row, c.column), (0, 6));
    input_special(Key::Down, &b, &mut c, &w);
    assert_eq!((c.row, c.column), (1, 2));
    input_special(Key::Down, &b, &mut c, &w);
    assert_eq!((c.row, c.column), (2, 2));
    input_special(Key::Up, &b, &mut c, &w);
    assert_eq!((c.row, c.column), (1, 2));
    input_special(Key::Up, &b, &mut c, &w);
    assert_eq!((c.row, c.column), (0, 2));
    input_special(Key::Up, &b, &mut c, &w);
    assert_eq!((c.row, c.column), (0, 0));
}

#[test]
fn backspace_removes_character_before_cursor() {
    // buffer "abc", cursor at (0,1): Backspace gives "bc", cursor (0,0)
    let mut b = TextBuffer::new("abc");
    let w = mono(1);
    let mut c = Cursor::new();
    input_special(Key::Right, &b, &mut c, &w);
    assert_eq!((c.row, c.column), (0, 1));
    input_char('\u{7f}', &mut b, &mut c, &w);
    assert_eq!(b.len_chars(), 2);
    assert_eq!(b.line_chars(0), vec!['b', 'c']);
    assert_eq!((c.row, c.column), (0, 0));
}

#[test]
fn backspace_at_line_start_joins_lines() {
    let mut b = TextBuffer::new("ab\ncd");
    let w = mono(1);
    let mut c = Cursor::new();
    for _ in 0..3 {
        input_special(Key::Right, &b, &mut c, &w);
    }
    assert_eq!((c.row, c.column), (1, 0));
    input_char('\u{7f}', &mut b, &mut c, &w);
    assert_eq!(b.len_lines(), 1);
    assert_eq!(b.line_chars(0), vec!['a', 'b', 'c', 'd']);
    assert_eq!((c.row, c.column), (0, 2));
}

#[test]
fn enter_splits_line_and_moves_down() {
    let mut b = TextBuffer::new("abcd");
    let w = mono(1);
    let mut c = Cursor::new();
    input_special(Key::Right, &b, &mut c, &w);
    input_special(Key::Right, &b, &mut c, &w);
    input_char('\r', &mut b, &mut c, &w);
    assert_eq!(b.len_lines(), 2);
    assert_eq!(b.line_chars(0), vec!['a', 'b']);
    assert_eq!(b.line_chars(1), vec!['c', 'd']);
    assert_eq!((c.row, c.column), (1, 0));
}

#[test]
fn insert_then_backspace_round_trips() {
    // inserting a character and pressing Backspace restores buffer and cursor
    let mut b = TextBuffer::new("hello");
    let w = mono(1);
    let mut c = Cursor::new();
    input_special(Key::Right, &b, &mut c, &w);
    input_special(Key::Right, &b, &mut c, &w);
    input_char('x', &mut b, &mut c, &w);
    assert_eq!(b.line_chars(0), vec!['h', 'e', 'x', 'l', 'l', 'o']);
    assert_eq!((c.row, c.column), (0, 3));
    input_char('\u{7f}', &mut b, &mut c, &w);
    assert_eq!(b.line_chars(0), vec!['h', 'e', 'l', 'l', 'o']);
    assert_eq!((c.row, c.column), (0, 2));
}

#[test]
fn insert_newline_then_backspace_round_trips() {
    let mut b = TextBuffer::new("hello");
    let w = mono(1);
    let mut c = Cursor::new();
    input_special(Key::Right, &b, &mut c, &w);
    input_char('\r', &mut b, &mut c, &w);
    assert_eq!(b.len_lines(), 2);
    input_char('\u{7f}', &mut b, &mut c, &w);
    assert_eq!(b.len_lines(), 1);
    assert_eq!(b.line_chars(0), vec!['h', 'e', 'l', 'l', 'o']);
    assert_eq!((c.row, c.column), (0, 1));
}

#[test]
fn escape_changes_nothing() {
    let mut b = TextBuffer::new("ab");
    let w = mono(1);
    let mut c = Cursor::new();
    input_special(Key::Right, &b, &mut c, &w);
    let before = (c.row, c.column, c.x_offset);
    input_char('\u{1b}', &mut b, &mut c, &w);
    assert_eq!(b.len_chars(), 2);
    assert_eq!((c.row, c.column, c.x_offset), before);
}

#[test]
fn x_offset_tracks_widths() {
    let b = TextBuffer::new("ab");
    let mut table = vec![0u32; 128];
    table['a' as usize] = 11;
    table['b' as usize] = 13;
    let w = CharWidths { widths: table, default_width: 1 };
    let mut c = Cursor::new();
    input_special(Key::Right, &b, &mut c, &w);
    assert_eq!(c.x_offset, 11);
    input_special(Key::Right, &b, &mut c, &w);
    assert_eq!(c.x_offset, 24);
    input_special(Key::Left, &b, &mut c, &w);
    assert_eq!(c.x_offset, 11);
}

#[test]
fn scroll_clamps_vertical_offset() {
    // 5 lines, lineHeight 40, viewportHeight 200: delta -500 clamps y to -80
    let w = mono(8);
    let mut code = Code::new(
        TextBuffer::new("a\nb\nc\nd\ne"),
        w,
        40,
        dims(0, 0, 400, 200),
        None,
    );
    code.scroll(0, -500);
    assert_eq!(code.viewport.scroll_y, -80);
}

#[test]
fn scroll_up_clamps_to_zero() {
    let w = mono(8);
    let mut code = Code::new(
        TextBuffer::new("a\nb\nc\nd\ne"),
        w,
        40,
        dims(0, 0, 400, 200),
        None,
    );
    code.scroll(0, -500);
    code.scroll(0, 1000);
    assert_eq!(code.viewport.scroll_y, 0);
}

#[test]
fn scroll_horizontal_dominant_axis() {
    let w = mono(10);
    // widest line: 10 chars * 10 px = 100 px, viewport width 50
    let mut code = Code::new(
        TextBuffer::new("0123456789\nab"),
        w,
        10,
        dims(0, 0, 50, 100),
        None,
    );
    code.scroll(200, 10);
    assert_eq!(code.viewport.scroll_x, -50);
    assert_eq!(code.viewport.scroll_y, 0);
}

#[test]
fn resize_is_idempotent_on_offsets() {
    let mut v = Viewport::new(100, 100, 10);
    v.scroll(0, -1000, 8, 500);
    let mut v2 = v;
    v2.resize(300, 120, 8, 500);
    let after_once = (v2.scroll_x, v2.scroll_y);
    v2.resize(300, 120, 8, 500);
    assert_eq!((v2.scroll_x, v2.scroll_y), after_once);
}

#[test]
fn visible_range_stays_within_line_count() {
    let w = mono(8);
    let mut code = Code::new(
        TextBuffer::new("a\nb\nc\nd\ne\nf\ng\nh"),
        w,
        10,
        dims(0, 0, 100, 35),
        None,
    );
    for dy in [-25i64, -500, 7, 1000, -3] {
        code.scroll(0, dy);
        let (upper, lower) = code.visible_range();
        assert!(upper <= lower);
        assert!(lower <= 8);
    }
}

#[test]
fn visible_range_exact_values() {
    let mut v = Viewport::new(100, 200, 40);
    v.scroll(0, -80, 5, 100);
    assert_eq!(v.scroll_y, -80);
    assert_eq!(v.visible_line_range(5), (2, 5));
}

#[test]
fn click_resolves_pixel_row() {
    // click at y = lineHeight * 1.5 on a 3-line buffer, no scroll: row 1
    let w = mono(10);
    let mut code = Code::new(
        TextBuffer::new("aa\nbb\ncc"),
        w,
        40,
        dims(0, 0, 400, 200),
        None,
    );
    code.click(0, 60);
    assert_eq!(code.cursor.row, 1);
}

#[test]
fn click_selects_column_by_advance() {
    let w = mono(10);
    let mut code = Code::new(
        TextBuffer::new("abcd"),
        w,
        10,
        dims(0, 0, 400, 100),
        None,
    );
    // glyph columns sit at 0, 10, 20, 30: the first column past x=25 is 3
    code.click(25, 5);
    assert_eq!((code.cursor.row, code.cursor.column), (0, 3));
    // a click far right of the text clamps to the end of the line
    code.click(4000, 5);
    assert_eq!((code.cursor.row, code.cursor.column), (0, 4));
}

#[test]
fn click_below_last_line_clamps_row() {
    let w = mono(10);
    let mut code = Code::new(
        TextBuffer::new("aa\nbb"),
        w,
        10,
        dims(0, 0, 400, 100),
        None,
    );
    code.click(0, 95);
    assert_eq!(code.cursor.row, 1);
}

#[test]
fn cursor_rect_formula() {
    let w = mono(10);
    let mut code = Code::new(
        TextBuffer::new("abcd\nefgh\nij\nkl"),
        w,
        10,
        dims(7, 3, 400, 20),
        None,
    );
    code.input_special(Key::Right);
    code.input_special(Key::Down);
    code.scroll(0, -10);
    let (x, y, cw, ch) = code.cursor_rect();
    assert_eq!(x, 7 + 0 + 10);
    assert_eq!(y, 3 - 10 + 10);
    assert_eq!((cw, ch), (4, 10));
}

#[test]
fn redraw_origin_tracks_scroll_phase() {
    let w = mono(10);
    let mut code = Code::new(
        TextBuffer::new("a\nb\nc\nd\ne\nf\ng\nh"),
        w,
        40,
        dims(5, 2, 400, 100),
        None,
    );
    code.scroll(0, -90);
    // 90 px of scroll cut 2 whole lines and 10 px of the third
    assert_eq!(code.viewport.scroll_y, -90);
    assert_eq!(code.redraw_origin(), (5, 2 - 10));
}

#[test]
fn dimensions_contains_and_relative() {
    let d = dims(10, 20, 30, 40);
    assert_eq!(d.contains(10, 20), Some((0, 0)));
    assert_eq!(d.contains(25, 45), Some((15, 25)));
    assert_eq!(d.contains(40, 60), Some((30, 40)));
    assert_eq!(d.contains(9, 30), None);
    assert_eq!(d.contains(41, 30), None);
    assert_eq!(d.contains(30, 61), None);
}

#[test]
fn region_from_dimensions_copies_fields() {
    let r = Region::from(dims(1, 2, 3, 4));
    assert_eq!((r.x, r.y, r.width, r.height), (1, 2, 3, 4));
}

#[test]
fn decimal_rendering() {
    assert_eq!(decimal_chars(0), vec!['0']);
    assert_eq!(decimal_chars(7), vec!['7']);
    assert_eq!(decimal_chars(1234), vec!['1', '2', '3', '4']);
    assert_eq!(decimal_chars(100), vec!['1', '0', '0']);
}

#[test]
fn gutter_line_numbers_are_one_based() {
    let w = mono(5);
    let g = Gutter::new(&w, 10, dims(0, 0, 100, 100), 12);
    let nums = g.line_numbers(2, 5);
    assert_eq!(nums.len(), 3);
    assert_eq!(nums[0], vec!['3']);
    assert_eq!(nums[1], vec!['4']);
    assert_eq!(nums[2], vec!['5']);
}

#[test]
fn gutter_width_tracks_number_width() {
    let w = mono(6);
    // 12 lines: widest rendered number below the count is "10" (2 digits)
    let g = Gutter::new(&w, 10, dims(0, 0, 100, 100), 12);
    assert_eq!(g.dimensions.width, 2 * 6 + 10 + 10);
}

#[test]
fn code_view_places_code_after_gutter() {
    let w = mono(6);
    let view = CodeView::new("a\nb\nc", w, 10, dims(0, 0, 300, 100), None);
    assert_eq!(view.code.dimensions.x, view.gutter.dimensions.width);
    assert_eq!(
        view.code.dimensions.width,
        300 - view.gutter.dimensions.width
    );
}

#[test]
fn code_view_scroll_keeps_gutter_in_step() {
    let w = mono(6);
    let mut view = CodeView::new("a\nb\nc\nd\ne\nf\ng\nh", w, 10, dims(0, 0, 300, 40), None);
    view.scroll(0, -25);
    assert_eq!(view.code.viewport.scroll_y, -25);
    assert_eq!(view.gutter.scroll_offset_y, -25);
}
