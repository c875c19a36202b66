//! Viewport geometry: element rectangles, scroll offsets, and which lines
//! are visible.
//!
//! All geometry is in integer pixels. Scroll offsets are non-positive: the
//! content is shifted up and left. The vertical offset is clamped so that at
//! least the last three lines stay reachable; the horizontal offset is
//! clamped so that the widest measured line stays at least partially
//! reachable, and never scrolls past zero.

use vstd::math::{max, min};
use vstd::prelude::*;

verus! {

/// A screen-space rectangle an element occupies.
#[derive(Clone, Copy, Debug)]
pub struct Dimensions {
    pub x: u32,
    pub y: u32,
    pub width: u32,
    pub height: u32,
}

/// A scissor region: the pixel rectangle a draw call is clipped to.
#[derive(Clone, Copy, Debug)]
pub struct Region {
    pub x: u32,
    pub y: u32,
    pub width: u32,
    pub height: u32,
}

/// Whether the rectangle contains the point, edges included.
pub open spec fn contains_spec(d: Dimensions, px: int, py: int) -> bool {
    d.x <= px <= d.x + d.width && d.y <= py <= d.y + d.height
}

impl Dimensions {
    /// Hit test: the position relative to this rectangle's origin when the
    /// rectangle contains it, and `None` otherwise.
    pub fn contains(&self, px: u32, py: u32) -> (r: Option<(u32, u32)>)
        ensures
            (r is Some) <==> contains_spec(*self, px as int, py as int),
            r is Some ==> r == Some((((px - self.x) as u32, (py - self.y) as u32))),
    {
        if px >= self.x && py >= self.y {
            let end_x = (self.x as u64) + (self.width as u64);
            let end_y = (self.y as u64) + (self.height as u64);
            if (px as u64) <= end_x && (py as u64) <= end_y {
                Some((px - self.x, py - self.y))
            } else {
                None
            }
        } else {
            None
        }
    }
}

impl From<Dimensions> for Region {
    /// A region covering exactly the rectangle.
    fn from(item: Dimensions) -> (r: Region) {
        Region { x: item.x, y: item.y, width: item.width, height: item.height }
    }
}

impl vstd::std_specs::convert::FromSpecImpl<Dimensions> for Region {
    open spec fn obeys_from_spec() -> bool {
        true
    }

    open spec fn from_spec(item: Dimensions) -> Region {
        Region { x: item.x, y: item.y, width: item.width, height: item.height }
    }
}

/// How far down the content may be scrolled, in pixels: the height of all
/// lines but the last three, and zero for short buffers. Saturates at
/// `i64::MAX` so an offset always fits its machine type.
pub open spec fn y_scroll_limit(lines: int, line_height: int) -> int {
    min(max((lines - 3) * line_height, 0), i64::MAX as int)
}

/// The vertical scroll offset after clamping: never positive, and never
/// further up than the scroll limit.
pub open spec fn clamp_y(y: int, lines: int, line_height: int) -> int {
    max(min(y, 0), -y_scroll_limit(lines, line_height))
}

/// How far right the content may be scrolled, in pixels: enough to bring
/// the end of the widest line into view. Saturates at `i64::MAX`.
pub open spec fn x_scroll_limit(width: int, max_line: int) -> int {
    min(max(max_line - width, 0), i64::MAX as int)
}

/// The horizontal scroll offset after clamping.
pub open spec fn clamp_x(x: int, width: int, max_line: int) -> int {
    max(min(x, 0), -x_scroll_limit(width, max_line))
}

/// First visible row: how many whole lines are scrolled off the top.
pub open spec fn visible_upper(y: int, line_height: int) -> int {
    (-y) / line_height
}

/// One past the last visible row: the first row plus however many lines fit
/// in the viewport height, capped at the line count.
pub open spec fn visible_lower(y: int, line_height: int, height: int, lines: int) -> int {
    min(lines, visible_upper(y, line_height) + (height + line_height - 1) / line_height)
}

/// Scroll state and size of one scrollable view.
pub struct Viewport {
    pub scroll_x: i64,
    pub scroll_y: i64,
    pub width: u32,
    pub height: u32,
    pub line_height: u32,
}

impl Viewport {
    /// Offsets are non-positive and the line height is positive.
    pub open spec fn wf(self) -> bool {
        &&& self.line_height >= 1
        &&& self.scroll_x <= 0
        &&& self.scroll_y <= 0
    }

    /// The vertical offset respects the clamp bound for a buffer of `lines`
    /// lines.
    pub open spec fn y_clamped(self, lines: int) -> bool {
        -y_scroll_limit(lines, self.line_height as int) <= self.scroll_y <= 0
    }

    /// A fresh viewport: unscrolled, with the given size.
    pub fn new(width: u32, height: u32, line_height: u32) -> (r: Viewport)
        requires
            line_height >= 1,
        ensures
            r.wf(),
            r.scroll_x == 0,
            r.scroll_y == 0,
            r.width == width,
            r.height == height,
            r.line_height == line_height,
    {
        Viewport { scroll_x: 0, scroll_y: 0, width, height, line_height }
    }

    /// Applies one scroll event, dominant axis only: a mostly-horizontal
    /// delta adjusts and clamps `scroll_x`, any other delta adjusts and
    /// clamps `scroll_y`.
    pub fn scroll(&mut self, dx: i64, dy: i64, lines: usize, max_line: u64)
        requires
            old(self).wf(),
        ensures
            final (self).wf(),
            final (self).width == old(self).width,
            final (self).height == old(self).height,
            final (self).line_height == old(self).line_height,
            if abs_of(dx as int) > abs_of(dy as int) {
                final (self).scroll_x == clamp_x(
                    old(self).scroll_x - dx,
                    old(self).width as int,
                    max_line as int,
                ) && final (self).scroll_y == old(self).scroll_y
            } else {
                final (self).scroll_y == clamp_y(
                    old(self).scroll_y + dy,
                    lines as int,
                    old(self).line_height as int,
                ) && final (self).scroll_x == old(self).scroll_x
            },
            !(abs_of(dx as int) > abs_of(dy as int)) ==> final (self).y_clamped(lines as int),
    {
        let wx = dx as i128;
        let wy = dy as i128;
        let ax: i128 = if wx < 0 {
            -wx
        } else {
            wx
        };
        let ay: i128 = if wy < 0 {
            -wy
        } else {
            wy
        };
        if ax > ay {
            self.scroll_x = clamp_x_exec(self.scroll_x as i128 - dx as i128, self.width, max_line);
        } else {
            self.scroll_y = clamp_y_exec(
                self.scroll_y as i128 + dy as i128,
                lines,
                self.line_height,
            );
        }
    }

    /// Re-clamps both offsets for a new viewport size, without resetting
    /// them to zero.
    pub fn resize(&mut self, width: u32, height: u32, lines: usize, max_line: u64)
        requires
            old(self).wf(),
        ensures
            final (self).wf(),
            final (self).width == width,
            final (self).height == height,
            final (self).line_height == old(self).line_height,
            final (self).scroll_x == clamp_x(old(self).scroll_x as int, width as int, max_line as int),
            final (self).scroll_y == clamp_y(
                old(self).scroll_y as int,
                lines as int,
                old(self).line_height as int,
            ),
            final (self).y_clamped(lines as int),
    {
        self.width = width;
        self.height = height;
        self.scroll_x = clamp_x_exec(self.scroll_x as i128, width, max_line);
        self.scroll_y = clamp_y_exec(self.scroll_y as i128, lines, self.line_height);
    }

    /// The half-open range of visible rows, `[upper, lower)`.
    ///
    /// The range is well-formed: `upper <= lower <= lines` whenever the
    /// vertical offset respects its clamp bound.
    pub fn visible_line_range(&self, lines: usize) -> (r: (usize, usize))
        requires
            self.wf(),
            self.y_clamped(lines as int),
            lines >= 1,
        ensures
            r.0 == visible_upper(self.scroll_y as int, self.line_height as int),
            r.1 == visible_lower(
                self.scroll_y as int,
                self.line_height as int,
                self.height as int,
                lines as int,
            ),
            r.0 <= r.1 <= lines,
    {
        proof {
            lemma_visible_range_wf(
                self.scroll_y as int,
                self.line_height as int,
                self.height as int,
                lines as int,
            );
        }
        let upper_wide: i128 = (-(self.scroll_y as i128)) / (self.line_height as i128);
        let upper = upper_wide as usize;
        let fit_wide: u64 = ((self.height as u64) + (self.line_height as u64) - 1) / (
        self.line_height as u64);
        let fit = fit_wide as usize;
        assert(upper <= lines && fit <= self.height);
        let lower = if lines - upper < fit {
            lines
        } else {
            upper + fit
        };
        (upper, lower)
    }

    /// The row a click at viewport-relative pixel height `y` lands on,
    /// before clamping to the line count.
    pub fn click_row(&self, y: u32) -> (r: u64)
        requires
            self.wf(),
            self.scroll_y > i64::MIN,
        ensures
            r == (y - self.scroll_y) / (self.line_height as int),
    {
        let shifted = (y as u64) + ((-self.scroll_y) as u64);
        shifted / (self.line_height as u64)
    }
}

/// Absolute value.
pub open spec fn abs_of(x: int) -> int {
    if x < 0 {
        -x
    } else {
        x
    }
}

pub(crate) fn clamp_y_exec(y: i128, lines: usize, line_height: u32) -> (r: i64)
    requires
        line_height >= 1,
    ensures
        r == clamp_y(y as int, lines as int, line_height as int),
{
    let rows: i128 = if lines > 3 {
        (lines - 3) as i128
    } else {
        0
    };
    assert(0 <= rows * (line_height as i128) <= 0x10000000000000000000000000i128) by (nonlinear_arith)
        requires
            0 <= rows <= 0x10000000000000000i128,
            0 <= line_height <= 0x100000000i128,
    ;
    let limit_wide: i128 = rows * (line_height as i128);
    proof {
        let l: int = lines as int;
        let lg: int = line_height as int;
        assert((rows as int) * lg == max((l - 3) * lg, 0)) by (nonlinear_arith)
            requires
                lg >= 1,
                (rows as int) == if l > 3 {
                    l - 3
                } else {
                    0
                },
        ;
    }
    let limit: i128 = if limit_wide > i64::MAX as i128 {
        i64::MAX as i128
    } else {
        limit_wide
    };
    let capped: i128 = if y > 0 {
        0
    } else {
        y
    };
    let clamped: i128 = if capped < -limit {
        -limit
    } else {
        capped
    };
    clamped as i64
}

fn clamp_x_exec(x: i128, width: u32, max_line: u64) -> (r: i64)
    ensures
        r == clamp_x(x as int, width as int, max_line as int),
{
    let over: i128 = (max_line as i128) - (width as i128);
    let limit_wide: i128 = if over > 0 {
        over
    } else {
        0
    };
    let limit: i128 = if limit_wide > i64::MAX as i128 {
        i64::MAX as i128
    } else {
        limit_wide
    };
    let capped: i128 = if x > 0 {
        0
    } else {
        x
    };
    let clamped: i128 = if capped < -limit {
        -limit
    } else {
        capped
    };
    clamped as i64
}

/// The visible range is well-formed under the clamp bound: the first
/// visible row is a real row and the range end does not precede it.
pub proof fn lemma_visible_range_wf(y: int, line_height: int, height: int, lines: int)
    requires
        line_height >= 1,
        lines >= 1,
        height >= 0,
        -y_scroll_limit(lines, line_height) <= y <= 0,
    ensures
        0 <= visible_upper(y, line_height) <= max(lines - 3, 0),
        visible_upper(y, line_height) <= visible_lower(y, line_height, height, lines) <= lines,
        (height + line_height - 1) / line_height <= height,
{
    let cap = max(lines - 3, 0);
    assert(cap * line_height >= 0 && (lines - 3) * line_height <= cap * line_height) by (nonlinear_arith)
        requires
            line_height >= 1,
            cap >= 0,
            cap >= lines - 3,
    ;
    assert(0 <= -y);
    vstd::arithmetic::div_mod::lemma_div_is_ordered(0, -y, line_height);
    assert((-y) <= cap * line_height);
    vstd::arithmetic::div_mod::lemma_div_is_ordered(-y, cap * line_height, line_height);
    vstd::arithmetic::div_mod::lemma_div_multiples_vanish(cap, line_height);
    vstd::arithmetic::div_mod::lemma_div_is_ordered(0, height + line_height - 1, line_height);
    assert((height + line_height - 1) / line_height <= height) by (nonlinear_arith)
        requires
            line_height >= 1,
            height >= 0,
    ;
}

/// Law: re-clamping an already clamped offset changes nothing, so resizing
/// twice with the same size leaves the scroll offsets unchanged.
pub proof fn lemma_resize_idempotent(
    x: int,
    y: int,
    width: int,
    max_line: int,
    lines: int,
    line_height: int,
)
    ensures
        clamp_x(clamp_x(x, width, max_line), width, max_line) == clamp_x(x, width, max_line),
        clamp_y(clamp_y(y, lines, line_height), lines, line_height) == clamp_y(
            y,
            lines,
            line_height,
        ),
{
}

} // verus!
