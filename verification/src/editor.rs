//! The editor's top level: the tab strip of open buffers and the event
//! dispatcher that routes resize, scroll, click and key events to the file
//! tree or to the active code view.

use crate::code_view::{sat_u32, CodeView};
use crate::fs_tree::{FsTree, TreeEntry};
use crate::highlight::Config;
use crate::input::{edit_cursor_spec, edit_text_spec, Key};
use crate::measure::CharWidths;
use crate::code_view::click_col_spec;
use crate::input::move_spec;
use crate::measure::max_line_width;
use crate::text::{line_at, line_count};
use crate::viewport::{clamp_x, clamp_y, contains_spec, Dimensions};
use vstd::math::min;
use vstd::prelude::*;

verus! {

/// Height of the tab strip, in pixels.
pub const TAB_HEIGHT: u32 = 50;

/// Horizontal padding inside a tab, in pixels.
pub const TAB_PADDING: u32 = 15;

/// The first tab whose rectangle contains the strip-relative position
/// `(rx, 0)`, scanning from index `n`.
pub open spec fn first_tab_hit(
    tabs: Seq<(String, Dimensions, CodeView)>,
    rx: int,
    n: int,
) -> Option<int>
    decreases tabs.len() - n,
{
    if n < 0 || n >= tabs.len() {
        None
    } else if contains_spec(tabs[n].1, rx, 0) {
        Some(n)
    } else {
        first_tab_hit(tabs, rx, n + 1)
    }
}

/// The open buffers: one named code view per tab, at most one active.
pub struct CodeViewTabs {
    pub font_height: u32,
    pub code_views: Vec<(String, Dimensions, CodeView)>,
    pub active: Option<usize>,
    pub tabs_container: Dimensions,
    pub dimensions: Dimensions,
}

impl CodeViewTabs {
    /// The active index is in range and every open view is consistent.
    pub open spec fn wf(self) -> bool {
        &&& self.font_height >= 1
        &&& (self.active matches Some(i) ==> i < self.code_views@.len())
        &&& (forall|i: int|
            0 <= i < self.code_views@.len() ==> (#[trigger] self.code_views@[i]).2.wf())
    }

    /// An empty tab strip over the given rectangle.
    pub fn new(font_height: u32, dimensions: Dimensions) -> (r: CodeViewTabs)
        requires
            font_height >= 1,
        ensures
            r.wf(),
            r.code_views@.len() == 0,
            r.active is None,
            r.dimensions == dimensions,
            r.font_height == font_height,
            r.tabs_container == (Dimensions { height: TAB_HEIGHT, ..dimensions }),
    {
        CodeViewTabs {
            font_height,
            code_views: Vec::new(),
            active: None,
            tabs_container: Dimensions { height: TAB_HEIGHT, ..dimensions },
            dimensions,
        }
    }

    /// Opens a buffer in a new tab and makes it active. `name_width` is the
    /// measured pixel width of the tab's label.
    pub fn add(
        &mut self,
        name: String,
        name_width: u64,
        text: &str,
        widths: CharWidths,
        highlight_config: Option<Config>,
    )
        requires
            old(self).wf(),
        ensures
            final (self).wf(),
            final (self).code_views@.len() == old(self).code_views@.len() + 1,
            final (self).active == Some((final (self).code_views@.len() - 1) as usize),
            final (self).code_views@.last().2.code.text() == text@,
            final (self).code_views@.last().0 == name,
            forall|i: int|
                0 <= i < old(self).code_views@.len() ==> #[trigger] final (self).code_views@[i]
                    == old(self).code_views@[i],
    {
        let rect = Dimensions {
            width: tab_width(name_width),
            ..self.tabs_container
        };
        let view_y = sat_u32_add_pub(self.dimensions.y as u64, TAB_HEIGHT);
        let view_h = if self.dimensions.height > TAB_HEIGHT {
            self.dimensions.height - TAB_HEIGHT
        } else {
            0
        };
        let view_dims = Dimensions {
            y: view_y,
            height: view_h,
            ..self.dimensions
        };
        let view = CodeView::new(text, widths, self.font_height, view_dims, highlight_config);
        self.code_views.push((name, rect, view));
        self.active = Some(self.code_views.len() - 1);
    }

    /// Forwards a directional key to the active view, if any: the active
    /// cursor moves exactly as the key dictates, and the other tabs stay
    /// put.
    pub fn input_special(&mut self, key: Key)
        requires
            old(self).wf(),
        ensures
            final (self).wf(),
            final (self).code_views@.len() == old(self).code_views@.len(),
            final (self).active == old(self).active,
            old(self).active matches Some(i) ==> {
                let pre = old(self).code_views@[i as int].2.code;
                &&& final (self).code_views@[i as int].2.code.text() == pre.text()
                &&& (
                final (self).code_views@[i as int].2.code.cursor.row as int,
                final (self).code_views@[i as int].2.code.cursor.column as int,
                ) == move_spec(pre.text(), pre.cursor.row as int, pre.cursor.column as int, key)
                &&& final (self).code_views@[i as int].2.code.viewport == pre.viewport
                &&& forall|j: int|
                    0 <= j < final (self).code_views@.len() && j != i
                        ==> #[trigger] final (self).code_views@[j] == old(self).code_views@[j]
            },
            old(self).active is None ==> final (self).code_views@ == old(self).code_views@,
    {
        match self.active {
            Some(i) => {
                let mut entry = self.code_views.remove(i);
                entry.2.input_special(key);
                self.code_views.insert(i, entry);
            },
            None => {},
        }
    }

    /// Forwards a typed character to the active view, if any: the active
    /// buffer and cursor change exactly as one keystroke dictates.
    pub fn input_char(&mut self, ch: char)
        requires
            old(self).wf(),
            old(self).active matches Some(i) ==> old(self).code_views@[i as int].2.code.text().len()
                < usize::MAX,
        ensures
            final (self).wf(),
            final (self).code_views@.len() == old(self).code_views@.len(),
            final (self).active == old(self).active,
            old(self).active matches Some(i) ==> {
                let pre = old(self).code_views@[i as int].2.code;
                &&& final (self).code_views@[i as int].2.code.text() == edit_text_spec(
                    pre.text(),
                    pre.cursor.row as int,
                    pre.cursor.column as int,
                    ch,
                )
                &&& (
                final (self).code_views@[i as int].2.code.cursor.row as int,
                final (self).code_views@[i as int].2.code.cursor.column as int,
                ) == edit_cursor_spec(pre.text(), pre.cursor.row as int, pre.cursor.column as int, ch)
                &&& forall|j: int|
                    0 <= j < final (self).code_views@.len() && j != i
                        ==> #[trigger] final (self).code_views@[j] == old(self).code_views@[j]
            },
            old(self).active is None ==> final (self).code_views@ == old(self).code_views@,
    {
        match self.active {
            Some(i) => {
                let mut entry = self.code_views.remove(i);
                entry.2.input_char(ch);
                self.code_views.insert(i, entry);
            },
            None => {},
        }
    }

    /// Forwards a scroll event to the active view, if any: its offsets are
    /// clamped per the dominant axis, its buffer and cursor do not change,
    /// and the other tabs stay put.
    pub fn scroll(&mut self, dx: i64, dy: i64)
        requires
            old(self).wf(),
        ensures
            final (self).wf(),
            final (self).code_views@.len() == old(self).code_views@.len(),
            final (self).active == old(self).active,
            old(self).active matches Some(i) ==> {
                let pre = old(self).code_views@[i as int].2;
                let post = final (self).code_views@[i as int].2;
                &&& post.code.text() == pre.code.text()
                &&& post.code.cursor == pre.code.cursor
                &&& if crate::viewport::abs_of(dx as int) > crate::viewport::abs_of(dy as int) {
                    post.code.viewport.scroll_x == clamp_x(
                        pre.code.viewport.scroll_x - dx,
                        pre.code.viewport.width as int,
                        pre.code.max_line_length as int,
                    ) && post.code.viewport.scroll_y == pre.code.viewport.scroll_y
                } else {
                    post.code.viewport.scroll_y == clamp_y(
                        pre.code.viewport.scroll_y + dy,
                        line_count(pre.code.text()),
                        pre.code.font_height as int,
                    ) && post.code.viewport.scroll_x == pre.code.viewport.scroll_x
                }
                &&& post.gutter.scroll_offset_y == clamp_y(
                    pre.gutter.scroll_offset_y + dy,
                    line_count(pre.code.text()),
                    pre.gutter.font_height as int,
                )
                &&& forall|j: int|
                    0 <= j < final (self).code_views@.len() && j != i
                        ==> #[trigger] final (self).code_views@[j] == old(self).code_views@[j]
            },
            old(self).active is None ==> final (self).code_views@ == old(self).code_views@,
    {
        match self.active {
            Some(i) => {
                let mut entry = self.code_views.remove(i);
                entry.2.scroll(dx, dy);
                self.code_views.insert(i, entry);
            },
            None => {},
        }
    }

    /// A click on the tab strip selects the first tab whose rectangle
    /// contains the pointer, and no tab when none does; any other click
    /// goes to the active view, which hit-tests its own code area.
    pub fn click(&mut self, px: u32, py: u32)
        requires
            old(self).wf(),
        ensures
            final (self).wf(),
            final (self).code_views@.len() == old(self).code_views@.len(),
            contains_spec(old(self).tabs_container, px as int, py as int) ==> {
                &&& final (self).code_views@ == old(self).code_views@
                &&& match first_tab_hit(
                    old(self).code_views@,
                    (px - old(self).tabs_container.x) as int,
                    0,
                ) {
                    Some(j) => final (self).active == Some(j as usize),
                    None => final (self).active == old(self).active,
                }
            },
            !contains_spec(old(self).tabs_container, px as int, py as int) ==> {
                &&& final (self).active == old(self).active
                &&& (old(self).active matches Some(i) ==> {
                    let pre = old(self).code_views@[i as int].2;
                    let post = final (self).code_views@[i as int].2;
                    &&& post.code.text() == pre.code.text()
                    &&& (contains_spec(pre.code.dimensions, px as int, py as int) ==> {
                        &&& post.code.cursor.row as int == min(
                            ((py - pre.code.dimensions.y) - pre.code.viewport.scroll_y) / (
                            pre.code.font_height as int),
                            line_count(pre.code.text()) - 1,
                        )
                        &&& post.code.cursor.column as int == click_col_spec(
                            post.code.widths,
                            line_at(post.code.text(), post.code.cursor.row as int),
                            (px - pre.code.dimensions.x) as int,
                            0,
                        )
                        &&& post.code.viewport == pre.code.viewport
                    })
                    &&& (!contains_spec(pre.code.dimensions, px as int, py as int) ==> post == pre)
                    &&& forall|j: int|
                        0 <= j < final (self).code_views@.len() && j != i
                            ==> #[trigger] final (self).code_views@[j] == old(self).code_views@[j]
                })
                &&& (old(self).active is None ==> final (self).code_views@ == old(
                    self,
                ).code_views@)
            },
    {
        let on_tabs = self.tabs_container.contains(px, py);
        match on_tabs {
            Some((rx, _ry)) => {
                let mut i: usize = 0;
                while i < self.code_views.len()
                    invariant
                        0 <= i <= self.code_views@.len(),
                        self.wf(),
                        self.code_views@ == old(self).code_views@,
                        self.active == old(self).active,
                        self.tabs_container == old(self).tabs_container,
                        rx == px - old(self).tabs_container.x,
                        contains_spec(old(self).tabs_container, px as int, py as int),
                        first_tab_hit(old(self).code_views@, rx as int, 0) == first_tab_hit(
                            old(self).code_views@,
                            rx as int,
                            i as int,
                        ),
                    decreases self.code_views@.len() - i,
                {
                    let hit = match self.code_views[i].1.contains(rx, 0) {
                        Some(_) => true,
                        None => false,
                    };
                    if hit {
                        self.active = Some(i);
                        return ;
                    }
                    i = i + 1;
                }
            },
            None => {
                match self.active {
                    Some(i) => {
                        let mut entry = self.code_views.remove(i);
                        entry.2.click(px, py);
                        self.code_views.insert(i, entry);
                    },
                    None => {},
                }
            },
        }
    }

    /// Stretches the tab strip to the new screen width and re-clamps the
    /// active view; a view whose left edge no longer fits is left alone.
    pub fn resize(&mut self, screen_width: u32, screen_height: u32)
        requires
            old(self).wf(),
        ensures
            final (self).wf(),
            final (self).code_views@.len() == old(self).code_views@.len(),
            final (self).active == old(self).active,
            final (self).tabs_container == (Dimensions {
                width: screen_width,
                ..old(self).tabs_container
            }),
            old(self).active matches Some(i) ==> {
                let pre = old(self).code_views@[i as int].2;
                let post = final (self).code_views@[i as int].2;
                &&& (pre.code.dimensions.x <= screen_width ==> {
                    &&& post.code.text() == pre.code.text()
                    &&& post.code.cursor == pre.code.cursor
                    &&& post.code.dimensions.width == screen_width - pre.code.dimensions.x
                    &&& post.code.viewport.scroll_x == clamp_x(
                        pre.code.viewport.scroll_x as int,
                        (screen_width - pre.code.dimensions.x) as int,
                        pre.code.max_line_length as int,
                    )
                    &&& post.code.viewport.scroll_y == clamp_y(
                        pre.code.viewport.scroll_y as int,
                        line_count(pre.code.text()),
                        pre.code.font_height as int,
                    )
                    &&& post.gutter == pre.gutter
                })
                &&& (pre.code.dimensions.x > screen_width ==> post == pre)
                &&& forall|j: int|
                    0 <= j < final (self).code_views@.len() && j != i
                        ==> #[trigger] final (self).code_views@[j] == old(self).code_views@[j]
            },
            old(self).active is None ==> final (self).code_views@ == old(self).code_views@,
    {
        self.tabs_container.width = screen_width;
        match self.active {
            Some(i) => {
                let mut entry = self.code_views.remove(i);
                if entry.2.code.dimensions.x <= screen_width {
                    entry.2.resize(screen_width, screen_height);
                }
                self.code_views.insert(i, entry);
            },
            None => {},
        }
    }
}

/// The pixel width of a tab with a label of the given measured width.
pub fn tab_width(name_width: u64) -> (r: u32)
    ensures
        r == sat_u32(TAB_PADDING + name_width + TAB_PADDING),
{
    let padded: u64 = if name_width > u64::MAX - 30 {
        u64::MAX
    } else {
        name_width + 30
    };
    if padded > u32::MAX as u64 {
        u32::MAX
    } else {
        padded as u32
    }
}

fn sat_u32_add_pub(a: u64, b: u32) -> (r: u32)
    ensures
        r == sat_u32(a + b),
{
    let wide: u64 = if a > u64::MAX - (b as u64) {
        u64::MAX
    } else {
        a + (b as u64)
    };
    if wide > u32::MAX as u64 {
        u32::MAX
    } else {
        wide as u32
    }
}

/// The whole editor: the file tree on the left fifth of the screen and the
/// tabbed code views on the rest, with events routed by hit testing.
pub struct EditorCore {
    pub width: u32,
    pub height: u32,
    pub font_height: u32,
    pub fs_tree: FsTree,
    pub code_views: CodeViewTabs,
}

impl EditorCore {
    /// Both panels are consistent.
    pub open spec fn wf(self) -> bool {
        &&& self.font_height >= 1
        &&& self.fs_tree.wf()
        &&& self.code_views.wf()
    }

    /// Lays the editor out: a fifth of the width for the file tree, the
    /// rest for the code views.
    pub fn new(width: u32, height: u32, font_height: u32, tree: TreeEntry) -> (r: EditorCore)
        requires
            font_height >= 1,
        ensures
            r.wf(),
            r.width == width,
            r.height == height,
            r.font_height == font_height,
            r.fs_tree.tree == tree,
            r.fs_tree.font_height == font_height,
            r.code_views.code_views@.len() == 0,
            r.code_views.active is None,
            r.code_views.font_height == font_height,
            r.fs_tree.dimensions.width == ((width as int) / 100) * 20,
    {
        let tree_width: u32 = (width / 100) * 20;
        assert(tree_width <= width);
        let fs_tree = FsTree::new(
            tree,
            font_height,
            Dimensions { x: 0, y: 0, width: tree_width, height },
        );
        let code_views = CodeViewTabs::new(
            font_height,
            Dimensions { x: tree_width, y: 0, width: width - tree_width, height },
        );
        EditorCore { width, height, font_height, fs_tree, code_views }
    }

    /// Routes a scroll event to the panel under the mouse: the file tree
    /// when the pointer is over it, else the code views, else nobody.
    pub fn scroll(&mut self, dx: i64, dy: i64, mouse_x: u32, mouse_y: u32)
        requires
            old(self).wf(),
        ensures
            final (self).wf(),
            crate::viewport::contains_spec(
                old(self).fs_tree.dimensions,
                mouse_x as int,
                mouse_y as int,
            ) ==> final (self).fs_tree.scroll_offset_y == crate::viewport::clamp_y(
                old(self).fs_tree.scroll_offset_y + dy,
                old(self).fs_tree.counter as int,
                old(self).fs_tree.font_height as int,
            ) && final (self).code_views == old(self).code_views,
            !crate::viewport::contains_spec(
                old(self).fs_tree.dimensions,
                mouse_x as int,
                mouse_y as int,
            ) ==> final (self).fs_tree == old(self).fs_tree,
            !crate::viewport::contains_spec(
                old(self).fs_tree.dimensions,
                mouse_x as int,
                mouse_y as int,
            ) && !crate::viewport::contains_spec(
                old(self).code_views.dimensions,
                mouse_x as int,
                mouse_y as int,
            ) ==> final (self).code_views == old(self).code_views,
            !crate::viewport::contains_spec(
                old(self).fs_tree.dimensions,
                mouse_x as int,
                mouse_y as int,
            ) && crate::viewport::contains_spec(
                old(self).code_views.dimensions,
                mouse_x as int,
                mouse_y as int,
            ) ==> {
                &&& final (self).code_views.active == old(self).code_views.active
                &&& final (self).code_views.code_views@.len() == old(
                    self,
                ).code_views.code_views@.len()
                &&& (old(self).code_views.active matches Some(i) ==> {
                    let pre = old(self).code_views.code_views@[i as int].2;
                    let post = final (self).code_views.code_views@[i as int].2;
                    &&& post.code.text() == pre.code.text()
                    &&& post.code.cursor == pre.code.cursor
                    &&& if crate::viewport::abs_of(dx as int) > crate::viewport::abs_of(
                        dy as int,
                    ) {
                        post.code.viewport.scroll_x == clamp_x(
                            pre.code.viewport.scroll_x - dx,
                            pre.code.viewport.width as int,
                            pre.code.max_line_length as int,
                        ) && post.code.viewport.scroll_y == pre.code.viewport.scroll_y
                    } else {
                        post.code.viewport.scroll_y == clamp_y(
                            pre.code.viewport.scroll_y + dy,
                            line_count(pre.code.text()),
                            pre.code.font_height as int,
                        ) && post.code.viewport.scroll_x == pre.code.viewport.scroll_x
                    }
                    &&& forall|j: int|
                        0 <= j < final (self).code_views.code_views@.len() && j != i
                            ==> #[trigger] final (self).code_views.code_views@[j] == old(
                            self,
                        ).code_views.code_views@[j]
                })
                &&& (old(self).code_views.active is None ==> final (self).code_views.code_views@
                    == old(self).code_views.code_views@)
            },
    {
        let on_tree = self.fs_tree.dimensions.contains(mouse_x, mouse_y);
        match on_tree {
            Some(_) => {
                self.fs_tree.scroll(dy);
            },
            None => {
                let on_code = self.code_views.dimensions.contains(mouse_x, mouse_y);
                match on_code {
                    Some(_) => {
                        self.code_views.scroll(dx, dy);
                    },
                    None => {},
                }
            },
        }
    }

    /// Routes a pressed click to the panel under the pointer, at
    /// panel-relative coordinates: a release changes nothing; over the file
    /// tree the entry under the pointer is fold-toggled; over the code
    /// views the tab strip and active view handle it; elsewhere nothing
    /// changes.
    pub fn click(&mut self, x: u32, y: u32, pressed: bool)
        requires
            old(self).wf(),
            old(self).fs_tree.scroll_offset_y > i64::MIN,
            crate::fs_tree::visible_rows(old(self).fs_tree.tree).len() <= usize::MAX,
        ensures
            final (self).wf(),
            !pressed ==> *final (self) == *old(self),
            pressed && contains_spec(old(self).fs_tree.dimensions, x as int, y as int) ==> {
                &&& crate::fs_tree::toggled_rel(
                    old(self).fs_tree.tree,
                    final (self).fs_tree.tree,
                    ((y - old(self).fs_tree.dimensions.y) - old(self).fs_tree.scroll_offset_y) / (
                    old(self).fs_tree.font_height as int),
                )
                &&& final (self).fs_tree.counter == crate::fs_tree::visible_rows(
                    final (self).fs_tree.tree,
                ).len()
                &&& final (self).code_views == old(self).code_views
            },
            pressed && !contains_spec(old(self).fs_tree.dimensions, x as int, y as int) ==> final (
            self).fs_tree == old(self).fs_tree,
            pressed && !contains_spec(old(self).fs_tree.dimensions, x as int, y as int)
                && !contains_spec(old(self).code_views.dimensions, x as int, y as int) ==> final (
            self).code_views == old(self).code_views,
            pressed && !contains_spec(old(self).fs_tree.dimensions, x as int, y as int)
                && contains_spec(old(self).code_views.dimensions, x as int, y as int) ==> {
                let rx = x - old(self).code_views.dimensions.x;
                let ry = y - old(self).code_views.dimensions.y;
                &&& final (self).code_views.code_views@.len() == old(
                    self,
                ).code_views.code_views@.len()
                &&& (contains_spec(old(self).code_views.tabs_container, rx as int, ry as int)
                    ==> final (self).code_views.code_views@ == old(self).code_views.code_views@)
                &&& (!contains_spec(old(self).code_views.tabs_container, rx as int, ry as int)
                    ==> final (self).code_views.active == old(self).code_views.active)
            },
    {
        if !pressed {
            return ;
        }
        let on_tree = self.fs_tree.dimensions.contains(x, y);
        match on_tree {
            Some((_rx, ry)) => {
                self.fs_tree.click(ry);
            },
            None => {
                let on_code = self.code_views.dimensions.contains(x, y);
                match on_code {
                    Some((rx, ry)) => {
                        self.code_views.click(rx, ry);
                    },
                    None => {},
                }
            },
        }
    }

    /// Re-lays the editor out for a new screen size: the file tree keeps
    /// its column and takes the new height, the tab strip stretches, and
    /// the active view is re-clamped.
    pub fn resize(&mut self, width: u32, height: u32)
        requires
            old(self).wf(),
        ensures
            final (self).wf(),
            final (self).width == width,
            final (self).height == height,
            final (self).fs_tree.dimensions == (Dimensions {
                height,
                ..old(self).fs_tree.dimensions
            }),
            final (self).fs_tree.tree == old(self).fs_tree.tree,
            final (self).fs_tree.scroll_offset_y == old(self).fs_tree.scroll_offset_y,
            final (self).code_views.tabs_container == (Dimensions {
                width,
                ..old(self).code_views.tabs_container
            }),
            final (self).code_views.active == old(self).code_views.active,
            final (self).code_views.code_views@.len() == old(self).code_views.code_views@.len(),
            old(self).code_views.active matches Some(i) ==> {
                let pre = old(self).code_views.code_views@[i as int].2;
                let post = final (self).code_views.code_views@[i as int].2;
                &&& (pre.code.dimensions.x <= width ==> post.code.viewport.scroll_x == clamp_x(
                    pre.code.viewport.scroll_x as int,
                    (width - pre.code.dimensions.x) as int,
                    pre.code.max_line_length as int,
                ) && post.code.viewport.scroll_y == clamp_y(
                    pre.code.viewport.scroll_y as int,
                    line_count(pre.code.text()),
                    pre.code.font_height as int,
                ) && post.code.text() == pre.code.text())
                &&& (pre.code.dimensions.x > width ==> post == pre)
            },
    {
        self.width = width;
        self.height = height;
        self.fs_tree.dimensions.height = height;
        self.code_views.resize(width, height);
    }

    /// Forwards a directional key to the active code view: its cursor
    /// moves exactly as the key dictates; everything else stays put.
    pub fn input_special(&mut self, key: Key)
        requires
            old(self).wf(),
        ensures
            final (self).wf(),
            final (self).fs_tree == old(self).fs_tree,
            final (self).code_views.active == old(self).code_views.active,
            final (self).code_views.code_views@.len() == old(self).code_views.code_views@.len(),
            old(self).code_views.active matches Some(i) ==> {
                let pre = old(self).code_views.code_views@[i as int].2.code;
                &&& final (self).code_views.code_views@[i as int].2.code.text() == pre.text()
                &&& (
                final (self).code_views.code_views@[i as int].2.code.cursor.row as int,
                final (self).code_views.code_views@[i as int].2.code.cursor.column as int,
                ) == move_spec(pre.text(), pre.cursor.row as int, pre.cursor.column as int, key)
                &&& forall|j: int|
                    0 <= j < final (self).code_views.code_views@.len() && j != i
                        ==> #[trigger] final (self).code_views.code_views@[j] == old(
                        self,
                    ).code_views.code_views@[j]
            },
            old(self).code_views.active is None ==> final (self).code_views.code_views@ == old(
                self,
            ).code_views.code_views@,
    {
        self.code_views.input_special(key);
    }

    /// Forwards a typed character to the active code view: its buffer and
    /// cursor change exactly as one keystroke dictates; everything else
    /// stays put.
    pub fn input_char(&mut self, ch: char)
        requires
            old(self).wf(),
            old(self).code_views.active matches Some(i) ==> old(
                self,
            ).code_views.code_views@[i as int].2.code.text().len() < usize::MAX,
        ensures
            final (self).wf(),
            final (self).fs_tree == old(self).fs_tree,
            final (self).code_views.active == old(self).code_views.active,
            final (self).code_views.code_views@.len() == old(self).code_views.code_views@.len(),
            old(self).code_views.active matches Some(i) ==> {
                let pre = old(self).code_views.code_views@[i as int].2.code;
                &&& final (self).code_views.code_views@[i as int].2.code.text() == edit_text_spec(
                    pre.text(),
                    pre.cursor.row as int,
                    pre.cursor.column as int,
                    ch,
                )
                &&& (
                final (self).code_views.code_views@[i as int].2.code.cursor.row as int,
                final (self).code_views.code_views@[i as int].2.code.cursor.column as int,
                ) == edit_cursor_spec(pre.text(), pre.cursor.row as int, pre.cursor.column as int, ch)
                &&& forall|j: int|
                    0 <= j < final (self).code_views.code_views@.len() && j != i
                        ==> #[trigger] final (self).code_views.code_views@[j] == old(
                        self,
                    ).code_views.code_views@[j]
            },
            old(self).code_views.active is None ==> final (self).code_views.code_views@ == old(
                self,
            ).code_views.code_views@,
    {
        self.code_views.input_char(ch);
    }
}

} // verus!
