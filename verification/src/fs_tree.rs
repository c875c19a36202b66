//! The file-tree panel: a foldable tree of directory entries, flattened to
//! visible rows for drawing, with scroll clamping and click-to-fold.
//!
//! Reading directories is the caller's business; the tree arrives as plain
//! data.

use crate::viewport::{clamp_y, clamp_y_exec, Dimensions};
use vstd::prelude::*;

verus! {

/// One entry of the file tree: its display name, its path, its indentation
/// depth, its children when it is a directory, and whether it is folded.
pub struct TreeEntry {
    pub name: String,
    pub path: String,
    pub inset: usize,
    pub sub_entry: Option<Vec<TreeEntry>>,
    pub folded: bool,
}

/// The rows of the tree that are visible: every entry whose ancestors are
/// all unfolded, in depth-first order, as `(name, inset)` pairs.
pub open spec fn visible_rows(t: TreeEntry) -> Seq<(String, usize)>
    decreases t,
{
    seq![(t.name, t.inset)] + if !t.folded {
        match t.sub_entry {
            Some(cs) => visible_rows_list(cs@),
            None => Seq::empty(),
        }
    } else {
        Seq::empty()
    }
}

/// The visible rows of a list of sibling entries, in order.
pub open spec fn visible_rows_list(cs: Seq<TreeEntry>) -> Seq<(String, usize)>
    decreases cs,
{
    if cs.len() == 0 {
        Seq::empty()
    } else {
        visible_rows(cs[0]) + visible_rows_list(cs.drop_first())
    }
}

impl TreeEntry {
    /// Walks the visible part of the tree in depth-first order, appending
    /// one `(name, inset)` row per visible entry, and returns how many
    /// entries were visited.
    #[verifier::loop_isolation(false)]
    pub fn walk(&self, rows: &mut Vec<(String, usize)>) -> (count: usize)
        ensures
            final (rows)@ == old(rows)@ + visible_rows(*self),
            count == visible_rows(*self).len(),
        decreases *self,
    {
        let ghost base = rows@;
        let before = rows.len();
        rows.push((self.name.clone(), self.inset));
        proof {
            assert(rows@ =~= base + seq![(self.name, self.inset)]);
        }
        if !self.folded {
            match &self.sub_entry {
                Some(cs) => {
                    let mut i: usize = 0;
                    proof {
                        assert(cs@.take(0) =~= Seq::<TreeEntry>::empty());
                        assert(rows@ =~= base + seq![(self.name, self.inset)]
                            + visible_rows_list(cs@.take(0)));
                    }
                    while i < cs.len()
                        invariant
                            0 <= i <= cs@.len(),
                            before == base.len(),
                            rows@ == base + seq![(self.name, self.inset)] + visible_rows_list(
                                cs@.take(i as int),
                            ),
                        decreases cs@.len() - i,
                    {
                        proof {
                            lemma_visible_rows_list_take_step(cs@, i as int);
                            assert(decreases_to!(*self => self.sub_entry));
                            assert(decreases_to!(self.sub_entry => self.sub_entry->0));
                            assert(self.sub_entry->0 == *cs);
                            assert(decreases_to!(*cs => cs@));
                            assert(decreases_to!(cs@ => cs@[i as int]));
                        }
                        let _sub: usize = cs[i].walk(rows);
                        proof {
                            assert(rows@ =~= base + seq![(self.name, self.inset)]
                                + visible_rows_list(cs@.take(i as int + 1)));
                        }
                        i = i + 1;
                    }
                    proof {
                        assert(cs@.take(cs@.len() as int) =~= cs@);
                        assert(rows@ =~= base + visible_rows(*self));
                    }
                },
                None => {
                    proof {
                        assert(rows@ =~= base + visible_rows(*self));
                    }
                },
            }
        } else {
            proof {
                assert(rows@ =~= base + visible_rows(*self));
            }
        }
        rows.len() - before
    }
}

/// Appending one sibling extends the visible rows by that sibling's rows.
proof fn lemma_visible_rows_list_take_step(cs: Seq<TreeEntry>, i: int)
    requires
        0 <= i < cs.len(),
    ensures
        visible_rows_list(cs.take(i + 1)) == visible_rows_list(cs.take(i)) + visible_rows(cs[i]),
    decreases i,
{
    if i == 0 {
        assert(cs.take(1).drop_first() =~= Seq::<TreeEntry>::empty());
        assert(cs.take(1)[0] == cs[0]);
        assert(cs.take(0) =~= Seq::<TreeEntry>::empty());
        assert(visible_rows_list(cs.take(1)) =~= visible_rows_list(cs.take(0)) + visible_rows(
            cs[0],
        ));
    } else {
        lemma_visible_rows_list_take_step(cs.drop_first(), i - 1);
        assert(cs.take(i + 1)[0] == cs[0]);
        assert(cs.take(i + 1).drop_first() =~= cs.drop_first().take(i));
        assert(cs.take(i)[0] == cs[0]);
        assert(cs.take(i).drop_first() =~= cs.drop_first().take(i - 1));
        assert(cs.drop_first()[i - 1] == cs[i]);
        assert(visible_rows(cs[0]) + (visible_rows_list(cs.drop_first().take(i - 1))
            + visible_rows(cs[i])) =~= (visible_rows(cs[0]) + visible_rows_list(
            cs.drop_first().take(i - 1),
        )) + visible_rows(cs[i]));
    }
}

/// `t2` is `t1` with the folded flag of the visible entry at `i` flipped,
/// when that entry has children; `t1` unchanged otherwise.
pub open spec fn toggled_rel(t1: TreeEntry, t2: TreeEntry, i: int) -> bool
    decreases t1,
{
    if i == 0 {
        t2 == (TreeEntry {
            folded: if t1.sub_entry is Some {
                !t1.folded
            } else {
                t1.folded
            },
            ..t1
        })
    } else if t1.folded || t1.sub_entry is None {
        t2 == t1
    } else {
        &&& t2.name == t1.name
        &&& t2.path == t1.path
        &&& t2.inset == t1.inset
        &&& t2.folded == t1.folded
        &&& t2.sub_entry is Some
        &&& toggled_list_rel(t1.sub_entry->0@, t2.sub_entry->0@, i - 1)
    }
}

/// The sibling-list form of [`toggled_rel`]: the visible index is routed to
/// the child whose visible subtree contains it.
pub open spec fn toggled_list_rel(c1: Seq<TreeEntry>, c2: Seq<TreeEntry>, i: int) -> bool
    decreases c1,
{
    if c1.len() == 0 {
        c2.len() == 0
    } else {
        let n = visible_rows(c1[0]).len() as int;
        c2.len() == c1.len() && if i < n {
            toggled_rel(c1[0], c2[0], i) && c2.drop_first() == c1.drop_first()
        } else {
            c2[0] == c1[0] && toggled_list_rel(c1.drop_first(), c2.drop_first(), i - n)
        }
    }
}

impl TreeEntry {
    /// Flips the folded state of the visible entry at `index`, when it has
    /// children; indices past the visible rows leave the tree unchanged.
    pub fn toggled(self, index: usize) -> (r: TreeEntry)
        ensures
            toggled_rel(self, r, index as int),
        decreases self,
    {
        let ghost g = self;
        let TreeEntry { name, path, inset, sub_entry, folded } = self;
        if index == 0 {
            let f2 = if sub_entry.is_some() {
                !folded
            } else {
                folded
            };
            return TreeEntry { name, path, inset, sub_entry, folded: f2 };
        }
        if folded {
            return TreeEntry { name, path, inset, sub_entry, folded };
        }
        match sub_entry {
            None => TreeEntry { name, path, inset, sub_entry: None, folded },
            Some(cs) => {
                proof {
                    assert(decreases_to!(g => g.sub_entry));
                    assert(decreases_to!(g.sub_entry => g.sub_entry->0));
                    assert(decreases_to!(g.sub_entry->0 => g.sub_entry->0@));
                    assert(g.sub_entry->0 == cs);
                }
                let toggled_children = toggled_list(cs, index - 1);
                TreeEntry { name, path, inset, sub_entry: Some(toggled_children), folded }
            },
        }
    }
}

/// Routes a visible index into a list of siblings and flips the selected
/// entry.
fn toggled_list(cs: Vec<TreeEntry>, idx: usize) -> (r: Vec<TreeEntry>)
    ensures
        toggled_list_rel(cs@, r@, idx as int),
    decreases cs@,
{
    let ghost orig = cs@;
    let mut cs = cs;
    if cs.len() == 0 {
        return cs;
    }
    let first = cs.remove(0);
    proof {
        assert(first == orig[0]);
        assert(cs@ =~= orig.drop_first());
    }
    let mut scratch: Vec<(String, usize)> = Vec::new();
    let n = first.walk(&mut scratch);
    let mut out: Vec<TreeEntry> = Vec::new();
    if idx < n {
        proof {
            assert(decreases_to!(orig => orig[0]));
        }
        let t = first.toggled(idx);
        out.push(t);
        let mut rest = cs;
        let ghost tail = rest@;
        out.append(&mut rest);
        proof {
            assert(out@ =~= seq![t] + tail);
            assert(out@.drop_first() =~= orig.drop_first());
            assert(out@[0] == t);
        }
    } else {
        proof {
            vstd::seq::axiom_seq_subrange_decreases(orig, 1, orig.len() as int);
            assert(orig.subrange(1, orig.len() as int) =~= orig.drop_first());
        }
        let mut rest = toggled_list(cs, idx - n);
        let ghost tail = rest@;
        out.push(first);
        out.append(&mut rest);
        proof {
            assert(out@ =~= seq![first] + tail);
            assert(out@.drop_first() =~= tail);
            assert(out@[0] == orig[0]);
        }
    }
    out
}

/// An index at or past the visible rows toggles nothing.
proof fn lemma_toggled_rel_unchanged(t: TreeEntry, i: int)
    requires
        i >= visible_rows(t).len(),
    ensures
        toggled_rel(t, t, i),
    decreases t,
{
    assert(visible_rows(t).len() >= 1);
    if !t.folded && t.sub_entry is Some {
        lemma_toggled_list_rel_unchanged(t.sub_entry->0@, i - 1);
    }
}

/// The sibling-list form of [`lemma_toggled_rel_unchanged`].
proof fn lemma_toggled_list_rel_unchanged(c: Seq<TreeEntry>, i: int)
    requires
        i >= visible_rows_list(c).len(),
    ensures
        toggled_list_rel(c, c, i),
    decreases c,
{
    if c.len() > 0 {
        lemma_toggled_rel_unchanged(c[0], i);
        lemma_toggled_list_rel_unchanged(c.drop_first(), i - visible_rows(c[0]).len());
    }
}

/// The file-tree panel.
pub struct FsTree {
    pub dimensions: Dimensions,
    pub font_height: u32,
    pub scroll_offset_y: i64,
    pub tree: TreeEntry,
    pub counter: usize,
}

impl FsTree {
    /// The panel's state is consistent: positive line height, non-positive
    /// scroll offset.
    pub open spec fn wf(self) -> bool {
        &&& self.font_height >= 1
        &&& self.scroll_offset_y <= 0
    }

    /// Builds the panel around an already-read tree.
    pub fn new(tree: TreeEntry, font_height: u32, dimensions: Dimensions) -> (r: FsTree)
        requires
            font_height >= 1,
        ensures
            r.wf(),
            r.scroll_offset_y == 0,
            r.counter == 0,
            r.tree == tree,
            r.dimensions == dimensions,
            r.font_height == font_height,
    {
        FsTree { dimensions, font_height, scroll_offset_y: 0, tree, counter: 0 }
    }

    /// Applies a vertical scroll delta, clamped against the number of rows
    /// counted by the last redraw.
    pub fn scroll(&mut self, dy: i64)
        requires
            old(self).wf(),
        ensures
            final (self).wf(),
            final (self).scroll_offset_y == clamp_y(
                old(self).scroll_offset_y + dy,
                old(self).counter as int,
                old(self).font_height as int,
            ),
            final (self).tree == old(self).tree,
            final (self).counter == old(self).counter,
    {
        self.scroll_offset_y = clamp_y_exec(
            self.scroll_offset_y as i128 + dy as i128,
            self.counter,
            self.font_height,
        );
    }

    /// Flattens the visible rows for drawing and refreshes the row count
    /// the scroll clamp uses.
    pub fn redraw(&mut self) -> (rows: Vec<(String, usize)>)
        ensures
            final (self).counter == visible_rows(old(self).tree).len(),
            rows@ == visible_rows(old(self).tree),
            final (self).tree == old(self).tree,
            final (self).scroll_offset_y == old(self).scroll_offset_y,
            final (self).font_height == old(self).font_height,
            final (self).dimensions == old(self).dimensions,
    {
        let mut rows: Vec<(String, usize)> = Vec::new();
        let count = self.tree.walk(&mut rows);
        self.counter = count;
        proof {
            assert(rows@ =~= visible_rows(self.tree));
        }
        rows
    }

    /// Folds or unfolds the directory entry a click at panel-relative
    /// pixel height `y` lands on; a click below the last row toggles
    /// nothing. Either way the tree is re-walked, so the row count the
    /// scroll clamp uses reflects the tree after the toggle.
    pub fn click(&mut self, y: u32)
        requires
            old(self).wf(),
            old(self).scroll_offset_y > i64::MIN,
            visible_rows(old(self).tree).len() <= usize::MAX,
        ensures
            final (self).wf(),
            toggled_rel(
                old(self).tree,
                final (self).tree,
                (y - old(self).scroll_offset_y) / (old(self).font_height as int),
            ),
            final (self).counter == visible_rows(final (self).tree).len(),
            final (self).scroll_offset_y == old(self).scroll_offset_y,
            final (self).dimensions == old(self).dimensions,
            final (self).font_height == old(self).font_height,
    {
        let idx_wide = self.click_index(y);
        if idx_wide <= (usize::MAX as u64) {
            let idx = idx_wide as usize;
            let mut tmp = TreeEntry {
                name: String::new(),
                path: String::new(),
                inset: 0,
                sub_entry: None,
                folded: false,
            };
            core::mem::swap(&mut self.tree, &mut tmp);
            self.tree = tmp.toggled(idx);
        } else {
            proof {
                lemma_toggled_rel_unchanged(
                    self.tree,
                    (y - self.scroll_offset_y) / (self.font_height as int),
                );
            }
        }
        let mut rows: Vec<(String, usize)> = Vec::new();
        self.counter = self.tree.walk(&mut rows);
    }

    /// The visible row a click at panel-relative pixel height `y` lands on.
    pub fn click_index(&self, y: u32) -> (r: u64)
        requires
            self.wf(),
            self.scroll_offset_y > i64::MIN,
        ensures
            r == (y - self.scroll_offset_y) / (self.font_height as int),
    {
        let shifted = (y as u64) + ((-self.scroll_offset_y) as u64);
        shifted / (self.font_height as u64)
    }
}

} // verus!
