//! The document: a canvas size and a forest of layers (index 0 of a list
//! is the bottom of its stack, drawn first).

use crate::blend::BlendMode;
use crate::copying::{copy_forest, copy_node, forest_copied, fresh_stamps, node_copied, node_pixels};
use crate::forest::{
    contains_id, contains_id_in, index_of, lemma_list_at_snoc, owner_position, owner_position_in, valid_path, find_in, find_loc, find_loc_in, find_node, ipath, lemma_find_iff_locate,
    lemma_find_loc_from, lemma_locate, locate, locate_in, lemma_replaced_list, lemma_replaced_twice, list_at, node_at,
    put_list_at, replaced, take_list_at, valid_loc,
};
use crate::geometry::{clamped_opacity, Transform2D};
use crate::ids::LayerId;
use crate::model::{GroupLayer, LayerNode, PixelLayer, next_appearance_version, node_translated, tick};
use crate::raster::{Raster, raster_fits};
use crate::stacking::{moved_down, moved_up};
use vstd::prelude::*;

verus! {

/// A document: canvas size, layer forest and the clock of appearance
/// versions.
pub struct Document {
    pub width: u32,
    pub height: u32,
    /// Root stack, index 0 = bottom.
    pub root: Vec<LayerNode>,
    /// Next appearance version to hand out.
    pub version_clock: u64,
}

/// An edit of one node.
pub enum NodeEdit {
    Rename(String),
    Show(bool),
    Opacity(i64),
    Blend(BlendMode),
    Translate(i64, i64, u64),
}

/// The node after an edit.
pub open spec fn node_edited(n: LayerNode, e: NodeEdit) -> LayerNode {
    match e {
        NodeEdit::Rename(name) => n.renamed(name),
        NodeEdit::Show(v) => n.with_visibility(v),
        NodeEdit::Opacity(o) => n.with_opacity(clamped_opacity(o as int)),
        NodeEdit::Blend(m) => n.with_blend(m),
        NodeEdit::Translate(dx, dy, version) => node_translated(n, dx as int, dy as int, version),
    }
}

/// A complete copy of a document's content (history entry).
pub struct Snapshot {
    pub doc_size: (u32, u32),
    pub root: Vec<LayerNode>,
}

/// Whether moving `dragged` before or after `target` is structurally
/// valid: two distinct existing nodes, and `target` not inside `dragged`
/// when `dragged` is a group.
pub open spec fn can_reorder_spec(root: Seq<LayerNode>, dragged: LayerId, target: LayerId) -> bool {
    &&& dragged != target
    &&& find_node(root, dragged) is Some
    &&& find_node(root, target) is Some
    &&& !(find_node(root, dragged) matches Some(LayerNode::Group(g)) && contains_id(
        g.children@,
        target,
    ))
}

/// Whether moving `dragged` before (`before`) or after `target` would
/// leave the stack as it is: adjacent siblings in the right order.
pub open spec fn noop_reorder_spec(
    root: Seq<LayerNode>,
    dragged: LayerId,
    target: LayerId,
    before: bool,
) -> bool {
    match (owner_position(root, dragged), owner_position(root, target)) {
        (Some((dp, di)), Some((tp, ti))) => dp == tp && if before {
            sat_succ(di) == ti
        } else {
            di == sat_succ(ti)
        },
        _ => false,
    }
}

/// `dragged` detached from `root` and put back just below (`before`) or
/// just above `target` in `target`'s list, giving `new`; `moved` tells
/// whether `target` was still found once `dragged` was detached (else
/// `dragged` went to the top of the root).
pub open spec fn reorder_placed(
    root: Seq<LayerNode>,
    dragged: LayerId,
    target: LayerId,
    before: bool,
    moved: bool,
    new: Seq<LayerNode>,
) -> bool {
    match locate(root, dragged) {
        Some((dp, di)) => {
            let n = list_at(root, dp)[di];
            exists|mid: Seq<LayerNode>|
                {
                    &&& #[trigger] replaced(root, dp, list_at(root, dp).remove(di), mid)
                    &&& match locate(mid, target) {
                        Some((tp, ti)) => {
                            let l = list_at(mid, tp);
                            let at = if before {
                                ti
                            } else {
                                ti + 1
                            };
                            &&& moved
                            &&& replaced(
                                mid,
                                tp,
                                l.insert(
                                    if at <= l.len() {
                                        at
                                    } else {
                                        l.len() as int
                                    },
                                    n,
                                ),
                                new,
                            )
                        },
                        None => !moved && new == mid.push(n),
                    }
                }
        },
        None => false,
    }
}

/// What `reorder_before` does: nothing when the move is invalid or would
/// leave the stack as it is, else the placement of `reorder_placed`.
pub open spec fn reorder_outcome(
    root: Seq<LayerNode>,
    dragged: LayerId,
    target: LayerId,
    before: bool,
    moved: bool,
    new: Seq<LayerNode>,
) -> bool {
    if !can_reorder_spec(root, dragged, target) || noop_reorder_spec(root, dragged, target, before) {
        !moved && new == root
    } else {
        reorder_placed(root, dragged, target, before, moved, new)
    }
}

/// A valid drag and drop is refused as doing nothing only when `dragged`
/// already sits in `target`'s list just below `target` (drop before) or
/// just above it (drop after). In every other case the node is detached
/// and put back at the requested place (see `reorder_placed`); in
/// particular a node just above its sibling, dropped before it, moves
/// below it.
pub proof fn law_reorder_moves_unless_in_place(
    root: Seq<LayerNode>,
    dragged: LayerId,
    target: LayerId,
    before: bool,
    moved: bool,
    new: Seq<LayerNode>,
)
    requires
        reorder_outcome(root, dragged, target, before, moved, new),
        can_reorder_spec(root, dragged, target),
        match (owner_position(root, dragged), owner_position(root, target)) {
            (Some((dp, di)), Some((tp, ti))) => {
                &&& di < usize::MAX
                &&& ti < usize::MAX
                &&& (dp != tp || if before {
                    di + 1 != ti
                } else {
                    di != ti + 1
                })
            },
            _ => true,
        },
    ensures
        reorder_placed(root, dragged, target, before, moved, new),
{
}

/// `i + 1` saturating at `usize::MAX`.
pub open spec fn sat_succ(i: int) -> int {
    if i >= usize::MAX {
        usize::MAX as int
    } else {
        i + 1
    }
}

/// Whether `dragged` may be moved to the head of the group `group`:
/// distinct, `dragged` exists, `group` is a group, and not inside
/// `dragged` when `dragged` is a group.
pub open spec fn can_move_into_spec(root: Seq<LayerNode>, dragged: LayerId, group: LayerId) -> bool {
    &&& dragged != group
    &&& find_node(root, dragged) is Some
    &&& find_node(root, group) matches Some(LayerNode::Group(_))
    &&& !(find_node(root, dragged) matches Some(LayerNode::Group(g)) && contains_id(
        g.children@,
        group,
    ))
}

/// Whether `dragged` already heads the children of `group`.
pub open spec fn noop_move_into_spec(root: Seq<LayerNode>, dragged: LayerId, group: LayerId) -> bool {
    find_node(root, group) matches Some(LayerNode::Group(g)) && g.children@.len() > 0
        && g.children@[0].node_id() == dragged
}

/// The entries of `list` among its first `n` whose mark in `marks` is
/// `want`, in order.
pub open spec fn marked_part(list: Seq<LayerNode>, marks: Seq<bool>, n: int, want: bool) -> Seq<
    LayerNode,
>
    decreases n,
{
    if n <= 0 {
        Seq::empty()
    } else {
        let prev = marked_part(list, marks, n - 1, want);
        if marks[n - 1] == want {
            prev.push(list[n - 1])
        } else {
            prev
        }
    }
}

/// Marks of the positions of `list` named by `ids` (first position of
/// each identifier).
pub open spec fn id_marks(list: Seq<LayerNode>, ids: Seq<LayerId>) -> Seq<bool> {
    Seq::new(list.len(), |k: int| exists|j: int| 0 <= j < ids.len() && index_of(list, ids[j]) == Some(k))
}

/// Whether every identifier of `ids` is in `list`.
pub open spec fn all_in_list(list: Seq<LayerNode>, ids: Seq<LayerId>) -> bool {
    forall|j: int| 0 <= j < ids.len() ==> (#[trigger] index_of(list, ids[j])) is Some
}

/// The lowest position named by `ids` in `list`.
pub open spec fn lowest_mark(marks: Seq<bool>) -> int {
    choose|k: int| 0 <= k < marks.len() && marks[k] && forall|j: int| 0 <= j < k ==> !marks[j]
}

/// The list with its entries `i` and `j` exchanged.
pub open spec fn swapped(list: Seq<LayerNode>, i: int, j: int) -> Seq<LayerNode> {
    list.update(i, list[j]).update(j, list[i])
}

/// `new` is `old` with the node at `(path, i)` replaced by `node`.
pub open spec fn node_replaced(
    old: Seq<LayerNode>,
    path: Seq<int>,
    i: int,
    node: LayerNode,
    new: Seq<LayerNode>,
) -> bool {
    replaced(old, path, list_at(old, path).update(i, node), new)
}

/// The forest after the first node `id` met depth-first is edited; the
/// same forest when `id` is absent.
pub open spec fn root_with_edit(old: Seq<LayerNode>, id: LayerId, e: NodeEdit, new: Seq<LayerNode>) -> bool {
    match find_loc(old, id) {
        Some((p, i)) => node_replaced(old, p, i, node_edited(node_at(old, p, i), e), new),
        None => new == old,
    }
}

/// Effect of duplicating the first subtree `id` (see `Document::duplicate`).
pub open spec fn duplicate_result(old: Seq<LayerNode>, id: LayerId, copy_id: Option<LayerId>, new: Seq<LayerNode>) -> bool {
    match find_node(old, id) {
        Some(n) => match locate(old, id) {
            Some((p, i)) => {
                let copy = list_at(new, p)[i + 1];
                &&& node_copied(n, copy, true)
                &&& copy_id == Some(copy.node_id())
                &&& replaced(
                    old,
                    p,
                    list_at(old, p).insert(i + 1, copy),
                    new,
                )
            },
            None => false,
        },
        None => copy_id is None && new == old,
    }
}

/// Versions after the subtree `id` of `old` was duplicated with the clock
/// at `clock`: the copy's pixel layers take the successive values of the
/// clock (see `fresh_stamps`), which moves on by as many; nothing moves
/// when there is no such node.
pub open spec fn duplicate_stamps(old: Seq<LayerNode>, id: LayerId, clock: u64, new: Seq<LayerNode>, new_clock: u64) -> bool {
    match find_node(old, id) {
        Some(n) => match locate(old, id) {
            Some((p, i)) => {
                &&& fresh_stamps(n, list_at(new, p)[i + 1], clock)
                &&& new_clock == tick(clock, node_pixels(n))
            },
            None => false,
        },
        None => new_clock == clock,
    }
}

/// Effect of detaching the subtree `id` (see `Document::remove`).
pub open spec fn remove_result(old: Seq<LayerNode>, id: LayerId, removed: Option<LayerNode>, new: Seq<LayerNode>) -> bool {
    match locate(old, id) {
        Some((p, i)) => {
            &&& removed == Some(list_at(old, p)[i])
            &&& replaced(
                old,
                p,
                list_at(old, p).remove(i),
                new,
            )
        },
        None => removed is None && new == old,
    }
}

/// Marks of the positions of `list` named by `ids`; `None` when one of
/// them is not in `list`.
fn mark_ids(list: &Vec<LayerNode>, ids: &Vec<LayerId>) -> (marks: Option<Vec<bool>>)
    ensures
        match marks {
            Some(m) => all_in_list(list@, ids@) && m@ == id_marks(list@, ids@),
            None => !all_in_list(list@, ids@),
        },
{
    let len = list.len();
    let mut marks: Vec<bool> = Vec::new();
    let mut k: usize = 0;
    while k < len
        invariant
            k <= len,
            len == list@.len(),
            marks@.len() == k,
            forall|q: int| 0 <= q < k ==> !marks@[q],
        decreases len - k,
    {
        marks.push(false);
        k += 1;
    }
    let mut j: usize = 0;
    while j < ids.len()
        invariant
            len == list@.len(),
            marks@.len() == len,
            j <= ids@.len(),
            forall|q: int| 0 <= q < j ==> (#[trigger] index_of(list@, ids@[q])) is Some,
            forall|x: int|
                0 <= x < len ==> (marks@[x] <==> exists|q: int|
                    0 <= q < j && index_of(list@, ids@[q]) == Some(x)),
        decreases ids@.len() - j,
    {
        proof {
            crate::forest::lemma_index_of(list@, ids@[j as int]);
        }
        match crate::forest::position_of(list, ids[j]) {
            Some(pos) => {
                let ghost before = marks@;
                marks.set(pos, true);
                proof {
                    assert forall|x: int| 0 <= x < len implies (marks@[x] <==> exists|q: int|
                        0 <= q < j + 1 && index_of(list@, ids@[q]) == Some(x)) by {
                        if x == pos {
                            assert(index_of(list@, ids@[j as int]) == Some(x));
                        } else {
                            assert(marks@[x] == before[x]);
                        }
                        if exists|q: int| 0 <= q < j + 1 && index_of(list@, ids@[q]) == Some(x) {
                            let q = choose|q: int|
                                0 <= q < j + 1 && index_of(list@, ids@[q]) == Some(x);
                            if q == j {
                                assert(x == pos);
                            }
                        }
                    }
                }
            },
            None => {
                proof {
                    assert(index_of(list@, ids@[j as int]) is None);
                }
                return None;
            },
        }
        j += 1;
    }
    assert(marks@ =~= id_marks(list@, ids@));
    Some(marks)
}

/// Splits `list` into its marked entries and the others, both in order,
/// with the lowest marked position (`list.len()` when none is marked).
fn split_marked(list: Vec<LayerNode>, marks: &Vec<bool>) -> (r: (Vec<LayerNode>, Vec<LayerNode>, usize))
    requires
        marks@.len() == list@.len(),
    ensures
        r.0@ == marked_part(list@, marks@, list@.len() as int, true),
        r.1@ == marked_part(list@, marks@, list@.len() as int, false),
        r.2 <= list@.len(),
        r.2 < list@.len() ==> marks@[r.2 as int] && r.1@.len() >= r.2,
        forall|q: int| 0 <= q < r.2 ==> !marks@[q],
{
    let ghost l = list@;
    let len = list.len();
    let mut list = list;
    let mut children: Vec<LayerNode> = Vec::new();
    let mut rest: Vec<LayerNode> = Vec::new();
    let mut first: usize = len;
    let mut k: usize = 0;
    while list.len() > 0
        invariant
            len == l.len(),
            marks@.len() == len,
            k <= len,
            first <= len,
            list@ == l.subrange(k as int, len as int),
            children@ == marked_part(l, marks@, k as int, true),
            rest@ == marked_part(l, marks@, k as int, false),
            first == len ==> rest@.len() == k && forall|q: int| 0 <= q < k ==> !marks@[q],
            first < len ==> first < k && marks@[first as int] && rest@.len() >= first && forall|
                q: int,
            | 0 <= q < first ==> !marks@[q],
        decreases list@.len(),
    {
        let node = list.remove(0);
        assert(l[k as int] == node);
        if marks[k] {
            children.push(node);
            if first == len {
                first = k;
            }
        } else {
            rest.push(node);
        }
        k += 1;
        assert(list@ =~= l.subrange(k as int, len as int));
    }
    (children, rest, first)
}

impl Document {
    /// An empty document of the given size.
    pub fn new(width: u32, height: u32) -> (d: Document)
        ensures
            d.width == width,
            d.height == height,
            d.root@.len() == 0,
            d.version_clock == 1,
    {
        Document { width, height, root: Vec::new(), version_clock: 1 }
    }

    /// Hands out a fresh appearance version.
    pub fn next_version(&mut self) -> (version: u64)
        ensures
            version == old(self).version_clock,
            final(self).version_clock == crate::model::next_tick(old(self).version_clock),
            final(self).width == old(self).width,
            final(self).height == old(self).height,
            final(self).root == old(self).root,
    {
        next_appearance_version(&mut self.version_clock)
    }

    /// A blank document holding one transparent layer of the document's
    /// size ("Create a document" without an image); sizes are at least 1.
    pub fn with_blank_layer(width: u32, height: u32) -> (d: Document)
        requires
            raster_fits(if width == 0 { 1 } else { width }, if height == 0 { 1 } else { height }),
        ensures
            d.width == (if width == 0 { 1 } else { width }),
            d.height == (if height == 0 { 1 } else { height }),
            d.root@.len() == 1,
            d.root@[0] matches LayerNode::Pixel(l) && l.name@ == "Calque 1"@ && l.source_image.width
                == d.width && l.source_image.height == d.height && l.visible && l.opacity
                == crate::geometry::OPACITY_MAX && l.filter_layers@.len() == 0 && l.masks@.len()
                == 0,
    {
        let w = if width == 0 { 1 } else { width };
        let h = if height == 0 { 1 } else { height };
        let mut doc = Document::new(w, h);
        let blank = Raster::transparent(w, h);
        let version = doc.next_version();
        let layer = PixelLayer::new(String::from_str("Calque 1"), blank, version);
        doc.push_layer(LayerNode::Pixel(layer));
        doc
    }

    /// Rebuilds the document from a restored state (undo, redo, project).
    pub fn restore(&mut self, width: u32, height: u32, root: Vec<LayerNode>)
        ensures
            final(self).width == width,
            final(self).height == height,
            final(self).root == root,
            final(self).version_clock == old(self).version_clock,
    {
        self.width = width;
        self.height = height;
        self.root = root;
    }

    // -- Search ---------------------------------------------------------------

    /// The first node with identifier `id` (depth-first, pre-order).
    pub fn find(&self, id: LayerId) -> (r: Option<&LayerNode>)
        ensures
            match r {
                Some(n) => find_node(self.root@, id) == Some(*n),
                None => find_node(self.root@, id) is None,
            },
    {
        find_in(&self.root, id)
    }

    /// The first node `id`, when it is a pixel layer.
    pub fn pixel_layer(&self, id: LayerId) -> (r: Option<&PixelLayer>)
        ensures
            match r {
                Some(l) => find_node(self.root@, id) == Some(LayerNode::Pixel(*l)),
                None => !(find_node(self.root@, id) matches Some(LayerNode::Pixel(_))),
            },
    {
        match self.find(id) {
            Some(LayerNode::Pixel(l)) => Some(l),
            _ => None,
        }
    }

    /// Whether some node has identifier `id`.
    pub fn contains(&self, id: LayerId) -> (r: bool)
        ensures
            r == contains_id(self.root@, id),
    {
        proof {
            lemma_find_iff_locate(self.root@, id);
        }
        find_loc_in(&self.root, id).is_some()
    }

    /// Edits the first node `id` met depth-first; `false` when absent.
    pub fn edit_node(&mut self, id: LayerId, e: NodeEdit) -> (found: bool)
        ensures
            found == contains_id(old(self).root@, id),
            root_with_edit(old(self).root@, id, e, final(self).root@),
            final(self).width == old(self).width,
            final(self).height == old(self).height,
            final(self).version_clock == old(self).version_clock,
    {
        proof {
            lemma_find_iff_locate(self.root@, id);
            lemma_find_loc_from(self.root@, id, 0);
        }
        match find_loc_in(&self.root, id) {
            Some((p, i)) => {
                self.edit_node_at(&p, i, e);
                true
            },
            None => false,
        }
    }

    /// Edits the node at `(p, i)`.
    fn edit_node_at(&mut self, p: &Vec<usize>, i: usize, e: NodeEdit)
        requires
            valid_loc(old(self).root@, ipath(p@), i as int),
        ensures
            node_replaced(
                old(self).root@,
                ipath(p@),
                i as int,
                node_edited(node_at(old(self).root@, ipath(p@), i as int), e),
                final(self).root@,
            ),
            final(self).width == old(self).width,
            final(self).height == old(self).height,
            final(self).version_clock == old(self).version_clock,
    {
        let ghost r0 = self.root@;
        assert(ipath(p@).skip(0) =~= ipath(p@));
        let mut list = take_list_at(&mut self.root, p, 0);
        let ghost mid = self.root@;
        proof {
            lemma_replaced_list(r0, ipath(p@), Seq::empty(), mid);
        }
        let ghost before = list@;
        match e {
            NodeEdit::Rename(name) => list[i].set_name(name),
            NodeEdit::Show(v) => list[i].set_visible(v),
            NodeEdit::Opacity(o) => list[i].set_opacity(o),
            NodeEdit::Blend(m) => list[i].set_blend_mode(m),
            NodeEdit::Translate(dx, dy, version) => {
                list[i].translate_by(dx, dy, version);
            },
        }
        assert(list@ =~= before.update(i as int, node_edited(before[i as int], e)));
        put_list_at(&mut self.root, p, 0, list);
        proof {
            lemma_replaced_twice(r0, ipath(p@), Seq::empty(), mid, list@, self.root@);
        }
    }

    // -- Structural changes ---------------------------------------------------

    /// Takes out the child list at `p`, for an edit put back with
    /// `put_list`.
    pub(crate) fn take_list(&mut self, p: &Vec<usize>) -> (list: Vec<LayerNode>)
        requires
            crate::forest::valid_path(old(self).root@, ipath(p@)),
        ensures
            list@ == list_at(old(self).root@, ipath(p@)),
            replaced(old(self).root@, ipath(p@), Seq::empty(), final(self).root@),
            final(self).width == old(self).width,
            final(self).height == old(self).height,
            final(self).version_clock == old(self).version_clock,
    {
        assert(ipath(p@).skip(0) =~= ipath(p@));
        take_list_at(&mut self.root, p, 0)
    }

    /// Puts back an edited child list at `p`.
    pub(crate) fn put_list(&mut self, p: &Vec<usize>, list: Vec<LayerNode>, Ghost(orig): Ghost<Seq<LayerNode>>)
        requires
            replaced(orig, ipath(p@), Seq::empty(), old(self).root@),
        ensures
            replaced(orig, ipath(p@), list@, final(self).root@),
            final(self).width == old(self).width,
            final(self).height == old(self).height,
            final(self).version_clock == old(self).version_clock,
    {
        proof {
            lemma_replaced_list(orig, ipath(p@), Seq::empty(), self.root@);
        }
        let ghost mid = self.root@;
        assert(ipath(p@).skip(0) =~= ipath(p@));
        put_list_at(&mut self.root, p, 0, list);
        proof {
            lemma_replaced_twice(orig, ipath(p@), Seq::empty(), mid, list@, self.root@);
        }
    }

    /// Inserts `node` just above `anchor`, in the same list. `false` (no
    /// change) when `anchor` is absent.
    pub fn insert_above(&mut self, anchor: LayerId, node: LayerNode) -> (inserted: bool)
        ensures
            inserted == (locate(old(self).root@, anchor) is Some),
            match locate(old(self).root@, anchor) {
                Some((p, i)) => replaced(
                    old(self).root@,
                    p,
                    list_at(old(self).root@, p).insert(i + 1, node),
                    final(self).root@,
                ),
                None => final(self).root@ == old(self).root@,
            },
            final(self).width == old(self).width,
            final(self).height == old(self).height,
            final(self).version_clock == old(self).version_clock,
    {
        proof {
            lemma_locate(self.root@, anchor);
        }
        match locate_in(&self.root, anchor) {
            Some((p, i)) => {
                let ghost orig = self.root@;
                let mut list = self.take_list(&p);
                let _len = list.len();
                list.insert(i + 1, node);
                self.put_list(&p, list, Ghost(orig));
                true
            },
            None => false,
        }
    }

    /// Detaches the subtree `id` from its parent list.
    pub fn remove(&mut self, id: LayerId) -> (removed: Option<LayerNode>)
        ensures
            remove_result(old(self).root@, id, removed, final(self).root@),
            final(self).width == old(self).width,
            final(self).height == old(self).height,
            final(self).version_clock == old(self).version_clock,
    {
        proof {
            lemma_locate(self.root@, id);
        }
        match locate_in(&self.root, id) {
            Some((p, i)) => {
                let ghost orig = self.root@;
                let mut list = self.take_list(&p);
                let node = list.remove(i);
                self.put_list(&p, list, Ghost(orig));
                Some(node)
            },
            None => None,
        }
    }

    /// Moves `id` one step up among its siblings (towards the top of the
    /// stack). `false` (no change) when absent or already on top.
    pub fn move_up(&mut self, id: LayerId) -> (moved: bool)
        ensures
            moved_up(old(self).root@, id, moved, final(self).root@),
            final(self).width == old(self).width,
            final(self).height == old(self).height,
            final(self).version_clock == old(self).version_clock,
    {
        proof {
            lemma_locate(self.root@, id);
        }
        match locate_in(&self.root, id) {
            Some((p, i)) => {
                assert(ipath(p@).skip(0) =~= ipath(p@));
                let len = crate::forest::list_ref_at(&self.root, &p, 0).len();
                if i >= len - 1 {
                    return false;
                }
                let ghost orig = self.root@;
                let mut list = self.take_list(&p);
                let ghost before = list@;
                let node = list.remove(i);
                list.insert(i + 1, node);
                assert(list@ =~= swapped(before, i as int, i + 1));
                self.put_list(&p, list, Ghost(orig));
                true
            },
            None => false,
        }
    }

    /// Moves `id` one step down among its siblings. `false` (no change)
    /// when absent or already at the bottom.
    pub fn move_down(&mut self, id: LayerId) -> (moved: bool)
        ensures
            moved_down(old(self).root@, id, moved, final(self).root@),
            final(self).width == old(self).width,
            final(self).height == old(self).height,
            final(self).version_clock == old(self).version_clock,
    {
        proof {
            lemma_locate(self.root@, id);
        }
        match locate_in(&self.root, id) {
            Some((p, i)) => {
                if i == 0 {
                    return false;
                }
                let ghost orig = self.root@;
                let mut list = self.take_list(&p);
                let ghost before = list@;
                let node = list.remove(i);
                list.insert(i - 1, node);
                assert(list@ =~= swapped(before, i as int, i - 1));
                self.put_list(&p, list, Ghost(orig));
                true
            },
            None => false,
        }
    }

    /// A complete copy of the content, for the history (pixels are
    /// shared, not copied).
    pub fn snapshot(&self) -> (snap: Snapshot)
        ensures
            snap.doc_size == (self.width, self.height),
            forest_copied(self.root@, snap.root@, false),
    {
        let mut unused_clock: u64 = 0;
        Snapshot { doc_size: (self.width, self.height), root: copy_forest(&self.root, false, &mut unused_clock) }
    }

    /// Restores a snapshot.
    pub fn restore_snapshot(&mut self, snap: Snapshot)
        ensures
            final(self).width == snap.doc_size.0,
            final(self).height == snap.doc_size.1,
            final(self).root == snap.root,
            final(self).version_clock == old(self).version_clock,
    {
        self.restore(snap.doc_size.0, snap.doc_size.1, snap.root);
    }

    /// Duplicates the first subtree `id` met depth-first (fresh
    /// identifiers everywhere) and inserts the copy just above `id`.
    /// Returns the identifier of the copy.
    pub fn duplicate(&mut self, id: LayerId) -> (copy_id: Option<LayerId>)
        ensures
            duplicate_result(old(self).root@, id, copy_id, final(self).root@),
            duplicate_stamps(
                old(self).root@,
                id,
                old(self).version_clock,
                final(self).root@,
                final(self).version_clock,
            ),
            final(self).width == old(self).width,
            final(self).height == old(self).height,
    {
        proof {
            lemma_find_iff_locate(self.root@, id);
            lemma_locate(self.root@, id);
        }
        let copy = match find_in(&self.root, id) {
            Some(node) => copy_node(node, true, &mut self.version_clock),
            None => return None,
        };
        let new_id = copy.id();
        let ghost orig = self.root@;
        let ghost c = copy;
        if !self.insert_above(id, copy) {
            return None;
        }
        proof {
            let (p, i) = locate(orig, id)->0;
            crate::forest::lemma_replaced_list(orig, p, list_at(orig, p).insert(i + 1, c), self.root@);
        }
        Some(new_id)
    }

    /// Whether moving `dragged` before or after `target` is structurally
    /// valid (an adjacent move without effect is still valid).
    pub fn can_reorder_before(&self, dragged: LayerId, target: LayerId) -> (ok: bool)
        ensures
            ok == can_reorder_spec(self.root@, dragged, target),
    {
        if dragged == target {
            return false;
        }
        let d = match self.find(dragged) {
            Some(n) => n,
            None => return false,
        };
        if self.find(target).is_none() {
            return false;
        }
        match d {
            LayerNode::Group(g) => !contains_id_in(&g.children, target),
            _ => true,
        }
    }

    /// Whether the move would leave the stack unchanged.
    fn is_noop_reorder(&self, dragged: LayerId, target: LayerId, before: bool) -> (noop: bool)
        ensures
            noop == noop_reorder_spec(self.root@, dragged, target, before),
    {
        match (owner_position_in(&self.root, dragged), owner_position_in(&self.root, target)) {
            (Some((dp, di)), Some((tp, ti))) => {
                let same_parent = match (dp, tp) {
                    (Some(a), Some(b)) => a == b,
                    (None, None) => true,
                    _ => false,
                };
                if !same_parent {
                    return false;
                }
                if before {
                    (if di == usize::MAX { usize::MAX } else { di + 1 }) == ti
                } else {
                    di == (if ti == usize::MAX { usize::MAX } else { ti + 1 })
                }
            },
            _ => false,
        }
    }

    /// Drag and drop: moves `dragged` just below (`before`) or just above
    /// `target`, in `target`'s list. `false` when invalid or without
    /// effect (no change), or when `target` is no longer found once
    /// `dragged` is detached (then `dragged` goes to the top of the root).
    pub fn reorder_before(&mut self, dragged: LayerId, target: LayerId, before: bool) -> (moved: bool)
        ensures
            reorder_outcome(old(self).root@, dragged, target, before, moved, final(self).root@),
            final(self).width == old(self).width,
            final(self).height == old(self).height,
            final(self).version_clock == old(self).version_clock,
    {
        if !self.can_reorder_before(dragged, target) || self.is_noop_reorder(dragged, target, before) {
            return false;
        }
        proof {
            lemma_find_iff_locate(self.root@, dragged);
            lemma_locate(self.root@, dragged);
        }
        let ghost orig = self.root@;
        let node = match self.remove(dragged) {
            Some(n) => n,
            None => return false,
        };
        let ghost mid = self.root@;
        proof {
            lemma_locate(mid, target);
        }
        match locate_in(&self.root, target) {
            Some((p, i)) => {
                let ghost m = self.root@;
                let mut list = self.take_list(&p);
                let len = list.len();
                let at = if before { i } else { i + 1 };
                let at = if at <= len { at } else { len };
                list.insert(at, node);
                self.put_list(&p, list, Ghost(m));
                true
            },
            None => {
                self.push_layer(node);
                false
            },
        }
    }

    /// Whether `dragged` may be moved to the head of the group `group`.
    pub fn can_move_into(&self, dragged: LayerId, group: LayerId) -> (ok: bool)
        ensures
            ok == can_move_into_spec(self.root@, dragged, group),
    {
        if dragged == group {
            return false;
        }
        let d = match self.find(dragged) {
            Some(n) => n,
            None => return false,
        };
        match self.find(group) {
            Some(LayerNode::Group(_)) => {},
            _ => return false,
        }
        match d {
            LayerNode::Group(g) => !contains_id_in(&g.children, group),
            _ => true,
        }
    }

    /// Whether `dragged` already heads the children of `group`.
    fn is_noop_move_into(&self, dragged: LayerId, group: LayerId) -> (noop: bool)
        ensures
            noop == noop_move_into_spec(self.root@, dragged, group),
    {
        match self.find(group) {
            Some(LayerNode::Group(g)) => g.children.len() > 0 && g.children[0].id() == dragged,
            _ => false,
        }
    }

    /// Moves `dragged` to the head (bottom) of the children of `group`.
    /// `false` when invalid or without effect (no change), or when `group`
    /// is no longer found once `dragged` is detached (then `dragged` goes
    /// to the top of the root).
    pub fn move_into(&mut self, dragged: LayerId, group: LayerId) -> (moved: bool)
        ensures
            if !can_move_into_spec(old(self).root@, dragged, group) || noop_move_into_spec(
                old(self).root@,
                dragged,
                group,
            ) {
                !moved && final(self).root@ == old(self).root@
            } else {
                match locate(old(self).root@, dragged) {
                    Some((dp, di)) => {
                        let n = list_at(old(self).root@, dp)[di];
                        exists|mid: Seq<LayerNode>|
                            {
                                &&& #[trigger] replaced(
                                    old(self).root@,
                                    dp,
                                    list_at(old(self).root@, dp).remove(di),
                                    mid,
                                )
                                &&& match find_loc(mid, group) {
                                    Some((gp, gi)) => if node_at(mid, gp, gi) is Group {
                                        &&& moved
                                        &&& replaced(
                                            mid,
                                            gp.push(gi),
                                            node_at(mid, gp, gi).kids().insert(0, n),
                                            final(self).root@,
                                        )
                                    } else {
                                        !moved && final(self).root@ == mid.push(n)
                                    },
                                    None => !moved && final(self).root@ == mid.push(n),
                                }
                            }
                    },
                    None => false,
                }
            },
            final(self).width == old(self).width,
            final(self).height == old(self).height,
            final(self).version_clock == old(self).version_clock,
    {
        if !self.can_move_into(dragged, group) || self.is_noop_move_into(dragged, group) {
            return false;
        }
        proof {
            lemma_find_iff_locate(self.root@, dragged);
            lemma_locate(self.root@, dragged);
        }
        let node = match self.remove(dragged) {
            Some(n) => n,
            None => return false,
        };
        let ghost mid = self.root@;
        proof {
            lemma_find_loc_from(mid, group, 0);
        }
        match find_loc_in(&self.root, group) {
            Some((p, i)) => {
                assert(ipath(p@).skip(0) =~= ipath(p@));
                let is_group = crate::forest::list_ref_at(&self.root, &p, 0)[i].is_group();
                if !is_group {
                    self.push_layer(node);
                    return false;
                }
                let mut gp = p.clone();
                gp.push(i);
                proof {
                    lemma_list_at_snoc(mid, ipath(p@), i as int);
                    assert(ipath(gp@) =~= ipath(p@).push(i as int));
                }
                let mut list = self.take_list(&gp);
                list.insert(0, node);
                self.put_list(&gp, list, Ghost(mid));
                true
            },
            None => {
                self.push_layer(node);
                false
            },
        }
    }

    /// Gathers the given siblings into a new group ("Groupe") placed where
    /// the lowest of them was; their stacking order is kept. `None` (no
    /// change) when `ids` is empty or names a node that is not a sibling
    /// of the first one. Returns the identifier of the new group.
    pub fn group(&mut self, ids: &Vec<LayerId>) -> (gid: Option<LayerId>)
        requires
            forall|a: int, b: int|
                0 <= a < b < ids@.len() ==> ids@[a] != ids@[b],
        ensures
            match (if ids@.len() == 0 { None } else { locate(old(self).root@, ids@[0]) }) {
                Some((p, _)) => {
                    let l = list_at(old(self).root@, p);
                    if all_in_list(l, ids@) {
                        let marks = id_marks(l, ids@);
                        let g = list_at(final(self).root@, p)[lowest_mark(marks)];
                        &&& g matches LayerNode::Group(grp) && grp.name@ == "Groupe"@
                            && grp.children@ == marked_part(l, marks, l.len() as int, true)
                            && !grp.collapsed && grp.opacity == crate::geometry::OPACITY_MAX
                            && grp.blend_mode == BlendMode::Normal && grp.visible
                            && grp.masks@.len() == 0
                        &&& gid == Some(g.node_id())
                        &&& replaced(
                            old(self).root@,
                            p,
                            marked_part(l, marks, l.len() as int, false).insert(lowest_mark(marks), g),
                            final(self).root@,
                        )
                    } else {
                        gid is None && final(self).root@ == old(self).root@
                    }
                },
                None => gid is None && final(self).root@ == old(self).root@,
            },
            final(self).width == old(self).width,
            final(self).height == old(self).height,
            final(self).version_clock == old(self).version_clock,
    {
        if ids.len() == 0 {
            return None;
        }
        proof {
            lemma_locate(self.root@, ids@[0]);
        }
        let (p, _) = match locate_in(&self.root, ids[0]) {
            Some(found) => found,
            None => return None,
        };
        assert(ipath(p@).skip(0) =~= ipath(p@));
        let marks = match mark_ids(crate::forest::list_ref_at(&self.root, &p, 0), ids) {
            Some(m) => m,
            None => return None,
        };
        let ghost l = list_at(self.root@, ipath(p@));
        let ghost orig = self.root@;
        let list = self.take_list(&p);
        let (children, mut rest, first) = split_marked(list, &marks);
        proof {
            crate::forest::lemma_index_of(l, ids@[0]);
            let x = index_of(l, ids@[0])->0;
            assert(marks@[x]);
            let lm = lowest_mark(marks@);
            assert(lm == first) by {
                if lm < first {
                } else if lm > first {
                }
            }
        }
        let group = LayerNode::Group(GroupLayer::new(String::from_str("Groupe"), children));
        let gid = group.id();
        rest.insert(first, group);
        self.put_list(&p, rest, Ghost(orig));
        proof {
            crate::forest::lemma_replaced_list(orig, ipath(p@), rest@, self.root@);
        }
        Some(gid)
    }

    /// Dissolves a group: its children take its place in its parent list.
    /// Returns their identifiers; `None` (no change) when `id` is absent or
    /// not a group.
    pub fn ungroup(&mut self, id: LayerId) -> (freed: Option<Vec<LayerId>>)
        ensures
            match locate(old(self).root@, id) {
                Some((p, i)) => {
                    let l = list_at(old(self).root@, p);
                    match l[i] {
                        LayerNode::Group(g) => {
                            &&& freed matches Some(v) && v@ == g.children@.map_values(
                                |n: LayerNode| n.node_id(),
                            )
                            &&& replaced(
                                old(self).root@,
                                p,
                                l.subrange(0, i) + g.children@ + l.subrange(i + 1, l.len() as int),
                                final(self).root@,
                            )
                        },
                        _ => freed is None && final(self).root@ == old(self).root@,
                    }
                },
                None => freed is None && final(self).root@ == old(self).root@,
            },
            final(self).width == old(self).width,
            final(self).height == old(self).height,
            final(self).version_clock == old(self).version_clock,
    {
        proof {
            lemma_locate(self.root@, id);
        }
        let (p, i) = match locate_in(&self.root, id) {
            Some(found) => found,
            None => return None,
        };
        assert(ipath(p@).skip(0) =~= ipath(p@));
        if !crate::forest::list_ref_at(&self.root, &p, 0)[i].is_group() {
            return None;
        }
        let ghost orig = self.root@;
        let mut list = self.take_list(&p);
        let ghost l = list@;
        let node = list.remove(i);
        let children = match node {
            LayerNode::Group(g) => g.children,
            _ => {
                assert(false);
                Vec::new()
            },
        };
        let ghost kids = children@;
        let mut ids: Vec<LayerId> = Vec::new();
        let mut k: usize = 0;
        while k < children.len()
            invariant
                k <= children@.len(),
                ids@ == children@.subrange(0, k as int).map_values(|n: LayerNode| n.node_id()),
            decreases children@.len() - k,
        {
            ids.push(children[k].id());
            k += 1;
            assert(ids@ =~= children@.subrange(0, k as int).map_values(|n: LayerNode| n.node_id()));
        }
        assert(children@.subrange(0, children@.len() as int) =~= children@);
        // Children go back in place, in order.
        let mut tail = list.split_off(i);
        let mut out = list;
        let mut children = children;
        out.append(&mut children);
        out.append(&mut tail);
        assert(out@ =~= l.subrange(0, i as int) + kids + l.subrange(i + 1, l.len() as int));
        self.put_list(&p, out, Ghost(orig));
        Some(ids)
    }

    /// Adds a node at the top of the root stack.
    pub fn push_layer(&mut self, node: LayerNode)
        ensures
            final(self).root@ == old(self).root@.push(node),
            final(self).width == old(self).width,
            final(self).height == old(self).height,
            final(self).version_clock == old(self).version_clock,
    {
        self.root.push(node);
    }
}

} // verus!
