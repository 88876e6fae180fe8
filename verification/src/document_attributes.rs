//! Attributes that a node or a filter sub-layer both carry (placement,
//! opacity, blend mode, name), and the masks of nodes and filters.

use crate::blend::BlendMode;
use crate::document::{Document, NodeEdit, root_with_edit};
use crate::document_edits::{root_with_node, touch_result};
use crate::forest::{find_node, ipath, list_ref_at, node_at, node_mut_at, valid_loc};
use crate::geometry::{Transform2D, clamp_opacity, clamped_opacity};
use crate::ids::{LayerId, first_index, lemma_first_index};
use crate::layer_edits::{mask_ids, mask_position};
use crate::model::{FilterLayer, GroupLayer, LayerMask, LayerNode, PixelLayer, next_appearance_version, tick};
use crate::search::{
    filter_at, find_filter, find_filter_loc, find_filter_loc_in, lemma_find_filter_loc_from,
    mask_owner, mask_owner_in,
};
use vstd::prelude::*;

verus! {

/// An edit of a filter sub-layer's layer attributes.
pub enum FilterEdit {
    Transform(Transform2D),
    /// Thousandths of a percent, clamped to `0..=100 %`.
    Opacity(i64),
    Blend(BlendMode),
    Rename(String),
}

/// The sub-layer after an edit.
pub open spec fn filter_edited(f: FilterLayer, e: FilterEdit) -> FilterLayer {
    match e {
        FilterEdit::Transform(t) => FilterLayer { transform: t, ..f },
        FilterEdit::Opacity(o) => FilterLayer { opacity: clamped_opacity(o as int), ..f },
        FilterEdit::Blend(m) => FilterLayer { blend_mode: m, ..f },
        FilterEdit::Rename(name) => FilterLayer { name, ..f },
    }
}

/// `new` is `old` with the sub-layer `j` of the pixel layer at `(p, i)`
/// replaced by `f`.
pub open spec fn filter_replaced(
    old: Seq<LayerNode>,
    p: Seq<int>,
    i: int,
    j: int,
    f: FilterLayer,
    new: Seq<LayerNode>,
) -> bool {
    node_at(old, p, i) matches LayerNode::Pixel(l) && exists|l2: PixelLayer|
        l2 == PixelLayer { filter_layers: l2.filter_layers, ..l } && l2.filter_layers@
            == l.filter_layers@.update(j, f) && crate::document::node_replaced(
            old,
            p,
            i,
            LayerNode::Pixel(l2),
            new,
        )
}

/// Forest and clock after the first filter sub-layer `fid` of the forest
/// is edited and the node named by its carrier's identifier is touched.
pub open spec fn filter_edit_result(
    old: Seq<LayerNode>,
    clock: u64,
    fid: LayerId,
    e: FilterEdit,
    new: Seq<LayerNode>,
    new_clock: u64,
) -> bool {
    match find_filter_loc(old, fid) {
        Some((p, i, j)) => exists|mid: Seq<LayerNode>|
            filter_replaced(old, p, i, j, filter_edited(filter_at(old, p, i, j), e), mid)
                && touch_result(mid, clock, node_at(old, p, i).node_id(), new, new_clock),
        None => new == old && new_clock == clock,
    }
}

/// Effect of setting the placement of `id` (see `Document::set_transform_any`).
pub open spec fn transform_set(old: Seq<LayerNode>, clock: u64, id: LayerId, transform: Transform2D, done: bool, new: Seq<LayerNode>, new_clock: u64) -> bool {
    match find_node(old, id) {
        Some(LayerNode::Pixel(l)) => done && root_with_node(
            old,
            id,
            LayerNode::Pixel(PixelLayer { transform, ..l }),
            new,
        ) && new_clock == clock,
        Some(_) => !done && new == old && new_clock == clock,
        None => done == (find_filter_loc(old, id) is Some) && filter_edit_result(
            old,
            clock,
            id,
            FilterEdit::Transform(transform),
            new,
            new_clock,
        ),
    }
}

/// Effect of setting the opacity of `id` (see `Document::set_opacity_any`).
pub open spec fn opacity_set(old: Seq<LayerNode>, clock: u64, id: LayerId, opacity: i64, done: bool, new: Seq<LayerNode>, new_clock: u64) -> bool {
    match find_node(old, id) {
        Some(_) => done && root_with_edit(
            old,
            id,
            NodeEdit::Opacity(opacity),
            new,
        ) && new_clock == clock,
        None => done == (find_filter_loc(old, id) is Some) && filter_edit_result(
            old,
            clock,
            id,
            FilterEdit::Opacity(opacity),
            new,
            new_clock,
        ),
    }
}

/// Effect of setting the blend mode of `id` (see `Document::set_blend_any`).
pub open spec fn blend_set(old: Seq<LayerNode>, clock: u64, id: LayerId, mode: BlendMode, done: bool, new: Seq<LayerNode>, new_clock: u64) -> bool {
    match find_node(old, id) {
        Some(_) => done && root_with_edit(
            old,
            id,
            NodeEdit::Blend(mode),
            new,
        ) && new_clock == clock,
        None => done == (find_filter_loc(old, id) is Some) && filter_edit_result(
            old,
            clock,
            id,
            FilterEdit::Blend(mode),
            new,
            new_clock,
        ),
    }
}

/// Effect of renaming `id` (see `Document::set_name_any`).
pub open spec fn name_set(old: Seq<LayerNode>, clock: u64, id: LayerId, name: String, done: bool, new: Seq<LayerNode>, new_clock: u64) -> bool {
    match find_node(old, id) {
        Some(_) => done && root_with_edit(
            old,
            id,
            NodeEdit::Rename(name),
            new,
        ) && new_clock == clock,
        None => if find_filter_loc(old, id) is Some {
            done && filter_edit_result(
                old,
                clock,
                id,
                FilterEdit::Rename(name),
                new,
                new_clock,
            )
        } else {
            match mask_owner(old, id) {
                Some(o) => done == mask_op_applies(
                    old,
                    o,
                    MaskOp::Edit(id, MaskEdit::Rename(name)),
                ) && mask_op_result(
                    old,
                    clock,
                    o,
                    MaskOp::Edit(id, MaskEdit::Rename(name)),
                    new,
                    new_clock,
                ),
                None => !done && new == old && new_clock == clock,
            }
        },
    }
}

impl Document {
    /// Edits the first filter sub-layer `fid` of the forest, then touches
    /// its carrier (by identifier).
    fn edit_filter(&mut self, fid: LayerId, e: FilterEdit) -> (found: bool)
        ensures
            found == (find_filter_loc(old(self).root@, fid) is Some),
            filter_edit_result(
                old(self).root@,
                old(self).version_clock,
                fid,
                e,
                final(self).root@,
                final(self).version_clock,
            ),
            final(self).width == old(self).width,
            final(self).height == old(self).height,
    {
        proof {
            lemma_find_filter_loc_from(self.root@, fid, 0);
        }
        match find_filter_loc_in(&self.root, fid) {
            Some((p, i, j)) => {
                let ghost r0 = self.root@;
                let ghost c0 = self.version_clock;
                let ghost eg = e;
                let mut l = self.take_pixel_at(&p, i);
                let ghost l0 = l;
                let pid = l.id;
                let mut f = l.filter_layers.remove(j);
                let ghost f0 = f;
                match e {
                    FilterEdit::Transform(t) => f.transform = t,
                    FilterEdit::Opacity(o) => f.opacity = clamp_opacity(o),
                    FilterEdit::Blend(m) => f.blend_mode = m,
                    FilterEdit::Rename(name) => f.name = name,
                }
                assert(f == filter_edited(f0, eg));
                let ghost f2 = f;
                l.filter_layers.insert(j, f);
                assert(l.filter_layers@ =~= l0.filter_layers@.update(j as int, f2));
                let ghost l2 = l;
                self.put_node_at(&p, i, LayerNode::Pixel(l), Ghost(r0));
                let ghost mid = self.root@;
                assert(filter_replaced(r0, ipath(p@), i as int, j as int, f2, mid)) by {
                    assert(l2 == PixelLayer { filter_layers: l2.filter_layers, ..l0 });
                }
                self.touch_pixel(pid);
                proof {
                    assert(filter_at(r0, ipath(p@), i as int, j as int) == f0);
                    assert(node_at(r0, ipath(p@), i as int).node_id() == pid);
                    assert(filter_replaced(
                        r0,
                        ipath(p@),
                        i as int,
                        j as int,
                        filter_edited(filter_at(r0, ipath(p@), i as int, j as int), eg),
                        mid,
                    ));
                }
                true
            },
            None => false,
        }
    }

    /// Placement of the first node `id` when it is a pixel layer; else of
    /// the first filter sub-layer `id`.
    pub fn transform_of(&self, id: LayerId) -> (r: Option<Transform2D>)
        ensures
            r == match find_node(self.root@, id) {
                Some(LayerNode::Pixel(l)) => Some(l.transform),
                _ => match find_filter(self.root@, id) {
                    Some(f) => Some(f.transform),
                    None => None,
                },
            },
    {
        match self.find(id) {
            Some(LayerNode::Pixel(l)) => Some(l.transform),
            _ => match self.find_filter_layer(id) {
                Some(f) => Some(f.transform),
                None => None,
            },
        }
    }

    /// Sets the placement of the first node `id` (a pixel layer; any other
    /// node: `false`, no change) or, with no node `id`, of the first filter
    /// sub-layer `id`, whose carrier is then touched.
    pub fn set_transform_any(&mut self, id: LayerId, transform: Transform2D) -> (done: bool)
        ensures
            transform_set(old(self).root@, old(self).version_clock, id, transform, done, final(self).root@, final(self).version_clock),
            final(self).width == old(self).width,
            final(self).height == old(self).height,
    {
        match self.node_loc(id) {
            Some((p, i)) => {
                assert(ipath(p@).skip(0) =~= ipath(p@));
                if !list_ref_at(&self.root, &p, 0)[i].is_pixel() {
                    return false;
                }
                let ghost r0 = self.root@;
                let mut l = self.take_pixel_at(&p, i);
                l.transform = transform;
                self.put_node_at(&p, i, LayerNode::Pixel(l), Ghost(r0));
                true
            },
            None => self.edit_filter(id, FilterEdit::Transform(transform)),
        }
    }

    /// Opacity (thousandths of a percent) of the first node `id`, else of
    /// the first filter sub-layer `id`.
    pub fn opacity_of(&self, id: LayerId) -> (r: Option<u32>)
        ensures
            r == match find_node(self.root@, id) {
                Some(n) => Some(n.node_opacity()),
                None => match find_filter(self.root@, id) {
                    Some(f) => Some(f.opacity),
                    None => None,
                },
            },
    {
        match self.find(id) {
            Some(n) => Some(n.opacity()),
            None => match self.find_filter_layer(id) {
                Some(f) => Some(f.opacity),
                None => None,
            },
        }
    }

    /// Sets the opacity (clamped to `0..=100 %`) of the first node `id`,
    /// else of the first filter sub-layer `id`, whose carrier is then
    /// touched. `false`, no change, when there is neither.
    pub fn set_opacity_any(&mut self, id: LayerId, opacity: i64) -> (done: bool)
        ensures
            opacity_set(old(self).root@, old(self).version_clock, id, opacity, done, final(self).root@, final(self).version_clock),
            final(self).width == old(self).width,
            final(self).height == old(self).height,
    {
        proof {
            crate::forest::lemma_find_iff_locate(self.root@, id);
        }
        if self.find(id).is_some() {
            self.edit_node(id, NodeEdit::Opacity(opacity))
        } else {
            self.edit_filter(id, FilterEdit::Opacity(opacity))
        }
    }

    /// Blend mode of the first node `id` (`None` for an adjustment layer),
    /// else of the first filter sub-layer `id`.
    pub fn blend_of(&self, id: LayerId) -> (r: Option<BlendMode>)
        ensures
            r == match find_node(self.root@, id) {
                Some(n) => n.node_blend(),
                None => match find_filter(self.root@, id) {
                    Some(f) => Some(f.blend_mode),
                    None => None,
                },
            },
    {
        match self.find(id) {
            Some(n) => n.blend_mode(),
            None => match self.find_filter_layer(id) {
                Some(f) => Some(f.blend_mode),
                None => None,
            },
        }
    }

    /// Sets the blend mode of the first node `id` (no effect on an
    /// adjustment layer, still `true`), else of the first filter sub-layer
    /// `id`, whose carrier is then touched. `false` when there is neither.
    pub fn set_blend_any(&mut self, id: LayerId, mode: BlendMode) -> (done: bool)
        ensures
            blend_set(old(self).root@, old(self).version_clock, id, mode, done, final(self).root@, final(self).version_clock),
            final(self).width == old(self).width,
            final(self).height == old(self).height,
    {
        proof {
            crate::forest::lemma_find_iff_locate(self.root@, id);
        }
        if self.find(id).is_some() {
            self.edit_node(id, NodeEdit::Blend(mode))
        } else {
            self.edit_filter(id, FilterEdit::Blend(mode))
        }
    }
}


// ---------------------------------------------------------------------------
// Masks
// ---------------------------------------------------------------------------

/// An edit of one mask.
pub enum MaskEdit {
    Rename(String),
    /// Switches the mask on or off (a new appearance version).
    Enabled(bool),
    /// Inverts the coverage or not (a new appearance version).
    Inverted(bool),
}

/// An operation on the masks of one carrier.
pub enum MaskOp {
    /// Edits the first mask with the identifier.
    Edit(LayerId, MaskEdit),
    /// Moves the first mask with the identifier one step towards the front
    /// of the list (`true`) or towards its end.
    Move(LayerId, bool),
    /// Appends a mask.
    Append(LayerMask),
    /// Removes every mask with the identifier.
    RemoveAll(LayerId),
}

/// The masks of a list other than those with the identifier `mid`, in
/// order.
pub open spec fn masks_without(ms: Seq<LayerMask>, mid: LayerId) -> Seq<LayerMask>
    decreases ms.len(),
{
    if ms.len() == 0 {
        Seq::empty()
    } else {
        let rest = masks_without(ms.drop_last(), mid);
        if ms.last().id == mid {
            rest
        } else {
            rest.push(ms.last())
        }
    }
}

/// The mask after an edit, `version` being the clock's value.
pub open spec fn mask_edited(m: LayerMask, e: MaskEdit, version: u64) -> LayerMask {
    match e {
        MaskEdit::Rename(name) => LayerMask { name, ..m },
        MaskEdit::Enabled(on) => LayerMask { enabled: on, version, ..m },
        MaskEdit::Inverted(inv) => LayerMask { inverted: inv, version, ..m },
    }
}

/// Versions an operation hands out.
pub open spec fn mask_op_ticks(op: MaskOp) -> nat {
    match op {
        MaskOp::Edit(_, MaskEdit::Rename(_)) => 0,
        MaskOp::Edit(_, _) => 1,
        MaskOp::Move(_, _) => 0,
        MaskOp::Append(_) => 0,
        MaskOp::RemoveAll(_) => 0,
    }
}

/// The list of masks after an operation; `None` when it does not apply
/// (no such mask, or no neighbour to exchange with).
pub open spec fn mask_list_result(ms: Seq<LayerMask>, op: MaskOp, clock: u64) -> Option<
    Seq<LayerMask>,
> {
    match op {
        MaskOp::Edit(mid, e) => match first_index(mask_ids(ms), mid) {
            Some(k) => Some(ms.update(k, mask_edited(ms[k], e, clock))),
            None => None,
        },
        MaskOp::Move(mid, up) => match first_index(mask_ids(ms), mid) {
            Some(k) => {
                let other = if up {
                    k - 1
                } else {
                    k + 1
                };
                if 0 <= other < ms.len() {
                    Some(ms.update(k, ms[other]).update(other, ms[k]))
                } else {
                    None
                }
            },
            None => None,
        },
        MaskOp::Append(m) => Some(ms.push(m)),
        MaskOp::RemoveAll(mid) => match first_index(mask_ids(ms), mid) {
            Some(_) => Some(masks_without(ms, mid)),
            None => None,
        },
    }
}

/// `n2` is the pixel layer or group `n` with the masks `ms`.
pub open spec fn node_with_masks(n: LayerNode, ms: Seq<LayerMask>, n2: LayerNode) -> bool {
    match (n, n2) {
        (LayerNode::Pixel(a), LayerNode::Pixel(b)) => b == PixelLayer { masks: b.masks, ..a }
            && b.masks@ == ms,
        (LayerNode::Group(a), LayerNode::Group(b)) => b == GroupLayer { masks: b.masks, ..a }
            && b.masks@ == ms,
        _ => false,
    }
}

/// `f2` is the sub-layer `f` with the masks `ms`.
pub open spec fn filter_with_masks(f: FilterLayer, ms: Seq<LayerMask>, f2: FilterLayer) -> bool {
    &&& f2 == FilterLayer { masks: f2.masks, ..f }
    &&& f2.masks@ == ms
}

/// Masks of the carrier `owner`: the first node `owner` (an adjustment
/// layer has none), else the first filter sub-layer `owner`.
pub open spec fn masks_of_carrier(root: Seq<LayerNode>, owner: LayerId) -> Option<Seq<LayerMask>> {
    match find_node(root, owner) {
        Some(n) => Some(n.node_masks()),
        None => match find_filter(root, owner) {
            Some(f) => Some(f.masks@),
            None => None,
        },
    }
}

/// Whether an operation on the masks of `owner` applies: the carrier has
/// a mask list (not an adjustment layer) and the operation applies to it.
pub open spec fn mask_op_applies(root: Seq<LayerNode>, owner: LayerId, op: MaskOp) -> bool {
    match find_node(root, owner) {
        Some(n) => !(n is Adjustment) && mask_list_result(n.node_masks(), op, 0) is Some,
        None => match find_filter(root, owner) {
            Some(f) => mask_list_result(f.masks@, op, 0) is Some,
            None => false,
        },
    }
}

/// Forest and clock after an operation on the masks of `owner`.
pub open spec fn mask_op_result(
    old: Seq<LayerNode>,
    clock: u64,
    owner: LayerId,
    op: MaskOp,
    new: Seq<LayerNode>,
    new_clock: u64,
) -> bool {
    if !mask_op_applies(old, owner, op) {
        new == old && new_clock == clock
    } else {
        &&& new_clock == tick(clock, mask_op_ticks(op))
        &&& match find_node(old, owner) {
            Some(n) => exists|n2: LayerNode|
                node_with_masks(n, mask_list_result(n.node_masks(), op, clock)->0, n2)
                    && root_with_node(old, owner, n2, new),
            None => match find_filter_loc(old, owner) {
                Some((p, i, j)) => exists|f2: FilterLayer|
                    filter_with_masks(
                        filter_at(old, p, i, j),
                        mask_list_result(filter_at(old, p, i, j).masks@, op, clock)->0,
                        f2,
                    ) && filter_replaced(old, p, i, j, f2, new),
                None => false,
            },
        }
    }
}

/// Whether an operation applies to a list of masks.
fn mask_op_fits(ms: &[LayerMask], op: &MaskOp) -> (fits: bool)
    ensures
        fits == (mask_list_result(ms@, *op, 0) is Some),
{
    let mid = match op {
        MaskOp::Edit(mid, _) => *mid,
        MaskOp::Move(mid, _) => *mid,
        MaskOp::Append(_) => {
            return true;
        },
        MaskOp::RemoveAll(mid) => *mid,
    };
    proof {
        lemma_first_index(mask_ids(ms@), mid);
    }
    match op {
        MaskOp::Edit(_, _) => mask_position(ms, mid).is_some(),
        MaskOp::RemoveAll(_) => mask_position(ms, mid).is_some(),
        MaskOp::Append(_) => true,
        MaskOp::Move(_, up) => match mask_position(ms, mid) {
            Some(k) => {
                if *up {
                    k > 0
                } else {
                    ms.len() - k > 1
                }
            },
            None => false,
        },
    }
}

/// Applies an operation that fits to a list of masks.
fn apply_mask_op_to(ms: &mut Vec<LayerMask>, op: MaskOp, clock: &mut u64)
    requires
        mask_list_result(old(ms)@, op, 0) is Some,
    ensures
        mask_list_result(old(ms)@, op, *old(clock)) == Some(final(ms)@),
        *final(clock) == tick(*old(clock), mask_op_ticks(op)),
{
    let ghost opg = op;
    let ghost m0 = ms@;
    proof {
        lemma_first_index(mask_ids(ms@), match opg {
            MaskOp::Edit(mid, _) => mid,
            MaskOp::Move(mid, _) => mid,
            MaskOp::Append(m) => m.id,
            MaskOp::RemoveAll(mid) => mid,
        });
        assert(tick(*clock, 0) == *clock);
    }
    match op {
        MaskOp::Edit(mid, e) => {
            let k = mask_position(ms.as_slice(), mid).unwrap();
            let mut m = ms.remove(k);
            match e {
                MaskEdit::Rename(name) => m.name = name,
                MaskEdit::Enabled(on) => {
                    m.enabled = on;
                    let v = next_appearance_version(clock);
                    m.touch(v);
                },
                MaskEdit::Inverted(inv) => {
                    m.inverted = inv;
                    let v = next_appearance_version(clock);
                    m.touch(v);
                },
            }
            ms.insert(k, m);
            assert(ms@ =~= mask_list_result(m0, opg, *old(clock))->0);
        },
        MaskOp::Move(mid, up) => {
            let k = mask_position(ms.as_slice(), mid).unwrap();
            let n = ms.len();
            assert(k < n);
            let other = if up {
                k - 1
            } else {
                k + 1
            };
            let moved = ms.remove(k);
            ms.insert(other, moved);
            assert(ms@ =~= mask_list_result(m0, opg, *old(clock))->0);
        },
        MaskOp::Append(m) => {
            ms.push(m);
        },
        MaskOp::RemoveAll(mid) => {
            let mut src: Vec<LayerMask> = Vec::new();
            std::mem::swap(&mut src, ms);
            let len = src.len();
            let mut k: usize = 0;
            while k < len
                invariant
                    k <= len,
                    len == m0.len(),
                    src@ == m0.subrange(k as int, len as int),
                    ms@ == masks_without(m0.take(k as int), mid),
                decreases len - k,
            {
                let m = src.remove(0);
                assert(m0.take(k + 1).drop_last() =~= m0.take(k as int));
                if m.id != mid {
                    ms.push(m);
                }
                k += 1;
                assert(src@ =~= m0.subrange(k as int, len as int));
            }
            assert(m0.take(len as int) =~= m0);
        },
    }
}

/// The node `n` holding the mask list `v` (an adjustment layer holds
/// none and stays as it is).
pub open spec fn with_mask_list(n: LayerNode, v: Vec<LayerMask>) -> LayerNode {
    match n {
        LayerNode::Pixel(l) => LayerNode::Pixel(PixelLayer { masks: v, ..l }),
        LayerNode::Group(g) => LayerNode::Group(GroupLayer { masks: v, ..g }),
        LayerNode::Adjustment(_) => n,
    }
}

/// Forest after the mask list of the carrier `owner` becomes `v`: the
/// first node `owner`, else the first filter sub-layer `owner`.
pub open spec fn carrier_masks_set(
    root: Seq<LayerNode>,
    owner: LayerId,
    v: Vec<LayerMask>,
    new: Seq<LayerNode>,
) -> bool {
    match find_node(root, owner) {
        Some(n) => root_with_node(root, owner, with_mask_list(n, v), new),
        None => match find_filter_loc(root, owner) {
            Some((p, i, j)) => filter_replaced(
                root,
                p,
                i,
                j,
                FilterLayer { masks: v, ..filter_at(root, p, i, j) },
                new,
            ),
            None => new == root,
        },
    }
}

/// The mask at `k` of a list, to edit in place.
fn mask_in_list_mut(ms: &mut Vec<LayerMask>, k: usize) -> (m: &mut LayerMask)
    requires
        k < old(ms)@.len(),
    ensures
        *m == old(ms)@[k as int],
        final(ms)@ == old(ms)@.update(k as int, *final(m)),
{
    &mut ms[k]
}

/// The masks of a filter sub-layer, to edit in place.
fn filter_masks_mut(f: &mut FilterLayer) -> (ms: &mut Vec<LayerMask>)
    ensures
        *ms == old(f).masks,
        *final(f) == (FilterLayer { masks: *final(ms), ..*old(f) }),
{
    &mut f.masks
}

impl LayerNode {
    /// The first mask `id` of the node, to edit in place (none for an
    /// adjustment layer).
    pub fn mask_mut(&mut self, id: LayerId) -> (r: Option<&mut LayerMask>)
        ensures
            match first_index(mask_ids(old(self).node_masks()), id) {
                Some(k) => r matches Some(m) && *m == old(self).node_masks()[k] && node_with_masks(
                    *old(self),
                    old(self).node_masks().update(k, *final(m)),
                    *final(self),
                ),
                None => r is None && *final(self) == *old(self),
            },
    {
        proof {
            lemma_first_index(mask_ids(self.node_masks()), id);
        }
        let k = match mask_position(self.masks(), id) {
            Some(k) => k,
            None => return None,
        };
        match self.masks_mut() {
            Some(ms) => Some(mask_in_list_mut(ms, k)),
            None => None,
        }
    }
}

/// The sub-layer at `j` of a layer's chain, to edit in place.
fn filter_in_layer_mut(l: &mut PixelLayer, j: usize) -> (f: &mut FilterLayer)
    requires
        j < old(l).filter_layers@.len(),
    ensures
        *f == old(l).filter_layers@[j as int],
        *final(l) == (PixelLayer { filter_layers: final(l).filter_layers, ..*old(l) }),
        final(l).filter_layers@ == old(l).filter_layers@.update(j as int, *final(f)),
{
    &mut l.filter_layers[j]
}

impl Document {
    /// Applies an operation to the masks of the carrier `owner` (the
    /// first node `owner`, else the first filter sub-layer `owner`).
    /// `false`, no change, when it does not apply.
    fn mask_op(&mut self, owner: LayerId, op: MaskOp) -> (done: bool)
        ensures
            done == mask_op_applies(old(self).root@, owner, op),
            mask_op_result(
                old(self).root@,
                old(self).version_clock,
                owner,
                op,
                final(self).root@,
                final(self).version_clock,
            ),
            final(self).width == old(self).width,
            final(self).height == old(self).height,
    {
        let ghost r0 = self.root@;
        let ghost c0 = self.version_clock;
        let ghost opg = op;
        match self.node_loc(owner) {
            Some((p, i)) => {
                assert(ipath(p@).skip(0) =~= ipath(p@));
                let node = &list_ref_at(&self.root, &p, 0)[i];
                if let LayerNode::Adjustment(_) = node {
                    return false;
                }
                if !mask_op_fits(node.masks(), &op) {
                    return false;
                }
                let ghost r1 = self.root@;
                assert(r1 == r0);
                let node = self.take_node_at(&p, i);
                let ghost n0 = node;
                let mut clock = self.version_clock;
                let edited = match node {
                    LayerNode::Pixel(mut l) => {
                        apply_mask_op_to(&mut l.masks, op, &mut clock);
                        LayerNode::Pixel(l)
                    },
                    LayerNode::Group(mut g) => {
                        apply_mask_op_to(&mut g.masks, op, &mut clock);
                        LayerNode::Group(g)
                    },
                    LayerNode::Adjustment(a) => LayerNode::Adjustment(a),
                };
                assert(node_with_masks(n0, mask_list_result(n0.node_masks(), opg, c0)->0, edited));
                self.put_node_at(&p, i, edited, Ghost(r0));
                self.version_clock = clock;
                proof {
                    assert(find_node(r0, owner) == Some(n0));
                    assert(mask_op_applies(r0, owner, opg));
                    assert(root_with_node(r0, owner, edited, self.root@));
                }
                true
            },
            None => {
                proof {
                    lemma_find_filter_loc_from(self.root@, owner, 0);
                }
                match find_filter_loc_in(&self.root, owner) {
                    Some((p, i, j)) => {
                        assert(ipath(p@).skip(0) =~= ipath(p@));
                        let fits = match &list_ref_at(&self.root, &p, 0)[i] {
                            LayerNode::Pixel(l) => mask_op_fits(l.filter_layers[j].masks.as_slice(), &op),
                            _ => false,
                        };
                        if !fits {
                            return false;
                        }
                        let mut l = self.take_pixel_at(&p, i);
                        let ghost l0 = l;
                        let mut f = l.filter_layers.remove(j);
                        let ghost f0 = f;
                        let mut clock = self.version_clock;
                        apply_mask_op_to(&mut f.masks, op, &mut clock);
                        let ghost f2 = f;
                        l.filter_layers.insert(j, f);
                        assert(l.filter_layers@ =~= l0.filter_layers@.update(j as int, f2));
                        let ghost l2 = l;
                        self.put_node_at(&p, i, LayerNode::Pixel(l), Ghost(r0));
                        self.version_clock = clock;
                        proof {
                            assert(filter_at(r0, ipath(p@), i as int, j as int) == f0);
                            assert(filter_with_masks(
                                f0,
                                mask_list_result(f0.masks@, opg, c0)->0,
                                f2,
                            ));
                            assert(l2 == PixelLayer { filter_layers: l2.filter_layers, ..l0 });
                            assert(filter_replaced(r0, ipath(p@), i as int, j as int, f2, self.root@));
                            assert(find_filter(r0, owner) == Some(f0));
                            assert(mask_op_applies(r0, owner, opg));
                        }
                        true
                    },
                    None => false,
                }
            },
        }
    }

    /// The first filter sub-layer `filter_id` of the forest, to edit in
    /// place: what is written through it replaces that sub-layer in its
    /// carrier's chain.
    pub fn find_filter_layer_mut(&mut self, filter_id: LayerId) -> (r: Option<&mut FilterLayer>)
        ensures
            match find_filter_loc(old(self).root@, filter_id) {
                Some((p, i, j)) => r matches Some(f) && *f == filter_at(old(self).root@, p, i, j)
                    && filter_replaced(old(self).root@, p, i, j, *final(f), final(self).root@),
                None => r is None && final(self).root@ == old(self).root@,
            },
            final(self).width == old(self).width,
            final(self).height == old(self).height,
            final(self).version_clock == old(self).version_clock,
    {
        proof {
            lemma_find_filter_loc_from(self.root@, filter_id, 0);
        }
        match find_filter_loc_in(&self.root, filter_id) {
            Some((p, i, j)) => {
                assert(ipath(p@).skip(0) =~= ipath(p@));
                let n = node_mut_at(&mut self.root, &p, 0, i);
                match n {
                    LayerNode::Pixel(l) => Some(filter_in_layer_mut(l, j)),
                    _ => {
                        assert(false);
                        None
                    },
                }
            },
            None => None,
        }
    }

    /// Masks of the carrier `owner`, to edit in place: the first node
    /// `owner` (none for an adjustment layer), else the first filter
    /// sub-layer `owner`.
    pub fn masks_of_mut(&mut self, owner: LayerId) -> (r: Option<&mut Vec<LayerMask>>)
        ensures
            match find_node(old(self).root@, owner) {
                Some(n) => if n is Adjustment {
                    r is None && final(self).root@ == old(self).root@
                } else {
                    r matches Some(ms) && ms@ == n.node_masks() && root_with_node(
                        old(self).root@,
                        owner,
                        with_mask_list(n, *final(ms)),
                        final(self).root@,
                    )
                },
                None => match find_filter_loc(old(self).root@, owner) {
                    Some((p, i, j)) => r matches Some(ms) && ms@ == filter_at(
                        old(self).root@,
                        p,
                        i,
                        j,
                    ).masks@ && filter_replaced(
                        old(self).root@,
                        p,
                        i,
                        j,
                        FilterLayer { masks: *final(ms), ..filter_at(old(self).root@, p, i, j) },
                        final(self).root@,
                    ),
                    None => r is None && final(self).root@ == old(self).root@,
                },
            },
            r matches Some(ms) ==> carrier_masks_set(
                old(self).root@,
                owner,
                *final(ms),
                final(self).root@,
            ),
            final(self).width == old(self).width,
            final(self).height == old(self).height,
            final(self).version_clock == old(self).version_clock,
    {
        match self.find(owner) {
            Some(LayerNode::Adjustment(_)) => return None,
            Some(_) => {
                return match self.find_mut(owner) {
                    Some(n) => n.masks_mut(),
                    None => None,
                };
            },
            None => {},
        }
        match self.find_filter_layer_mut(owner) {
            Some(f) => Some(filter_masks_mut(f)),
            None => None,
        }
    }

    /// The first mask `mask_id` of the carrier `owner`, to edit in place.
    pub fn mask_of_mut(&mut self, owner: LayerId, mask_id: LayerId) -> (r: Option<&mut LayerMask>)
        ensures
            match masks_of_carrier(old(self).root@, owner) {
                Some(ms) => match first_index(mask_ids(ms), mask_id) {
                    Some(k) => r matches Some(m) && *m == ms[k] && exists|v: Vec<LayerMask>|
                        v@ == ms.update(k, *final(m)) && #[trigger] carrier_masks_set(
                            old(self).root@,
                            owner,
                            v,
                            final(self).root@,
                        ),
                    None => r is None && final(self).root@ == old(self).root@,
                },
                None => r is None && final(self).root@ == old(self).root@,
            },
            final(self).width == old(self).width,
            final(self).height == old(self).height,
            final(self).version_clock == old(self).version_clock,
    {
        let k = match self.masks_of(owner) {
            Some(ms) => {
                proof {
                    lemma_first_index(mask_ids(ms@), mask_id);
                }
                match mask_position(ms, mask_id) {
                    Some(k) => k,
                    None => return None,
                }
            },
            None => return None,
        };
        match self.masks_of_mut(owner) {
            Some(ms) => Some(mask_in_list_mut(ms, k)),
            None => None,
        }
    }

    /// Masks of the carrier `owner`: the first node `owner` (none for an
    /// adjustment layer), else the first filter sub-layer `owner`.
    pub fn masks_of(&self, owner: LayerId) -> (r: Option<&[LayerMask]>)
        ensures
            match r {
                Some(ms) => masks_of_carrier(self.root@, owner) == Some(ms@),
                None => masks_of_carrier(self.root@, owner) is None,
            },
    {
        match self.find(owner) {
            Some(n) => Some(n.masks()),
            None => match self.find_filter_layer(owner) {
                Some(f) => Some(f.masks.as_slice()),
                None => None,
            },
        }
    }

    /// The first mask `mask_id` of the carrier `owner`.
    pub fn mask_of(&self, owner: LayerId, mask_id: LayerId) -> (r: Option<&LayerMask>)
        ensures
            match masks_of_carrier(self.root@, owner) {
                Some(ms) => match first_index(mask_ids(ms), mask_id) {
                    Some(k) => r matches Some(m) && *m == ms[k],
                    None => r is None,
                },
                None => r is None,
            },
    {
        match self.masks_of(owner) {
            Some(ms) => {
                proof {
                    lemma_first_index(mask_ids(ms@), mask_id);
                }
                match mask_position(ms, mask_id) {
                    Some(k) => Some(&ms[k]),
                    None => None,
                }
            },
            None => None,
        }
    }

    /// Identifier of the carrier of the first mask `mask_id` (a pixel
    /// layer or group holding it, else a filter sub-layer).
    pub fn mask_owner_of(&self, mask_id: LayerId) -> (r: Option<LayerId>)
        ensures
            r == mask_owner(self.root@, mask_id),
    {
        mask_owner_in(&self.root, mask_id)
    }

    /// Display name of the mask `mask_id`, looked up in the masks of its
    /// carrier.
    pub fn mask_name(&self, mask_id: LayerId) -> (r: Option<String>)
        ensures
            match mask_owner(self.root@, mask_id) {
                Some(o) => match masks_of_carrier(self.root@, o) {
                    Some(ms) => match first_index(mask_ids(ms), mask_id) {
                        Some(k) => r matches Some(s) && s@ == ms[k].name@,
                        None => r is None,
                    },
                    None => r is None,
                },
                None => r is None,
            },
    {
        let owner = match self.mask_owner_of(mask_id) {
            Some(o) => o,
            None => {
                return None;
            },
        };
        match self.mask_of(owner, mask_id) {
            Some(m) => Some(m.name.clone()),
            None => None,
        }
    }

    /// Moves the mask `mask_id` of the carrier `owner` one step towards the
    /// front of its list (`up`) or towards its end. `false`, no change, at
    /// the ends of the list or when there is no such mask.
    pub fn move_mask(&mut self, owner: LayerId, mask_id: LayerId, up: bool) -> (done: bool)
        ensures
            done == mask_op_applies(old(self).root@, owner, MaskOp::Move(mask_id, up)),
            mask_op_result(
                old(self).root@,
                old(self).version_clock,
                owner,
                MaskOp::Move(mask_id, up),
                final(self).root@,
                final(self).version_clock,
            ),
            final(self).width == old(self).width,
            final(self).height == old(self).height,
    {
        self.mask_op(owner, MaskOp::Move(mask_id, up))
    }

    /// Switches the mask `mask_id` of the carrier `owner` on or off (a new
    /// appearance version). `false`, no change, when there is no such mask.
    pub fn set_mask_enabled(&mut self, owner: LayerId, mask_id: LayerId, enabled: bool) -> (done: bool)
        ensures
            done == mask_op_applies(
                old(self).root@,
                owner,
                MaskOp::Edit(mask_id, MaskEdit::Enabled(enabled)),
            ),
            mask_op_result(
                old(self).root@,
                old(self).version_clock,
                owner,
                MaskOp::Edit(mask_id, MaskEdit::Enabled(enabled)),
                final(self).root@,
                final(self).version_clock,
            ),
            final(self).width == old(self).width,
            final(self).height == old(self).height,
    {
        self.mask_op(owner, MaskOp::Edit(mask_id, MaskEdit::Enabled(enabled)))
    }

    /// Inverts the coverage of the mask `mask_id` of the carrier `owner` or
    /// not (a new appearance version). `false`, no change, when there is no
    /// such mask.
    pub fn set_mask_inverted(&mut self, owner: LayerId, mask_id: LayerId, inverted: bool) -> (done:
        bool)
        ensures
            done == mask_op_applies(
                old(self).root@,
                owner,
                MaskOp::Edit(mask_id, MaskEdit::Inverted(inverted)),
            ),
            mask_op_result(
                old(self).root@,
                old(self).version_clock,
                owner,
                MaskOp::Edit(mask_id, MaskEdit::Inverted(inverted)),
                final(self).root@,
                final(self).version_clock,
            ),
            final(self).width == old(self).width,
            final(self).height == old(self).height,
    {
        self.mask_op(owner, MaskOp::Edit(mask_id, MaskEdit::Inverted(inverted)))
    }

    /// Renames the first node `id`, else the first filter sub-layer `id`
    /// (its carrier is touched), else the mask `id` in the masks of its
    /// carrier. `false`, no change, when there is none of these.
    pub fn set_name_any(&mut self, id: LayerId, name: String) -> (done: bool)
        ensures
            name_set(old(self).root@, old(self).version_clock, id, name, done, final(self).root@, final(self).version_clock),
            final(self).width == old(self).width,
            final(self).height == old(self).height,
    {
        proof {
            crate::forest::lemma_find_iff_locate(self.root@, id);
            lemma_find_filter_loc_from(self.root@, id, 0);
        }
        if self.find(id).is_some() {
            return self.edit_node(id, NodeEdit::Rename(name));
        }
        if find_filter_loc_in(&self.root, id).is_some() {
            return self.edit_filter(id, FilterEdit::Rename(name));
        }
        match self.mask_owner_of(id) {
            Some(owner) => self.mask_op(owner, MaskOp::Edit(id, MaskEdit::Rename(name))),
            None => false,
        }
    }

    /// Whether an operation on the masks of `owner` would apply.
    pub fn mask_op_allowed(&self, owner: LayerId, op: &MaskOp) -> (r: bool)
        ensures
            r == mask_op_applies(self.root@, owner, *op),
    {
        match self.find(owner) {
            Some(LayerNode::Adjustment(_)) => false,
            Some(n) => mask_op_fits(n.masks(), op),
            None => match self.find_filter_layer(owner) {
                Some(f) => mask_op_fits(f.masks.as_slice(), op),
                None => false,
            },
        }
    }

    /// Appends a mask to the carrier `owner` (not an adjustment layer).
    /// `false`, no change, when there is no such carrier.
    pub fn append_mask(&mut self, owner: LayerId, mask: LayerMask) -> (done: bool)
        ensures
            done == mask_op_applies(old(self).root@, owner, MaskOp::Append(mask)),
            mask_op_result(
                old(self).root@,
                old(self).version_clock,
                owner,
                MaskOp::Append(mask),
                final(self).root@,
                final(self).version_clock,
            ),
            final(self).width == old(self).width,
            final(self).height == old(self).height,
    {
        self.mask_op(owner, MaskOp::Append(mask))
    }

    /// Removes every mask `mask_id` of the carrier `owner`. `false`, no
    /// change, when it holds none.
    pub fn remove_mask(&mut self, owner: LayerId, mask_id: LayerId) -> (done: bool)
        ensures
            done == mask_op_applies(old(self).root@, owner, MaskOp::RemoveAll(mask_id)),
            mask_op_result(
                old(self).root@,
                old(self).version_clock,
                owner,
                MaskOp::RemoveAll(mask_id),
                final(self).root@,
                final(self).version_clock,
            ),
            final(self).width == old(self).width,
            final(self).height == old(self).height,
    {
        self.mask_op(owner, MaskOp::RemoveAll(mask_id))
    }
}

} // verus!
