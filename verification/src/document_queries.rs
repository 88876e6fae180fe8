//! Flat views of the forest, in drawing order (bottom of each stack
//! first, depth-first), and whether the fast one-texture-per-layer
//! display can show it.

use crate::blend::BlendMode;
use crate::document::Document;
use crate::geometry::{OPACITY_INVISIBLE, OPACITY_OPAQUE};
use crate::ids::LayerId;
use crate::model::{FilterLayer, FilterNode, GroupLayer, LayerMask, LayerNode, PixelLayer};
use vstd::prelude::*;

verus! {

/// Whether a node shows: visible and above the invisible opacity.
pub open spec fn shows(n: LayerNode) -> bool {
    n.is_visible() && n.node_opacity() > OPACITY_INVISIBLE
}

/// From index `k` of a list on: the pixel layers that contribute to the
/// composite (showing, inside showing groups), in drawing order.
pub open spec fn shown_pixels_from(nodes: Seq<LayerNode>, k: int) -> Seq<PixelLayer>
    decreases nodes, nodes.len() - k,
{
    if k < 0 || k >= nodes.len() {
        Seq::empty()
    } else {
        let here = match nodes[k] {
            LayerNode::Pixel(l) => if shows(nodes[k]) {
                seq![l]
            } else {
                Seq::empty()
            },
            LayerNode::Group(g) => if shows(nodes[k]) {
                shown_pixels_from(g.children@, 0)
            } else {
                Seq::empty()
            },
            LayerNode::Adjustment(_) => Seq::empty(),
        };
        here + shown_pixels_from(nodes, k + 1)
    }
}

/// From index `k` of a list on: identifiers of all pixel layers, shown or
/// not, in drawing order.
pub open spec fn pixel_ids_from(nodes: Seq<LayerNode>, k: int) -> Seq<LayerId>
    decreases nodes, nodes.len() - k,
{
    if k < 0 || k >= nodes.len() {
        Seq::empty()
    } else {
        let here = match nodes[k] {
            LayerNode::Pixel(l) => seq![l.id],
            LayerNode::Group(g) => pixel_ids_from(g.children@, 0),
            LayerNode::Adjustment(_) => Seq::empty(),
        };
        here + pixel_ids_from(nodes, k + 1)
    }
}

/// The masks of a list, each with the identifier of its carrier.
pub open spec fn carried(owner: LayerId, ms: Seq<LayerMask>) -> Seq<(LayerId, LayerMask)> {
    ms.map_values(|m: LayerMask| (owner, m))
}

/// The masks of the filter sub-layers of a chain from position `k` on,
/// each with the identifier of its filter.
pub open spec fn filter_masks_from(fs: Seq<FilterLayer>, k: int) -> Seq<(LayerId, LayerMask)>
    decreases fs.len() - k,
{
    if k < 0 || k >= fs.len() {
        Seq::empty()
    } else {
        carried(fs[k].id, fs[k].masks@) + filter_masks_from(fs, k + 1)
    }
}

/// From index `k` of a list on: every mask of the forest with the
/// identifier of its carrier (a pixel layer's own masks, then those of its
/// filters; a group's masks, then its children's), in drawing order.
pub open spec fn masks_from(nodes: Seq<LayerNode>, k: int) -> Seq<(LayerId, LayerMask)>
    decreases nodes, nodes.len() - k,
{
    if k < 0 || k >= nodes.len() {
        Seq::empty()
    } else {
        let here = match nodes[k] {
            LayerNode::Pixel(l) => carried(l.id, l.masks@) + filter_masks_from(l.filter_layers@, 0),
            LayerNode::Group(g) => carried(g.id, g.masks@) + masks_from(g.children@, 0),
            LayerNode::Adjustment(_) => Seq::empty(),
        };
        here + masks_from(nodes, k + 1)
    }
}

/// Whether some mask of a list is enabled.
pub open spec fn some_mask_enabled(ms: Seq<LayerMask>) -> bool {
    exists|i: int| 0 <= i < ms.len() && (#[trigger] ms[i]).enabled
}

/// Whether some plain filter of a chain is enabled.
pub open spec fn some_filter_enabled(fs: Seq<FilterNode>) -> bool {
    exists|i: int| 0 <= i < fs.len() && (#[trigger] fs[i]).enabled
}

/// From index `k` of a list on: whether a showing node needs the CPU
/// composite: a pixel layer with a blend mode other than normal or a
/// skewed placement; a group not fully opaque, not normal, with an
/// enabled mask or such a child; an adjustment with an enabled filter.
pub open spec fn fallback_from(nodes: Seq<LayerNode>, k: int) -> bool
    decreases nodes, nodes.len() - k,
{
    if k < 0 || k >= nodes.len() {
        false
    } else {
        let here = shows(nodes[k]) && match nodes[k] {
            LayerNode::Pixel(l) => l.blend_mode != BlendMode::Normal || l.transform.skew_x != 0
                || l.transform.skew_y != 0,
            LayerNode::Group(g) => g.opacity < OPACITY_OPAQUE || g.blend_mode != BlendMode::Normal
                || some_mask_enabled(g.masks@) || fallback_from(g.children@, 0),
            LayerNode::Adjustment(a) => some_filter_enabled(a.filters@),
        };
        here || fallback_from(nodes, k + 1)
    }
}

/// The layers behind a list of references.
pub open spec fn derefs<'a>(s: Seq<&'a PixelLayer>) -> Seq<PixelLayer> {
    s.map_values(|r: &'a PixelLayer| *r)
}

/// The masks behind a list of (carrier, reference) pairs.
pub open spec fn mask_derefs<'a>(s: Seq<(LayerId, &'a LayerMask)>) -> Seq<(LayerId, LayerMask)> {
    s.map_values(|r: (LayerId, &'a LayerMask)| (r.0, *r.1))
}

/// Appends the pixel layers of `nodes` that contribute to the composite.
fn collect_shown_pixels<'a>(nodes: &'a Vec<LayerNode>, out: &mut Vec<&'a PixelLayer>)
    ensures
        derefs(final(out)@) == derefs(old(out)@) + shown_pixels_from(nodes@, 0),
    decreases nodes@,
{
    let ghost start = derefs(out@);
    let mut k: usize = 0;
    while k < nodes.len()
        invariant
            k <= nodes@.len(),
            derefs(out@) + shown_pixels_from(nodes@, k as int) == start + shown_pixels_from(nodes@, 0),
        decreases nodes@.len() - k,
    {
        let ghost before = derefs(out@);
        let ghost next = shown_pixels_from(nodes@, k as int + 1);
        match &nodes[k] {
            LayerNode::Pixel(l) => {
                if l.visible && l.opacity > OPACITY_INVISIBLE {
                    out.push(l);
                    assert(derefs(out@) =~= before.push(*l));
                    assert(derefs(out@) + next =~= before + (seq![*l] + next));
                } else {
                    assert(before + next =~= before + (Seq::<PixelLayer>::empty() + next));
                }
            },
            LayerNode::Group(g) => {
                if g.visible && g.opacity > OPACITY_INVISIBLE {
                    assert(decreases_to!(nodes@ => g.children@)) by {
                        assert(decreases_to!(nodes@ => nodes@[k as int]));
                    }
                    collect_shown_pixels(&g.children, out);
                    assert(derefs(out@) + next =~= before + (shown_pixels_from(g.children@, 0)
                        + next));
                } else {
                    assert(before + next =~= before + (Seq::<PixelLayer>::empty() + next));
                }
            },
            LayerNode::Adjustment(_) => {
                assert(before + next =~= before + (Seq::<PixelLayer>::empty() + next));
            },
        }
        k += 1;
    }
    assert(derefs(out@) + Seq::<PixelLayer>::empty() =~= derefs(out@));
}

/// Appends the identifiers of all pixel layers of `nodes`.
fn collect_pixel_ids(nodes: &Vec<LayerNode>, out: &mut Vec<LayerId>)
    ensures
        final(out)@ == old(out)@ + pixel_ids_from(nodes@, 0),
    decreases nodes@,
{
    let ghost start = out@;
    let mut k: usize = 0;
    while k < nodes.len()
        invariant
            k <= nodes@.len(),
            out@ + pixel_ids_from(nodes@, k as int) == start + pixel_ids_from(nodes@, 0),
        decreases nodes@.len() - k,
    {
        let ghost before = out@;
        let ghost next = pixel_ids_from(nodes@, k as int + 1);
        match &nodes[k] {
            LayerNode::Pixel(l) => {
                out.push(l.id);
                assert(out@ + next =~= before + (seq![l.id] + next));
            },
            LayerNode::Group(g) => {
                assert(decreases_to!(nodes@ => g.children@)) by {
                    assert(decreases_to!(nodes@ => nodes@[k as int]));
                }
                collect_pixel_ids(&g.children, out);
                assert(out@ + next =~= before + (pixel_ids_from(g.children@, 0) + next));
            },
            LayerNode::Adjustment(_) => {
                assert(before + next =~= before + (Seq::<LayerId>::empty() + next));
            },
        }
        k += 1;
    }
    assert(out@ + Seq::<LayerId>::empty() =~= out@);
}

/// Appends the masks of a list, each with `owner`.
fn push_carried<'a>(owner: LayerId, ms: &'a Vec<LayerMask>, out: &mut Vec<(LayerId, &'a LayerMask)>)
    ensures
        mask_derefs(final(out)@) == mask_derefs(old(out)@) + carried(owner, ms@),
{
    let ghost start = mask_derefs(out@);
    let mut i: usize = 0;
    while i < ms.len()
        invariant
            i <= ms@.len(),
            mask_derefs(out@) == start + carried(owner, ms@).take(i as int),
        decreases ms@.len() - i,
    {
        let ghost before = out@;
        out.push((owner, &ms[i]));
        assert(mask_derefs(out@) =~= mask_derefs(before).push((owner, ms@[i as int])));
        i += 1;
        assert(carried(owner, ms@).take(i as int) =~= carried(owner, ms@).take(i - 1).push(
            (owner, ms@[i - 1]),
        ));
        assert(mask_derefs(out@) =~= start + carried(owner, ms@).take(i as int));
    }
    assert(carried(owner, ms@).take(ms@.len() as int) =~= carried(owner, ms@));
}

/// Appends every mask of a chain of filter sub-layers with its filter.
fn push_filter_masks<'a>(fs: &'a Vec<FilterLayer>, out: &mut Vec<(LayerId, &'a LayerMask)>)
    ensures
        mask_derefs(final(out)@) == mask_derefs(old(out)@) + filter_masks_from(fs@, 0),
{
    let ghost start = mask_derefs(out@);
    let mut k: usize = 0;
    while k < fs.len()
        invariant
            k <= fs@.len(),
            mask_derefs(out@) + filter_masks_from(fs@, k as int) == start + filter_masks_from(fs@, 0),
        decreases fs@.len() - k,
    {
        let ghost before = mask_derefs(out@);
        let ghost next = filter_masks_from(fs@, k as int + 1);
        push_carried(fs[k].id, &fs[k].masks, out);
        assert(mask_derefs(out@) + next =~= before + (carried(fs@[k as int].id, fs@[k as int].masks@)
            + next));
        k += 1;
    }
    assert(mask_derefs(out@) + Seq::<(LayerId, LayerMask)>::empty() =~= mask_derefs(out@));
}

/// Appends every mask of `nodes` with its carrier.
fn collect_masks<'a>(nodes: &'a Vec<LayerNode>, out: &mut Vec<(LayerId, &'a LayerMask)>)
    ensures
        mask_derefs(final(out)@) == mask_derefs(old(out)@) + masks_from(nodes@, 0),
    decreases nodes@,
{
    let ghost start = mask_derefs(out@);
    let mut k: usize = 0;
    while k < nodes.len()
        invariant
            k <= nodes@.len(),
            mask_derefs(out@) + masks_from(nodes@, k as int) == start + masks_from(nodes@, 0),
        decreases nodes@.len() - k,
    {
        let ghost before = mask_derefs(out@);
        let ghost next = masks_from(nodes@, k as int + 1);
        match &nodes[k] {
            LayerNode::Pixel(l) => {
                push_carried(l.id, &l.masks, out);
                push_filter_masks(&l.filter_layers, out);
                assert(mask_derefs(out@) + next =~= before + ((carried(l.id, l.masks@)
                    + filter_masks_from(l.filter_layers@, 0)) + next));
            },
            LayerNode::Group(g) => {
                assert(decreases_to!(nodes@ => g.children@)) by {
                    assert(decreases_to!(nodes@ => nodes@[k as int]));
                }
                push_carried(g.id, &g.masks, out);
                collect_masks(&g.children, out);
                assert(mask_derefs(out@) + next =~= before + ((carried(g.id, g.masks@) + masks_from(
                    g.children@,
                    0,
                )) + next));
            },
            LayerNode::Adjustment(_) => {
                assert(before + next =~= before + (Seq::<(LayerId, LayerMask)>::empty() + next));
            },
        }
        k += 1;
    }
    assert(mask_derefs(out@) + Seq::<(LayerId, LayerMask)>::empty() =~= mask_derefs(out@));
}

/// Whether some mask of a list is enabled.
fn any_mask_enabled(ms: &Vec<LayerMask>) -> (r: bool)
    ensures
        r == some_mask_enabled(ms@),
{
    let mut i: usize = 0;
    while i < ms.len()
        invariant
            i <= ms@.len(),
            forall|j: int| 0 <= j < i ==> !(#[trigger] ms@[j]).enabled,
        decreases ms@.len() - i,
    {
        if ms[i].enabled {
            return true;
        }
        i += 1;
    }
    false
}

/// Whether some plain filter of a chain is enabled.
fn any_filter_enabled(fs: &Vec<FilterNode>) -> (r: bool)
    ensures
        r == some_filter_enabled(fs@),
{
    let mut i: usize = 0;
    while i < fs.len()
        invariant
            i <= fs@.len(),
            forall|j: int| 0 <= j < i ==> !(#[trigger] fs@[j]).enabled,
        decreases fs@.len() - i,
    {
        if fs[i].enabled {
            return true;
        }
        i += 1;
    }
    false
}

/// Whether some showing node of `nodes` needs the CPU composite.
fn needs_fallback_in(nodes: &Vec<LayerNode>) -> (r: bool)
    ensures
        r == fallback_from(nodes@, 0),
    decreases nodes@,
{
    let mut k: usize = 0;
    while k < nodes.len()
        invariant
            k <= nodes@.len(),
            fallback_from(nodes@, 0) == fallback_from(nodes@, k as int),
        decreases nodes@.len() - k,
    {
        let n = &nodes[k];
        if n.visible() && n.opacity() > OPACITY_INVISIBLE {
            let here = match n {
                LayerNode::Pixel(l) => !l.blend_mode.is_normal() || l.transform.has_skew(),
                LayerNode::Group(g) => {
                    assert(decreases_to!(nodes@ => g.children@)) by {
                        assert(decreases_to!(nodes@ => nodes@[k as int]));
                    }
                    g.opacity < OPACITY_OPAQUE || !g.blend_mode.is_normal() || any_mask_enabled(
                        &g.masks,
                    ) || needs_fallback_in(&g.children)
                },
                LayerNode::Adjustment(a) => any_filter_enabled(&a.filters),
            };
            if here {
                return true;
            }
        }
        k += 1;
    }
    false
}

impl Document {
    /// The pixel layers that contribute to the composite (visible, above
    /// the invisible opacity, inside such groups), in drawing order.
    pub fn iter_pixels(&self) -> (r: Vec<&PixelLayer>)
        ensures
            derefs(r@) == shown_pixels_from(self.root@, 0),
    {
        let mut out: Vec<&PixelLayer> = Vec::new();
        assert(derefs(out@) =~= Seq::<PixelLayer>::empty());
        collect_shown_pixels(&self.root, &mut out);
        assert(Seq::<PixelLayer>::empty() + shown_pixels_from(self.root@, 0) =~= shown_pixels_from(
            self.root@,
            0,
        ));
        out
    }

    /// Identifiers of all pixel layers, shown or not, in drawing order.
    pub fn all_pixel_ids(&self) -> (r: Vec<LayerId>)
        ensures
            r@ == pixel_ids_from(self.root@, 0),
    {
        let mut out: Vec<LayerId> = Vec::new();
        collect_pixel_ids(&self.root, &mut out);
        assert(Seq::<LayerId>::empty() + pixel_ids_from(self.root@, 0) =~= pixel_ids_from(
            self.root@,
            0,
        ));
        out
    }

    /// Number of pixel layers that contribute to the composite.
    pub fn pixel_count(&self) -> (n: usize)
        ensures
            n == shown_pixels_from(self.root@, 0).len(),
    {
        let shown = self.iter_pixels();
        shown.len()
    }

    /// Every mask of the forest with the identifier of its carrier (a
    /// pixel layer, a group or a filter sub-layer), in drawing order.
    pub fn iter_masks(&self) -> (r: Vec<(LayerId, &LayerMask)>)
        ensures
            mask_derefs(r@) == masks_from(self.root@, 0),
    {
        let mut out: Vec<(LayerId, &LayerMask)> = Vec::new();
        assert(mask_derefs(out@) =~= Seq::<(LayerId, LayerMask)>::empty());
        collect_masks(&self.root, &mut out);
        assert(Seq::<(LayerId, LayerMask)>::empty() + masks_from(self.root@, 0) =~= masks_from(
            self.root@,
            0,
        ));
        out
    }

    /// Whether the fast display (one texture per layer) cannot show the
    /// document and the CPU composite is needed: a showing node blends
    /// otherwise than normally, is skewed, is a group not fully opaque or
    /// with an enabled mask, or is an adjustment with an enabled filter.
    pub fn needs_fallback(&self) -> (r: bool)
        ensures
            r == fallback_from(self.root@, 0),
    {
        needs_fallback_in(&self.root)
    }
}

/// A showing node that the fast path cannot draw, at any position of a
/// list, makes the composite of that list need the CPU fallback: a pixel
/// layer drawn with another blend mode than normal or with a skewed
/// placement, a group not fully opaque, not normal or with an enabled
/// mask, an adjustment with an enabled filter.
pub proof fn law_blended_layer_needs_fallback(nodes: Seq<LayerNode>, k: int)
    requires
        0 <= k < nodes.len(),
        shows(nodes[k]),
        match nodes[k] {
            LayerNode::Pixel(l) => l.blend_mode != BlendMode::Normal || l.transform.skew_x != 0
                || l.transform.skew_y != 0,
            LayerNode::Group(g) => g.opacity < OPACITY_OPAQUE || g.blend_mode != BlendMode::Normal
                || exists|i: int| 0 <= i < g.masks@.len() && (#[trigger] g.masks@[i]).enabled,
            LayerNode::Adjustment(a) => exists|i: int|
                0 <= i < a.filters@.len() && (#[trigger] a.filters@[i]).enabled,
        },
    ensures
        fallback_from(nodes, 0),
{
    assert(fallback_from(nodes, k));
    lemma_fallback_reaches(nodes, k);
}

/// What needs the fallback from index `k` on needs it from any index
/// before.
proof fn lemma_fallback_reaches(nodes: Seq<LayerNode>, j: int)
    requires
        0 <= j < nodes.len(),
        fallback_from(nodes, j),
    ensures
        fallback_from(nodes, 0),
    decreases j,
{
    if j > 0 {
        assert(fallback_from(nodes, j - 1));
        lemma_fallback_reaches(nodes, j - 1);
    }
}

/// Gathering nodes inside a showing, fully opaque, normal group without an
/// enabled mask changes nothing of whether the composite needs the CPU
/// fallback: the group needs it exactly when its children do.
pub proof fn law_plain_group_keeps_fallback(g: GroupLayer)
    requires
        g.visible,
        g.opacity >= OPACITY_OPAQUE,
        g.blend_mode == BlendMode::Normal,
        !some_mask_enabled(g.masks@),
    ensures
        fallback_from(seq![LayerNode::Group(g)], 0) == fallback_from(g.children@, 0),
{
    let s = seq![LayerNode::Group(g)];
    assert(s[0] == LayerNode::Group(g));
    assert(!fallback_from(s, 1));
}

/// A list whose nodes all are hidden (not visible, or at an invisible
/// opacity) never needs the CPU fallback, whatever they hold.
pub proof fn law_hidden_nodes_need_no_fallback(nodes: Seq<LayerNode>, k: int)
    requires
        0 <= k,
        forall|i: int| 0 <= i < nodes.len() ==> !shows(#[trigger] nodes[i]),
    ensures
        !fallback_from(nodes, k),
    decreases nodes.len() - k,
{
    if k < nodes.len() {
        assert(!shows(nodes[k]));
        law_hidden_nodes_need_no_fallback(nodes, k + 1);
    }
}

} // verus!
