//! Copies of layers: exact copies (history snapshots) and copies under
//! fresh identifiers (duplication).
//!
//! Two copies hold the same values everywhere; their lists are distinct
//! vectors with the same contents. With `fresh`, every identifier (node,
//! filter, mask) is new and pixel layers get a new appearance version.

use crate::forest::{list_at, replaced};
use crate::ids::fresh_id;
use crate::model::{
    AdjustmentLayer, FilterLayer, FilterNode, GroupLayer, LayerMask, LayerNode, PixelLayer,
    next_appearance_version, tick,
};
use crate::params::{ParamEntry, ParamValue};
use vstd::prelude::*;

verus! {

pub open spec fn mask_copied(a: LayerMask, b: LayerMask, fresh: bool) -> bool {
    &&& fresh || b.id == a.id
    &&& b == LayerMask { id: b.id, ..a }
}

pub open spec fn masks_copied(a: Seq<LayerMask>, b: Seq<LayerMask>, fresh: bool) -> bool {
    &&& a.len() == b.len()
    &&& forall|i: int| 0 <= i < a.len() ==> mask_copied(a[i], b[i], fresh)
}

pub open spec fn filter_layer_copied(a: FilterLayer, b: FilterLayer, fresh: bool) -> bool {
    &&& fresh || b.id == a.id
    &&& b.name == a.name
    &&& b.type_id == a.type_id
    &&& b.params@ == a.params@
    &&& b.enabled == a.enabled
    &&& b.opacity == a.opacity
    &&& b.blend_mode == a.blend_mode
    &&& b.transform == a.transform
    &&& masks_copied(a.masks@, b.masks@, fresh)
}

pub open spec fn filter_layers_copied(a: Seq<FilterLayer>, b: Seq<FilterLayer>, fresh: bool) -> bool {
    &&& a.len() == b.len()
    &&& forall|i: int| 0 <= i < a.len() ==> filter_layer_copied(a[i], b[i], fresh)
}

pub open spec fn filter_node_copied(a: FilterNode, b: FilterNode, fresh: bool) -> bool {
    &&& fresh || b.id == a.id
    &&& b.type_id == a.type_id
    &&& b.params@ == a.params@
    &&& b.enabled == a.enabled
}

pub open spec fn filter_nodes_copied(a: Seq<FilterNode>, b: Seq<FilterNode>, fresh: bool) -> bool {
    &&& a.len() == b.len()
    &&& forall|i: int| 0 <= i < a.len() ==> filter_node_copied(a[i], b[i], fresh)
}

/// `b` is a copy of `a` (with fresh identifiers when `fresh`).
pub open spec fn node_copied(a: LayerNode, b: LayerNode, fresh: bool) -> bool
    decreases a,
{
    match (a, b) {
        (LayerNode::Pixel(x), LayerNode::Pixel(y)) => {
            &&& fresh || (y.id == x.id && y.appearance_version == x.appearance_version)
            &&& y.name == x.name
            &&& y.source_image == x.source_image
            &&& filter_layers_copied(x.filter_layers@, y.filter_layers@, fresh)
            &&& y.transform == x.transform
            &&& y.opacity == x.opacity
            &&& y.blend_mode == x.blend_mode
            &&& y.visible == x.visible
            &&& masks_copied(x.masks@, y.masks@, fresh)
        },
        (LayerNode::Group(x), LayerNode::Group(y)) => {
            &&& fresh || y.id == x.id
            &&& y.name == x.name
            &&& y.collapsed == x.collapsed
            &&& y.opacity == x.opacity
            &&& y.blend_mode == x.blend_mode
            &&& y.visible == x.visible
            &&& masks_copied(x.masks@, y.masks@, fresh)
            &&& x.children@.len() == y.children@.len()
            &&& forall|i: int|
                0 <= i < x.children@.len() ==> node_copied(x.children@[i], y.children@[i], fresh)
        },
        (LayerNode::Adjustment(x), LayerNode::Adjustment(y)) => {
            &&& fresh || y.id == x.id
            &&& y.name == x.name
            &&& filter_nodes_copied(x.filters@, y.filters@, fresh)
            &&& y.opacity == x.opacity
            &&& y.visible == x.visible
        },
        _ => false,
    }
}

/// How many pixel layers the first `k` nodes of a list hold, their
/// descendants included.
pub open spec fn pixels_upto(s: Seq<LayerNode>, k: int) -> nat
    decreases s, k,
{
    if k <= 0 || k > s.len() {
        0
    } else {
        pixels_upto(s, k - 1) + match s[k - 1] {
            LayerNode::Pixel(_) => 1nat,
            LayerNode::Group(g) => pixels_upto(g.children@, g.children@.len() as int),
            LayerNode::Adjustment(_) => 0nat,
        }
    }
}

/// How many pixel layers the subtree of `n` holds, itself included.
pub open spec fn node_pixels(n: LayerNode) -> nat {
    match n {
        LayerNode::Pixel(_) => 1,
        LayerNode::Group(g) => pixels_upto(g.children@, g.children@.len() as int),
        LayerNode::Adjustment(_) => 0,
    }
}

/// The appearance versions of a copy `b` of the subtree `a` made with
/// fresh identifiers from the clock value `clock`: its pixel layers, in
/// depth-first order, take the successive values of the clock.
pub open spec fn fresh_stamps(a: LayerNode, b: LayerNode, clock: u64) -> bool
    decreases a,
{
    match (a, b) {
        (LayerNode::Pixel(_), LayerNode::Pixel(y)) => y.appearance_version == clock,
        (LayerNode::Group(x), LayerNode::Group(y)) => forall|j: int|
            0 <= j < x.children@.len() ==> fresh_stamps(
                x.children@[j],
                #[trigger] y.children@[j],
                tick(clock, pixels_upto(x.children@, j)),
            ),
        _ => true,
    }
}

/// `b` is a copy of the forest `a`.
pub open spec fn forest_copied(a: Seq<LayerNode>, b: Seq<LayerNode>, fresh: bool) -> bool {
    &&& a.len() == b.len()
    &&& forall|i: int| 0 <= i < a.len() ==> node_copied(a[i], b[i], fresh)
}

/// Every node is an exact copy of itself.
pub proof fn lemma_node_copied_refl(n: LayerNode)
    ensures
        node_copied(n, n, false),
    decreases n,
{
    match n {
        LayerNode::Group(g) => {
            assert forall|i: int| 0 <= i < g.children@.len() implies node_copied(
                g.children@[i],
                g.children@[i],
                false,
            ) by {
                lemma_node_copied_refl(g.children@[i]);
            }
        },
        _ => {},
    }
}

/// Every forest is an exact copy of itself.
pub proof fn lemma_forest_copied_refl(s: Seq<LayerNode>)
    ensures
        forest_copied(s, s, false),
{
    assert forall|i: int| 0 <= i < s.len() implies node_copied(s[i], s[i], false) by {
        lemma_node_copied_refl(s[i]);
    }
}

/// Replacing a child list by an exact copy of it gives an exact copy of
/// the forest.
pub proof fn lemma_replaced_copied(
    a: Seq<LayerNode>,
    p: Seq<int>,
    list: Seq<LayerNode>,
    b: Seq<LayerNode>,
)
    requires
        replaced(a, p, list, b),
        forest_copied(list_at(a, p), list, false),
    ensures
        forest_copied(a, b, false),
    decreases p.len(),
{
    if p.len() > 0 {
        let k = p[0];
        assert forall|j: int| 0 <= j < a.len() implies node_copied(a[j], b[j], false) by {
            if j == k {
                match (a[k], b[k]) {
                    (LayerNode::Group(ga), LayerNode::Group(gb)) => {
                        lemma_replaced_copied(ga.children@, p.drop_first(), list, gb.children@);
                        assert(masks_copied(ga.masks@, gb.masks@, false)) by {
                            assert forall|q: int| 0 <= q < ga.masks@.len() implies mask_copied(
                                ga.masks@[q],
                                gb.masks@[q],
                                false,
                            ) by {}
                        }
                    },
                    _ => {},
                }
            } else {
                lemma_node_copied_refl(a[j]);
            }
        }
    }
}

/// An exact copy of a parameter value.
pub fn copy_param_value(v: &ParamValue) -> (r: ParamValue)
    ensures
        r == *v,
{
    match v {
        ParamValue::Float(x) => ParamValue::Float(*x),
        ParamValue::Int(x) => ParamValue::Int(*x),
        ParamValue::Bool(x) => ParamValue::Bool(*x),
        ParamValue::Color(c) => ParamValue::Color(*c),
        ParamValue::Text(s) => ParamValue::Text(s.clone()),
        ParamValue::Enum(s) => ParamValue::Enum(s.clone()),
    }
}

/// An exact copy of a parameter list.
pub fn copy_params(params: &Vec<ParamEntry>) -> (r: Vec<ParamEntry>)
    ensures
        r@ == params@,
{
    let mut out: Vec<ParamEntry> = Vec::new();
    let mut i: usize = 0;
    while i < params.len()
        invariant
            i <= params@.len(),
            out@ == params@.subrange(0, i as int),
        decreases params@.len() - i,
    {
        let entry = ParamEntry { key: params[i].key.clone(), value: copy_param_value(&params[i].value) };
        out.push(entry);
        i += 1;
        assert(out@ =~= params@.subrange(0, i as int));
    }
    assert(params@.subrange(0, params@.len() as int) =~= params@);
    out
}

/// A copy of a mask (fresh identifier when `fresh`).
pub fn copy_mask(m: &LayerMask, fresh: bool) -> (r: LayerMask)
    ensures
        mask_copied(*m, r, fresh),
{
    LayerMask {
        id: if fresh { fresh_id() } else { m.id },
        name: m.name.clone(),
        image: m.image.share(),
        enabled: m.enabled,
        inverted: m.inverted,
        version: m.version,
    }
}

/// A copy of a list of masks.
pub fn copy_masks(masks: &Vec<LayerMask>, fresh: bool) -> (r: Vec<LayerMask>)
    ensures
        masks_copied(masks@, r@, fresh),
{
    let mut out: Vec<LayerMask> = Vec::new();
    let mut i: usize = 0;
    while i < masks.len()
        invariant
            i <= masks@.len(),
            out@.len() == i,
            forall|j: int| 0 <= j < i ==> mask_copied(masks@[j], out@[j], fresh),
        decreases masks@.len() - i,
    {
        out.push(copy_mask(&masks[i], fresh));
        i += 1;
    }
    out
}

/// A copy of a filter sub-layer.
pub fn copy_filter_layer(f: &FilterLayer, fresh: bool) -> (r: FilterLayer)
    ensures
        filter_layer_copied(*f, r, fresh),
{
    FilterLayer {
        id: if fresh { fresh_id() } else { f.id },
        name: f.name.clone(),
        type_id: f.type_id.clone(),
        params: copy_params(&f.params),
        enabled: f.enabled,
        opacity: f.opacity,
        blend_mode: f.blend_mode,
        transform: f.transform,
        masks: copy_masks(&f.masks, fresh),
    }
}

/// A copy of a list of filter sub-layers.
pub fn copy_filter_layers(filters: &Vec<FilterLayer>, fresh: bool) -> (r: Vec<FilterLayer>)
    ensures
        filter_layers_copied(filters@, r@, fresh),
{
    let mut out: Vec<FilterLayer> = Vec::new();
    let mut i: usize = 0;
    while i < filters.len()
        invariant
            i <= filters@.len(),
            out@.len() == i,
            forall|j: int| 0 <= j < i ==> filter_layer_copied(filters@[j], out@[j], fresh),
        decreases filters@.len() - i,
    {
        out.push(copy_filter_layer(&filters[i], fresh));
        i += 1;
    }
    out
}

/// A copy of a list of plain filters.
pub fn copy_filter_nodes(filters: &Vec<FilterNode>, fresh: bool) -> (r: Vec<FilterNode>)
    ensures
        filter_nodes_copied(filters@, r@, fresh),
{
    let mut out: Vec<FilterNode> = Vec::new();
    let mut i: usize = 0;
    while i < filters.len()
        invariant
            i <= filters@.len(),
            out@.len() == i,
            forall|j: int| 0 <= j < i ==> filter_node_copied(filters@[j], out@[j], fresh),
        decreases filters@.len() - i,
    {
        let f = &filters[i];
        out.push(
            FilterNode {
                id: if fresh { fresh_id() } else { f.id },
                type_id: f.type_id.clone(),
                params: copy_params(&f.params),
                enabled: f.enabled,
            },
        );
        i += 1;
    }
    out
}

/// A copy of a subtree. With `fresh`, every identifier is new and pixel
/// layers take new appearance versions from `clock`.
pub fn copy_node(node: &LayerNode, fresh: bool, clock: &mut u64) -> (r: LayerNode)
    ensures
        node_copied(*node, r, fresh),
        fresh ==> fresh_stamps(*node, r, *old(clock)),
        *final(clock) == if fresh {
            tick(*old(clock), node_pixels(*node))
        } else {
            *old(clock)
        },
    decreases node,
{
    let ghost c0 = *clock;
    match node {
        LayerNode::Pixel(l) => {
            let id = if fresh { fresh_id() } else { l.id };
            let version = if fresh { next_appearance_version(clock) } else { l.appearance_version };
            proof {
                assert(tick(c0, 0) == c0);
            }
            LayerNode::Pixel(
                PixelLayer {
                    id,
                    name: l.name.clone(),
                    source_image: l.source_image.share(),
                    filter_layers: copy_filter_layers(&l.filter_layers, fresh),
                    transform: l.transform,
                    opacity: l.opacity,
                    blend_mode: l.blend_mode,
                    visible: l.visible,
                    masks: copy_masks(&l.masks, fresh),
                    appearance_version: version,
                },
            )
        },
        LayerNode::Group(g) => {
            let id = if fresh { fresh_id() } else { g.id };
            let mut children: Vec<LayerNode> = Vec::new();
            let mut i: usize = 0;
            while i < g.children.len()
                invariant
                    *node == LayerNode::Group(*g),
                    i <= g.children@.len(),
                    children@.len() == i,
                    forall|j: int|
                        0 <= j < i ==> node_copied(g.children@[j], children@[j], fresh),
                    fresh ==> forall|j: int|
                        0 <= j < i ==> fresh_stamps(
                            g.children@[j],
                            #[trigger] children@[j],
                            tick(c0, pixels_upto(g.children@, j)),
                        ),
                    *clock == if fresh {
                        tick(c0, pixels_upto(g.children@, i as int))
                    } else {
                        c0
                    },
                decreases g.children@.len() - i,
            {
                assert(decreases_to!(*node => g.children@[i as int])) by {
                    assert(decreases_to!(*node => (*node)->Group_0));
                    assert(decreases_to!(*g => g.children));
                    assert(decreases_to!(g.children => g.children@));
                    assert(decreases_to!(g.children@ => g.children@[i as int]));
                }
                let c = copy_node(&g.children[i], fresh, clock);
                proof {
                    if fresh {
                        crate::model::lemma_tick_add(
                            c0,
                            pixels_upto(g.children@, i as int),
                            node_pixels(g.children@[i as int]),
                        );
                    }
                }
                children.push(c);
                i += 1;
            }
            LayerNode::Group(
                GroupLayer {
                    id,
                    name: g.name.clone(),
                    children,
                    collapsed: g.collapsed,
                    opacity: g.opacity,
                    blend_mode: g.blend_mode,
                    visible: g.visible,
                    masks: copy_masks(&g.masks, fresh),
                },
            )
        },
        LayerNode::Adjustment(a) => {
            proof {
                assert(tick(c0, 0) == c0);
            }
            let id = if fresh { fresh_id() } else { a.id };
            LayerNode::Adjustment(
                AdjustmentLayer {
                    id,
                    name: a.name.clone(),
                    filters: copy_filter_nodes(&a.filters, fresh),
                    opacity: a.opacity,
                    visible: a.visible,
                },
            )
        },
    }
}

/// A copy of a forest.
pub fn copy_forest(nodes: &Vec<LayerNode>, fresh: bool, clock: &mut u64) -> (r: Vec<LayerNode>)
    ensures
        forest_copied(nodes@, r@, fresh),
        !fresh ==> *final(clock) == *old(clock),
{
    let mut out: Vec<LayerNode> = Vec::new();
    let mut i: usize = 0;
    while i < nodes.len()
        invariant
            i <= nodes@.len(),
            out@.len() == i,
            forall|j: int| 0 <= j < i ==> node_copied(nodes@[j], out@[j], fresh),
            !fresh ==> *clock == *old(clock),
        decreases nodes@.len() - i,
    {
        let c = copy_node(&nodes[i], fresh, clock);
        out.push(c);
        i += 1;
    }
    out
}

} // verus!
