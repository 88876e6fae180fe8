//! How far an edit of one node reaches: the search for every identifier
//! finds the same places, and every other pixel layer stays as it was.

use crate::document::{NodeEdit, node_edited, node_replaced, root_with_edit};
use crate::forest::{find_loc, find_loc_from, find_node, lemma_find_loc_from, list_at, node_at, valid_loc};
use crate::ids::LayerId;
use crate::document_edits::is_pixel_at;
use crate::model::{FilterLayer, LayerNode};
use crate::layer_edits::{filter_ids, mask_ids};
use crate::search::{filters_mask_owner_from, find_filter_loc_from, mask_owner_from};
use crate::worker::{EngineWorker, Mutation, PhotoEngineCommand, Resolution, step};
use vstd::prelude::*;

verus! {

/// Two nodes that the depth-first search cannot tell apart: same
/// identifier, both groups or neither, and the same children.
pub open spec fn same_shape(a: LayerNode, b: LayerNode) -> bool {
    &&& a.node_id() == b.node_id()
    &&& (a is Group <==> b is Group)
    &&& a.kids() == b.kids()
}

/// Replacing the node at `(p, i)` by one of the same shape: the search
/// from index `k` finds the same place for every identifier, and a node
/// found there that is no group and is not the replaced one is unchanged.
pub proof fn lemma_replaced_search(
    old: Seq<LayerNode>,
    p: Seq<int>,
    i: int,
    n2: LayerNode,
    new: Seq<LayerNode>,
    o: LayerId,
    k: int,
)
    requires
        valid_loc(old, p, i),
        node_replaced(old, p, i, n2, new),
        same_shape(node_at(old, p, i), n2),
    ensures
        new.len() == old.len(),
        find_loc_from(new, o, k) == find_loc_from(old, o, k),
        o != node_at(old, p, i).node_id() ==> (find_loc_from(old, o, k) matches Some((q, m)) ==> (
        node_at(old, q, m) !is Group ==> node_at(new, q, m) == node_at(old, q, m))),
    decreases p.len(), old.len() - k,
{
    let id = node_at(old, p, i).node_id();
    if p.len() == 0 {
        assert(new == old.update(i, n2));
    }
    if 0 <= k < old.len() {
        lemma_replaced_search(old, p, i, n2, new, o, k + 1);
        if p.len() == 0 {
            if k == i {
                assert(new[k].node_id() == old[k].node_id());
                assert(new[k].kids() == old[k].kids());
            } else {
                assert(new[k] == old[k]);
            }
            if old[k].node_id() != o {
                match old[k] {
                    LayerNode::Group(g) => {
                        match find_loc_from(g.children@, o, 0) {
                            Some((q2, m)) => {
                                let q = seq![k] + q2;
                                assert(q[0] == k);
                                assert(q.drop_first() =~= q2);
                            },
                            None => {},
                        }
                    },
                    _ => {},
                }
            }
        } else {
            let k0 = p[0];
            let p2 = p.drop_first();
            assert(new.len() == old.len());
            if k == k0 {
                match (old[k0], new[k0]) {
                    (LayerNode::Group(go), LayerNode::Group(gn)) => {
                        assert(list_at(old, p) == list_at(go.children@, p2));
                        assert(node_replaced(go.children@, p2, i, n2, gn.children@));
                        lemma_replaced_search(go.children@, p2, i, n2, gn.children@, o, 0);
                        match find_loc_from(go.children@, o, 0) {
                            Some((q2, m)) => {
                                let q = seq![k] + q2;
                                assert(q[0] == k);
                                assert(q.drop_first() =~= q2);
                            },
                            None => {},
                        }
                    },
                    _ => {},
                }
            } else {
                assert(new[k] == old[k]);
                if old[k].node_id() != o {
                    match old[k] {
                        LayerNode::Group(g) => {
                            match find_loc_from(g.children@, o, 0) {
                                Some((q2, m)) => {
                                    let q = seq![k] + q2;
                                    assert(q[0] == k);
                                    assert(q.drop_first() =~= q2);
                                },
                                None => {},
                            }
                        },
                        _ => {},
                    }
                }
            }
        }
    } else {
        if p.len() > 0 {
            assert(new.len() == old.len());
        }
    }
}

/// Two nodes whose filter chains hold the same identifiers in the same
/// order (both pixel layers), or that hold no chain of sub-layers.
pub open spec fn same_filter_ids(a: LayerNode, b: LayerNode) -> bool {
    match (a, b) {
        (LayerNode::Pixel(x), LayerNode::Pixel(y)) => filter_ids(x.filter_layers@) == filter_ids(
            y.filter_layers@,
        ),
        (LayerNode::Pixel(_), _) => false,
        (_, LayerNode::Pixel(_)) => false,
        _ => true,
    }
}

/// Replacing the node at `(p, i)` by one of the same shape and the same
/// filter identifiers: the search for every filter sub-layer from index
/// `k` finds the same place.
pub proof fn lemma_replaced_filter_search(
    old: Seq<LayerNode>,
    p: Seq<int>,
    i: int,
    n2: LayerNode,
    new: Seq<LayerNode>,
    fid: LayerId,
    k: int,
)
    requires
        valid_loc(old, p, i),
        node_replaced(old, p, i, n2, new),
        same_shape(node_at(old, p, i), n2),
        same_filter_ids(node_at(old, p, i), n2),
    ensures
        new.len() == old.len(),
        find_filter_loc_from(new, fid, k) == find_filter_loc_from(old, fid, k),
    decreases p.len(), old.len() - k,
{
    if p.len() == 0 {
        assert(new == old.update(i, n2));
    }
    if 0 <= k < old.len() {
        lemma_replaced_filter_search(old, p, i, n2, new, fid, k + 1);
        if p.len() == 0 {
            if k != i {
                assert(new[k] == old[k]);
            }
        } else {
            let k0 = p[0];
            let p2 = p.drop_first();
            assert(new.len() == old.len());
            if k == k0 {
                match (old[k0], new[k0]) {
                    (LayerNode::Group(go), LayerNode::Group(gn)) => {
                        assert(list_at(old, p) == list_at(go.children@, p2));
                        assert(node_replaced(go.children@, p2, i, n2, gn.children@));
                        lemma_replaced_filter_search(go.children@, p2, i, n2, gn.children@, fid, 0);
                    },
                    _ => {},
                }
            } else {
                assert(new[k] == old[k]);
            }
        }
    } else {
        if p.len() > 0 {
            assert(new.len() == old.len());
        }
    }
}

/// Two chains of filter sub-layers with the same identifiers holding
/// masks with the same identifiers, position by position.
pub open spec fn chains_mask_ids_same(fa: Seq<FilterLayer>, fb: Seq<FilterLayer>) -> bool {
    &&& fa.len() == fb.len()
    &&& forall|k: int|
        0 <= k < fa.len() ==> (#[trigger] fa[k]).id == fb[k].id && mask_ids(fa[k].masks@) == mask_ids(
            fb[k].masks@,
        )
}

/// Two nodes whose masks, and the masks of whose sub-layers, have the same
/// identifiers.
pub open spec fn same_mask_ids(a: LayerNode, b: LayerNode) -> bool {
    &&& mask_ids(a.node_masks()) == mask_ids(b.node_masks())
    &&& match (a, b) {
        (LayerNode::Pixel(x), LayerNode::Pixel(y)) => chains_mask_ids_same(
            x.filter_layers@,
            y.filter_layers@,
        ),
        _ => true,
    }
}

/// Chains with the same mask identifiers name the same carrier of a mask.
proof fn lemma_chains_mask_owner(fa: Seq<FilterLayer>, fb: Seq<FilterLayer>, mid: LayerId, k: int)
    requires
        chains_mask_ids_same(fa, fb),
    ensures
        filters_mask_owner_from(fa, mid, k) == filters_mask_owner_from(fb, mid, k),
    decreases fa.len() - k,
{
    if 0 <= k < fa.len() {
        assert(fa[k].id == fb[k].id);
        lemma_chains_mask_owner(fa, fb, mid, k + 1);
    }
}

/// Replacing the node at `(p, i)` by one of the same shape, the same
/// filter identifiers and the same mask identifiers: the carrier of every
/// mask found from index `k` is the same.
pub proof fn lemma_replaced_mask_owner(
    old: Seq<LayerNode>,
    p: Seq<int>,
    i: int,
    n2: LayerNode,
    new: Seq<LayerNode>,
    mid: LayerId,
    k: int,
)
    requires
        valid_loc(old, p, i),
        node_replaced(old, p, i, n2, new),
        same_shape(node_at(old, p, i), n2),
        same_filter_ids(node_at(old, p, i), n2),
        same_mask_ids(node_at(old, p, i), n2),
    ensures
        new.len() == old.len(),
        mask_owner_from(new, mid, k) == mask_owner_from(old, mid, k),
    decreases p.len(), old.len() - k,
{
    if p.len() == 0 {
        assert(new == old.update(i, n2));
    }
    if 0 <= k < old.len() {
        lemma_replaced_mask_owner(old, p, i, n2, new, mid, k + 1);
        if p.len() == 0 {
            if k != i {
                assert(new[k] == old[k]);
            } else {
                match (old[k], new[k]) {
                    (LayerNode::Pixel(x), LayerNode::Pixel(y)) => {
                        lemma_chains_mask_owner(x.filter_layers@, y.filter_layers@, mid, 0);
                    },
                    _ => {},
                }
            }
        } else {
            let k0 = p[0];
            let p2 = p.drop_first();
            assert(new.len() == old.len());
            if k == k0 {
                match (old[k0], new[k0]) {
                    (LayerNode::Group(go), LayerNode::Group(gn)) => {
                        assert(list_at(old, p) == list_at(go.children@, p2));
                        assert(node_replaced(go.children@, p2, i, n2, gn.children@));
                        lemma_replaced_mask_owner(go.children@, p2, i, n2, gn.children@, mid, 0);
                    },
                    _ => {},
                }
            } else {
                assert(new[k] == old[k]);
            }
        }
    } else {
        if p.len() > 0 {
            assert(new.len() == old.len());
        }
    }
}

/// An edit of a node's own attributes keeps its shape.
proof fn lemma_edit_keeps_shape(n: LayerNode, e: NodeEdit)
    ensures
        same_shape(n, node_edited(n, e)),
{
}

/// An edit of a node's own attributes (name, visibility, opacity, blend
/// mode, placement) leaves every other pixel layer exactly as it was, so
/// what is cached of another layer's appearance stays valid; and every
/// node is found at the same place as before.
pub proof fn law_edit_leaves_other_layers(
    old: Seq<LayerNode>,
    id: LayerId,
    e: NodeEdit,
    new: Seq<LayerNode>,
    other: LayerId,
)
    requires
        root_with_edit(old, id, e, new),
        other != id,
    ensures
        find_loc(new, other) == find_loc(old, other),
        find_node(old, other) matches Some(LayerNode::Pixel(_)) ==> find_node(new, other)
            == find_node(old, other),
{
    lemma_find_loc_from(old, id, 0);
    match find_loc(old, id) {
        Some((p, i)) => {
            lemma_edit_keeps_shape(node_at(old, p, i), e);
            lemma_replaced_search(old, p, i, node_edited(node_at(old, p, i), e), new, other, 0);
        },
        None => {},
    }
}

/// The node whose own attributes a worker command edits, for the commands
/// that edit one node's attributes.
pub open spec fn attribute_target(c: PhotoEngineCommand) -> Option<LayerId> {
    match c {
        PhotoEngineCommand::ToggleLayerVisibility(id) => Some(id),
        PhotoEngineCommand::SetOpacity { layer, .. } => Some(layer),
        PhotoEngineCommand::SetBlendMode { layer, .. } => Some(layer),
        PhotoEngineCommand::MoveLayer { layer, .. } => Some(layer),
        _ => None,
    }
}

/// A worker command that edits one node's attributes (visibility,
/// opacity, blend mode, move) leaves every other pixel layer of the live
/// document as it was: the appearance caches of the other layers stay
/// valid.
pub proof fn law_command_leaves_other_layers(
    w0: EngineWorker,
    c: PhotoEngineCommand,
    res: Resolution,
    w1: EngineWorker,
    m: Mutation,
    other: LayerId,
)
    requires
        step(w0, c, res, w1, m),
        attribute_target(c) matches Some(t) && t != other,
    ensures
        find_node(w0.doc().root@, other) matches Some(LayerNode::Pixel(_)) ==> find_node(
            w1.doc().root@,
            other,
        ) == find_node(w0.doc().root@, other),
{
    let r0 = w0.doc().root@;
    let r1 = w1.doc().root@;
    match c {
        PhotoEngineCommand::ToggleLayerVisibility(id) => {
            if let Some(n) = find_node(r0, id) {
                law_edit_leaves_other_layers(r0, id, NodeEdit::Show(!n.is_visible()), r1, other);
            }
        },
        PhotoEngineCommand::SetOpacity { layer, opacity } => {
            if find_node(r0, layer) is Some {
                law_edit_leaves_other_layers(r0, layer, NodeEdit::Opacity(opacity), r1, other);
            }
        },
        PhotoEngineCommand::SetBlendMode { layer, mode } => {
            if find_node(r0, layer) is Some {
                law_edit_leaves_other_layers(r0, layer, NodeEdit::Blend(mode), r1, other);
            }
        },
        PhotoEngineCommand::MoveLayer { layer, dx, dy } => {
            if !((dx == 0 && dy == 0) || find_node(r0, layer) is None) && is_pixel_at(r0, layer) {
                law_edit_leaves_other_layers(
                    r0,
                    layer,
                    NodeEdit::Translate(dx, dy, w0.doc().version_clock),
                    r1,
                    other,
                );
            }
        },
        _ => {},
    }
}

} // verus!
