//! Searches of the forest for live filters and masks, depth-first and
//! pre-order, bottom of each stack first.

use crate::forest::{ipath, lemma_list_at_cons, list_at, node_at, valid_loc};
use crate::ids::{LayerId, first_index, lemma_first_index};
use crate::layer_edits::{filter_ids, filter_position, mask_ids, mask_position};
use crate::model::{FilterLayer, LayerNode};
use vstd::prelude::*;

verus! {

/// From index `k` of a list on: where the first filter sub-layer `fid` of
/// a pixel layer sits, as the list path and index of its pixel layer and
/// its position in that layer's chain.
pub open spec fn find_filter_loc_from(nodes: Seq<LayerNode>, fid: LayerId, k: int) -> Option<
    (Seq<int>, int, int),
>
    decreases nodes, nodes.len() - k,
{
    if k < 0 || k >= nodes.len() {
        None
    } else {
        let here = match nodes[k] {
            LayerNode::Pixel(l) => match first_index(filter_ids(l.filter_layers@), fid) {
                Some(j) => Some((Seq::<int>::empty(), k, j)),
                None => None,
            },
            LayerNode::Group(g) => match find_filter_loc_from(g.children@, fid, 0) {
                Some((p, i, j)) => Some((seq![k] + p, i, j)),
                None => None,
            },
            LayerNode::Adjustment(_) => None,
        };
        match here {
            Some(r) => Some(r),
            None => find_filter_loc_from(nodes, fid, k + 1),
        }
    }
}

/// Where the first filter sub-layer `fid` sits in the forest.
pub open spec fn find_filter_loc(nodes: Seq<LayerNode>, fid: LayerId) -> Option<(Seq<int>, int, int)> {
    find_filter_loc_from(nodes, fid, 0)
}

/// The filter sub-layer at position `j` of the pixel layer at `(p, i)`.
pub open spec fn filter_at(nodes: Seq<LayerNode>, p: Seq<int>, i: int, j: int) -> FilterLayer {
    match node_at(nodes, p, i) {
        LayerNode::Pixel(l) => l.filter_layers@[j],
        _ => arbitrary(),
    }
}

/// The first filter sub-layer `fid` of the forest.
pub open spec fn find_filter(nodes: Seq<LayerNode>, fid: LayerId) -> Option<FilterLayer> {
    match find_filter_loc(nodes, fid) {
        Some((p, i, j)) => Some(filter_at(nodes, p, i, j)),
        None => None,
    }
}

/// Identifier of the pixel layer that carries the first filter `fid`.
pub open spec fn find_filter_parent(nodes: Seq<LayerNode>, fid: LayerId) -> Option<LayerId> {
    match find_filter_loc(nodes, fid) {
        Some((p, i, _)) => Some(node_at(nodes, p, i).node_id()),
        None => None,
    }
}

/// A filter location addresses a filter sub-layer `fid` of a pixel layer.
pub proof fn lemma_find_filter_loc_from(nodes: Seq<LayerNode>, fid: LayerId, k: int)
    ensures
        match find_filter_loc_from(nodes, fid, k) {
            Some((p, i, j)) => valid_loc(nodes, p, i) && (node_at(nodes, p, i) matches LayerNode::Pixel(
                l,
            ) && 0 <= j < l.filter_layers@.len() && l.filter_layers@[j].id == fid),
            None => true,
        },
    decreases nodes, nodes.len() - k,
{
    if 0 <= k < nodes.len() {
        match nodes[k] {
            LayerNode::Pixel(l) => {
                lemma_first_index(filter_ids(l.filter_layers@), fid);
                if first_index(filter_ids(l.filter_layers@), fid) is None {
                    lemma_find_filter_loc_from(nodes, fid, k + 1);
                } else {
                    assert(list_at(nodes, Seq::<int>::empty()) == nodes);
                }
            },
            LayerNode::Group(g) => {
                lemma_find_filter_loc_from(g.children@, fid, 0);
                match find_filter_loc_from(g.children@, fid, 0) {
                    Some((p, i, j)) => {
                        lemma_list_at_cons(nodes, k, p);
                        assert(nodes[k].kids() == g.children@);
                    },
                    None => {
                        lemma_find_filter_loc_from(nodes, fid, k + 1);
                    },
                }
            },
            LayerNode::Adjustment(_) => {
                lemma_find_filter_loc_from(nodes, fid, k + 1);
            },
        }
    }
}

/// Where the first filter sub-layer `fid` sits: the list path and index
/// of its pixel layer, and its position in the chain.
pub fn find_filter_loc_in(nodes: &Vec<LayerNode>, fid: LayerId) -> (r: Option<
    (Vec<usize>, usize, usize),
>)
    ensures
        match r {
            Some((p, i, j)) => find_filter_loc(nodes@, fid) == Some(
                (ipath(p@), i as int, j as int),
            ),
            None => find_filter_loc(nodes@, fid) is None,
        },
    decreases nodes@,
{
    let mut k: usize = 0;
    while k < nodes.len()
        invariant
            k <= nodes@.len(),
            find_filter_loc(nodes@, fid) == find_filter_loc_from(nodes@, fid, k as int),
        decreases nodes@.len() - k,
    {
        match &nodes[k] {
            LayerNode::Pixel(l) => {
                match filter_position(&l.filter_layers, fid) {
                    Some(j) => {
                        let path: Vec<usize> = Vec::new();
                        assert(ipath(path@) =~= Seq::<int>::empty());
                        return Some((path, k, j));
                    },
                    None => {},
                }
            },
            LayerNode::Group(g) => {
                assert(decreases_to!(nodes@ => g.children@)) by {
                    assert(decreases_to!(nodes@ => nodes@[k as int]));
                }
                match find_filter_loc_in(&g.children, fid) {
                    Some((p, i, j)) => {
                        let mut path = p;
                        path.insert(0, k);
                        assert(ipath(path@) =~= seq![k as int] + ipath(p@));
                        return Some((path, i, j));
                    },
                    None => {},
                }
            },
            LayerNode::Adjustment(_) => {},
        }
        k += 1;
    }
    None
}

// ---------------------------------------------------------------------------
// Carriers of masks
// ---------------------------------------------------------------------------

/// Whether a list of masks holds the mask `mid`.
pub open spec fn has_mask(ms: Seq<crate::model::LayerMask>, mid: LayerId) -> bool {
    first_index(mask_ids(ms), mid) is Some
}

/// From position `k` of a chain on: identifier of the first filter
/// sub-layer whose masks hold `mid`.
pub open spec fn filters_mask_owner_from(fs: Seq<FilterLayer>, mid: LayerId, k: int) -> Option<
    LayerId,
>
    decreases fs.len() - k,
{
    if k < 0 || k >= fs.len() {
        None
    } else if has_mask(fs[k].masks@, mid) {
        Some(fs[k].id)
    } else {
        filters_mask_owner_from(fs, mid, k + 1)
    }
}

/// From index `k` of a list on: identifier of the carrier of the first
/// mask `mid` (a pixel layer or group holding it, else a filter sub-layer
/// of a pixel layer).
pub open spec fn mask_owner_from(nodes: Seq<LayerNode>, mid: LayerId, k: int) -> Option<LayerId>
    decreases nodes, nodes.len() - k,
{
    if k < 0 || k >= nodes.len() {
        None
    } else {
        let here = match nodes[k] {
            LayerNode::Pixel(l) => if has_mask(l.masks@, mid) {
                Some(l.id)
            } else {
                filters_mask_owner_from(l.filter_layers@, mid, 0)
            },
            LayerNode::Group(g) => if has_mask(g.masks@, mid) {
                Some(g.id)
            } else {
                mask_owner_from(g.children@, mid, 0)
            },
            LayerNode::Adjustment(_) => None,
        };
        match here {
            Some(o) => Some(o),
            None => mask_owner_from(nodes, mid, k + 1),
        }
    }
}

/// Identifier of the carrier of the first mask `mid` of the forest.
pub open spec fn mask_owner(nodes: Seq<LayerNode>, mid: LayerId) -> Option<LayerId> {
    mask_owner_from(nodes, mid, 0)
}

/// Identifier of the first filter sub-layer of a chain that holds `mid`.
fn filters_mask_owner_in(fs: &Vec<FilterLayer>, mid: LayerId) -> (r: Option<LayerId>)
    ensures
        r == filters_mask_owner_from(fs@, mid, 0),
{
    let mut k: usize = 0;
    while k < fs.len()
        invariant
            k <= fs@.len(),
            filters_mask_owner_from(fs@, mid, 0) == filters_mask_owner_from(fs@, mid, k as int),
        decreases fs@.len() - k,
    {
        if mask_position(fs[k].masks.as_slice(), mid).is_some() {
            return Some(fs[k].id);
        }
        k += 1;
    }
    None
}

/// Identifier of the carrier of the first mask `mid`.
pub fn mask_owner_in(nodes: &Vec<LayerNode>, mid: LayerId) -> (r: Option<LayerId>)
    ensures
        r == mask_owner(nodes@, mid),
    decreases nodes@,
{
    let mut k: usize = 0;
    while k < nodes.len()
        invariant
            k <= nodes@.len(),
            mask_owner(nodes@, mid) == mask_owner_from(nodes@, mid, k as int),
        decreases nodes@.len() - k,
    {
        let here = match &nodes[k] {
            LayerNode::Pixel(l) => {
                if mask_position(l.masks.as_slice(), mid).is_some() {
                    Some(l.id)
                } else {
                    filters_mask_owner_in(&l.filter_layers, mid)
                }
            },
            LayerNode::Group(g) => {
                assert(decreases_to!(nodes@ => g.children@)) by {
                    assert(decreases_to!(nodes@ => nodes@[k as int]));
                }
                if mask_position(g.masks.as_slice(), mid).is_some() {
                    Some(g.id)
                } else {
                    mask_owner_in(&g.children, mid)
                }
            },
            LayerNode::Adjustment(_) => None,
        };
        if here.is_some() {
            return here;
        }
        k += 1;
    }
    None
}

} // verus!
