//! Read-only checks that tell whether an edit would apply, and the touch
//! of the pixels that carry a mask.

use crate::document::Document;
use crate::document_attributes::{MaskOp, mask_op_applies, masks_of_carrier};
use crate::document_edits::{is_pixel_at, lemma_find_loc_kept, lemma_node_replaced_twice, root_with_node, touch_result};
use crate::forest::{find_loc, find_node, ipath, lemma_find_loc_from, list_ref_at, node_at};
use crate::ids::{LayerId, first_index, lemma_first_index};
use crate::layer_edits::{filter_ids, filter_position};
use crate::model::LayerNode;
use crate::search::{find_filter, find_filter_loc, find_filter_parent, has_mask, mask_owner};
use vstd::prelude::*;

verus! {

/// Two successive replacements of the first node `id` (the first by a
/// node with the same identifier) make one.
pub proof fn lemma_root_with_node_twice(
    r0: Seq<LayerNode>,
    id: LayerId,
    n1: LayerNode,
    r1: Seq<LayerNode>,
    n2: LayerNode,
    r2: Seq<LayerNode>,
)
    requires
        find_loc(r0, id) is Some,
        n1.node_id() == id,
        root_with_node(r0, id, n1, r1),
        root_with_node(r1, id, n2, r2),
    ensures
        root_with_node(r0, id, n2, r2),
{
    let (p, i) = find_loc(r0, id)->0;
    lemma_find_loc_from(r0, id, 0);
    lemma_find_loc_kept(r0, id, n1, r1);
    lemma_node_replaced_twice(r0, p, i, n1, r1, n2, r2);
}

/// Whether `id` names something to rename: a node, a filter sub-layer or
/// a mask held by its carrier.
pub open spec fn renamable(root: Seq<LayerNode>, id: LayerId) -> bool {
    ||| find_node(root, id) is Some
    ||| find_filter_loc(root, id) is Some
    ||| (mask_owner(root, id) matches Some(o) && masks_of_carrier(root, o) matches Some(ms)
        && has_mask(ms, id))
}

/// Whether `owner` carries a list of masks that can grow: a pixel layer
/// or a group, else a filter sub-layer.
pub open spec fn holds_masks(root: Seq<LayerNode>, owner: LayerId) -> bool {
    match find_node(root, owner) {
        Some(n) => !(n is Adjustment),
        None => find_filter(root, owner) is Some,
    }
}

/// Whether the pixel layer `layer` carries the filter `filter`.
pub open spec fn carries_filter(root: Seq<LayerNode>, layer: LayerId, filter: LayerId) -> bool {
    find_node(root, layer) matches Some(LayerNode::Pixel(l)) && first_index(
        filter_ids(l.filter_layers@),
        filter,
    ) is Some
}

/// Whether the filter `filter` of the pixel layer `layer` has a neighbour
/// on the side `up` (later in the chain) or not (earlier).
pub open spec fn filter_movable(root: Seq<LayerNode>, layer: LayerId, filter: LayerId, up: bool) -> bool {
    find_node(root, layer) matches Some(LayerNode::Pixel(l)) && first_index(
        filter_ids(l.filter_layers@),
        filter,
    ) matches Some(k) && {
        let other = if up {
            k + 1
        } else {
            k - 1
        };
        0 <= other < l.filter_layers@.len()
    }
}

/// Forest and clock after the appearance of the pixels that carry the
/// masks of `owner` is touched: `owner` itself when it is a pixel layer,
/// else the pixel layer that carries the filter `owner`.
pub open spec fn owner_touch_result(
    old: Seq<LayerNode>,
    clock: u64,
    owner: LayerId,
    new: Seq<LayerNode>,
    new_clock: u64,
) -> bool {
    if is_pixel_at(old, owner) {
        touch_result(old, clock, owner, new, new_clock)
    } else {
        match find_filter_parent(old, owner) {
            Some(pid) => touch_result(old, clock, pid, new, new_clock),
            None => new == old && new_clock == clock,
        }
    }
}

impl Document {
    /// Whether `id` names a node, a filter sub-layer or a mask.
    pub fn can_rename(&self, id: LayerId) -> (r: bool)
        ensures
            r == renamable(self.root@, id),
    {
        if self.find(id).is_some() {
            return true;
        }
        if self.find_filter_layer(id).is_some() {
            proof {
                crate::search::lemma_find_filter_loc_from(self.root@, id, 0);
            }
            return true;
        }
        proof {
            crate::search::lemma_find_filter_loc_from(self.root@, id, 0);
        }
        match self.mask_owner_of(id) {
            Some(owner) => self.mask_of(owner, id).is_some(),
            None => false,
        }
    }

    /// Whether `owner` carries a list of masks that can grow.
    pub fn has_mask_list(&self, owner: LayerId) -> (r: bool)
        ensures
            r == holds_masks(self.root@, owner),
    {
        match self.find(owner) {
            Some(LayerNode::Adjustment(_)) => false,
            Some(_) => true,
            None => self.find_filter_layer(owner).is_some(),
        }
    }

    /// Whether the pixel layer `layer` carries the filter `filter`.
    pub fn has_filter(&self, layer: LayerId, filter: LayerId) -> (r: bool)
        ensures
            r == carries_filter(self.root@, layer, filter),
    {
        match self.find(layer) {
            Some(LayerNode::Pixel(l)) => filter_position(&l.filter_layers, filter).is_some(),
            _ => false,
        }
    }

    /// Whether the filter `filter` of the pixel layer `layer` can move on
    /// the side `up`.
    pub fn can_move_filter(&self, layer: LayerId, filter: LayerId, up: bool) -> (r: bool)
        ensures
            r == filter_movable(self.root@, layer, filter, up),
    {
        match self.find(layer) {
            Some(LayerNode::Pixel(l)) => {
                proof {
                    lemma_first_index(filter_ids(l.filter_layers@), filter);
                }
                match filter_position(&l.filter_layers, filter) {
                    Some(k) => {
                        if up {
                            l.filter_layers.len() - k > 1
                        } else {
                            k > 0
                        }
                    },
                    None => false,
                }
            },
            _ => false,
        }
    }

    /// Touches the pixels that carry the masks of `owner`: `owner` when it
    /// is a pixel layer, else the pixel layer carrying the filter `owner`
    /// (group masks are composed on the fly: nothing to touch).
    pub fn touch_mask_owner(&mut self, owner: LayerId)
        ensures
            owner_touch_result(
                old(self).root@,
                old(self).version_clock,
                owner,
                final(self).root@,
                final(self).version_clock,
            ),
            final(self).width == old(self).width,
            final(self).height == old(self).height,
    {
        if self.pixel_layer(owner).is_some() {
            self.touch_pixel(owner);
        } else {
            match self.find_filter_parent(owner) {
                Some(pid) => self.touch_pixel(pid),
                None => {},
            }
        }
    }
}

} // verus!
