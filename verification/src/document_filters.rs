//! The live filters of a layer: adding, removing, setting, reordering and
//! duplicating them. A pixel layer carries filter sub-layers and is
//! touched (new appearance version) by each change; an adjustment layer
//! carries plain filters.

use crate::copying::{copy_filter_layer, filter_layer_copied};
use crate::document::Document;
use crate::document_edits::root_with_node;
use crate::forest::{find_node, ipath, list_ref_at, node_at};
use crate::ids::{LayerId, first_index};
use crate::layer_edits::{filter_ids, filter_node_ids, filter_node_position, filter_position};
use crate::model::{
    AdjustmentLayer, FilterLayer, FilterNode, LayerNode, PixelLayer, filter_from_node, next_tick,
    plain_filter,
};
use crate::params::{ParamEntry, ParamValue, params_with, set_param};
use crate::search::{find_filter, find_filter_loc_in, find_filter_parent, lemma_find_filter_loc_from};
use vstd::prelude::*;

verus! {

/// `l2` is `l` with the filter chain `fs` and the appearance version
/// `version`.
pub open spec fn pixel_with_filters(
    l: PixelLayer,
    fs: Seq<FilterLayer>,
    version: u64,
    l2: PixelLayer,
) -> bool {
    &&& l2 == PixelLayer { filter_layers: l2.filter_layers, appearance_version: version, ..l }
    &&& l2.filter_layers@ == fs
}

/// `a2` is `a` with the filter chain `fs`.
pub open spec fn adjustment_with_filters(
    a: AdjustmentLayer,
    fs: Seq<FilterNode>,
    a2: AdjustmentLayer,
) -> bool {
    &&& a2 == AdjustmentLayer { filters: a2.filters, ..a }
    &&& a2.filters@ == fs
}

/// `f2` is the sub-layer `f` with the parameters `ps`.
pub open spec fn filter_with_params(f: FilterLayer, ps: Seq<ParamEntry>, f2: FilterLayer) -> bool {
    &&& f2 == FilterLayer { params: f2.params, ..f }
    &&& f2.params@ == ps
}

/// `f2` is the plain filter `f` with the parameters `ps`.
pub open spec fn node_filter_with_params(f: FilterNode, ps: Seq<ParamEntry>, f2: FilterNode) -> bool {
    &&& f2 == FilterNode { params: f2.params, ..f }
    &&& f2.params@ == ps
}

/// Forest and clock after the first node `id` takes a new filter chain:
/// `pfs` when it is a pixel layer (touched: it takes the clock's version),
/// `afs` when it is an adjustment layer; no change for other nodes.
pub open spec fn chains_result(
    old: Seq<LayerNode>,
    clock: u64,
    id: LayerId,
    pfs: Seq<FilterLayer>,
    afs: Seq<FilterNode>,
    new: Seq<LayerNode>,
    new_clock: u64,
) -> bool {
    match find_node(old, id) {
        Some(LayerNode::Pixel(l)) => new_clock == next_tick(clock) && exists|l2: PixelLayer|
            pixel_with_filters(l, pfs, clock, l2) && root_with_node(
                old,
                id,
                LayerNode::Pixel(l2),
                new,
            ),
        Some(LayerNode::Adjustment(a)) => new_clock == clock && exists|a2: AdjustmentLayer|
            adjustment_with_filters(a, afs, a2) && root_with_node(
                old,
                id,
                LayerNode::Adjustment(a2),
                new,
            ),
        _ => new == old && new_clock == clock,
    }
}

/// Whether the first node `id` carries a filter chain (pixel or
/// adjustment layer).
pub open spec fn has_chain(root: Seq<LayerNode>, id: LayerId) -> bool {
    find_node(root, id) matches Some(n) && !(n is Group)
}

/// The two sub-layers of a chain at `i` and `j` exchanged.
pub open spec fn filters_swapped(fs: Seq<FilterLayer>, i: int, j: int) -> Seq<FilterLayer> {
    fs.update(i, fs[j]).update(j, fs[i])
}

/// Effect of setting a filter parameter (see `Document::set_filter_param`).
pub open spec fn filter_param_set(old: Seq<LayerNode>, clock: u64, layer_id: LayerId, filter_id: LayerId, key: String, value: ParamValue, done: bool, new: Seq<LayerNode>, new_clock: u64) -> bool {
    match find_node(old, layer_id) {
        Some(LayerNode::Pixel(l)) => match first_index(
            filter_ids(l.filter_layers@),
            filter_id,
        ) {
            Some(k) => done && exists|f2: FilterLayer|
                filter_with_params(
                    l.filter_layers@[k],
                    params_with(l.filter_layers@[k].params@, key, value),
                    f2,
                ) && chains_result(
                    old,
                    clock,
                    layer_id,
                    l.filter_layers@.update(k, f2),
                    Seq::empty(),
                    new,
                    new_clock,
                ),
            None => !done && new == old && new_clock == clock,
        },
        Some(LayerNode::Adjustment(a)) => match first_index(
            filter_node_ids(a.filters@),
            filter_id,
        ) {
            Some(k) => done && exists|f2: FilterNode|
                node_filter_with_params(
                    a.filters@[k],
                    params_with(a.filters@[k].params@, key, value),
                    f2,
                ) && chains_result(
                    old,
                    clock,
                    layer_id,
                    Seq::empty(),
                    a.filters@.update(k, f2),
                    new,
                    new_clock,
                ),
            None => !done && new == old && new_clock == clock,
        },
        _ => !done && new == old && new_clock == clock,
    }
}

/// Effect of moving a filter in its chain (see `Document::move_filter`).
pub open spec fn filter_moved(old: Seq<LayerNode>, clock: u64, layer_id: LayerId, filter_id: LayerId, up: bool, done: bool, new: Seq<LayerNode>, new_clock: u64) -> bool {
    match find_node(old, layer_id) {
        Some(LayerNode::Pixel(l)) => match first_index(
            filter_ids(l.filter_layers@),
            filter_id,
        ) {
            Some(k) => {
                let other = if up {
                    k + 1
                } else {
                    k - 1
                };
                if 0 <= other < l.filter_layers@.len() {
                    done && chains_result(
                        old,
                        clock,
                        layer_id,
                        filters_swapped(l.filter_layers@, k, other),
                        Seq::empty(),
                        new,
                        new_clock,
                    )
                } else {
                    !done && new == old && new_clock == clock
                }
            },
            None => !done && new == old && new_clock == clock,
        },
        _ => !done && new == old && new_clock == clock,
    }
}

/// Effect of removing a filter (see `Document::remove_filter`).
pub open spec fn filter_removed(old: Seq<LayerNode>, clock: u64, layer_id: LayerId, filter_id: LayerId, r: Option<FilterLayer>, new: Seq<LayerNode>, new_clock: u64) -> bool {
    match find_node(old, layer_id) {
        Some(LayerNode::Pixel(l)) => match first_index(
            filter_ids(l.filter_layers@),
            filter_id,
        ) {
            Some(k) => r == Some(l.filter_layers@[k]) && chains_result(
                old,
                clock,
                layer_id,
                l.filter_layers@.remove(k),
                Seq::empty(),
                new,
                new_clock,
            ),
            None => r is None && new == old && new_clock == clock,
        },
        Some(LayerNode::Adjustment(a)) => match first_index(
            filter_node_ids(a.filters@),
            filter_id,
        ) {
            Some(k) => r matches Some(f) && filter_from_node(a.filters@[k], f)
                && chains_result(
                old,
                clock,
                layer_id,
                Seq::empty(),
                a.filters@.remove(k),
                new,
                new_clock,
            ),
            None => r is None && new == old && new_clock == clock,
        },
        _ => r is None && new == old && new_clock == clock,
    }
}

impl Document {
    /// Location of the first node `id` when it carries a filter chain.
    fn chain_loc(&self, id: LayerId) -> (r: Option<(Vec<usize>, usize)>)
        ensures
            match r {
                Some((p, i)) => {
                    &&& has_chain(self.root@, id)
                    &&& crate::forest::find_loc(self.root@, id) == Some((ipath(p@), i as int))
                    &&& crate::forest::valid_loc(self.root@, ipath(p@), i as int)
                    &&& find_node(self.root@, id) == Some(node_at(self.root@, ipath(p@), i as int))
                },
                None => !has_chain(self.root@, id),
            },
    {
        match self.node_loc(id) {
            Some((p, i)) => {
                assert(ipath(p@).skip(0) =~= ipath(p@));
                if list_ref_at(&self.root, &p, 0)[i].is_group() {
                    None
                } else {
                    Some((p, i))
                }
            },
            None => None,
        }
    }

    /// Appends a filter to the chain of the first node `layer_id`: as a
    /// sub-layer on a pixel layer, as a plain filter (its identity, effect
    /// and state) on an adjustment layer. Returns the filter's identifier;
    /// `None`, no change, for a group or an unknown node.
    pub fn add_filter(&mut self, layer_id: LayerId, filter: FilterLayer) -> (r: Option<LayerId>)
        ensures
            match find_node(old(self).root@, layer_id) {
                Some(LayerNode::Pixel(l)) => r == Some(filter.id) && chains_result(
                    old(self).root@,
                    old(self).version_clock,
                    layer_id,
                    l.filter_layers@.push(filter),
                    Seq::empty(),
                    final(self).root@,
                    final(self).version_clock,
                ),
                Some(LayerNode::Adjustment(a)) => r == Some(filter.id) && chains_result(
                    old(self).root@,
                    old(self).version_clock,
                    layer_id,
                    Seq::empty(),
                    a.filters@.push(plain_filter(filter)),
                    final(self).root@,
                    final(self).version_clock,
                ),
                _ => r is None && *final(self) == *old(self),
            },
            final(self).width == old(self).width,
            final(self).height == old(self).height,
    {
        match self.chain_loc(layer_id) {
            Some((p, i)) => {
                let ghost r0 = self.root@;
                let ghost c0 = self.version_clock;
                let fid = filter.id;
                let node = self.take_node_at(&p, i);
                let edited = match node {
                    LayerNode::Pixel(mut l) => {
                        let ghost l0 = l;
                        let ghost fg = filter;
                        l.filter_layers.push(filter);
                        let v = self.next_version();
                        l.touch(v);
                        assert(pixel_with_filters(l0, l0.filter_layers@.push(fg), c0, l));
                        LayerNode::Pixel(l)
                    },
                    LayerNode::Adjustment(mut a) => {
                        let ghost a0 = a;
                        let ghost fg = filter;
                        a.filters.push(
                            FilterNode {
                                id: filter.id,
                                type_id: filter.type_id,
                                params: filter.params,
                                enabled: filter.enabled,
                            },
                        );
                        assert(adjustment_with_filters(a0, a0.filters@.push(plain_filter(fg)), a));
                        LayerNode::Adjustment(a)
                    },
                    LayerNode::Group(g) => LayerNode::Group(g),
                };
                self.put_node_at(&p, i, edited, Ghost(r0));
                Some(fid)
            },
            None => None,
        }
    }

    /// Removes the first filter `filter_id` of the chain of the first node
    /// `layer_id` and returns it (a plain filter comes back as a neutral
    /// sub-layer). `None`, no change, when there is no such filter.
    pub fn remove_filter(&mut self, layer_id: LayerId, filter_id: LayerId) -> (r: Option<FilterLayer>)
        ensures
            filter_removed(old(self).root@, old(self).version_clock, layer_id, filter_id, r, final(self).root@, final(self).version_clock),
            final(self).width == old(self).width,
            final(self).height == old(self).height,
    {
        let (p, i) = match self.chain_loc(layer_id) {
            Some(loc) => loc,
            None => {
                return None;
            },
        };
        assert(ipath(p@).skip(0) =~= ipath(p@));
        let k = match &list_ref_at(&self.root, &p, 0)[i] {
            LayerNode::Pixel(l) => filter_position(&l.filter_layers, filter_id),
            LayerNode::Adjustment(a) => filter_node_position(&a.filters, filter_id),
            LayerNode::Group(_) => None,
        };
        let k = match k {
            Some(k) => k,
            None => {
                return None;
            },
        };
        proof {
            crate::ids::lemma_first_index(
                filter_ids(
                    match node_at(self.root@, ipath(p@), i as int) {
                        LayerNode::Pixel(l) => l.filter_layers@,
                        _ => Seq::empty(),
                    },
                ),
                filter_id,
            );
            crate::ids::lemma_first_index(
                filter_node_ids(
                    match node_at(self.root@, ipath(p@), i as int) {
                        LayerNode::Adjustment(a) => a.filters@,
                        _ => Seq::empty(),
                    },
                ),
                filter_id,
            );
        }
        let ghost r0 = self.root@;
        let ghost c0 = self.version_clock;
        let node = self.take_node_at(&p, i);
        let (edited, removed) = match node {
            LayerNode::Pixel(mut l) => {
                let ghost l0 = l;
                let f = l.filter_layers.remove(k);
                let v = self.next_version();
                l.touch(v);
                assert(pixel_with_filters(l0, l0.filter_layers@.remove(k as int), c0, l));
                (LayerNode::Pixel(l), f)
            },
            LayerNode::Adjustment(mut a) => {
                let ghost a0 = a;
                let f = a.filters.remove(k);
                assert(adjustment_with_filters(a0, a0.filters@.remove(k as int), a));
                (LayerNode::Adjustment(a), FilterLayer::from_node(f))
            },
            LayerNode::Group(g) => {
                assert(false);
                (LayerNode::Group(g), FilterLayer::new(String::new(), String::new(), Vec::new()))
            },
        };
        self.put_node_at(&p, i, edited, Ghost(r0));
        Some(removed)
    }

    /// Sets the parameter `key` of the first filter `filter_id` of the
    /// chain of the first node `layer_id` (the first entry of that name
    /// takes the value, or one is appended). `false`, no change, when there
    /// is no such filter.
    pub fn set_filter_param(
        &mut self,
        layer_id: LayerId,
        filter_id: LayerId,
        key: String,
        value: ParamValue,
    ) -> (done: bool)
        ensures
            filter_param_set(old(self).root@, old(self).version_clock, layer_id, filter_id, key, value, done, final(self).root@, final(self).version_clock),
            final(self).width == old(self).width,
            final(self).height == old(self).height,
    {
        let (p, i) = match self.chain_loc(layer_id) {
            Some(loc) => loc,
            None => {
                return false;
            },
        };
        assert(ipath(p@).skip(0) =~= ipath(p@));
        let k = match &list_ref_at(&self.root, &p, 0)[i] {
            LayerNode::Pixel(l) => filter_position(&l.filter_layers, filter_id),
            LayerNode::Adjustment(a) => filter_node_position(&a.filters, filter_id),
            LayerNode::Group(_) => None,
        };
        let k = match k {
            Some(k) => k,
            None => {
                return false;
            },
        };
        proof {
            crate::ids::lemma_first_index(
                filter_ids(
                    match node_at(self.root@, ipath(p@), i as int) {
                        LayerNode::Pixel(l) => l.filter_layers@,
                        _ => Seq::empty(),
                    },
                ),
                filter_id,
            );
            crate::ids::lemma_first_index(
                filter_node_ids(
                    match node_at(self.root@, ipath(p@), i as int) {
                        LayerNode::Adjustment(a) => a.filters@,
                        _ => Seq::empty(),
                    },
                ),
                filter_id,
            );
        }
        let ghost r0 = self.root@;
        let ghost c0 = self.version_clock;
        let ghost kg = key;
        let ghost vg = value;
        let node = self.take_node_at(&p, i);
        let ghost n0 = node;
        let (edited, Ghost(fw), Ghost(gw)) = match node {
            LayerNode::Pixel(mut l) => {
                let ghost l0 = l;
                let mut f = l.filter_layers.remove(k);
                let ghost f0 = f;
                set_param(&mut f.params, key, value);
                let ghost f2 = f;
                l.filter_layers.insert(k, f);
                let v = self.next_version();
                l.touch(v);
                assert(l.filter_layers@ =~= l0.filter_layers@.update(k as int, f2));
                assert(filter_with_params(f0, params_with(f0.params@, kg, vg), f2));
                (LayerNode::Pixel(l), Ghost(f2), Ghost(arbitrary()))
            },
            LayerNode::Adjustment(mut a) => {
                let ghost a0 = a;
                let mut f = a.filters.remove(k);
                let ghost f0 = f;
                set_param(&mut f.params, key, value);
                let ghost f2 = f;
                a.filters.insert(k, f);
                assert(a.filters@ =~= a0.filters@.update(k as int, f2));
                assert(node_filter_with_params(f0, params_with(f0.params@, kg, vg), f2));
                (LayerNode::Adjustment(a), Ghost(arbitrary()), Ghost(f2))
            },
            LayerNode::Group(g) => (LayerNode::Group(g), Ghost(arbitrary()), Ghost(arbitrary())),
        };
        let ghost e = edited;
        self.put_node_at(&p, i, edited, Ghost(r0));
        proof {
            match (n0, e) {
                (LayerNode::Pixel(l0), LayerNode::Pixel(l)) => {
                    assert(pixel_with_filters(l0, l0.filter_layers@.update(k as int, fw), c0, l));
                },
                (LayerNode::Adjustment(a0), LayerNode::Adjustment(a)) => {
                    assert(adjustment_with_filters(a0, a0.filters@.update(k as int, gw), a));
                },
                _ => {},
            }
        }
        true
    }

    /// Switches the first filter `filter_id` of the chain of the first
    /// node `layer_id` on or off, keeping its settings; a pixel layer is
    /// touched only when the state changes. `false`, no change, when there
    /// is no such filter.
    pub fn set_filter_enabled(&mut self, layer_id: LayerId, filter_id: LayerId, enabled: bool) -> (done:
        bool)
        ensures
            match find_node(old(self).root@, layer_id) {
                Some(LayerNode::Pixel(l)) => match first_index(
                    filter_ids(l.filter_layers@),
                    filter_id,
                ) {
                    Some(k) => done && if l.filter_layers@[k].enabled == enabled {
                        *final(self) == *old(self)
                    } else {
                        chains_result(
                            old(self).root@,
                            old(self).version_clock,
                            layer_id,
                            l.filter_layers@.update(
                                k,
                                FilterLayer { enabled, ..l.filter_layers@[k] },
                            ),
                            Seq::empty(),
                            final(self).root@,
                            final(self).version_clock,
                        )
                    },
                    None => !done && *final(self) == *old(self),
                },
                Some(LayerNode::Adjustment(a)) => match first_index(
                    filter_node_ids(a.filters@),
                    filter_id,
                ) {
                    Some(k) => done && if a.filters@[k].enabled == enabled {
                        *final(self) == *old(self)
                    } else {
                        chains_result(
                            old(self).root@,
                            old(self).version_clock,
                            layer_id,
                            Seq::empty(),
                            a.filters@.update(k, FilterNode { enabled, ..a.filters@[k] }),
                            final(self).root@,
                            final(self).version_clock,
                        )
                    },
                    None => !done && *final(self) == *old(self),
                },
                _ => !done && *final(self) == *old(self),
            },
            final(self).width == old(self).width,
            final(self).height == old(self).height,
    {
        let (p, i) = match self.chain_loc(layer_id) {
            Some(loc) => loc,
            None => {
                return false;
            },
        };
        assert(ipath(p@).skip(0) =~= ipath(p@));
        proof {
            crate::ids::lemma_first_index(
                filter_ids(
                    match node_at(self.root@, ipath(p@), i as int) {
                        LayerNode::Pixel(l) => l.filter_layers@,
                        _ => Seq::empty(),
                    },
                ),
                filter_id,
            );
            crate::ids::lemma_first_index(
                filter_node_ids(
                    match node_at(self.root@, ipath(p@), i as int) {
                        LayerNode::Adjustment(a) => a.filters@,
                        _ => Seq::empty(),
                    },
                ),
                filter_id,
            );
        }
        let (k, current) = match &list_ref_at(&self.root, &p, 0)[i] {
            LayerNode::Pixel(l) => match filter_position(&l.filter_layers, filter_id) {
                Some(k) => (k, l.filter_layers[k].enabled),
                None => {
                    return false;
                },
            },
            LayerNode::Adjustment(a) => match filter_node_position(&a.filters, filter_id) {
                Some(k) => (k, a.filters[k].enabled),
                None => {
                    return false;
                },
            },
            LayerNode::Group(_) => {
                return false;
            },
        };
        proof {
            crate::ids::lemma_first_index(
                filter_ids(
                    match node_at(self.root@, ipath(p@), i as int) {
                        LayerNode::Pixel(l) => l.filter_layers@,
                        _ => Seq::empty(),
                    },
                ),
                filter_id,
            );
            crate::ids::lemma_first_index(
                filter_node_ids(
                    match node_at(self.root@, ipath(p@), i as int) {
                        LayerNode::Adjustment(a) => a.filters@,
                        _ => Seq::empty(),
                    },
                ),
                filter_id,
            );
        }
        if current == enabled {
            return true;
        }
        let ghost r0 = self.root@;
        let ghost c0 = self.version_clock;
        let node = self.take_node_at(&p, i);
        let edited = match node {
            LayerNode::Pixel(mut l) => {
                let ghost l0 = l;
                let mut f = l.filter_layers.remove(k);
                f.enabled = enabled;
                let ghost f2 = f;
                l.filter_layers.insert(k, f);
                let v = self.next_version();
                l.touch(v);
                assert(l.filter_layers@ =~= l0.filter_layers@.update(k as int, f2));
                assert(pixel_with_filters(l0, l0.filter_layers@.update(k as int, f2), c0, l));
                LayerNode::Pixel(l)
            },
            LayerNode::Adjustment(mut a) => {
                let ghost a0 = a;
                let mut f = a.filters.remove(k);
                f.enabled = enabled;
                let ghost f2 = f;
                a.filters.insert(k, f);
                assert(a.filters@ =~= a0.filters@.update(k as int, f2));
                assert(adjustment_with_filters(a0, a0.filters@.update(k as int, f2), a));
                LayerNode::Adjustment(a)
            },
            LayerNode::Group(g) => LayerNode::Group(g),
        };
        self.put_node_at(&p, i, edited, Ghost(r0));
        true
    }

    /// Moves the first filter sub-layer `filter_id` of the pixel layer
    /// `layer_id` one step later (`up`) or earlier in its chain (order =
    /// order of application). `false`, no change, at the ends of the chain
    /// or when there is no such filter.
    pub fn move_filter(&mut self, layer_id: LayerId, filter_id: LayerId, up: bool) -> (done: bool)
        ensures
            filter_moved(old(self).root@, old(self).version_clock, layer_id, filter_id, up, done, final(self).root@, final(self).version_clock),
            final(self).width == old(self).width,
            final(self).height == old(self).height,
    {
        let (p, i) = match self.pixel_loc(layer_id) {
            Some(loc) => loc,
            None => {
                return false;
            },
        };
        assert(ipath(p@).skip(0) =~= ipath(p@));
        let (k, len) = match &list_ref_at(&self.root, &p, 0)[i] {
            LayerNode::Pixel(l) => match filter_position(&l.filter_layers, filter_id) {
                Some(k) => (k, l.filter_layers.len()),
                None => {
                    return false;
                },
            },
            _ => {
                return false;
            },
        };
        proof {
            crate::ids::lemma_first_index(
                filter_ids(
                    match node_at(self.root@, ipath(p@), i as int) {
                        LayerNode::Pixel(l) => l.filter_layers@,
                        _ => Seq::empty(),
                    },
                ),
                filter_id,
            );
        }
        let other = if up {
            k + 1
        } else {
            if k == 0 {
                return false;
            }
            k - 1
        };
        if other >= len {
            return false;
        }
        let ghost r0 = self.root@;
        let ghost c0 = self.version_clock;
        let mut l = self.take_pixel_at(&p, i);
        let ghost l0 = l;
        let moved = l.filter_layers.remove(k);
        l.filter_layers.insert(other, moved);
        let v = self.next_version();
        l.touch(v);
        assert(l.filter_layers@ =~= filters_swapped(l0.filter_layers@, k as int, other as int));
        assert(pixel_with_filters(
            l0,
            filters_swapped(l0.filter_layers@, k as int, other as int),
            c0,
            l,
        ));
        self.put_node_at(&p, i, LayerNode::Pixel(l), Ghost(r0));
        true
    }

    /// Duplicates the first filter sub-layer `filter_id` of the pixel layer
    /// `layer_id` (fresh identifiers for it and its masks) just after it in
    /// the chain. Returns the copy's identifier; `None`, no change, when
    /// there is no such filter.
    pub fn duplicate_filter(&mut self, layer_id: LayerId, filter_id: LayerId) -> (r: Option<LayerId>)
        ensures
            match find_node(old(self).root@, layer_id) {
                Some(LayerNode::Pixel(l)) => match first_index(
                    filter_ids(l.filter_layers@),
                    filter_id,
                ) {
                    Some(k) => exists|c: FilterLayer|
                        filter_layer_copied(l.filter_layers@[k], c, true) && r == Some(c.id)
                            && chains_result(
                            old(self).root@,
                            old(self).version_clock,
                            layer_id,
                            l.filter_layers@.insert(k + 1, c),
                            Seq::empty(),
                            final(self).root@,
                            final(self).version_clock,
                        ),
                    None => r is None && *final(self) == *old(self),
                },
                _ => r is None && *final(self) == *old(self),
            },
            final(self).width == old(self).width,
            final(self).height == old(self).height,
    {
        let (p, i) = match self.pixel_loc(layer_id) {
            Some(loc) => loc,
            None => {
                return None;
            },
        };
        assert(ipath(p@).skip(0) =~= ipath(p@));
        let (k, copy) = match &list_ref_at(&self.root, &p, 0)[i] {
            LayerNode::Pixel(l) => match filter_position(&l.filter_layers, filter_id) {
                Some(k) => {
                    proof {
                        crate::ids::lemma_first_index(filter_ids(l.filter_layers@), filter_id);
                    }
                    (k, copy_filter_layer(&l.filter_layers[k], true))
                },
                None => {
                    return None;
                },
            },
            _ => {
                return None;
            },
        };
        let new_id = copy.id;
        let ghost cg = copy;
        let ghost r0 = self.root@;
        let ghost c0 = self.version_clock;
        let mut l = self.take_pixel_at(&p, i);
        let ghost l0 = l;
        let n = l.filter_layers.len();
        assert(k < n);
        l.filter_layers.insert(k + 1, copy);
        let v = self.next_version();
        l.touch(v);
        assert(pixel_with_filters(l0, l0.filter_layers@.insert(k + 1, cg), c0, l));
        self.put_node_at(&p, i, LayerNode::Pixel(l), Ghost(r0));
        Some(new_id)
    }

    /// The first filter sub-layer `filter_id` of the forest.
    pub fn find_filter_layer(&self, filter_id: LayerId) -> (r: Option<&FilterLayer>)
        ensures
            match r {
                Some(f) => find_filter(self.root@, filter_id) == Some(*f),
                None => find_filter(self.root@, filter_id) is None,
            },
    {
        proof {
            lemma_find_filter_loc_from(self.root@, filter_id, 0);
        }
        match find_filter_loc_in(&self.root, filter_id) {
            Some((p, i, j)) => {
                assert(ipath(p@).skip(0) =~= ipath(p@));
                match &list_ref_at(&self.root, &p, 0)[i] {
                    LayerNode::Pixel(l) => Some(&l.filter_layers[j]),
                    _ => None,
                }
            },
            None => None,
        }
    }

    /// Identifier of the pixel layer that carries the first filter
    /// sub-layer `filter_id`.
    pub fn find_filter_parent(&self, filter_id: LayerId) -> (r: Option<LayerId>)
        ensures
            r == find_filter_parent(self.root@, filter_id),
    {
        proof {
            lemma_find_filter_loc_from(self.root@, filter_id, 0);
        }
        match find_filter_loc_in(&self.root, filter_id) {
            Some((p, i, _)) => {
                assert(ipath(p@).skip(0) =~= ipath(p@));
                Some(list_ref_at(&self.root, &p, 0)[i].id())
            },
            None => None,
        }
    }
}

} // verus!
