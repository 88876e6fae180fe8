//! Inside one layer: where its live filters and masks sit, and the
//! destructive edits that rework every raster of a pixel layer.

use crate::geometry::{FIXED_ONE, Transform2D, translated};
use crate::ids::{LayerId, first_index, lemma_first_index};
use crate::model::{
    FilterLayer, FilterNode, LayerMask, LayerNode, PixelLayer, lemma_tick_add, next_appearance_version,
    tick,
};
use crate::raster::{RasterOp, raster_reworked};
use vstd::prelude::*;

verus! {

/// Identifiers of a chain of filter sub-layers, in order.
pub open spec fn filter_ids(fs: Seq<FilterLayer>) -> Seq<LayerId> {
    fs.map_values(|f: FilterLayer| f.id)
}

/// Identifiers of a chain of plain filters, in order.
pub open spec fn filter_node_ids(fs: Seq<FilterNode>) -> Seq<LayerId> {
    fs.map_values(|f: FilterNode| f.id)
}

/// Identifiers of a list of masks, in order.
pub open spec fn mask_ids(ms: Seq<LayerMask>) -> Seq<LayerId> {
    ms.map_values(|m: LayerMask| m.id)
}

/// Position of the first filter sub-layer `id` of a chain.
pub fn filter_position(fs: &Vec<FilterLayer>, id: LayerId) -> (r: Option<usize>)
    ensures
        match r {
            Some(i) => first_index(filter_ids(fs@), id) == Some(i as int),
            None => first_index(filter_ids(fs@), id) is None,
        },
{
    let ghost ids = filter_ids(fs@);
    proof {
        lemma_first_index(ids, id);
    }
    let mut i: usize = 0;
    while i < fs.len()
        invariant
            i <= fs@.len(),
            ids == filter_ids(fs@),
            forall|j: int| 0 <= j < i ==> #[trigger] ids[j] != id,
            match first_index(ids, id) {
                Some(k) => 0 <= k < ids.len() && ids[k] == id && forall|j: int|
                    0 <= j < k ==> #[trigger] ids[j] != id,
                None => forall|j: int| 0 <= j < ids.len() ==> #[trigger] ids[j] != id,
            },
        decreases fs@.len() - i,
    {
        if fs[i].id == id {
            proof {
                assert(ids[i as int] == id);
            }
            return Some(i);
        }
        assert(ids[i as int] != id);
        i += 1;
    }
    None
}

/// Position of the first plain filter `id` of a chain.
pub fn filter_node_position(fs: &Vec<FilterNode>, id: LayerId) -> (r: Option<usize>)
    ensures
        match r {
            Some(i) => first_index(filter_node_ids(fs@), id) == Some(i as int),
            None => first_index(filter_node_ids(fs@), id) is None,
        },
{
    let ghost ids = filter_node_ids(fs@);
    proof {
        lemma_first_index(ids, id);
    }
    let mut i: usize = 0;
    while i < fs.len()
        invariant
            i <= fs@.len(),
            ids == filter_node_ids(fs@),
            forall|j: int| 0 <= j < i ==> #[trigger] ids[j] != id,
            match first_index(ids, id) {
                Some(k) => 0 <= k < ids.len() && ids[k] == id && forall|j: int|
                    0 <= j < k ==> #[trigger] ids[j] != id,
                None => forall|j: int| 0 <= j < ids.len() ==> #[trigger] ids[j] != id,
            },
        decreases fs@.len() - i,
    {
        if fs[i].id == id {
            proof {
                assert(ids[i as int] == id);
            }
            return Some(i);
        }
        assert(ids[i as int] != id);
        i += 1;
    }
    None
}

impl LayerNode {
    /// The first mask `id` of the node (none for an adjustment layer).
    pub fn mask(&self, id: LayerId) -> (r: Option<&LayerMask>)
        ensures
            match first_index(mask_ids(self.node_masks()), id) {
                Some(k) => r matches Some(m) && *m == self.node_masks()[k],
                None => r is None,
            },
    {
        let ms = self.masks();
        proof {
            lemma_first_index(mask_ids(ms@), id);
        }
        match mask_position(ms, id) {
            Some(k) => Some(&ms[k]),
            None => None,
        }
    }
}

/// Position of the first mask `id` of a list.
pub fn mask_position(ms: &[LayerMask], id: LayerId) -> (r: Option<usize>)
    ensures
        match r {
            Some(i) => first_index(mask_ids(ms@), id) == Some(i as int),
            None => first_index(mask_ids(ms@), id) is None,
        },
{
    let ghost ids = mask_ids(ms@);
    proof {
        lemma_first_index(ids, id);
    }
    let mut i: usize = 0;
    while i < ms.len()
        invariant
            i <= ms@.len(),
            ids == mask_ids(ms@),
            forall|j: int| 0 <= j < i ==> #[trigger] ids[j] != id,
            match first_index(ids, id) {
                Some(k) => 0 <= k < ids.len() && ids[k] == id && forall|j: int|
                    0 <= j < k ==> #[trigger] ids[j] != id,
                None => forall|j: int| 0 <= j < ids.len() ==> #[trigger] ids[j] != id,
            },
        decreases ms@.len() - i,
    {
        if ms[i].id == id {
            proof {
                assert(ids[i as int] == id);
            }
            return Some(i);
        }
        assert(ids[i as int] != id);
        i += 1;
    }
    None
}

// ---------------------------------------------------------------------------
// Destructive reworks (flip, crop)
// ---------------------------------------------------------------------------

/// `after` is the mask `before` with its coverage reworked by `op` and the
/// appearance version `version`.
pub open spec fn mask_reworked(before: LayerMask, op: RasterOp, version: u64, after: LayerMask) -> bool {
    &&& after == LayerMask { image: after.image, version, ..before }
    &&& raster_reworked(before.image, op, after.image)
}

/// Every mask reworked by `op`, the `k`-th getting the version `k` ticks
/// after `c`.
pub open spec fn masks_reworked(
    before: Seq<LayerMask>,
    op: RasterOp,
    c: u64,
    after: Seq<LayerMask>,
) -> bool {
    &&& after.len() == before.len()
    &&& forall|k: int|
        #![trigger after[k]]
        0 <= k < before.len() ==> mask_reworked(before[k], op, tick(c, k as nat), after[k])
}

/// Number of masks carried by the first `n` filter sub-layers.
pub open spec fn masks_before(fs: Seq<FilterLayer>, n: int) -> nat
    decreases n,
{
    if n <= 0 {
        0
    } else {
        masks_before(fs, n - 1) + fs[n - 1].masks@.len()
    }
}

/// Every mask of every filter sub-layer reworked by `op`, versions handed
/// out in order from `c`; nothing else of the filters changes.
pub open spec fn filters_reworked(
    before: Seq<FilterLayer>,
    op: RasterOp,
    c: u64,
    after: Seq<FilterLayer>,
) -> bool {
    &&& after.len() == before.len()
    &&& forall|k: int|
        #![trigger after[k]]
        0 <= k < before.len() ==> {
            &&& after[k] == FilterLayer { masks: after[k].masks, ..before[k] }
            &&& masks_reworked(
                before[k].masks@,
                op,
                tick(c, masks_before(before, k)),
                after[k].masks@,
            )
        }
}

/// Versions a rework hands out: one per mask of the layer, one per mask
/// of its filters, and one for the layer.
pub open spec fn rework_ticks(l: PixelLayer) -> nat {
    l.masks@.len() + masks_before(l.filter_layers@, l.filter_layers@.len() as int) + 1
}

/// Placement after a rework: a cut moves the layer by the cut's corner so
/// that what is kept stays in place on the canvas.
pub open spec fn reworked_transform(t: Transform2D, op: RasterOp) -> Transform2D {
    match op {
        RasterOp::Mirror(_) => t,
        RasterOp::Cut(x, y, _, _) => translated(t, x * FIXED_ONE, y * FIXED_ONE),
    }
}

/// `after` is the pixel layer `before` reworked by `op` with the clock at
/// `c`: its masks first, then the masks of its filters, then its source
/// image, which takes the last version.
pub open spec fn layer_reworked(before: PixelLayer, op: RasterOp, c: u64, after: PixelLayer) -> bool {
    &&& after == PixelLayer {
        source_image: after.source_image,
        filter_layers: after.filter_layers,
        masks: after.masks,
        transform: reworked_transform(before.transform, op),
        appearance_version: tick(c, (rework_ticks(before) - 1) as nat),
        ..before
    }
    &&& raster_reworked(before.source_image, op, after.source_image)
    &&& masks_reworked(before.masks@, op, c, after.masks@)
    &&& filters_reworked(before.filter_layers@, op, tick(c, before.masks@.len()), after.filter_layers@)
}

/// Reworks every mask of a list by `op`, versioning each from `clock`.
pub fn rework_masks(masks: Vec<LayerMask>, op: RasterOp, clock: &mut u64) -> (out: Vec<LayerMask>)
    ensures
        masks_reworked(masks@, op, *old(clock), out@),
        *final(clock) == tick(*old(clock), masks@.len()),
{
    let ghost c0 = *clock;
    let ghost orig = masks@;
    let mut src = masks;
    let mut out: Vec<LayerMask> = Vec::new();
    let len = src.len();
    let mut k: usize = 0;
    while k < len
        invariant
            k <= len,
            len == orig.len(),
            src@ == orig.subrange(k as int, len as int),
            out@.len() == k,
            *clock == tick(c0, k as nat),
            forall|j: int|
                #![trigger out@[j]]
                0 <= j < k ==> mask_reworked(orig[j], op, tick(c0, j as nat), out@[j]),
        decreases len - k,
    {
        let mut m = src.remove(0);
        let image = m.image.reworked(op);
        m.image = image;
        let v = next_appearance_version(clock);
        m.version = v;
        out.push(m);
        k += 1;
        assert(src@ =~= orig.subrange(k as int, len as int));
    }
    out
}

/// Reworks the masks of every filter sub-layer of a chain by `op`.
pub fn rework_filters(filters: Vec<FilterLayer>, op: RasterOp, clock: &mut u64) -> (out: Vec<
    FilterLayer,
>)
    ensures
        filters_reworked(filters@, op, *old(clock), out@),
        *final(clock) == tick(*old(clock), masks_before(filters@, filters@.len() as int)),
{
    let ghost c0 = *clock;
    let ghost orig = filters@;
    let mut src = filters;
    let mut out: Vec<FilterLayer> = Vec::new();
    let len = src.len();
    let mut k: usize = 0;
    while k < len
        invariant
            k <= len,
            len == orig.len(),
            src@ == orig.subrange(k as int, len as int),
            out@.len() == k,
            *clock == tick(c0, masks_before(orig, k as int)),
            forall|j: int|
                #![trigger out@[j]]
                0 <= j < k ==> {
                    &&& out@[j] == FilterLayer { masks: out@[j].masks, ..orig[j] }
                    &&& masks_reworked(
                        orig[j].masks@,
                        op,
                        tick(c0, masks_before(orig, j)),
                        out@[j].masks@,
                    )
                },
        decreases len - k,
    {
        let mut f = src.remove(0);
        let ghost fk = f;
        let mut ms: Vec<LayerMask> = Vec::new();
        std::mem::swap(&mut ms, &mut f.masks);
        let reworked = rework_masks(ms, op, clock);
        f.masks = reworked;
        proof {
            lemma_tick_add(c0, masks_before(orig, k as int), fk.masks@.len());
        }
        out.push(f);
        k += 1;
        assert(src@ =~= orig.subrange(k as int, len as int));
    }
    out
}

/// Reworks a pixel layer by `op`: its masks, the masks of its filters and
/// its source image, each versioned from `clock`; a cut also moves it.
pub fn rework_layer(l: &mut PixelLayer, op: RasterOp, clock: &mut u64)
    ensures
        layer_reworked(*old(l), op, *old(clock), *final(l)),
        *final(clock) == tick(*old(clock), rework_ticks(*old(l))),
{
    let ghost c0 = *clock;
    let ghost l0 = *l;
    let mut ms: Vec<LayerMask> = Vec::new();
    std::mem::swap(&mut ms, &mut l.masks);
    let mut fs: Vec<FilterLayer> = Vec::new();
    std::mem::swap(&mut fs, &mut l.filter_layers);
    let transform = match op {
        RasterOp::Mirror(_) => l.transform,
        RasterOp::Cut(x, y, _, _) => l.transform.translate(x as i64 * FIXED_ONE, y as i64 * FIXED_ONE),
    };
    l.transform = transform;
    let masks = rework_masks(ms, op, clock);
    l.masks = masks;
    let ghost c1 = *clock;
    let filters = rework_filters(fs, op, clock);
    l.filter_layers = filters;
    let source = l.source_image.reworked(op);
    l.source_image = source;
    let ghost c2 = *clock;
    let v = next_appearance_version(clock);
    l.appearance_version = v;
    proof {
        let nm = l0.masks@.len();
        let nf = masks_before(l0.filter_layers@, l0.filter_layers@.len() as int);
        lemma_tick_add(c0, nm, nf);
        lemma_tick_add(c0, nm + nf, 1);
        assert(c2 == tick(c0, nm + nf));
        assert((rework_ticks(l0) - 1) as nat == nm + nf);
    }
}

} // verus!
