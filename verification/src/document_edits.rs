//! Edits of nodes in place and of pixel layers: destructive reworks and new pixels.

use crate::document::{Document, node_replaced};
use crate::forest::{
    find_loc, find_loc_from, find_loc_in, find_node, ipath, lemma_find_loc_from, lemma_replaced_list,
    lemma_replaced_twice, list_at, list_ref_at, node_at, node_mut_at, valid_loc,
};
use crate::ids::LayerId;
use crate::layer_edits::{layer_reworked, rework_layer, rework_ticks};
use crate::model::{AdjustmentLayer, LayerNode, PixelLayer, next_tick, tick};
use crate::raster::{Raster, RasterOp};
use vstd::prelude::*;

verus! {

/// `new` is `old` with the first node `id` (depth-first) replaced by
/// `node`; `old` itself when there is no node `id`.
pub open spec fn root_with_node(
    old: Seq<LayerNode>,
    id: LayerId,
    node: LayerNode,
    new: Seq<LayerNode>,
) -> bool {
    match find_loc(old, id) {
        Some((p, i)) => node_replaced(old, p, i, node, new),
        None => new == old,
    }
}

/// Whether the first node `id` is a pixel layer.
pub open spec fn is_pixel_at(root: Seq<LayerNode>, id: LayerId) -> bool {
    find_node(root, id) matches Some(LayerNode::Pixel(_))
}

/// The pixel layer `n` with the appearance version `version`; other nodes
/// as they are.
pub open spec fn touched(n: LayerNode, version: u64) -> LayerNode {
    match n {
        LayerNode::Pixel(l) => LayerNode::Pixel(PixelLayer { appearance_version: version, ..l }),
        _ => n,
    }
}

/// Forest and clock after the first node `id` is touched, when it is a
/// pixel layer: it takes the clock's version and the clock advances.
pub open spec fn touch_result(
    old: Seq<LayerNode>,
    clock: u64,
    id: LayerId,
    new: Seq<LayerNode>,
    new_clock: u64,
) -> bool {
    if is_pixel_at(old, id) {
        &&& root_with_node(old, id, touched(find_node(old, id)->0, clock), new)
        &&& new_clock == next_tick(clock)
    } else {
        new == old && new_clock == clock
    }
}

/// Two replacements of the node at `(p, i)` make one.
pub proof fn lemma_node_replaced_twice(
    a: Seq<LayerNode>,
    p: Seq<int>,
    i: int,
    x: LayerNode,
    b: Seq<LayerNode>,
    y: LayerNode,
    c: Seq<LayerNode>,
)
    requires
        valid_loc(a, p, i),
        node_replaced(a, p, i, x, b),
        node_replaced(b, p, i, y, c),
    ensures
        node_replaced(a, p, i, y, c),
{
    lemma_replaced_list(a, p, list_at(a, p).update(i, x), b);
    assert(list_at(b, p).update(i, y) =~= list_at(a, p).update(i, y));
    lemma_replaced_twice(a, p, list_at(a, p).update(i, x), b, list_at(b, p).update(i, y), c);
}

/// Top-level index at which the search result `(p, i)` sits.
pub open spec fn top_index(p: Seq<int>, i: int) -> int {
    if p.len() == 0 {
        i
    } else {
        p[0]
    }
}

/// What the search from index `j` finds sits at index `j` or above.
proof fn lemma_find_loc_from_top(nodes: Seq<LayerNode>, id: LayerId, j: int)
    ensures
        find_loc_from(nodes, id, j) matches Some((p, i)) ==> top_index(p, i) >= j,
    decreases nodes.len() - j,
{
    if 0 <= j < nodes.len() && nodes[j].node_id() != id {
        let inner = match nodes[j] {
            LayerNode::Group(g) => find_loc_from(g.children@, id, 0),
            _ => None,
        };
        if inner is Some {
            let (p2, i2) = inner->0;
            assert((seq![j] + p2)[0] == j);
        } else {
            lemma_find_loc_from_top(nodes, id, j + 1);
        }
    }
}

/// The search from index `j` finds what the search from index `0` finds,
/// for every `j` up to where it is.
proof fn lemma_find_loc_prefix(nodes: Seq<LayerNode>, id: LayerId, p: Seq<int>, i: int, j: int, k: int)
    requires
        find_loc_from(nodes, id, j) == Some((p, i)),
        0 <= j <= k <= top_index(p, i),
    ensures
        find_loc_from(nodes, id, k) == Some((p, i)),
    decreases k - j,
{
    if j < k {
        if 0 <= j < nodes.len() && nodes[j].node_id() != id {
            let inner = match nodes[j] {
                LayerNode::Group(g) => find_loc_from(g.children@, id, 0),
                _ => None,
            };
            if inner is Some {
                let (p2, i2) = inner->0;
                assert((seq![j] + p2)[0] == j);
            }
        }
        lemma_find_loc_prefix(nodes, id, p, i, j + 1, k);
    }
}

/// Replacing the node that a search finds by a node with the same
/// identifier: the search from `j` (up to where it is) finds it again.
proof fn lemma_find_loc_kept_from(
    old: Seq<LayerNode>,
    id: LayerId,
    p: Seq<int>,
    i: int,
    n2: LayerNode,
    new: Seq<LayerNode>,
    j: int,
)
    requires
        find_loc_from(old, id, 0) == Some((p, i)),
        node_replaced(old, p, i, n2, new),
        n2.node_id() == id,
        0 <= j <= top_index(p, i),
    ensures
        find_loc_from(new, id, j) == Some((p, i)),
    decreases p.len(), top_index(p, i) - j,
{
    lemma_find_loc_from(old, id, 0);
    let k0 = top_index(p, i);
    lemma_find_loc_prefix(old, id, p, i, 0, j);
    lemma_find_loc_prefix(old, id, p, i, 0, k0);
    if j < k0 {
        lemma_find_loc_kept_from(old, id, p, i, n2, new, j + 1);
        assert(new[j] == old[j]) by {
            if p.len() == 0 {
                assert(new == list_at(old, p).update(i, n2));
            }
        }
        let inner = match old[j] {
            LayerNode::Group(g) => find_loc_from(g.children@, id, 0),
            _ => None,
        };
        if old[j].node_id() != id && inner is Some {
            let (p2, i2) = inner->0;
            assert((seq![j] + p2)[0] == j);
        }
    } else if p.len() == 0 {
        assert(new == old.update(i, n2));
    } else {
        let p2 = p.drop_first();
        match (old[k0], new[k0]) {
            (LayerNode::Group(go), LayerNode::Group(gn)) => {
                assert(old[k0].node_id() != id);
                let inner = find_loc_from(go.children@, id, 0);
                assert(inner == Some((p2, i))) by {
                    lemma_find_loc_from_top(old, id, k0 + 1);
                    if inner is Some {
                        let (q, m) = inner->0;
                        assert(p == seq![k0] + q);
                        assert(q =~= p2);
                    }
                }
                assert(list_at(old, p) == list_at(go.children@, p2));
                assert(node_replaced(go.children@, p2, i, n2, gn.children@));
                lemma_find_loc_kept_from(go.children@, id, p2, i, n2, gn.children@, top_index(p2, i));
                lemma_find_loc_prefix(go.children@, id, p2, i, 0, 0);
                lemma_find_loc_kept_from(go.children@, id, p2, i, n2, gn.children@, 0);
                assert(seq![k0] + p2 =~= p);
            },
            _ => {},
        }
    }
}

/// Replacing the node that a search finds by a node with the same
/// identifier: the search finds it again, at the same place.
pub proof fn lemma_find_loc_kept(old: Seq<LayerNode>, id: LayerId, n2: LayerNode, new: Seq<LayerNode>)
    requires
        root_with_node(old, id, n2, new),
        find_loc(old, id) is Some,
        n2.node_id() == id,
    ensures
        find_loc(new, id) == find_loc(old, id),
        find_node(new, id) == Some(n2),
{
    let (p, i) = find_loc(old, id)->0;
    lemma_find_loc_from(old, id, 0);
    lemma_find_loc_kept_from(old, id, p, i, n2, new, 0);
    lemma_replaced_list(old, p, list_at(old, p).update(i, n2), new);
}

/// A node that holds nothing, standing in while a node is edited.
fn hole() -> (n: LayerNode)
    ensures
        n matches LayerNode::Adjustment(a) && a.id == 0 && a.name@.len() == 0 && a.filters@.len()
            == 0 && a.opacity == 0 && !a.visible,
{
    LayerNode::Adjustment(
        AdjustmentLayer { id: 0, name: String::new(), filters: Vec::new(), opacity: 0, visible: false },
    )
}

impl Document {
    /// The first node `id` (depth-first, pre-order), to edit in place:
    /// what is written through it replaces that node.
    pub fn find_mut(&mut self, id: LayerId) -> (r: Option<&mut LayerNode>)
        ensures
            match r {
                Some(n) => find_node(old(self).root@, id) == Some(*n) && root_with_node(
                    old(self).root@,
                    id,
                    *final(n),
                    final(self).root@,
                ),
                None => find_node(old(self).root@, id) is None && final(self).root@ == old(
                    self,
                ).root@,
            },
            final(self).width == old(self).width,
            final(self).height == old(self).height,
            final(self).version_clock == old(self).version_clock,
    {
        proof {
            lemma_find_loc_from(self.root@, id, 0);
        }
        match find_loc_in(&self.root, id) {
            Some((p, i)) => {
                assert(ipath(p@).skip(0) =~= ipath(p@));
                Some(node_mut_at(&mut self.root, &p, 0, i))
            },
            None => None,
        }
    }

    /// The first node `id`, when it is a pixel layer, to edit in place.
    pub fn pixel_layer_mut(&mut self, id: LayerId) -> (r: Option<&mut PixelLayer>)
        ensures
            match r {
                Some(l) => find_node(old(self).root@, id) == Some(LayerNode::Pixel(*l))
                    && root_with_node(
                    old(self).root@,
                    id,
                    LayerNode::Pixel(*final(l)),
                    final(self).root@,
                ),
                None => !is_pixel_at(old(self).root@, id) && final(self).root@ == old(self).root@,
            },
            final(self).width == old(self).width,
            final(self).height == old(self).height,
            final(self).version_clock == old(self).version_clock,
    {
        if self.pixel_layer(id).is_none() {
            return None;
        }
        match self.find_mut(id) {
            Some(n) => match n {
                LayerNode::Pixel(l) => Some(l),
                _ => {
                    assert(false);
                    None
                },
            },
            None => None,
        }
    }
}

impl Document {
    /// Puts `node` at `(p, i)` and hands back the node it takes the place of.
    pub(crate) fn replace_node_at(&mut self, p: &Vec<usize>, i: usize, node: LayerNode) -> (prev:
        LayerNode)
        requires
            valid_loc(old(self).root@, ipath(p@), i as int),
        ensures
            prev == node_at(old(self).root@, ipath(p@), i as int),
            node_replaced(old(self).root@, ipath(p@), i as int, node, final(self).root@),
            valid_loc(final(self).root@, ipath(p@), i as int),
            final(self).width == old(self).width,
            final(self).height == old(self).height,
            final(self).version_clock == old(self).version_clock,
    {
        let ghost r0 = self.root@;
        let mut list = self.take_list(p);
        let prev = list.remove(i);
        list.insert(i, node);
        assert(list@ =~= list_at(r0, ipath(p@)).update(i as int, node));
        self.put_list(p, list, Ghost(r0));
        proof {
            lemma_replaced_list(r0, ipath(p@), list@, self.root@);
        }
        prev
    }

    /// Takes the node at `(p, i)` out for an edit, leaving a hole.
    pub(crate) fn take_node_at(&mut self, p: &Vec<usize>, i: usize) -> (n: LayerNode)
        requires
            valid_loc(old(self).root@, ipath(p@), i as int),
        ensures
            n == node_at(old(self).root@, ipath(p@), i as int),
            exists|h: LayerNode| node_replaced(old(self).root@, ipath(p@), i as int, h, final(self).root@),
            valid_loc(final(self).root@, ipath(p@), i as int),
            final(self).width == old(self).width,
            final(self).height == old(self).height,
            final(self).version_clock == old(self).version_clock,
    {
        let h = hole();
        let ghost hg = h;
        let prev = self.replace_node_at(p, i, h);
        assert(node_replaced(old(self).root@, ipath(p@), i as int, hg, self.root@));
        prev
    }

    /// Puts an edited node back at `(p, i)`, where a node was taken out of
    /// the forest `r0`.
    pub(crate) fn put_node_at(&mut self, p: &Vec<usize>, i: usize, n: LayerNode, Ghost(r0): Ghost<
        Seq<LayerNode>,
    >)
        requires
            valid_loc(r0, ipath(p@), i as int),
            valid_loc(old(self).root@, ipath(p@), i as int),
            exists|h: LayerNode| node_replaced(r0, ipath(p@), i as int, h, old(self).root@),
        ensures
            node_replaced(r0, ipath(p@), i as int, n, final(self).root@),
            final(self).width == old(self).width,
            final(self).height == old(self).height,
            final(self).version_clock == old(self).version_clock,
    {
        let ghost r1 = self.root@;
        let ghost nn = n;
        self.replace_node_at(p, i, n);
        proof {
            let h = choose|h: LayerNode| node_replaced(r0, ipath(p@), i as int, h, r1);
            lemma_node_replaced_twice(r0, ipath(p@), i as int, h, r1, nn, self.root@);
        }
    }

    /// Location of the first node `id`.
    pub(crate) fn node_loc(&self, id: LayerId) -> (r: Option<(Vec<usize>, usize)>)
        ensures
            match r {
                Some((p, i)) => {
                    &&& find_loc(self.root@, id) == Some((ipath(p@), i as int))
                    &&& valid_loc(self.root@, ipath(p@), i as int)
                    &&& find_node(self.root@, id) == Some(node_at(self.root@, ipath(p@), i as int))
                },
                None => find_loc(self.root@, id) is None && find_node(self.root@, id) is None,
            },
    {
        proof {
            lemma_find_loc_from(self.root@, id, 0);
        }
        find_loc_in(&self.root, id)
    }

    /// Takes the pixel layer at `(p, i)` out for an edit, leaving a hole.
    pub(crate) fn take_pixel_at(&mut self, p: &Vec<usize>, i: usize) -> (l: PixelLayer)
        requires
            valid_loc(old(self).root@, ipath(p@), i as int),
            node_at(old(self).root@, ipath(p@), i as int) is Pixel,
        ensures
            node_at(old(self).root@, ipath(p@), i as int) == LayerNode::Pixel(l),
            exists|h: LayerNode| node_replaced(old(self).root@, ipath(p@), i as int, h, final(self).root@),
            valid_loc(final(self).root@, ipath(p@), i as int),
            final(self).width == old(self).width,
            final(self).height == old(self).height,
            final(self).version_clock == old(self).version_clock,
    {
        let h = hole();
        let ghost hg = h;
        let prev = self.replace_node_at(p, i, h);
        assert(node_replaced(old(self).root@, ipath(p@), i as int, hg, self.root@));
        match prev {
            LayerNode::Pixel(l) => l,
            _ => {
                assert(false);
                PixelLayer {
                    id: 0,
                    name: String::new(),
                    source_image: Raster::transparent(0, 0),
                    filter_layers: Vec::new(),
                    transform: crate::geometry::Transform2D::identity(),
                    opacity: 0,
                    blend_mode: crate::blend::BlendMode::Normal,
                    visible: false,
                    masks: Vec::new(),
                    appearance_version: 0,
                }
            },
        }
    }

    /// Location of the first node `id` when it is a pixel layer.
    pub(crate) fn pixel_loc(&self, id: LayerId) -> (r: Option<(Vec<usize>, usize)>)
        ensures
            match r {
                Some((p, i)) => {
                    &&& is_pixel_at(self.root@, id)
                    &&& find_loc(self.root@, id) == Some((ipath(p@), i as int))
                    &&& valid_loc(self.root@, ipath(p@), i as int)
                },
                None => !is_pixel_at(self.root@, id),
            },
    {
        proof {
            lemma_find_loc_from(self.root@, id, 0);
        }
        match find_loc_in(&self.root, id) {
            Some((p, i)) => {
                assert(ipath(p@).skip(0) =~= ipath(p@));
                let list = list_ref_at(&self.root, &p, 0);
                if list[i].is_pixel() {
                    Some((p, i))
                } else {
                    None
                }
            },
            None => None,
        }
    }

    /// Bumps the appearance version of the first node `id` when it is a
    /// pixel layer (invalidates its cached appearance).
    pub fn touch_pixel(&mut self, id: LayerId)
        ensures
            touch_result(
                old(self).root@,
                old(self).version_clock,
                id,
                final(self).root@,
                final(self).version_clock,
            ),
            final(self).width == old(self).width,
            final(self).height == old(self).height,
    {
        match self.pixel_loc(id) {
            Some((p, i)) => {
                let ghost r0 = self.root@;
                let mut l = self.take_pixel_at(&p, i);
                let ghost r1 = self.root@;
                let ghost l0 = l;
                let v = self.next_version();
                l.touch(v);
                self.replace_node_at(&p, i, LayerNode::Pixel(l));
                proof {
                    let h = choose|h: LayerNode| node_replaced(r0, ipath(p@), i as int, h, r1);
                    lemma_node_replaced_twice(r0, ipath(p@), i as int, h, r1, LayerNode::Pixel(l), self.root@);
                    assert(LayerNode::Pixel(l) == touched(LayerNode::Pixel(l0), v));
                }
            },
            None => {},
        }
    }

    /// Replaces the pixels of the first node `id` when it is a pixel layer
    /// (painting); `false`, no change otherwise.
    pub fn set_source_image(&mut self, id: LayerId, image: Raster) -> (done: bool)
        ensures
            done == is_pixel_at(old(self).root@, id),
            done ==> (find_node(old(self).root@, id) matches Some(LayerNode::Pixel(l))
                && root_with_node(
                old(self).root@,
                id,
                LayerNode::Pixel(
                    PixelLayer {
                        source_image: image,
                        appearance_version: old(self).version_clock,
                        ..l
                    },
                ),
                final(self).root@,
            ) && final(self).version_clock == next_tick(old(self).version_clock)),
            !done ==> *final(self) == *old(self),
            final(self).width == old(self).width,
            final(self).height == old(self).height,
    {
        match self.pixel_loc(id) {
            Some((p, i)) => {
                let ghost r0 = self.root@;
                let mut l = self.take_pixel_at(&p, i);
                let ghost r1 = self.root@;
                let v = self.next_version();
                l.set_source_image(image, v);
                self.replace_node_at(&p, i, LayerNode::Pixel(l));
                proof {
                    let h = choose|h: LayerNode| node_replaced(r0, ipath(p@), i as int, h, r1);
                    lemma_node_replaced_twice(r0, ipath(p@), i as int, h, r1, LayerNode::Pixel(l), self.root@);
                }
                true
            },
            None => false,
        }
    }

    /// Reworks every raster of the first node `id` by `op` when it is a
    /// pixel layer.
    fn rework(&mut self, id: LayerId, op: RasterOp) -> (done: bool)
        ensures
            done == is_pixel_at(old(self).root@, id),
            done ==> (find_node(old(self).root@, id) matches Some(LayerNode::Pixel(l)) && exists|
                l2: PixelLayer,
            |
                layer_reworked(l, op, old(self).version_clock, l2) && root_with_node(
                    old(self).root@,
                    id,
                    LayerNode::Pixel(l2),
                    final(self).root@,
                ) && final(self).version_clock == tick(old(self).version_clock, rework_ticks(l))),
            !done ==> *final(self) == *old(self),
            final(self).width == old(self).width,
            final(self).height == old(self).height,
    {
        match self.pixel_loc(id) {
            Some((p, i)) => {
                let ghost r0 = self.root@;
                let mut l = self.take_pixel_at(&p, i);
                let ghost r1 = self.root@;
                let ghost l0 = l;
                rework_layer(&mut l, op, &mut self.version_clock);
                self.replace_node_at(&p, i, LayerNode::Pixel(l));
                proof {
                    let h = choose|h: LayerNode| node_replaced(r0, ipath(p@), i as int, h, r1);
                    lemma_node_replaced_twice(r0, ipath(p@), i as int, h, r1, LayerNode::Pixel(l), self.root@);
                    assert(layer_reworked(l0, op, old(self).version_clock, l));
                }
                true
            },
            None => false,
        }
    }

    /// Mirrors the first node `id` left to right (`horizontal`) or top to
    /// bottom, with all its masks and those of its filters (destructive).
    /// Error when it is not a pixel layer.
    pub fn flip(&mut self, id: LayerId, horizontal: bool) -> (r: Result<(), String>)
        ensures
            r is Ok == is_pixel_at(old(self).root@, id),
            r is Ok ==> (find_node(old(self).root@, id) matches Some(LayerNode::Pixel(l)) && exists|
                l2: PixelLayer,
            |
                layer_reworked(l, RasterOp::Mirror(horizontal), old(self).version_clock, l2)
                    && root_with_node(old(self).root@, id, LayerNode::Pixel(l2), final(self).root@)
                    && final(self).version_clock == tick(old(self).version_clock, rework_ticks(l))),
            r matches Err(e) ==> e@ == "calque introuvable"@ && *final(self) == *old(self),
            final(self).width == old(self).width,
            final(self).height == old(self).height,
    {
        if self.rework(id, RasterOp::Mirror(horizontal)) {
            Ok(())
        } else {
            Err(String::from_str("calque introuvable"))
        }
    }

    /// Crops the first node `id` to the `w` × `h` rectangle at `(x, y)` in
    /// layer pixels (destructive): the kept pixels stay in place on the
    /// canvas, the masks of the layer and of its filters are cropped alike.
    /// Errors: no such pixel layer; an empty rectangle; a rectangle that
    /// leaves the layer.
    pub fn crop(&mut self, id: LayerId, x: i32, y: i32, w: u32, h: u32) -> (r: Result<(), String>)
        ensures
            match find_node(old(self).root@, id) {
                Some(LayerNode::Pixel(l)) => if w == 0 || h == 0 {
                    r matches Err(e) && e@ == "rogner : dimensions nulles"@ && *final(self)
                        == *old(self)
                } else if x < 0 || y < 0 || x + w > l.source_image.width || y + h
                    > l.source_image.height {
                    r matches Err(e) && e@ == "rogner : la sélection dépasse les bords du calque"@
                        && *final(self) == *old(self)
                } else {
                    &&& r is Ok
                    &&& exists|l2: PixelLayer|
                        layer_reworked(
                            l,
                            RasterOp::Cut(x as u32, y as u32, w, h),
                            old(self).version_clock,
                            l2,
                        ) && root_with_node(
                            old(self).root@,
                            id,
                            LayerNode::Pixel(l2),
                            final(self).root@,
                        ) && final(self).version_clock == tick(
                            old(self).version_clock,
                            rework_ticks(l),
                        )
                },
                _ => r matches Err(e) && e@ == "calque introuvable"@ && *final(self) == *old(self),
            },
            final(self).width == old(self).width,
            final(self).height == old(self).height,
    {
        let (iw, ih) = match self.pixel_layer(id) {
            Some(l) => l.dimensions(),
            None => {
                return Err(String::from_str("calque introuvable"));
            },
        };
        if w == 0 || h == 0 {
            return Err(String::from_str("rogner : dimensions nulles"));
        }
        if x < 0 || y < 0 || x as i64 + w as i64 > iw as i64 || y as i64 + h as i64 > ih as i64 {
            return Err(String::from_str("rogner : la sélection dépasse les bords du calque"));
        }
        self.rework(id, RasterOp::Cut(x as u32, y as u32, w, h));
        Ok(())
    }
}

} // verus!
