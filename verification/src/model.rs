//! The layer tree: pixel layers, groups and adjustment layers.

use crate::blend::BlendMode;
use crate::geometry::{
    Transform2D, OPACITY_MAX, clamp_opacity, clamped_opacity, identity_transform, translated,
};
use crate::ids::{LayerId, UUID_FORMAT_BITS, UUID_V4_FORMAT, fresh_id};
use crate::params::{ParamEntry, keys_unique};
use crate::raster::{Raster, raster_fits};
use vstd::prelude::*;

verus! {

/// Opacity above which a live filter counts as fully opaque (99.99 %).
pub const OPACITY_PASSTHROUGH: u32 = 99_990;

/// A live filter of an adjustment layer: a named effect of the effect
/// registry with its parameters.
pub struct FilterNode {
    pub id: LayerId,
    /// Registry type of the effect (e.g. "brightness_contrast", "blur").
    pub type_id: String,
    pub params: Vec<ParamEntry>,
    pub enabled: bool,
}

/// A raster coverage mask attached to a pixel layer, a group or a live
/// filter, in the space of its carrier. Red channel = coverage.
pub struct LayerMask {
    pub id: LayerId,
    /// Display name (default "Masque N", renamable).
    pub name: String,
    pub image: Raster,
    pub enabled: bool,
    pub inverted: bool,
    /// Appearance version: changes whenever the coverage changes.
    pub version: u64,
}

/// A live filter as a sub-layer of a pixel layer: the effect applies to
/// what is accumulated below it in the parent's chain, then is composited
/// with its own opacity, blend mode, placement and masks.
pub struct FilterLayer {
    pub id: LayerId,
    pub name: String,
    pub type_id: String,
    pub params: Vec<ParamEntry>,
    /// Effect switch: a disabled filter is transparent, settings kept.
    pub enabled: bool,
    /// Weight of the filtered result, thousandths of a percent.
    pub opacity: u32,
    pub blend_mode: BlendMode,
    /// Placement in the parent's space (identity by default).
    pub transform: Transform2D,
    pub masks: Vec<LayerMask>,
}

/// A pixel layer: an untouched source image plus live filter sub-layers.
pub struct PixelLayer {
    pub id: LayerId,
    pub name: String,
    pub source_image: Raster,
    /// Live filters, in application order (index 0 first).
    pub filter_layers: Vec<FilterLayer>,
    pub transform: Transform2D,
    /// Thousandths of a percent.
    pub opacity: u32,
    pub blend_mode: BlendMode,
    pub visible: bool,
    pub masks: Vec<LayerMask>,
    /// Bumped on every change of appearance (source or filters): the key
    /// of the appearance cache.
    pub appearance_version: u64,
}

/// A group: its children composite together first, then the result is
/// blended into the parent with the group's opacity and blend mode.
pub struct GroupLayer {
    pub id: LayerId,
    pub name: String,
    /// Children, bottom of the stack first.
    pub children: Vec<LayerNode>,
    /// Folded state in the layers panel.
    pub collapsed: bool,
    pub opacity: u32,
    pub blend_mode: BlendMode,
    pub visible: bool,
    pub masks: Vec<LayerMask>,
}

/// An adjustment layer: its filter chain applies to the composite below
/// it, within its group.
pub struct AdjustmentLayer {
    pub id: LayerId,
    pub name: String,
    pub filters: Vec<FilterNode>,
    /// Weight of the adjustment (0 = invisible, `OPACITY_MAX` = full).
    pub opacity: u32,
    pub visible: bool,
}

/// A node of the tree.
pub enum LayerNode {
    Pixel(PixelLayer),
    Group(GroupLayer),
    Adjustment(AdjustmentLayer),
}

impl LayerNode {
    pub open spec fn node_id(self) -> LayerId {
        match self {
            LayerNode::Pixel(l) => l.id,
            LayerNode::Group(g) => g.id,
            LayerNode::Adjustment(a) => a.id,
        }
    }

    pub open spec fn node_name(self) -> Seq<char> {
        match self {
            LayerNode::Pixel(l) => l.name@,
            LayerNode::Group(g) => g.name@,
            LayerNode::Adjustment(a) => a.name@,
        }
    }

    pub open spec fn is_visible(self) -> bool {
        match self {
            LayerNode::Pixel(l) => l.visible,
            LayerNode::Group(g) => g.visible,
            LayerNode::Adjustment(a) => a.visible,
        }
    }

    pub open spec fn node_opacity(self) -> u32 {
        match self {
            LayerNode::Pixel(l) => l.opacity,
            LayerNode::Group(g) => g.opacity,
            LayerNode::Adjustment(a) => a.opacity,
        }
    }

    pub open spec fn node_blend(self) -> Option<BlendMode> {
        match self {
            LayerNode::Pixel(l) => Some(l.blend_mode),
            LayerNode::Group(g) => Some(g.blend_mode),
            LayerNode::Adjustment(_) => None,
        }
    }

    /// Children of a group; no children otherwise.
    pub open spec fn kids(self) -> Seq<LayerNode> {
        match self {
            LayerNode::Group(g) => g.children@,
            _ => Seq::empty(),
        }
    }

    /// Masks of a pixel layer or a group; none for an adjustment.
    pub open spec fn node_masks(self) -> Seq<LayerMask> {
        match self {
            LayerNode::Pixel(l) => l.masks@,
            LayerNode::Group(g) => g.masks@,
            LayerNode::Adjustment(_) => Seq::empty(),
        }
    }

    /// The node with its name replaced.
    pub open spec fn renamed(self, name: String) -> LayerNode {
        match self {
            LayerNode::Pixel(l) => LayerNode::Pixel(PixelLayer { name, ..l }),
            LayerNode::Group(g) => LayerNode::Group(GroupLayer { name, ..g }),
            LayerNode::Adjustment(a) => LayerNode::Adjustment(AdjustmentLayer { name, ..a }),
        }
    }

    /// The node with its visibility replaced.
    pub open spec fn with_visibility(self, visible: bool) -> LayerNode {
        match self {
            LayerNode::Pixel(l) => LayerNode::Pixel(PixelLayer { visible, ..l }),
            LayerNode::Group(g) => LayerNode::Group(GroupLayer { visible, ..g }),
            LayerNode::Adjustment(a) => LayerNode::Adjustment(AdjustmentLayer { visible, ..a }),
        }
    }

    /// The node with its opacity replaced.
    pub open spec fn with_opacity(self, opacity: u32) -> LayerNode {
        match self {
            LayerNode::Pixel(l) => LayerNode::Pixel(PixelLayer { opacity, ..l }),
            LayerNode::Group(g) => LayerNode::Group(GroupLayer { opacity, ..g }),
            LayerNode::Adjustment(a) => LayerNode::Adjustment(AdjustmentLayer { opacity, ..a }),
        }
    }

    /// The node with its blend mode replaced (adjustments have none).
    pub open spec fn with_blend(self, mode: BlendMode) -> LayerNode {
        match self {
            LayerNode::Pixel(l) => LayerNode::Pixel(PixelLayer { blend_mode: mode, ..l }),
            LayerNode::Group(g) => LayerNode::Group(GroupLayer { blend_mode: mode, ..g }),
            LayerNode::Adjustment(a) => LayerNode::Adjustment(a),
        }
    }

    /// Identifier of the node.
    pub fn id(&self) -> (id: LayerId)
        ensures
            id == self.node_id(),
    {
        match self {
            LayerNode::Pixel(l) => l.id,
            LayerNode::Group(g) => g.id,
            LayerNode::Adjustment(a) => a.id,
        }
    }

    /// Display name of the node.
    pub fn name(&self) -> (name: &String)
        ensures
            name@ == self.node_name(),
    {
        match self {
            LayerNode::Pixel(l) => &l.name,
            LayerNode::Group(g) => &g.name,
            LayerNode::Adjustment(a) => &a.name,
        }
    }

    /// Renames the node.
    pub fn set_name(&mut self, name: String)
        ensures
            *final(self) == old(self).renamed(name),
    {
        match self {
            LayerNode::Pixel(l) => l.name = name,
            LayerNode::Group(g) => g.name = name,
            LayerNode::Adjustment(a) => a.name = name,
        }
    }

    /// Visibility (eye of the layers panel).
    pub fn visible(&self) -> (visible: bool)
        ensures
            visible == self.is_visible(),
    {
        match self {
            LayerNode::Pixel(l) => l.visible,
            LayerNode::Group(g) => g.visible,
            LayerNode::Adjustment(a) => a.visible,
        }
    }

    /// Shows or hides the node.
    pub fn set_visible(&mut self, visible: bool)
        ensures
            *final(self) == old(self).with_visibility(visible),
    {
        match self {
            LayerNode::Pixel(l) => l.visible = visible,
            LayerNode::Group(g) => g.visible = visible,
            LayerNode::Adjustment(a) => a.visible = visible,
        }
    }

    /// Opacity, thousandths of a percent.
    pub fn opacity(&self) -> (opacity: u32)
        ensures
            opacity == self.node_opacity(),
    {
        match self {
            LayerNode::Pixel(l) => l.opacity,
            LayerNode::Group(g) => g.opacity,
            LayerNode::Adjustment(a) => a.opacity,
        }
    }

    /// Sets the opacity (thousandths of a percent), clamped to `0..=100 %`.
    pub fn set_opacity(&mut self, opacity: i64)
        ensures
            *final(self) == old(self).with_opacity(clamped_opacity(opacity as int)),
    {
        let clamped = clamp_opacity(opacity);
        match self {
            LayerNode::Pixel(l) => l.opacity = clamped,
            LayerNode::Group(g) => g.opacity = clamped,
            LayerNode::Adjustment(a) => a.opacity = clamped,
        }
    }

    /// Blend mode; adjustment layers have none.
    pub fn blend_mode(&self) -> (mode: Option<BlendMode>)
        ensures
            mode == self.node_blend(),
    {
        match self {
            LayerNode::Pixel(l) => Some(l.blend_mode),
            LayerNode::Group(g) => Some(g.blend_mode),
            LayerNode::Adjustment(_) => None,
        }
    }

    /// Sets the blend mode (no effect on an adjustment layer).
    pub fn set_blend_mode(&mut self, mode: BlendMode)
        ensures
            *final(self) == old(self).with_blend(mode),
    {
        match self {
            LayerNode::Pixel(l) => l.blend_mode = mode,
            LayerNode::Group(g) => g.blend_mode = mode,
            LayerNode::Adjustment(_) => {},
        }
    }

    /// Filter chain of an adjustment layer (pixel layers carry filter
    /// sub-layers instead, groups carry none).
    pub fn filters(&self) -> (filters: Option<&Vec<FilterNode>>)
        ensures
            match self {
                LayerNode::Adjustment(a) => filters == Some(&a.filters),
                _ => filters is None,
            },
    {
        match self {
            LayerNode::Pixel(_) => None,
            LayerNode::Adjustment(a) => Some(&a.filters),
            LayerNode::Group(_) => None,
        }
    }

    /// Masks of a pixel layer or a group (an adjustment layer has none).
    pub fn masks(&self) -> (masks: &[LayerMask])
        ensures
            masks@ == self.node_masks(),
    {
        match self {
            LayerNode::Pixel(l) => l.masks.as_slice(),
            LayerNode::Group(g) => g.masks.as_slice(),
            LayerNode::Adjustment(_) => &[],
        }
    }

    /// The masks of a pixel layer or a group, to edit in place (none for an
    /// adjustment layer).
    pub fn masks_mut(&mut self) -> (r: Option<&mut Vec<LayerMask>>)
        ensures
            match *old(self) {
                LayerNode::Pixel(l) => r matches Some(m) && *m == l.masks && *final(self) == LayerNode::Pixel(PixelLayer { masks: *final(m), ..l }),
                LayerNode::Group(g) => r matches Some(m) && *m == g.masks && *final(self) == LayerNode::Group(GroupLayer { masks: *final(m), ..g }),
                LayerNode::Adjustment(_) => r is None && *final(self) == *old(self),
            },
    {
        match self {
            LayerNode::Pixel(l) => Some(&mut l.masks),
            LayerNode::Group(g) => Some(&mut g.masks),
            LayerNode::Adjustment(_) => None,
        }
    }

    /// The filters of an adjustment layer, to edit in place (none for a
    /// pixel layer or a group).
    pub fn filters_mut(&mut self) -> (r: Option<&mut Vec<FilterNode>>)
        ensures
            match *old(self) {
                LayerNode::Adjustment(a) => r matches Some(fs) && *fs == a.filters && *final(self)
                    == LayerNode::Adjustment(AdjustmentLayer { filters: *final(fs), ..a }),
                _ => r is None && *final(self) == *old(self),
            },
    {
        match self {
            LayerNode::Adjustment(a) => Some(&mut a.filters),
            _ => None,
        }
    }

    /// Whether the node is a pixel layer.
    pub fn is_pixel(&self) -> (pixel: bool)
        ensures
            pixel == (*self is Pixel),
    {
        match self {
            LayerNode::Pixel(_) => true,
            _ => false,
        }
    }

    /// Whether the node is a group.
    pub fn is_group(&self) -> (group: bool)
        ensures
            group == (*self is Group),
    {
        match self {
            LayerNode::Group(_) => true,
            _ => false,
        }
    }
}

/// The clock value after `c`: one more, wrapping past `u64::MAX`.
pub open spec fn next_tick(c: u64) -> u64 {
    if c == u64::MAX {
        0
    } else {
        (c + 1) as u64
    }
}

/// The clock value `k` versions after `c`.
pub open spec fn tick(c: u64, k: nat) -> u64
    decreases k,
{
    if k == 0 {
        c
    } else {
        next_tick(tick(c, (k - 1) as nat))
    }
}

/// Handing out `a` versions, then `b`, is handing out `a + b`.
pub proof fn lemma_tick_add(c: u64, a: nat, b: nat)
    ensures
        tick(tick(c, a), b) == tick(c, a + b),
    decreases b,
{
    if b > 0 {
        lemma_tick_add(c, a, (b - 1) as nat);
        assert((a + b - 1) as nat == a + (b - 1) as nat);
    }
}

/// The clock `k` versions after `c`, as a number: `c + k` modulo 2^64.
pub proof fn lemma_tick_wraps(c: u64, k: nat)
    ensures
        tick(c, k) as int == (c + k) % 0x1_0000_0000_0000_0000int,
    decreases k,
{
    let m: int = 0x1_0000_0000_0000_0000int;
    if k == 0 {
        vstd::arithmetic::div_mod::lemma_small_mod(c as nat, m as nat);
    } else {
        lemma_tick_wraps(c, (k - 1) as nat);
        let t: int = tick(c, (k - 1) as nat) as int;
        vstd::arithmetic::div_mod::lemma_add_mod_noop(c + k - 1, 1, m);
        vstd::arithmetic::div_mod::lemma_small_mod(1, m as nat);
        if t == u64::MAX {
            vstd::arithmetic::div_mod::lemma_mod_self_0(m);
        } else {
            vstd::arithmetic::div_mod::lemma_small_mod((t + 1) as nat, m as nat);
        }
    }
}

/// Within one document the appearance versions never repeat: the `i`-th
/// and the `j`-th versions handed out after the clock stood at `c`
/// differ, as long as fewer than 2^64 versions lie between them.
pub proof fn law_versions_do_not_repeat(c: u64, i: nat, j: nat)
    requires
        i < j,
        j - i <= u64::MAX,
    ensures
        tick(c, i) != tick(c, j),
{
    let m: int = 0x1_0000_0000_0000_0000int;
    lemma_tick_wraps(c, i);
    lemma_tick_wraps(c, j);
    vstd::arithmetic::div_mod::lemma_mod_equivalence(c + j, c + i, m);
    vstd::arithmetic::div_mod::lemma_small_mod((j - i) as nat, m as nat);
    assert((c + j) - (c + i) == j - i);
}

/// Hands out appearance versions: returns the clock's current value and
/// advances it (wrapping), so that a number never names two contents.
pub fn next_appearance_version(clock: &mut u64) -> (version: u64)
    ensures
        version == *old(clock),
        *final(clock) == next_tick(*old(clock)),
        *final(clock) == tick(*old(clock), 1),
{
    let version = *clock;
    *clock = if version == u64::MAX { 0 } else { version + 1 };
    proof {
        assert(tick(*old(clock), 0) == *old(clock));
    }
    version
}

impl FilterNode {
    /// A new enabled filter with no parameters.
    pub fn new(type_id: String) -> (f: FilterNode)
        ensures
            f.id & UUID_FORMAT_BITS == UUID_V4_FORMAT,
            f.type_id == type_id,
            f.params@.len() == 0,
            f.enabled,
    {
        FilterNode { id: fresh_id(), type_id, params: Vec::new(), enabled: true }
    }
}

impl LayerMask {
    /// An all-white mask (everything visible) of the given size.
    pub fn full(width: u32, height: u32, version: u64) -> (m: LayerMask)
        requires
            raster_fits(width, height),
        ensures
            m.id & UUID_FORMAT_BITS == UUID_V4_FORMAT,
            m.name@ == "Masque"@,
            m.image.width == width,
            m.image.height == height,
            m.image.wf(),
            *m.image.pixels == crate::raster::white_image(width, height),
            m.enabled,
            !m.inverted,
            m.version == version,
    {
        LayerMask {
            id: fresh_id(),
            name: String::from_str("Masque"),
            image: Raster::opaque_white(width, height),
            enabled: true,
            inverted: false,
            version,
        }
    }

    /// Records a change of coverage.
    pub fn touch(&mut self, version: u64)
        ensures
            *final(self) == (LayerMask { version, ..*old(self) }),
    {
        self.version = version;
    }
}

/// Whether a filter sub-layer has no layer attribute in effect: the
/// effect's result then replaces what is below it as is.
pub open spec fn filter_is_passthrough(f: FilterLayer) -> bool {
    &&& f.opacity > OPACITY_PASSTHROUGH
    &&& f.blend_mode == BlendMode::Normal
    &&& f.transform == identity_transform()
    &&& forall|i: int| 0 <= i < f.masks@.len() ==> !(#[trigger] f.masks@[i]).enabled
}

/// `f` is the sub-layer rebuilt from the plain filter `node`: same
/// identity, effect and state, named after its type, neutral attributes.
pub open spec fn filter_from_node(node: FilterNode, f: FilterLayer) -> bool {
    &&& f.id == node.id
    &&& f.name@ == node.type_id@
    &&& f.type_id == node.type_id
    &&& f.params == node.params
    &&& f.enabled == node.enabled
    &&& f.opacity == OPACITY_MAX
    &&& f.blend_mode == BlendMode::Normal
    &&& f.transform == identity_transform()
    &&& f.masks@.len() == 0
}

/// The plain filter of a sub-layer: its identity, effect and state.
pub open spec fn plain_filter(f: FilterLayer) -> FilterNode {
    FilterNode { id: f.id, type_id: f.type_id, params: f.params, enabled: f.enabled }
}

impl FilterLayer {
    /// A new filter sub-layer with the given (default) parameters: enabled,
    /// full opacity, normal blending, identity placement, no mask.
    pub fn new(type_id: String, name: String, params: Vec<ParamEntry>) -> (f: FilterLayer)
        requires
            keys_unique(params@),
        ensures
            f.id & UUID_FORMAT_BITS == UUID_V4_FORMAT,
            f.type_id == type_id,
            f.name == name,
            f.params@ == params@,
            f.enabled,
            f.opacity == OPACITY_MAX,
            f.blend_mode == BlendMode::Normal,
            f.transform == identity_transform(),
            f.masks@.len() == 0,
    {
        FilterLayer {
            id: fresh_id(),
            name,
            type_id,
            params,
            enabled: true,
            opacity: OPACITY_MAX,
            blend_mode: BlendMode::Normal,
            transform: Transform2D::identity(),
            masks: Vec::new(),
        }
    }

    /// A neutral sub-layer named after its type.
    pub fn neutral(type_id: String, params: Vec<ParamEntry>) -> (f: FilterLayer)
        requires
            keys_unique(params@),
        ensures
            f.type_id == type_id,
            f.name@ == type_id@,
            f.params@ == params@,
            f.enabled,
            f.opacity == OPACITY_MAX,
            f.blend_mode == BlendMode::Normal,
            f.transform == identity_transform(),
            f.masks@.len() == 0,
    {
        let name = type_id.clone();
        FilterLayer::new(type_id, name, params)
    }

    /// A sub-layer rebuilt from a plain filter, keeping its identity and
    /// state, with neutral layer attributes.
    pub fn from_node(node: FilterNode) -> (f: FilterLayer)
        ensures
            filter_from_node(node, f),
    {
        let name = node.type_id.clone();
        FilterLayer {
            id: node.id,
            name,
            type_id: node.type_id,
            params: node.params,
            enabled: node.enabled,
            opacity: OPACITY_MAX,
            blend_mode: BlendMode::Normal,
            transform: Transform2D::identity(),
            masks: Vec::new(),
        }
    }

    /// Fast path: no layer attribute in effect.
    pub fn is_passthrough(&self) -> (passthrough: bool)
        ensures
            passthrough == filter_is_passthrough(*self),
    {
        if !(self.opacity > OPACITY_PASSTHROUGH) || !self.blend_mode.is_normal()
            || !self.transform.is_identity() {
            return false;
        }
        let mut i: usize = 0;
        while i < self.masks.len()
            invariant
                i <= self.masks@.len(),
                forall|j: int| 0 <= j < i ==> !(#[trigger] self.masks@[j]).enabled,
            decreases self.masks@.len() - i,
        {
            if self.masks[i].enabled {
                return false;
            }
            i += 1;
        }
        true
    }
}

impl PixelLayer {
    /// A new visible pixel layer over `image`: no filter, no mask,
    /// identity placement, full opacity, normal blending.
    pub fn new(name: String, image: Raster, version: u64) -> (l: PixelLayer)
        ensures
            l.id & UUID_FORMAT_BITS == UUID_V4_FORMAT,
            l.name == name,
            l.source_image == image,
            l.filter_layers@.len() == 0,
            l.transform == identity_transform(),
            l.opacity == OPACITY_MAX,
            l.blend_mode == BlendMode::Normal,
            l.visible,
            l.masks@.len() == 0,
            l.appearance_version == version,
    {
        PixelLayer {
            id: fresh_id(),
            name,
            source_image: image,
            filter_layers: Vec::new(),
            transform: Transform2D::identity(),
            opacity: OPACITY_MAX,
            blend_mode: BlendMode::Normal,
            visible: true,
            masks: Vec::new(),
            appearance_version: version,
        }
    }

    /// Dimensions of the source image in pixels.
    pub fn dimensions(&self) -> (dims: (u32, u32))
        ensures
            dims == (self.source_image.width, self.source_image.height),
    {
        (self.source_image.width, self.source_image.height)
    }

    /// Records a change of appearance.
    pub fn touch(&mut self, version: u64)
        ensures
            *final(self) == (PixelLayer { appearance_version: version, ..*old(self) }),
    {
        self.appearance_version = version;
    }

    /// Replaces the pixels (painting, destructive edit) and records it.
    pub fn set_source_image(&mut self, image: Raster, version: u64)
        ensures
            *final(self) == (PixelLayer {
                source_image: image,
                appearance_version: version,
                ..*old(self)
            }),
    {
        self.source_image = image;
        self.appearance_version = version;
    }
}

impl GroupLayer {
    /// A new visible, unfolded group of `children`, full opacity, normal
    /// blending, no mask.
    pub fn new(name: String, children: Vec<LayerNode>) -> (g: GroupLayer)
        ensures
            g.id & UUID_FORMAT_BITS == UUID_V4_FORMAT,
            g.name == name,
            g.children@ == children@,
            !g.collapsed,
            g.opacity == OPACITY_MAX,
            g.blend_mode == BlendMode::Normal,
            g.visible,
            g.masks@.len() == 0,
    {
        GroupLayer {
            id: fresh_id(),
            name,
            children,
            collapsed: false,
            opacity: OPACITY_MAX,
            blend_mode: BlendMode::Normal,
            visible: true,
            masks: Vec::new(),
        }
    }
}

impl AdjustmentLayer {
    /// A new visible adjustment layer at full weight.
    pub fn new(name: String, filters: Vec<FilterNode>) -> (a: AdjustmentLayer)
        ensures
            a.id & UUID_FORMAT_BITS == UUID_V4_FORMAT,
            a.name == name,
            a.filters@ == filters@,
            a.opacity == OPACITY_MAX,
            a.visible,
    {
        AdjustmentLayer { id: fresh_id(), name, filters, opacity: OPACITY_MAX, visible: true }
    }
}

/// The node moved by `(dx, dy)`: only pixel layers carry a placement.
pub open spec fn node_translated(n: LayerNode, dx: int, dy: int, version: u64) -> LayerNode {
    match n {
        LayerNode::Pixel(l) => LayerNode::Pixel(
            PixelLayer { transform: translated(l.transform, dx, dy), appearance_version: version, ..l },
        ),
        _ => n,
    }
}

impl LayerNode {
    /// Moves a pixel layer by `(dx, dy)` fixed-point document pixels (move
    /// tool). Groups and adjustments carry no placement: `false`, no change.
    pub fn translate_by(&mut self, dx: i64, dy: i64, version: u64) -> (moved: bool)
        ensures
            moved == (*old(self) is Pixel),
            *final(self) == node_translated(*old(self), dx as int, dy as int, version),
    {
        match self {
            LayerNode::Pixel(l) => {
                l.transform = l.transform.translate(dx, dy);
                l.appearance_version = version;
                true
            },
            LayerNode::Group(_) | LayerNode::Adjustment(_) => false,
        }
    }
}

} // verus!
