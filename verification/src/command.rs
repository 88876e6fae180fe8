//! Light history commands: each records one change of one attribute of
//! one node (value before, value after), knows its inverse and what it
//! asks of the renderer.

use crate::blend::BlendMode;
use crate::copying::copy_param_value;
use crate::document::{Document, NodeEdit, root_with_edit};
use crate::document_attributes::{
    MaskEdit, MaskOp, blend_set, mask_op_applies, mask_op_result, name_set, opacity_set,
    transform_set,
};
use crate::document_filters::filter_param_set;
use crate::copying::{forest_copied, lemma_forest_copied_refl, lemma_replaced_copied};
use crate::document_edits::{lemma_find_loc_kept, lemma_node_replaced_twice, root_with_node};
use crate::forest::{
    contains_id, find_loc, find_node, lemma_find_iff_locate, lemma_find_loc_from, list_at, node_at,
};
use crate::geometry::clamped_opacity;
use crate::geometry::Transform2D;
use crate::ids::LayerId;
use crate::params::{ParamValue, param_lookup, params_with};
use crate::document_checks::lemma_root_with_node_twice;
use crate::document_filters::{
    adjustment_with_filters, chains_result, filter_with_params, node_filter_with_params, pixel_with_filters,
};
use crate::document_attributes::{
    FilterEdit, filter_edit_result, filter_edited, filter_replaced, filter_with_masks, mask_edited,
    mask_list_result, node_with_masks,
};
use crate::document::node_replaced;
use crate::document_edits::touch_result;
use crate::edit_scope::{lemma_replaced_filter_search, lemma_replaced_mask_owner, lemma_replaced_search};
use crate::forest::lemma_replaced_list;
use crate::model::next_tick;
use crate::search::{
    filter_at, find_filter, find_filter_loc, find_filter_parent, lemma_find_filter_loc_from, mask_owner,
};
use crate::ids::{first_index, lemma_first_index};
use crate::layer_edits::{filter_ids, filter_node_ids, mask_ids};
use crate::model::{AdjustmentLayer, FilterLayer, FilterNode, LayerMask, LayerNode, PixelLayer, tick};
use vstd::prelude::*;

verus! {

/// One change of one attribute: `before` and `after` hold the values
/// before and after the change.
#[derive(Debug, Clone, PartialEq)]
pub enum Command {
    /// Opacity in thousandths of a percent (clamped when applied).
    SetOpacity { layer_id: LayerId, before: i64, after: i64 },
    SetTransform { layer_id: LayerId, before: Transform2D, after: Transform2D },
    SetBlendMode { node_id: LayerId, before: BlendMode, after: BlendMode },
    SetVisibility { node_id: LayerId, before: bool, after: bool },
    SetFilterParam {
        layer_id: LayerId,
        filter_id: LayerId,
        param_name: String,
        before: ParamValue,
        after: ParamValue,
    },
    RenameLayer { node_id: LayerId, before: String, after: String },
    SetMaskEnabled { node_id: LayerId, mask_id: LayerId, before: bool, after: bool },
    SetMaskInverted { node_id: LayerId, mask_id: LayerId, before: bool, after: bool },
}

/// The node a command is about.
pub open spec fn command_target(c: Command) -> LayerId {
    match c {
        Command::SetOpacity { layer_id, .. } => layer_id,
        Command::SetTransform { layer_id, .. } => layer_id,
        Command::SetFilterParam { layer_id, .. } => layer_id,
        Command::SetBlendMode { node_id, .. } => node_id,
        Command::SetVisibility { node_id, .. } => node_id,
        Command::RenameLayer { node_id, .. } => node_id,
        Command::SetMaskEnabled { node_id, .. } => node_id,
        Command::SetMaskInverted { node_id, .. } => node_id,
    }
}

/// The command with its values before and after exchanged.
pub open spec fn inverse_of(c: Command) -> Command {
    match c {
        Command::SetOpacity { layer_id, before, after } => Command::SetOpacity {
            layer_id,
            before: after,
            after: before,
        },
        Command::SetTransform { layer_id, before, after } => Command::SetTransform {
            layer_id,
            before: after,
            after: before,
        },
        Command::SetBlendMode { node_id, before, after } => Command::SetBlendMode {
            node_id,
            before: after,
            after: before,
        },
        Command::SetVisibility { node_id, before, after } => Command::SetVisibility {
            node_id,
            before: after,
            after: before,
        },
        Command::SetFilterParam { layer_id, filter_id, param_name, before, after } =>
            Command::SetFilterParam { layer_id, filter_id, param_name, before: after, after: before },
        Command::RenameLayer { node_id, before, after } => Command::RenameLayer {
            node_id,
            before: after,
            after: before,
        },
        Command::SetMaskEnabled { node_id, mask_id, before, after } => Command::SetMaskEnabled {
            node_id,
            mask_id,
            before: after,
            after: before,
        },
        Command::SetMaskInverted { node_id, mask_id, before, after } => Command::SetMaskInverted {
            node_id,
            mask_id,
            before: after,
            after: before,
        },
    }
}

/// Whether `next` continues the same edit as `c` (same kind and same
/// target), so that one history entry can hold both.
pub open spec fn mergeable(c: Command, next: Command) -> bool {
    match (c, next) {
        (Command::SetOpacity { layer_id: a, .. }, Command::SetOpacity { layer_id: b, .. }) => a == b,
        (Command::SetTransform { layer_id: a, .. }, Command::SetTransform { layer_id: b, .. }) => a
            == b,
        (Command::SetBlendMode { node_id: a, .. }, Command::SetBlendMode { node_id: b, .. }) => a
            == b,
        (Command::SetVisibility { node_id: a, .. }, Command::SetVisibility { node_id: b, .. }) => a
            == b,
        (
            Command::SetFilterParam { layer_id: a, filter_id: fa, .. },
            Command::SetFilterParam { layer_id: b, filter_id: fb, .. },
        ) => a == b && fa == fb,
        (Command::RenameLayer { node_id: a, .. }, Command::RenameLayer { node_id: b, .. }) => a == b,
        _ => false,
    }
}

/// `c` holding the value after of `next` (the value before is kept).
pub open spec fn merged(c: Command, next: Command) -> Command {
    match (c, next) {
        (Command::SetOpacity { layer_id, before, .. }, Command::SetOpacity { after, .. }) =>
            Command::SetOpacity { layer_id, before, after },
        (Command::SetTransform { layer_id, before, .. }, Command::SetTransform { after, .. }) =>
            Command::SetTransform { layer_id, before, after },
        (Command::SetBlendMode { node_id, before, .. }, Command::SetBlendMode { after, .. }) =>
            Command::SetBlendMode { node_id, before, after },
        (Command::SetVisibility { node_id, before, .. }, Command::SetVisibility { after, .. }) =>
            Command::SetVisibility { node_id, before, after },
        (
            Command::SetFilterParam { layer_id, filter_id, param_name, before, .. },
            Command::SetFilterParam { after, .. },
        ) => Command::SetFilterParam { layer_id, filter_id, param_name, before, after },
        (Command::RenameLayer { node_id, before, .. }, Command::RenameLayer { after, .. }) =>
            Command::RenameLayer { node_id, before, after },
        _ => c,
    }
}

/// Whether the command changes who blends with whom (the global
/// composite), not only how one layer is drawn.
pub open spec fn changes_composite(c: Command) -> bool {
    match c {
        Command::SetBlendMode { .. } => true,
        Command::SetVisibility { .. } => true,
        Command::SetMaskEnabled { .. } => true,
        Command::SetMaskInverted { .. } => true,
        _ => false,
    }
}

/// What the renderer must drop after an edit.
#[derive(Clone, Copy, Debug, PartialEq, Eq)]
pub enum RenderEvent {
    /// Everything (structure, snapshot undo, project opened).
    FullInvalidation,
    /// One node changed.
    NodeInvalidated(LayerId),
}

/// The render event of a command.
pub open spec fn event_of(c: Command) -> RenderEvent {
    if changes_composite(c) {
        RenderEvent::FullInvalidation
    } else {
        RenderEvent::NodeInvalidated(command_target(c))
    }
}

/// Applying the inverse of the inverse is applying the command.
pub proof fn law_inverse_involutive(c: Command)
    ensures
        inverse_of(inverse_of(c)) == c,
{
}

/// The inverse is about the same node and asks the same of the renderer.
pub proof fn law_inverse_same_target(c: Command)
    ensures
        command_target(inverse_of(c)) == command_target(c),
        event_of(inverse_of(c)) == event_of(c),
{
}

impl Command {
    /// Identifier of the node the command is about.
    pub fn target(&self) -> (id: LayerId)
        ensures
            id == command_target(*self),
    {
        match self {
            Command::SetOpacity { layer_id, .. } => *layer_id,
            Command::SetTransform { layer_id, .. } => *layer_id,
            Command::SetFilterParam { layer_id, .. } => *layer_id,
            Command::SetBlendMode { node_id, .. } => *node_id,
            Command::SetVisibility { node_id, .. } => *node_id,
            Command::RenameLayer { node_id, .. } => *node_id,
            Command::SetMaskEnabled { node_id, .. } => *node_id,
            Command::SetMaskInverted { node_id, .. } => *node_id,
        }
    }

    /// The exact inverse: applying the command then its inverse gives back
    /// the initial values.
    pub fn inverse(&self) -> (r: Command)
        ensures
            r == inverse_of(*self),
    {
        match self {
            Command::SetOpacity { layer_id, before, after } => Command::SetOpacity {
                layer_id: *layer_id,
                before: *after,
                after: *before,
            },
            Command::SetTransform { layer_id, before, after } => Command::SetTransform {
                layer_id: *layer_id,
                before: *after,
                after: *before,
            },
            Command::SetBlendMode { node_id, before, after } => Command::SetBlendMode {
                node_id: *node_id,
                before: *after,
                after: *before,
            },
            Command::SetVisibility { node_id, before, after } => Command::SetVisibility {
                node_id: *node_id,
                before: *after,
                after: *before,
            },
            Command::SetFilterParam { layer_id, filter_id, param_name, before, after } =>
                Command::SetFilterParam {
                layer_id: *layer_id,
                filter_id: *filter_id,
                param_name: param_name.clone(),
                before: copy_param_value(after),
                after: copy_param_value(before),
            },
            Command::RenameLayer { node_id, before, after } => Command::RenameLayer {
                node_id: *node_id,
                before: after.clone(),
                after: before.clone(),
            },
            Command::SetMaskEnabled { node_id, mask_id, before, after } => Command::SetMaskEnabled {
                node_id: *node_id,
                mask_id: *mask_id,
                before: *after,
                after: *before,
            },
            Command::SetMaskInverted { node_id, mask_id, before, after } =>
                Command::SetMaskInverted {
                node_id: *node_id,
                mask_id: *mask_id,
                before: *after,
                after: *before,
            },
        }
    }

    /// Folds `next` into this command when it continues the same edit
    /// (same kind and same target): the value before of the start of the
    /// gesture is kept, the value after becomes that of `next`. `false`,
    /// no change, otherwise; mask switches never fold.
    pub fn merge_forward(&mut self, next: &Command) -> (folded: bool)
        ensures
            folded == mergeable(*old(self), *next),
            *final(self) == if folded {
                merged(*old(self), *next)
            } else {
                *old(self)
            },
    {
        match (self, next) {
            (
                Command::SetOpacity { layer_id, after, .. },
                Command::SetOpacity { layer_id: id2, after: a2, .. },
            ) => {
                if *layer_id == *id2 {
                    *after = *a2;
                    true
                } else {
                    false
                }
            },
            (
                Command::SetTransform { layer_id, after, .. },
                Command::SetTransform { layer_id: id2, after: a2, .. },
            ) => {
                if *layer_id == *id2 {
                    *after = *a2;
                    true
                } else {
                    false
                }
            },
            (
                Command::SetBlendMode { node_id, after, .. },
                Command::SetBlendMode { node_id: id2, after: a2, .. },
            ) => {
                if *node_id == *id2 {
                    *after = *a2;
                    true
                } else {
                    false
                }
            },
            (
                Command::SetVisibility { node_id, after, .. },
                Command::SetVisibility { node_id: id2, after: a2, .. },
            ) => {
                if *node_id == *id2 {
                    *after = *a2;
                    true
                } else {
                    false
                }
            },
            (
                Command::SetFilterParam { layer_id, filter_id, after, .. },
                Command::SetFilterParam { layer_id: id2, filter_id: f2, after: a2, .. },
            ) => {
                if *layer_id == *id2 && *filter_id == *f2 {
                    *after = copy_param_value(a2);
                    true
                } else {
                    false
                }
            },
            (
                Command::RenameLayer { node_id, after, .. },
                Command::RenameLayer { node_id: id2, after: a2, .. },
            ) => {
                if *node_id == *id2 {
                    *after = a2.clone();
                    true
                } else {
                    false
                }
            },
            _ => false,
        }
    }

    /// Whether the command changes the global composite: blend mode,
    /// visibility and masks change who blends with whom; opacity,
    /// placement, names and live-filter settings are redrawn per layer.
    pub fn affects_composite(&self) -> (r: bool)
        ensures
            r == changes_composite(*self),
    {
        match self {
            Command::SetBlendMode { .. } => true,
            Command::SetVisibility { .. } => true,
            Command::SetMaskEnabled { .. } => true,
            Command::SetMaskInverted { .. } => true,
            _ => false,
        }
    }

    /// What the renderer must drop after this command.
    pub fn render_event(&self) -> (e: RenderEvent)
        ensures
            e == event_of(*self),
    {
        if self.affects_composite() {
            RenderEvent::FullInvalidation
        } else {
            RenderEvent::NodeInvalidated(self.target())
        }
    }
}

/// Effect of applying the command `c` to a forest and clock: its value
/// after is set through the document's setters. `applied` tells whether
/// its target was found (then something was set).
pub open spec fn command_effect(
    old: Seq<crate::model::LayerNode>,
    clock: u64,
    c: Command,
    applied: bool,
    new: Seq<crate::model::LayerNode>,
    new_clock: u64,
) -> bool {
    match c {
        Command::SetOpacity { layer_id, after, .. } => opacity_set(
            old,
            clock,
            layer_id,
            after,
            applied,
            new,
            new_clock,
        ),
        Command::SetTransform { layer_id, after, .. } => transform_set(
            old,
            clock,
            layer_id,
            after,
            applied,
            new,
            new_clock,
        ),
        Command::SetBlendMode { node_id, after, .. } => blend_set(
            old,
            clock,
            node_id,
            after,
            applied,
            new,
            new_clock,
        ),
        Command::SetVisibility { node_id, after, .. } => applied == contains_id(old, node_id)
            && root_with_edit(old, node_id, NodeEdit::Show(after), new) && new_clock == clock,
        Command::SetFilterParam { layer_id, filter_id, param_name, after, .. } => filter_param_set(
            old,
            clock,
            layer_id,
            filter_id,
            param_name,
            after,
            applied,
            new,
            new_clock,
        ),
        Command::RenameLayer { node_id, after, .. } => name_set(
            old,
            clock,
            node_id,
            after,
            applied,
            new,
            new_clock,
        ),
        Command::SetMaskEnabled { node_id, mask_id, after, .. } => {
            let op = MaskOp::Edit(mask_id, MaskEdit::Enabled(after));
            applied == mask_op_applies(old, node_id, op) && mask_op_result(
                old,
                clock,
                node_id,
                op,
                new,
                new_clock,
            )
        },
        Command::SetMaskInverted { node_id, mask_id, after, .. } => {
            let op = MaskOp::Edit(mask_id, MaskEdit::Inverted(after));
            applied == mask_op_applies(old, node_id, op) && mask_op_result(
                old,
                clock,
                node_id,
                op,
                new,
                new_clock,
            )
        },
    }
}

impl Document {
    /// Applies the value after of `command` through the setters (opacity
    /// clamped, carriers of filters touched, masks versioned) and returns
    /// the inverse, ready for the history. When its target is gone the
    /// command is handed back as it is: applying it again changes nothing.
    pub fn apply_command(&mut self, command: Command) -> (r: Command)
        ensures
            exists|applied: bool|
                command_effect(
                    old(self).root@,
                    old(self).version_clock,
                    command,
                    applied,
                    final(self).root@,
                    final(self).version_clock,
                ) && r == if applied {
                    inverse_of(command)
                } else {
                    command
                },
            final(self).width == old(self).width,
            final(self).height == old(self).height,
    {
        let inverse = command.inverse();
        let applied = match &command {
            Command::SetOpacity { layer_id, after, .. } => self.set_opacity_any(*layer_id, *after),
            Command::SetTransform { layer_id, after, .. } => self.set_transform_any(
                *layer_id,
                *after,
            ),
            Command::SetBlendMode { node_id, after, .. } => self.set_blend_any(*node_id, *after),
            Command::SetVisibility { node_id, after, .. } => self.edit_node(
                *node_id,
                NodeEdit::Show(*after),
            ),
            Command::SetFilterParam { layer_id, filter_id, param_name, after, .. } =>
                self.set_filter_param(
                *layer_id,
                *filter_id,
                param_name.clone(),
                copy_param_value(after),
            ),
            Command::RenameLayer { node_id, after, .. } => self.set_name_any(*node_id, after.clone()),
            Command::SetMaskEnabled { node_id, mask_id, after, .. } => self.set_mask_enabled(
                *node_id,
                *mask_id,
                *after,
            ),
            Command::SetMaskInverted { node_id, mask_id, after, .. } => self.set_mask_inverted(
                *node_id,
                *mask_id,
                *after,
            ),
        };
        assert(command_effect(
            old(self).root@,
            old(self).version_clock,
            command,
            applied,
            self.root@,
            self.version_clock,
        ));
        if applied {
            inverse
        } else {
            command
        }
    }
}

/// Revision of the rendered composite, bumped for every new composite; the
/// interface drops a render whose revision is stale.
#[derive(Clone, Copy, Debug, PartialEq, Eq, PartialOrd, Ord, Hash)]
pub struct RenderRevision(pub u64);

impl Default for RenderRevision {
    fn default() -> (r: RenderRevision)
        ensures
            r.0 == 0,
    {
        RenderRevision(0)
    }
}

impl RenderRevision {
    /// Advances by one (wrapping) and returns the new revision.
    pub fn bump(&mut self) -> (r: RenderRevision)
        ensures
            final(self).0 == crate::model::next_tick(old(self).0),
            r == *final(self),
    {
        self.0 = if self.0 == u64::MAX {
            0
        } else {
            self.0 + 1
        };
        *self
    }

    /// Whether `self` is strictly more recent than `other`.
    pub fn is_newer_than(self, other: RenderRevision) -> (newer: bool)
        ensures
            newer == (self.0 > other.0),
    {
        self.0 > other.0
    }
}

/// A revision bumped without wrapping is newer than before.
pub proof fn law_bump_is_newer(r: RenderRevision)
    requires
        r.0 < u64::MAX,
    ensures
        crate::model::next_tick(r.0) > r.0,
{
}

/// Whether `c` is about a node of the forest whose current value is the
/// command's value before (setting it back would change nothing); for a
/// placement the node is a pixel layer. Filter and mask commands are not
/// covered: their setters hand out new appearance versions.
pub open spec fn records_node_state(root: Seq<crate::model::LayerNode>, c: Command) -> bool {
    match c {
        Command::SetOpacity { layer_id, before, .. } => find_node(root, layer_id) matches Some(n)
            && n.with_opacity(clamped_opacity(before as int)) == n,
        Command::SetTransform { layer_id, before, .. } => find_node(root, layer_id) matches Some(
            crate::model::LayerNode::Pixel(l),
        ) && l.transform == before,
        Command::SetBlendMode { node_id, before, .. } => find_node(root, node_id) matches Some(n)
            && n.with_blend(before) == n,
        Command::SetVisibility { node_id, before, .. } => find_node(root, node_id) matches Some(n)
            && n.with_visibility(before) == n,
        Command::RenameLayer { node_id, before, .. } => find_node(root, node_id) matches Some(n)
            && n.renamed(before) == n,
        _ => false,
    }
}

/// Two successive replacements of the node `id`, the second by the node
/// that was there first, give back an exact copy of the forest.
proof fn lemma_node_edit_undone(
    root: Seq<crate::model::LayerNode>,
    id: LayerId,
    n1: crate::model::LayerNode,
    root1: Seq<crate::model::LayerNode>,
    root2: Seq<crate::model::LayerNode>,
)
    requires
        find_loc(root, id) is Some,
        n1.node_id() == id,
        root_with_node(root, id, n1, root1),
        root_with_node(root1, id, find_node(root, id)->0, root2),
    ensures
        forest_copied(root, root2, false),
{
    let (p, i) = find_loc(root, id)->0;
    lemma_find_loc_from(root, id, 0);
    lemma_find_loc_kept(root, id, n1, root1);
    let n0 = node_at(root, p, i);
    lemma_node_replaced_twice(root, p, i, n1, root1, n0, root2);
    assert(list_at(root, p).update(i, n0) =~= list_at(root, p));
    lemma_forest_copied_refl(list_at(root, p));
    lemma_replaced_copied(root, p, list_at(root, p), root2);
}

/// Applying a command that records the current value of its target node
/// (see `records_node_state`), then the command it hands back, gives back
/// an exact copy of the forest and leaves the clock as it was; both
/// applications find their target, so the first hands back the inverse
/// and the second hands back the command itself.
pub proof fn law_command_then_inverse_restores(
    root: Seq<crate::model::LayerNode>,
    clock: u64,
    c: Command,
    root1: Seq<crate::model::LayerNode>,
    clock1: u64,
    back: Command,
    root2: Seq<crate::model::LayerNode>,
    clock2: u64,
    again: Command,
)
    requires
        records_node_state(root, c),
        exists|applied: bool|
            command_effect(root, clock, c, applied, root1, clock1) && back == if applied {
                inverse_of(c)
            } else {
                c
            },
        exists|applied: bool|
            command_effect(root1, clock1, back, applied, root2, clock2) && again == if applied {
                inverse_of(back)
            } else {
                back
            },
    ensures
        back == inverse_of(c),
        again == c,
        forest_copied(root, root2, false),
        clock2 == clock,
{
    let a1 = choose|applied: bool|
        command_effect(root, clock, c, applied, root1, clock1) && back == if applied {
            inverse_of(c)
        } else {
            c
        };
    let a2 = choose|applied: bool|
        command_effect(root1, clock1, back, applied, root2, clock2) && again == if applied {
            inverse_of(back)
        } else {
            back
        };
    let id = command_target(c);
    lemma_find_iff_locate(root, id);
    lemma_find_loc_from(root, id, 0);
    let n0 = find_node(root, id)->0;
    match c {
        Command::SetOpacity { layer_id, before, after } => {
            let n1 = n0.with_opacity(clamped_opacity(after as int));
            lemma_find_loc_kept(root, id, n1, root1);
            assert(n1.with_opacity(clamped_opacity(before as int)) == n0);
            lemma_node_edit_undone(root, id, n1, root1, root2);
        },
        Command::SetTransform { layer_id, before, after } => {
            let l = n0->Pixel_0;
            let n1 = crate::model::LayerNode::Pixel(crate::model::PixelLayer { transform: after, ..l });
            lemma_find_loc_kept(root, id, n1, root1);
            lemma_node_edit_undone(root, id, n1, root1, root2);
        },
        Command::SetBlendMode { node_id, before, after } => {
            let n1 = n0.with_blend(after);
            lemma_find_loc_kept(root, id, n1, root1);
            assert(n1.with_blend(before) == n0);
            lemma_node_edit_undone(root, id, n1, root1, root2);
        },
        Command::SetVisibility { node_id, before, after } => {
            let n1 = n0.with_visibility(after);
            lemma_find_loc_kept(root, id, n1, root1);
            assert(n1.with_visibility(before) == n0);
            lemma_node_edit_undone(root, id, n1, root1, root2);
            lemma_find_iff_locate(root1, id);
        },
        Command::RenameLayer { node_id, before, after } => {
            let n1 = n0.renamed(after);
            lemma_find_loc_kept(root, id, n1, root1);
            assert(n1.renamed(before) == n0);
            lemma_node_edit_undone(root, id, n1, root1, root2);
        },
        _ => {},
    }
    law_inverse_involutive(c);
}

/// Whether `c`, a filter-parameter or mask switch, is about something of
/// the forest whose current value is the command's value before: a
/// parameter the filter `filter_id` of the pixel or adjustment layer
/// `layer_id` holds; a mask of the pixel layer or group `node_id`.
pub open spec fn records_setting_state(root: Seq<LayerNode>, c: Command) -> bool {
    match c {
        Command::SetFilterParam { layer_id, filter_id, param_name, before, .. } => match find_node(
            root,
            layer_id,
        ) {
            Some(LayerNode::Pixel(l)) => first_index(filter_ids(l.filter_layers@), filter_id) matches Some(
                k,
            ) && param_lookup(l.filter_layers@[k].params@, param_name@) == Some(before),
            Some(LayerNode::Adjustment(a)) => first_index(filter_node_ids(a.filters@), filter_id) matches Some(
                k,
            ) && param_lookup(a.filters@[k].params@, param_name@) == Some(before),
            _ => false,
        },
        Command::SetMaskEnabled { node_id, mask_id, before, .. } => match find_node(root, node_id) {
            Some(n) => !(n is Adjustment) && match first_index(mask_ids(n.node_masks()), mask_id) {
                Some(k) => n.node_masks()[k].enabled == before,
                None => false,
            },
            None => false,
        },
        Command::SetMaskInverted { node_id, mask_id, before, .. } => match find_node(root, node_id) {
            Some(n) => !(n is Adjustment) && match first_index(mask_ids(n.node_masks()), mask_id) {
                Some(k) => n.node_masks()[k].inverted == before,
                None => false,
            },
            None => false,
        },
        _ => false,
    }
}

/// Versions a command of `records_setting_state` hands out each time it
/// is applied: none for a parameter of an adjustment layer, one otherwise
/// (the pixel layer carrying the filter, or the mask, is renewed).
pub open spec fn setting_ticks(root: Seq<LayerNode>, c: Command) -> nat {
    match c {
        Command::SetFilterParam { layer_id, .. } => if find_node(root, layer_id) matches Some(
            LayerNode::Adjustment(_),
        ) {
            0
        } else {
            1
        },
        _ => 1,
    }
}

/// The node `n0` once a command `c` of `records_setting_state` and the
/// command it handed back were applied: the same node holding the same
/// values, its version stamp renewed to `v` (the pixel layer carrying
/// the filter, or the mask); an adjustment layer holds the same filters.
pub open spec fn setting_restored(n0: LayerNode, c: Command, v: u64, n2: LayerNode) -> bool {
    match c {
        Command::SetFilterParam { filter_id, .. } => match n0 {
            LayerNode::Pixel(l) => match first_index(filter_ids(l.filter_layers@), filter_id) {
                Some(k) => n2 matches LayerNode::Pixel(l2) && exists|f3: FilterLayer|
                    filter_with_params(l.filter_layers@[k], l.filter_layers@[k].params@, f3)
                        && pixel_with_filters(l, l.filter_layers@.update(k, f3), v, l2),
                None => false,
            },
            LayerNode::Adjustment(a) => match first_index(filter_node_ids(a.filters@), filter_id) {
                Some(k) => n2 matches LayerNode::Adjustment(a2) && exists|f3: FilterNode|
                    node_filter_with_params(a.filters@[k], a.filters@[k].params@, f3)
                        && adjustment_with_filters(a, a.filters@.update(k, f3), a2),
                None => false,
            },
            _ => false,
        },
        Command::SetMaskEnabled { mask_id, .. } => match first_index(
            mask_ids(n0.node_masks()),
            mask_id,
        ) {
            Some(k) => node_with_masks(
                n0,
                n0.node_masks().update(k, LayerMask { version: v, ..n0.node_masks()[k] }),
                n2,
            ),
            None => false,
        },
        Command::SetMaskInverted { mask_id, .. } => match first_index(
            mask_ids(n0.node_masks()),
            mask_id,
        ) {
            Some(k) => node_with_masks(
                n0,
                n0.node_masks().update(k, LayerMask { version: v, ..n0.node_masks()[k] }),
                n2,
            ),
            None => false,
        },
        _ => false,
    }
}

/// Applying a filter-parameter or mask command that records the current
/// value (see `records_setting_state`), then the command it hands back,
/// gives back the forest with the target node holding the same values;
/// only its version stamp is renewed (see `setting_restored`), and the
/// clock has handed out those versions. Both applications find their
/// target, so the first hands back the inverse and the second the command
/// itself.
pub proof fn law_setting_then_inverse_restores(
    root: Seq<LayerNode>,
    clock: u64,
    c: Command,
    root1: Seq<LayerNode>,
    clock1: u64,
    back: Command,
    root2: Seq<LayerNode>,
    clock2: u64,
    again: Command,
)
    requires
        records_setting_state(root, c),
        exists|applied: bool|
            command_effect(root, clock, c, applied, root1, clock1) && back == if applied {
                inverse_of(c)
            } else {
                c
            },
        exists|applied: bool|
            command_effect(root1, clock1, back, applied, root2, clock2) && again == if applied {
                inverse_of(back)
            } else {
                back
            },
    ensures
        back == inverse_of(c),
        again == c,
        exists|n2: LayerNode|
            setting_restored(find_node(root, command_target(c))->0, c, tick(clock, 1), n2)
                && root_with_node(root, command_target(c), n2, root2),
        clock2 == tick(clock, 2 * setting_ticks(root, c)),
{
    let a1 = choose|applied: bool|
        command_effect(root, clock, c, applied, root1, clock1) && back == if applied {
            inverse_of(c)
        } else {
            c
        };
    let a2 = choose|applied: bool|
        command_effect(root1, clock1, back, applied, root2, clock2) && again == if applied {
            inverse_of(back)
        } else {
            back
        };
    let id = command_target(c);
    lemma_find_iff_locate(root, id);
    lemma_find_loc_from(root, id, 0);
    let n0 = find_node(root, id)->0;
    assert(tick(clock, 0) == clock);
    crate::model::lemma_tick_add(clock, 1, 1);
    match c {
        Command::SetFilterParam { layer_id, filter_id, param_name, before, after } => {
            match n0 {
                LayerNode::Pixel(l) => {
                    let fl = l.filter_layers@;
                    let k = first_index(filter_ids(fl), filter_id)->0;
                    lemma_first_index(filter_ids(fl), filter_id);
                    let f = fl[k];
                    let f2 = choose|f2: FilterLayer|
                        filter_with_params(f, params_with(f.params@, param_name, after), f2)
                            && chains_result(root, clock, id, fl.update(k, f2), Seq::empty(), root1, clock1);
                    let l2 = choose|l2: PixelLayer|
                        pixel_with_filters(l, fl.update(k, f2), clock, l2) && root_with_node(
                            root,
                            id,
                            LayerNode::Pixel(l2),
                            root1,
                        );
                    lemma_find_loc_kept(root, id, LayerNode::Pixel(l2), root1);
                    assert(filter_ids(l2.filter_layers@) =~= filter_ids(fl));
                    let f3 = choose|f3: FilterLayer|
                        filter_with_params(
                            f2,
                            params_with(f2.params@, param_name, before),
                            f3,
                        ) && chains_result(
                            root1,
                            clock1,
                            id,
                            l2.filter_layers@.update(k, f3),
                            Seq::empty(),
                            root2,
                            clock2,
                        );
                    let l3 = choose|l3: PixelLayer|
                        pixel_with_filters(l2, l2.filter_layers@.update(k, f3), clock1, l3)
                            && root_with_node(root1, id, LayerNode::Pixel(l3), root2);
                    crate::params::lemma_params_set_back(f.params@, param_name, after, param_name, before);
                    assert(l2.filter_layers@.update(k, f3) =~= fl.update(k, f3));
                    assert(filter_with_params(f, f.params@, f3));
                    assert(pixel_with_filters(l, fl.update(k, f3), tick(clock, 1), l3));
                    lemma_root_with_node_twice(
                        root,
                        id,
                        LayerNode::Pixel(l2),
                        root1,
                        LayerNode::Pixel(l3),
                        root2,
                    );
                    assert(setting_restored(n0, c, tick(clock, 1), LayerNode::Pixel(l3)));
                },
                LayerNode::Adjustment(a) => {
                    let fl = a.filters@;
                    let k = first_index(filter_node_ids(fl), filter_id)->0;
                    lemma_first_index(filter_node_ids(fl), filter_id);
                    let f = fl[k];
                    let f2 = choose|f2: FilterNode|
                        node_filter_with_params(f, params_with(f.params@, param_name, after), f2)
                            && chains_result(root, clock, id, Seq::empty(), fl.update(k, f2), root1, clock1);
                    let a2 = choose|a2: AdjustmentLayer|
                        adjustment_with_filters(a, fl.update(k, f2), a2) && root_with_node(
                            root,
                            id,
                            LayerNode::Adjustment(a2),
                            root1,
                        );
                    lemma_find_loc_kept(root, id, LayerNode::Adjustment(a2), root1);
                    assert(filter_node_ids(a2.filters@) =~= filter_node_ids(fl));
                    let f3 = choose|f3: FilterNode|
                        node_filter_with_params(
                            f2,
                            params_with(f2.params@, param_name, before),
                            f3,
                        ) && chains_result(
                            root1,
                            clock1,
                            id,
                            Seq::empty(),
                            a2.filters@.update(k, f3),
                            root2,
                            clock2,
                        );
                    let a3 = choose|a3: AdjustmentLayer|
                        adjustment_with_filters(a2, a2.filters@.update(k, f3), a3)
                            && root_with_node(root1, id, LayerNode::Adjustment(a3), root2);
                    crate::params::lemma_params_set_back(f.params@, param_name, after, param_name, before);
                    assert(a2.filters@.update(k, f3) =~= fl.update(k, f3));
                    assert(node_filter_with_params(f, f.params@, f3));
                    assert(adjustment_with_filters(a, fl.update(k, f3), a3));
                    lemma_root_with_node_twice(
                        root,
                        id,
                        LayerNode::Adjustment(a2),
                        root1,
                        LayerNode::Adjustment(a3),
                        root2,
                    );
                    assert(setting_restored(n0, c, tick(clock, 1), LayerNode::Adjustment(a3)));
                },
                _ => {},
            }
        },
        Command::SetMaskEnabled { node_id, mask_id, before, after } => {
            lemma_mask_switch_undone(root, clock, id, mask_id, MaskEdit::Enabled(after), MaskEdit::Enabled(before), root1, clock1, root2, clock2, c);
        },
        Command::SetMaskInverted { node_id, mask_id, before, after } => {
            lemma_mask_switch_undone(root, clock, id, mask_id, MaskEdit::Inverted(after), MaskEdit::Inverted(before), root1, clock1, root2, clock2, c);
        },
        _ => {},
    }
    law_inverse_involutive(c);
}

/// A mask switch of the node `id` and the switch back give back the node
/// with the mask's version renewed.
proof fn lemma_mask_switch_undone(
    root: Seq<LayerNode>,
    clock: u64,
    id: LayerId,
    mid: LayerId,
    e1: MaskEdit,
    e2: MaskEdit,
    root1: Seq<LayerNode>,
    clock1: u64,
    root2: Seq<LayerNode>,
    clock2: u64,
    c: Command,
)
    requires
        records_setting_state(root, c),
        command_target(c) == id,
        c matches Command::SetMaskEnabled { mask_id, before, after, .. } ==> mask_id == mid
            && e1 == MaskEdit::Enabled(after) && e2 == MaskEdit::Enabled(before),
        c matches Command::SetMaskInverted { mask_id, before, after, .. } ==> mask_id == mid
            && e1 == MaskEdit::Inverted(after) && e2 == MaskEdit::Inverted(before),
        c is SetMaskEnabled || c is SetMaskInverted,
        mask_op_result(root, clock, id, MaskOp::Edit(mid, e1), root1, clock1),
        mask_op_result(root1, clock1, id, MaskOp::Edit(mid, e2), root2, clock2),
    ensures
        mask_op_applies(root, id, MaskOp::Edit(mid, e1)),
        mask_op_applies(root1, id, MaskOp::Edit(mid, e2)),
        clock1 == tick(clock, 1),
        clock2 == tick(clock1, 1),
        exists|n2: LayerNode|
            setting_restored(find_node(root, id)->0, c, tick(clock, 1), n2) && root_with_node(
                root,
                id,
                n2,
                root2,
            ),
{
    let n0 = find_node(root, id)->0;
    let ms = n0.node_masks();
    let k = first_index(mask_ids(ms), mid)->0;
    lemma_first_index(mask_ids(ms), mid);
    lemma_find_iff_locate(root, id);
    lemma_find_loc_from(root, id, 0);
    let op1 = MaskOp::Edit(mid, e1);
    let op2 = MaskOp::Edit(mid, e2);
    let ms1 = ms.update(k, mask_edited(ms[k], e1, clock));
    let n1 = choose|n1: LayerNode| node_with_masks(n0, ms1, n1) && root_with_node(root, id, n1, root1);
    lemma_find_loc_kept(root, id, n1, root1);
    assert(mask_ids(ms1) =~= mask_ids(ms));
    assert(n1.node_masks() == ms1);
    let ms2 = ms1.update(k, mask_edited(ms1[k], e2, clock1));
    let n2 = choose|n2: LayerNode| node_with_masks(n1, ms2, n2) && root_with_node(root1, id, n2, root2);
    assert(ms2 =~= ms.update(k, LayerMask { version: clock1, ..ms[k] }));
    lemma_root_with_node_twice(root, id, n1, root1, n2, root2);
    assert(tick(clock, 0) == clock);
    assert(setting_restored(n0, c, tick(clock, 1), n2));
}

/// Whether the filter sub-layer `f` holds the value before of `c` (its
/// opacity, placement, blend mode or name).
pub open spec fn sublayer_holds_before(f: FilterLayer, c: Command) -> bool {
    match c {
        Command::SetOpacity { before, .. } => f.opacity == clamped_opacity(before as int),
        Command::SetTransform { before, .. } => f.transform == before,
        Command::SetBlendMode { before, .. } => f.blend_mode == before,
        Command::RenameLayer { before, .. } => f.name == before,
        _ => false,
    }
}

/// Whether `c` is about a filter sub-layer (its target names no node)
/// whose current value is the command's value before, the pixel layer
/// carrying it being the first node with its identifier.
pub open spec fn records_sublayer_state(root: Seq<LayerNode>, c: Command) -> bool {
    let id = command_target(c);
    match find_filter_loc(root, id) {
        Some((p, i, j)) => {
            &&& find_node(root, id) is None
            &&& find_loc(root, node_at(root, p, i).node_id()) == Some((p, i))
            &&& sublayer_holds_before(filter_at(root, p, i, j), c)
        },
        None => false,
    }
}

/// The pixel layer `carrier` once an edit of one of its sub-layers and
/// the edit back were applied: the same layer with the same sub-layers,
/// its appearance version renewed to `v`.
pub open spec fn carrier_restored(carrier: LayerNode, v: u64, n2: LayerNode) -> bool {
    carrier matches LayerNode::Pixel(l) && n2 matches LayerNode::Pixel(l2) && pixel_with_filters(
        l,
        l.filter_layers@,
        v,
        l2,
    )
}

/// One edit of the filter sub-layer `fid` at `(p, i, j)`, whose carrier is
/// the first node with its identifier: the carrier takes the edited
/// sub-layer and the clock's version, and the searches find the same
/// places afterwards.
proof fn lemma_sublayer_edit_step(
    root: Seq<LayerNode>,
    clock: u64,
    fid: LayerId,
    p: Seq<int>,
    i: int,
    j: int,
    e: FilterEdit,
    root1: Seq<LayerNode>,
    clock1: u64,
)
    requires
        find_node(root, fid) is None,
        find_filter_loc(root, fid) == Some((p, i, j)),
        find_loc(root, node_at(root, p, i).node_id()) == Some((p, i)),
        filter_edit_result(root, clock, fid, e, root1, clock1),
    ensures
        clock1 == next_tick(clock),
        node_at(root, p, i) is Pixel,
        exists|l3: PixelLayer|
            pixel_with_filters(
                node_at(root, p, i)->Pixel_0,
                node_at(root, p, i)->Pixel_0.filter_layers@.update(
                    j,
                    filter_edited(filter_at(root, p, i, j), e),
                ),
                clock,
                l3,
            ) && node_replaced(root, p, i, LayerNode::Pixel(l3), root1) && node_at(root1, p, i)
                == LayerNode::Pixel(l3),
        find_node(root1, fid) is None,
        find_filter_loc(root1, fid) == Some((p, i, j)),
        find_loc(root1, node_at(root, p, i).node_id()) == Some((p, i)),
{
    lemma_find_filter_loc_from(root, fid, 0);
    let l = node_at(root, p, i)->Pixel_0;
    let fl = l.filter_layers@;
    let cid = l.id;
    let f1 = filter_edited(filter_at(root, p, i, j), e);
    let mid = choose|mid: Seq<LayerNode>|
        filter_replaced(root, p, i, j, f1, mid) && touch_result(mid, clock, cid, root1, clock1);
    let l2 = choose|l2: PixelLayer|
        l2 == PixelLayer { filter_layers: l2.filter_layers, ..l } && l2.filter_layers@ == fl.update(
            j,
            f1,
        ) && node_replaced(root, p, i, LayerNode::Pixel(l2), mid);
    assert(filter_ids(fl.update(j, f1)) =~= filter_ids(fl));
    lemma_replaced_search(root, p, i, LayerNode::Pixel(l2), mid, cid, 0);
    lemma_replaced_search(root, p, i, LayerNode::Pixel(l2), mid, fid, 0);
    lemma_replaced_list(root, p, list_at(root, p).update(i, LayerNode::Pixel(l2)), mid);
    assert(node_at(mid, p, i) == LayerNode::Pixel(l2));
    let l3 = PixelLayer { appearance_version: clock, ..l2 };
    assert(root_with_node(mid, cid, LayerNode::Pixel(l3), root1));
    lemma_node_replaced_twice(root, p, i, LayerNode::Pixel(l2), mid, LayerNode::Pixel(l3), root1);
    lemma_replaced_search(root, p, i, LayerNode::Pixel(l3), root1, cid, 0);
    lemma_replaced_search(root, p, i, LayerNode::Pixel(l3), root1, fid, 0);
    lemma_replaced_filter_search(root, p, i, LayerNode::Pixel(l3), root1, fid, 0);
    lemma_replaced_list(root, p, list_at(root, p).update(i, LayerNode::Pixel(l3)), root1);
    assert(pixel_with_filters(l, fl.update(j, f1), clock, l3));
}

/// Applying a command on a filter sub-layer that records its current
/// value (see `records_sublayer_state`), then the command it hands back,
/// gives back the forest with the carrying pixel layer holding the same
/// sub-layers, only its appearance version renewed; the clock has handed
/// out two versions. Both applications find their target, so the first
/// hands back the inverse and the second the command itself.
pub proof fn law_sublayer_command_then_inverse_restores(
    root: Seq<LayerNode>,
    clock: u64,
    c: Command,
    root1: Seq<LayerNode>,
    clock1: u64,
    back: Command,
    root2: Seq<LayerNode>,
    clock2: u64,
    again: Command,
)
    requires
        records_sublayer_state(root, c),
        exists|applied: bool|
            command_effect(root, clock, c, applied, root1, clock1) && back == if applied {
                inverse_of(c)
            } else {
                c
            },
        exists|applied: bool|
            command_effect(root1, clock1, back, applied, root2, clock2) && again == if applied {
                inverse_of(back)
            } else {
                back
            },
    ensures
        back == inverse_of(c),
        again == c,
        exists|n2: LayerNode|
            carrier_restored(
                find_node(root, find_filter_parent(root, command_target(c))->0)->0,
                tick(clock, 1),
                n2,
            ) && root_with_node(root, find_filter_parent(root, command_target(c))->0, n2, root2),
        clock2 == tick(clock, 2),
{
    let id = command_target(c);
    let (p, i, j) = find_filter_loc(root, id)->0;
    lemma_find_filter_loc_from(root, id, 0);
    let l = node_at(root, p, i)->Pixel_0;
    let cid = l.id;
    let f = filter_at(root, p, i, j);
    let (e1, e2) = match c {
        Command::SetOpacity { before, after, .. } => (FilterEdit::Opacity(after), FilterEdit::Opacity(before)),
        Command::SetTransform { before, after, .. } => (FilterEdit::Transform(after), FilterEdit::Transform(before)),
        Command::SetBlendMode { before, after, .. } => (FilterEdit::Blend(after), FilterEdit::Blend(before)),
        Command::RenameLayer { before, after, .. } => (FilterEdit::Rename(after), FilterEdit::Rename(before)),
        _ => (FilterEdit::Opacity(0), FilterEdit::Opacity(0)),
    };
    let a1 = choose|applied: bool|
        command_effect(root, clock, c, applied, root1, clock1) && back == if applied {
            inverse_of(c)
        } else {
            c
        };
    assert(a1 && filter_edit_result(root, clock, id, e1, root1, clock1));
    lemma_sublayer_edit_step(root, clock, id, p, i, j, e1, root1, clock1);
    let l3 = choose|l3: PixelLayer|
        pixel_with_filters(l, l.filter_layers@.update(j, filter_edited(f, e1)), clock, l3)
            && node_replaced(root, p, i, LayerNode::Pixel(l3), root1) && node_at(root1, p, i)
            == LayerNode::Pixel(l3);
    let a2 = choose|applied: bool|
        command_effect(root1, clock1, back, applied, root2, clock2) && again == if applied {
            inverse_of(back)
        } else {
            back
        };
    assert(a2 && filter_edit_result(root1, clock1, id, e2, root2, clock2));
    assert(filter_at(root1, p, i, j) == filter_edited(f, e1));
    lemma_sublayer_edit_step(root1, clock1, id, p, i, j, e2, root2, clock2);
    let l5 = choose|l5: PixelLayer|
        pixel_with_filters(
            l3,
            l3.filter_layers@.update(j, filter_edited(filter_edited(f, e1), e2)),
            clock1,
            l5,
        ) && node_replaced(root1, p, i, LayerNode::Pixel(l5), root2) && node_at(root2, p, i)
            == LayerNode::Pixel(l5);
    assert(filter_edited(filter_edited(f, e1), e2) == f);
    assert(l3.filter_layers@.update(j, f) =~= l.filter_layers@);
    lemma_find_loc_from(root, cid, 0);
    lemma_node_replaced_twice(root, p, i, LayerNode::Pixel(l3), root1, LayerNode::Pixel(l5), root2);
    assert(tick(clock, 0) == clock);
    crate::model::lemma_tick_add(clock, 1, 1);
    assert(carrier_restored(node_at(root, p, i), tick(clock, 1), LayerNode::Pixel(l5)));
    assert(find_filter_parent(root, id) == Some(cid));
    assert(find_loc(root, cid) == Some((p, i)));
    assert(find_node(root, cid) == Some(node_at(root, p, i)));
    assert(root_with_node(root, cid, LayerNode::Pixel(l5), root2));
    assert(carrier_restored(
        find_node(root, find_filter_parent(root, command_target(c))->0)->0,
        tick(clock, 1),
        LayerNode::Pixel(l5),
    ));
    law_inverse_involutive(c);
}

/// Whether `c` switches a mask of a filter sub-layer (its target names no
/// node) whose current state is the command's value before.
pub open spec fn records_sublayer_mask_state(root: Seq<LayerNode>, c: Command) -> bool {
    let owner = command_target(c);
    match (c, find_filter_loc(root, owner)) {
        (Command::SetMaskEnabled { mask_id, before, .. }, Some((p, i, j))) => {
            let ms = filter_at(root, p, i, j).masks@;
            &&& find_node(root, owner) is None
            &&& match first_index(mask_ids(ms), mask_id) {
                Some(k) => ms[k].enabled == before,
                None => false,
            }
        },
        (Command::SetMaskInverted { mask_id, before, .. }, Some((p, i, j))) => {
            let ms = filter_at(root, p, i, j).masks@;
            &&& find_node(root, owner) is None
            &&& match first_index(mask_ids(ms), mask_id) {
                Some(k) => ms[k].inverted == before,
                None => false,
            }
        },
        _ => false,
    }
}

/// The pixel layer `l` once a mask `mid` of its sub-layer `j` was switched
/// and switched back: the same layer, the mask holding the same state
/// with its version renewed to `v`.
pub open spec fn sublayer_mask_restored(l: PixelLayer, j: int, mid: LayerId, v: u64, l2: PixelLayer) -> bool {
    let f = l.filter_layers@[j];
    match first_index(mask_ids(f.masks@), mid) {
        Some(k) => exists|f2: FilterLayer|
            filter_with_masks(f, f.masks@.update(k, LayerMask { version: v, ..f.masks@[k] }), f2)
                && l2 == PixelLayer { filter_layers: l2.filter_layers, ..l } && l2.filter_layers@
                == l.filter_layers@.update(j, f2),
        None => false,
    }
}

/// One switch of the mask `mid` of the filter sub-layer at `(p, i, j)`:
/// the carrier takes the sub-layer with the mask edited at the clock's
/// version, and the searches find the same places afterwards.
proof fn lemma_sublayer_mask_step(
    root: Seq<LayerNode>,
    clock: u64,
    owner: LayerId,
    p: Seq<int>,
    i: int,
    j: int,
    mid: LayerId,
    e: MaskEdit,
    root1: Seq<LayerNode>,
    clock1: u64,
)
    requires
        find_node(root, owner) is None,
        find_filter_loc(root, owner) == Some((p, i, j)),
        first_index(mask_ids(filter_at(root, p, i, j).masks@), mid) is Some,
        e is Enabled || e is Inverted,
        mask_op_result(root, clock, owner, MaskOp::Edit(mid, e), root1, clock1),
    ensures
        clock1 == tick(clock, 1),
        node_at(root, p, i) is Pixel,
        exists|l2: PixelLayer|
            {
                let l = node_at(root, p, i)->Pixel_0;
                let f = filter_at(root, p, i, j);
                let k = first_index(mask_ids(f.masks@), mid)->0;
                &&& exists|f2: FilterLayer|
                    filter_with_masks(f, f.masks@.update(k, mask_edited(f.masks@[k], e, clock)), f2)
                        && l2.filter_layers@ == l.filter_layers@.update(j, f2)
                &&& l2 == PixelLayer { filter_layers: l2.filter_layers, ..l }
                &&& #[trigger] node_replaced(root, p, i, LayerNode::Pixel(l2), root1)
                &&& node_at(root1, p, i) == LayerNode::Pixel(l2)
            },
        find_node(root1, owner) is None,
        find_filter_loc(root1, owner) == Some((p, i, j)),
{
    lemma_find_filter_loc_from(root, owner, 0);
    let l = node_at(root, p, i)->Pixel_0;
    let fl = l.filter_layers@;
    let f = filter_at(root, p, i, j);
    let ms = f.masks@;
    let k = first_index(mask_ids(ms), mid)->0;
    lemma_first_index(mask_ids(ms), mid);
    let op = MaskOp::Edit(mid, e);
    assert(find_filter(root, owner) == Some(f));
    assert(mask_op_applies(root, owner, op));
    let f2 = choose|f2: FilterLayer|
        filter_with_masks(f, mask_list_result(ms, op, clock)->0, f2) && filter_replaced(
            root,
            p,
            i,
            j,
            f2,
            root1,
        );
    let l2 = choose|l2: PixelLayer|
        l2 == PixelLayer { filter_layers: l2.filter_layers, ..l } && l2.filter_layers@ == fl.update(
            j,
            f2,
        ) && node_replaced(root, p, i, LayerNode::Pixel(l2), root1);
    assert(filter_ids(fl.update(j, f2)) =~= filter_ids(fl));
    lemma_replaced_search(root, p, i, LayerNode::Pixel(l2), root1, owner, 0);
    lemma_replaced_filter_search(root, p, i, LayerNode::Pixel(l2), root1, owner, 0);
    lemma_replaced_list(root, p, list_at(root, p).update(i, LayerNode::Pixel(l2)), root1);
}

/// Switching a mask of a filter sub-layer that records its current state
/// (see `records_sublayer_mask_state`), then switching it back with the
/// command handed back, gives back the forest with the carrying pixel
/// layer unchanged but for the mask's version, renewed; the clock has
/// handed out two versions. Both applications find their target, so the
/// first hands back the inverse and the second the command itself.
pub proof fn law_sublayer_mask_then_inverse_restores(
    root: Seq<LayerNode>,
    clock: u64,
    c: Command,
    root1: Seq<LayerNode>,
    clock1: u64,
    back: Command,
    root2: Seq<LayerNode>,
    clock2: u64,
    again: Command,
)
    requires
        records_sublayer_mask_state(root, c),
        exists|applied: bool|
            command_effect(root, clock, c, applied, root1, clock1) && back == if applied {
                inverse_of(c)
            } else {
                c
            },
        exists|applied: bool|
            command_effect(root1, clock1, back, applied, root2, clock2) && again == if applied {
                inverse_of(back)
            } else {
                back
            },
    ensures
        back == inverse_of(c),
        again == c,
        ({
            let (p, i, j) = find_filter_loc(root, command_target(c))->0;
            exists|l2: PixelLayer|
                sublayer_mask_restored(
                    node_at(root, p, i)->Pixel_0,
                    j,
                    match c {
                        Command::SetMaskEnabled { mask_id, .. } => mask_id,
                        Command::SetMaskInverted { mask_id, .. } => mask_id,
                        _ => command_target(c),
                    },
                    tick(clock, 1),
                    l2,
                ) && node_replaced(root, p, i, LayerNode::Pixel(l2), root2)
        }),
        clock2 == tick(clock, 2),
{
    let owner = command_target(c);
    let (p, i, j) = find_filter_loc(root, owner)->0;
    lemma_find_filter_loc_from(root, owner, 0);
    let l = node_at(root, p, i)->Pixel_0;
    let fl = l.filter_layers@;
    let f = filter_at(root, p, i, j);
    let ms = f.masks@;
    let (mid, e1, e2) = match c {
        Command::SetMaskEnabled { mask_id, before, after, .. } => (
            mask_id,
            MaskEdit::Enabled(after),
            MaskEdit::Enabled(before),
        ),
        Command::SetMaskInverted { mask_id, before, after, .. } => (
            mask_id,
            MaskEdit::Inverted(after),
            MaskEdit::Inverted(before),
        ),
        _ => (owner, MaskEdit::Enabled(true), MaskEdit::Enabled(true)),
    };
    let k = first_index(mask_ids(ms), mid)->0;
    lemma_first_index(mask_ids(ms), mid);
    assert(find_filter(root, owner) == Some(f));
    let a1 = choose|applied: bool|
        command_effect(root, clock, c, applied, root1, clock1) && back == if applied {
            inverse_of(c)
        } else {
            c
        };
    assert(a1);
    lemma_sublayer_mask_step(root, clock, owner, p, i, j, mid, e1, root1, clock1);
    let l2 = choose|l2: PixelLayer|
        {
            &&& exists|f2: FilterLayer|
                filter_with_masks(f, ms.update(k, mask_edited(ms[k], e1, clock)), f2)
                    && l2.filter_layers@ == fl.update(j, f2)
            &&& l2 == PixelLayer { filter_layers: l2.filter_layers, ..l }
            &&& #[trigger] node_replaced(root, p, i, LayerNode::Pixel(l2), root1)
            &&& node_at(root1, p, i) == LayerNode::Pixel(l2)
        };
    let f2 = choose|f2: FilterLayer|
        filter_with_masks(f, ms.update(k, mask_edited(ms[k], e1, clock)), f2)
            && l2.filter_layers@ == fl.update(j, f2);
    assert(filter_at(root1, p, i, j) == f2);
    assert(mask_ids(f2.masks@) =~= mask_ids(ms));
    let a2 = choose|applied: bool|
        command_effect(root1, clock1, back, applied, root2, clock2) && again == if applied {
            inverse_of(back)
        } else {
            back
        };
    assert(find_filter(root1, owner) == Some(f2));
    assert(a2);
    lemma_sublayer_mask_step(root1, clock1, owner, p, i, j, mid, e2, root2, clock2);
    let l4 = choose|l4: PixelLayer|
        {
            &&& exists|f4: FilterLayer|
                filter_with_masks(
                    f2,
                    f2.masks@.update(k, mask_edited(f2.masks@[k], e2, clock1)),
                    f4,
                ) && l4.filter_layers@ == l2.filter_layers@.update(j, f4)
            &&& l4 == PixelLayer { filter_layers: l4.filter_layers, ..l2 }
            &&& #[trigger] node_replaced(root1, p, i, LayerNode::Pixel(l4), root2)
            &&& node_at(root2, p, i) == LayerNode::Pixel(l4)
        };
    let f4 = choose|f4: FilterLayer|
        filter_with_masks(f2, f2.masks@.update(k, mask_edited(f2.masks@[k], e2, clock1)), f4)
            && l4.filter_layers@ == l2.filter_layers@.update(j, f4);
    assert(f2.masks@.update(k, mask_edited(f2.masks@[k], e2, clock1)) =~= ms.update(
        k,
        LayerMask { version: clock1, ..ms[k] },
    ));
    assert(l4.filter_layers@ =~= fl.update(j, f4));
    assert(tick(clock, 0) == clock);
    crate::model::lemma_tick_add(clock, 1, 1);
    lemma_node_replaced_twice(root, p, i, LayerNode::Pixel(l2), root1, LayerNode::Pixel(l4), root2);
    assert(sublayer_mask_restored(l, j, mid, tick(clock, 1), l4));
    law_inverse_involutive(c);
}

/// Whether `c` renames a mask (its target names no node and no filter
/// sub-layer) whose current name is the command's value before; the mask
/// sits on the carrier that the search for its owner finds.
pub open spec fn records_mask_name_state(root: Seq<LayerNode>, c: Command) -> bool {
    match c {
        Command::RenameLayer { node_id: mid, before, .. } => {
            &&& find_node(root, mid) is None
            &&& find_filter_loc(root, mid) is None
            &&& match mask_owner(root, mid) {
                Some(o) => match find_node(root, o) {
                    Some(n) => !(n is Adjustment) && match first_index(mask_ids(n.node_masks()), mid) {
                        Some(k) => n.node_masks()[k].name == before,
                        None => false,
                    },
                    None => match find_filter_loc(root, o) {
                        Some((p, i, j)) => match first_index(
                            mask_ids(filter_at(root, p, i, j).masks@),
                            mid,
                        ) {
                            Some(k) => filter_at(root, p, i, j).masks@[k].name == before,
                            None => false,
                        },
                        None => false,
                    },
                },
                None => false,
            }
        },
        _ => false,
    }
}

/// The forest `root2` once the mask `mid` of the carrier `o` was renamed
/// and renamed back: the carrier, where the search for it stands, holds
/// the same masks again, and nothing else changed.
pub open spec fn mask_name_restored(root: Seq<LayerNode>, o: LayerId, root2: Seq<LayerNode>) -> bool {
    match find_node(root, o) {
        Some(n) => exists|n2: LayerNode|
            node_with_masks(n, n.node_masks(), n2) && root_with_node(root, o, n2, root2),
        None => match find_filter_loc(root, o) {
            Some((p, i, j)) => exists|f2: FilterLayer|
                filter_with_masks(filter_at(root, p, i, j), filter_at(root, p, i, j).masks@, f2)
                    && filter_replaced(root, p, i, j, f2, root2),
            None => false,
        },
    }
}

/// Renaming a mask that records its current name (see
/// `records_mask_name_state`), then renaming it back with the command
/// handed back, gives back the forest with the carrier holding the same
/// masks; no version is handed out. Both applications find their target,
/// so the first hands back the inverse and the second the command itself.
pub proof fn law_mask_rename_then_inverse_restores(
    root: Seq<LayerNode>,
    clock: u64,
    c: Command,
    root1: Seq<LayerNode>,
    clock1: u64,
    back: Command,
    root2: Seq<LayerNode>,
    clock2: u64,
    again: Command,
)
    requires
        records_mask_name_state(root, c),
        exists|applied: bool|
            command_effect(root, clock, c, applied, root1, clock1) && back == if applied {
                inverse_of(c)
            } else {
                c
            },
        exists|applied: bool|
            command_effect(root1, clock1, back, applied, root2, clock2) && again == if applied {
                inverse_of(back)
            } else {
                back
            },
    ensures
        back == inverse_of(c),
        again == c,
        mask_name_restored(root, mask_owner(root, command_target(c))->0, root2),
        clock2 == clock,
{
    let mid = command_target(c);
    let o = mask_owner(root, mid)->0;
    let (before, after) = match c {
        Command::RenameLayer { before, after, .. } => (before, after),
        _ => (arbitrary(), arbitrary()),
    };
    let e1 = MaskEdit::Rename(after);
    let e2 = MaskEdit::Rename(before);
    let a1 = choose|applied: bool|
        command_effect(root, clock, c, applied, root1, clock1) && back == if applied {
            inverse_of(c)
        } else {
            c
        };
    let a2 = choose|applied: bool|
        command_effect(root1, clock1, back, applied, root2, clock2) && again == if applied {
            inverse_of(back)
        } else {
            back
        };
    assert(tick(clock, 0) == clock);
    assert(tick(clock1, 0) == clock1);
    match find_node(root, o) {
        Some(n0) => {
            let ms = n0.node_masks();
            let k = first_index(mask_ids(ms), mid)->0;
            lemma_first_index(mask_ids(ms), mid);
            lemma_find_iff_locate(root, o);
            lemma_find_loc_from(root, o, 0);
            assert(mask_op_applies(root, o, MaskOp::Edit(mid, e1)));
            assert(a1);
            let n1 = choose|n1: LayerNode|
                node_with_masks(n0, ms.update(k, mask_edited(ms[k], e1, clock)), n1) && root_with_node(
                    root,
                    o,
                    n1,
                    root1,
                );
            lemma_find_loc_kept(root, o, n1, root1);
            let (p, i) = find_loc(root, o)->0;
            assert(mask_ids(ms.update(k, mask_edited(ms[k], e1, clock))) =~= mask_ids(ms));
            lemma_replaced_search(root, p, i, n1, root1, mid, 0);
            lemma_replaced_search(root, p, i, n1, root1, o, 0);
            lemma_replaced_filter_search(root, p, i, n1, root1, mid, 0);
            lemma_replaced_mask_owner(root, p, i, n1, root1, mid, 0);
            let ms1 = n1.node_masks();
            assert(mask_op_applies(root1, o, MaskOp::Edit(mid, e2)));
            assert(a2);
            let n2 = choose|n2: LayerNode|
                node_with_masks(n1, ms1.update(k, mask_edited(ms1[k], e2, clock1)), n2)
                    && root_with_node(root1, o, n2, root2);
            assert(ms1.update(k, mask_edited(ms1[k], e2, clock1)) =~= ms);
            lemma_root_with_node_twice(root, o, n1, root1, n2, root2);
            assert(node_with_masks(n0, ms, n2));
        },
        None => {
            let (p, i, j) = find_filter_loc(root, o)->0;
            lemma_find_filter_loc_from(root, o, 0);
            let l = node_at(root, p, i)->Pixel_0;
            let fl = l.filter_layers@;
            let f = filter_at(root, p, i, j);
            let ms = f.masks@;
            let k = first_index(mask_ids(ms), mid)->0;
            lemma_first_index(mask_ids(ms), mid);
            assert(find_filter(root, o) == Some(f));
            assert(mask_op_applies(root, o, MaskOp::Edit(mid, e1)));
            assert(a1);
            let f2 = choose|f2: FilterLayer|
                filter_with_masks(f, ms.update(k, mask_edited(ms[k], e1, clock)), f2)
                    && filter_replaced(root, p, i, j, f2, root1);
            let l2 = choose|l2: PixelLayer|
                l2 == PixelLayer { filter_layers: l2.filter_layers, ..l } && l2.filter_layers@
                    == fl.update(j, f2) && node_replaced(root, p, i, LayerNode::Pixel(l2), root1);
            assert(filter_ids(fl.update(j, f2)) =~= filter_ids(fl));
            assert(mask_ids(f2.masks@) =~= mask_ids(ms));
            lemma_replaced_search(root, p, i, LayerNode::Pixel(l2), root1, mid, 0);
            lemma_replaced_search(root, p, i, LayerNode::Pixel(l2), root1, o, 0);
            lemma_replaced_filter_search(root, p, i, LayerNode::Pixel(l2), root1, mid, 0);
            lemma_replaced_filter_search(root, p, i, LayerNode::Pixel(l2), root1, o, 0);
            lemma_replaced_mask_owner(root, p, i, LayerNode::Pixel(l2), root1, mid, 0);
            lemma_replaced_list(root, p, list_at(root, p).update(i, LayerNode::Pixel(l2)), root1);
            assert(filter_at(root1, p, i, j) == f2);
            assert(find_filter(root1, o) == Some(f2));
            assert(mask_op_applies(root1, o, MaskOp::Edit(mid, e2)));
            assert(a2);
            let f4 = choose|f4: FilterLayer|
                filter_with_masks(f2, f2.masks@.update(k, mask_edited(f2.masks@[k], e2, clock1)), f4)
                    && filter_replaced(root1, p, i, j, f4, root2);
            let l4 = choose|l4: PixelLayer|
                l4 == PixelLayer { filter_layers: l4.filter_layers, ..l2 } && l4.filter_layers@
                    == l2.filter_layers@.update(j, f4) && node_replaced(
                    root1,
                    p,
                    i,
                    LayerNode::Pixel(l4),
                    root2,
                );
            assert(f2.masks@.update(k, mask_edited(f2.masks@[k], e2, clock1)) =~= ms);
            assert(l4.filter_layers@ =~= fl.update(j, f4));
            lemma_node_replaced_twice(root, p, i, LayerNode::Pixel(l2), root1, LayerNode::Pixel(l4), root2);
            assert(filter_with_masks(f, ms, f4));
            assert(filter_replaced(root, p, i, j, f4, root2));
        },
    }
    law_inverse_involutive(c);
}

/// Whether a command records the current value of what it sets, in one
/// of the forms the round-trip laws cover: an attribute of a node, a
/// filter parameter or a mask switch of a node, an attribute of a filter
/// sub-layer, a mask switch of a filter sub-layer, or the name of a mask.
pub open spec fn records_state(root: Seq<LayerNode>, c: Command) -> bool {
    ||| records_node_state(root, c)
    ||| records_setting_state(root, c)
    ||| records_sublayer_state(root, c)
    ||| records_sublayer_mask_state(root, c)
    ||| records_mask_name_state(root, c)
}

/// What applying `c` and then the command it handed back gives, from the
/// forest `root` and clock `clock` to `root2` and `clock2`, for each form
/// of `records_state` (see the law of each form).
pub open spec fn round_trip_restores(
    root: Seq<LayerNode>,
    clock: u64,
    c: Command,
    root2: Seq<LayerNode>,
    clock2: u64,
) -> bool {
    if records_node_state(root, c) {
        forest_copied(root, root2, false) && clock2 == clock
    } else if records_setting_state(root, c) {
        &&& exists|n2: LayerNode|
            setting_restored(find_node(root, command_target(c))->0, c, tick(clock, 1), n2)
                && root_with_node(root, command_target(c), n2, root2)
        &&& clock2 == tick(clock, 2 * setting_ticks(root, c))
    } else if records_sublayer_state(root, c) {
        &&& exists|n2: LayerNode|
            carrier_restored(
                find_node(root, find_filter_parent(root, command_target(c))->0)->0,
                tick(clock, 1),
                n2,
            ) && root_with_node(root, find_filter_parent(root, command_target(c))->0, n2, root2)
        &&& clock2 == tick(clock, 2)
    } else if records_sublayer_mask_state(root, c) {
        &&& ({
            let (p, i, j) = find_filter_loc(root, command_target(c))->0;
            exists|l2: PixelLayer|
                sublayer_mask_restored(
                    node_at(root, p, i)->Pixel_0,
                    j,
                    match c {
                        Command::SetMaskEnabled { mask_id, .. } => mask_id,
                        Command::SetMaskInverted { mask_id, .. } => mask_id,
                        _ => command_target(c),
                    },
                    tick(clock, 1),
                    l2,
                ) && node_replaced(root, p, i, LayerNode::Pixel(l2), root2)
        })
        &&& clock2 == tick(clock, 2)
    } else {
        mask_name_restored(root, mask_owner(root, command_target(c))->0, root2) && clock2 == clock
    }
}

/// Applying any command that records the current value of what it sets
/// (see `records_state`), then the command it hands back, restores what
/// the command set: the first application hands back the inverse, the
/// second the command itself, and the forest is given back up to the
/// version stamps the edits renew (see `round_trip_restores`).
pub proof fn law_any_command_then_inverse_restores(
    root: Seq<LayerNode>,
    clock: u64,
    c: Command,
    root1: Seq<LayerNode>,
    clock1: u64,
    back: Command,
    root2: Seq<LayerNode>,
    clock2: u64,
    again: Command,
)
    requires
        records_state(root, c),
        exists|applied: bool|
            command_effect(root, clock, c, applied, root1, clock1) && back == if applied {
                inverse_of(c)
            } else {
                c
            },
        exists|applied: bool|
            command_effect(root1, clock1, back, applied, root2, clock2) && again == if applied {
                inverse_of(back)
            } else {
                back
            },
    ensures
        back == inverse_of(c),
        again == c,
        round_trip_restores(root, clock, c, root2, clock2),
{
    if records_node_state(root, c) {
        law_command_then_inverse_restores(root, clock, c, root1, clock1, back, root2, clock2, again);
    } else if records_setting_state(root, c) {
        law_setting_then_inverse_restores(root, clock, c, root1, clock1, back, root2, clock2, again);
    } else if records_sublayer_state(root, c) {
        law_sublayer_command_then_inverse_restores(root, clock, c, root1, clock1, back, root2, clock2, again);
    } else if records_sublayer_mask_state(root, c) {
        law_sublayer_mask_then_inverse_restores(root, clock, c, root1, clock1, back, root2, clock2, again);
    } else {
        law_mask_rename_then_inverse_restores(root, clock, c, root1, clock1, back, root2, clock2, again);
    }
}

/// Merging a command with the next step of the same gesture keeps the
/// target and the value before of the start of the gesture, and takes the
/// value after of the next step: the folded command does what the two
/// did one after the other.
pub proof fn law_merge_keeps_start_takes_end(c: Command, next: Command)
    requires
        mergeable(c, next),
    ensures
        command_target(merged(c, next)) == command_target(c),
        match (c, next, merged(c, next)) {
            (
                Command::SetOpacity { before: b0, .. },
                Command::SetOpacity { after: a1, .. },
                Command::SetOpacity { before, after, .. },
            ) => before == b0 && after == a1,
            (
                Command::SetTransform { before: b0, .. },
                Command::SetTransform { after: a1, .. },
                Command::SetTransform { before, after, .. },
            ) => before == b0 && after == a1,
            (
                Command::SetBlendMode { before: b0, .. },
                Command::SetBlendMode { after: a1, .. },
                Command::SetBlendMode { before, after, .. },
            ) => before == b0 && after == a1,
            (
                Command::SetVisibility { before: b0, .. },
                Command::SetVisibility { after: a1, .. },
                Command::SetVisibility { before, after, .. },
            ) => before == b0 && after == a1,
            (
                Command::SetFilterParam { filter_id: f0, param_name: p0, before: b0, .. },
                Command::SetFilterParam { after: a1, .. },
                Command::SetFilterParam { filter_id, param_name, before, after, .. },
            ) => filter_id == f0 && param_name == p0 && before == b0 && after == a1,
            (
                Command::RenameLayer { before: b0, .. },
                Command::RenameLayer { after: a1, .. },
                Command::RenameLayer { before, after, .. },
            ) => before == b0 && after == a1,
            _ => false,
        },
{
}

/// Switching a mask on or off, or inverting it, changes who blends with
/// whom, as a change of blend mode or of visibility does: its render
/// event is a full invalidation. A change of opacity, placement, name or
/// filter parameter invalidates its node alone.
pub proof fn law_render_event_by_kind(c: Command)
    ensures
        (c is SetMaskEnabled || c is SetMaskInverted || c is SetBlendMode || c is SetVisibility)
            ==> event_of(c) == RenderEvent::FullInvalidation,
        (c is SetOpacity || c is SetTransform || c is RenameLayer || c is SetFilterParam)
            ==> event_of(c) == RenderEvent::NodeInvalidated(command_target(c)),
{
}

/// Two steps of one gesture always fold: two settings of the same kind
/// (opacity, placement, blend mode, visibility, name, or a parameter of
/// the same filter) on the same node; a mask switch never folds, and
/// steps on different nodes never do.
pub proof fn law_merge_folds_gestures(c: Command, next: Command)
    ensures
        command_target(c) == command_target(next) && ((c is SetOpacity && next is SetOpacity) || (
        c is SetTransform && next is SetTransform) || (c is SetBlendMode && next is SetBlendMode) || (
        c is SetVisibility && next is SetVisibility) || (c is RenameLayer && next is RenameLayer))
            ==> mergeable(c, next),
        c matches Command::SetFilterParam { layer_id: l0, filter_id: f0, .. } && next matches Command::SetFilterParam {
            layer_id: l1,
            filter_id: f1,
            ..
        } && l0 == l1 && f0 == f1 ==> mergeable(c, next),
        (c is SetMaskEnabled || c is SetMaskInverted) ==> !mergeable(c, next),
        command_target(c) != command_target(next) ==> !mergeable(c, next),
{
}

} // verus!
