//! The editing worker: the commands of the interface, how a batch of
//! waiting commands is folded, what each command asks of the renderer,
//! and the undo/redo history (snapshots of the whole document).
//!
//! Outside work stays with the caller: decoding an image to open,
//! rasterizing a stroke, writing an export. The caller hands its outcome
//! to the worker with the command.

use crate::blend::BlendMode;
use crate::command::{RenderEvent, RenderRevision};
use crate::copying::forest_copied;
use crate::document::{Document, Snapshot};
use crate::geometry::saturated_sum;
use crate::ids::LayerId;
use crate::document::{NodeEdit, duplicate_result, duplicate_stamps, remove_result, root_with_edit, sat_succ};
use crate::document_attributes::{MaskOp, mask_op_applies, mask_op_result, masks_of_carrier, name_set};
use crate::document_checks::{
    carries_filter, filter_movable, holds_masks, lemma_root_with_node_twice, owner_touch_result,
    renamable,
};
use crate::document_edits::{is_pixel_at, root_with_node};
use crate::document_filters::{chains_result, filter_moved, filter_removed};
use crate::forest::find_node;
use crate::geometry::{OPACITY_MAX, identity_transform};
use crate::model::{FilterLayer, LayerMask, LayerNode, PixelLayer, next_tick, tick};
use crate::raster::{MAX_RASTER_PIXELS, Raster, blank_image, raster_fits, white_image};
use crate::text::{decimal, numbered, trim_text, trimmed};
use vstd::prelude::*;

verus! {

/// Largest dimension of the canvas preview, in pixels.
pub const PREVIEW_MAX_DIMENSION: u32 = 1600;

/// Bound of the undo and redo history together (snapshots share their
/// pixels, so each costs little).
pub const HISTORY_LIMIT: usize = 100;

/// Converts a display index (0 = top of the stack) into a document index
/// (`root[0]` = bottom of the stack); `None` out of bounds.
pub fn display_to_doc_index(display: usize, len: usize) -> (r: Option<usize>)
    ensures
        r == if display < len {
            Some((len - 1 - display) as usize)
        } else {
            None
        },
{
    if display < len {
        Some(len - 1 - display)
    } else {
        None
    }
}

/// What a command asks of the render pipeline, ordered
/// `Unchanged < StateOnly < Composite`.
#[derive(Debug, Clone, Copy, PartialEq, Eq)]
pub enum RenderInvalidation {
    /// Nothing changed: nothing to produce.
    Unchanged,
    /// State changed, same pixels (a rename): a new snapshot only.
    StateOnly,
    /// Pixels may have changed: a new composite.
    Composite,
}

/// Rank of an invalidation in its order.
pub open spec fn rank(i: RenderInvalidation) -> int {
    match i {
        RenderInvalidation::Unchanged => 0,
        RenderInvalidation::StateOnly => 1,
        RenderInvalidation::Composite => 2,
    }
}

/// The stronger of two invalidations.
pub open spec fn stronger(a: RenderInvalidation, b: RenderInvalidation) -> RenderInvalidation {
    if rank(a) >= rank(b) {
        a
    } else {
        b
    }
}

impl RenderInvalidation {
    /// The stronger of two invalidations.
    pub fn max(self, other: RenderInvalidation) -> (r: RenderInvalidation)
        ensures
            r == stronger(self, other),
    {
        let a: u8 = match self {
            RenderInvalidation::Unchanged => 0,
            RenderInvalidation::StateOnly => 1,
            RenderInvalidation::Composite => 2,
        };
        let b: u8 = match other {
            RenderInvalidation::Unchanged => 0,
            RenderInvalidation::StateOnly => 1,
            RenderInvalidation::Composite => 2,
        };
        if a >= b {
            self
        } else {
            other
        }
    }

    /// Whether this is `Composite`.
    pub fn is_composite(self) -> (r: bool)
        ensures
            r == (self == RenderInvalidation::Composite),
    {
        match self {
            RenderInvalidation::Composite => true,
            _ => false,
        }
    }
}

/// Commands from the interface to the worker. Opacities are thousandths
/// of a percent; moves are fixed-point document pixels.
pub enum PhotoEngineCommand {
    /// Shows or hides a node.
    ToggleLayerVisibility(LayerId),
    /// Moves a root node (display indices: 0 = top of the stack).
    ReorderLayer { from: usize, to: usize },
    /// Sets the opacity of a node (clamped to `0..=100 %`).
    SetOpacity { layer: LayerId, opacity: i64 },
    /// Sets the blend mode of a node.
    SetBlendMode { layer: LayerId, mode: BlendMode },
    /// Undoes the last change.
    Undo,
    /// Redoes the last undone change.
    Redo,
    /// Commits a brush or eraser stroke on a pixel layer; `stroke` names
    /// the stroke that the caller rasterizes.
    PaintStroke { layer: LayerId, stroke: usize },
    /// Moves a pixel layer by `(dx, dy)` (move tool, committed on release).
    MoveLayer { layer: LayerId, dx: i64, dy: i64 },
    /// Opens an image as a new layer: its name and pixels, or the message
    /// of the decoding error.
    OpenImage { outcome: Result<(String, Raster), String> },
    /// Adds an empty transparent layer of the document's size.
    AddEmptyLayer,
    /// Duplicates a node (fresh identifiers, inserted above it).
    DuplicateLayer(LayerId),
    /// Deletes a node (refused when the root holds one node or none).
    DeleteLayer(LayerId),
    /// Adds a live filter to a pixel layer: the registry type, and the
    /// sub-layer with its default parameters when the type is known.
    AddFilter { layer: LayerId, filter_type: String, filter: Option<FilterLayer> },
    /// Renames a node, a filter or a mask (the name is trimmed and must
    /// not be empty).
    RenameLayer { layer: LayerId, name: String },
    /// Adds a white mask (everything visible) to a carrier.
    AddMask { layer: LayerId },
    /// Removes a mask from its carrier.
    RemoveMask { owner: LayerId, mask: LayerId },
    /// Moves a filter in its layer's chain (`up` = later in the chain).
    MoveFilter { layer: LayerId, filter: LayerId, up: bool },
    /// Moves a mask in its carrier's list (`up` = towards the front).
    MoveMask { owner: LayerId, mask: LayerId, up: bool },
    /// Removes a filter from a pixel layer.
    RemoveFilter { layer: LayerId, filter: LayerId },
    /// Exports the composite (format from the extension; JPEG quality
    /// 1..=100); the caller writes the file.
    Export { path: String, quality: u8 },
    /// Resynchronizes without a change (first snapshot at start).
    Refresh,
    /// Crops the preview to the document (`true`) or shows the infinite
    /// plane around it.
    SetPreviewClip { clip: bool },
}

impl PhotoEngineCommand {
    /// Stable name of the command (for measures only).
    pub fn op_name(&self) -> (name: &'static str)
        ensures
            name@ == match *self {
                PhotoEngineCommand::ToggleLayerVisibility(_) => "toggle_visibility"@,
                PhotoEngineCommand::ReorderLayer { .. } => "reorder"@,
                PhotoEngineCommand::SetOpacity { .. } => "set_opacity"@,
                PhotoEngineCommand::SetBlendMode { .. } => "set_blend_mode"@,
                PhotoEngineCommand::Undo => "undo"@,
                PhotoEngineCommand::Redo => "redo"@,
                PhotoEngineCommand::PaintStroke { .. } => "paint_stroke"@,
                PhotoEngineCommand::MoveLayer { .. } => "move_layer"@,
                PhotoEngineCommand::OpenImage { .. } => "open_image"@,
                PhotoEngineCommand::AddEmptyLayer => "add_empty_layer"@,
                PhotoEngineCommand::DuplicateLayer(_) => "duplicate_layer"@,
                PhotoEngineCommand::DeleteLayer(_) => "delete_layer"@,
                PhotoEngineCommand::AddFilter { .. } => "add_filter"@,
                PhotoEngineCommand::RenameLayer { .. } => "rename_layer"@,
                PhotoEngineCommand::AddMask { .. } => "add_mask"@,
                PhotoEngineCommand::RemoveMask { .. } => "remove_mask"@,
                PhotoEngineCommand::MoveFilter { .. } => "move_filter"@,
                PhotoEngineCommand::MoveMask { .. } => "move_mask"@,
                PhotoEngineCommand::RemoveFilter { .. } => "remove_filter"@,
                PhotoEngineCommand::Export { .. } => "export"@,
                PhotoEngineCommand::Refresh => "refresh"@,
                PhotoEngineCommand::SetPreviewClip { .. } => "set_preview_clip"@,
            },
    {
        match self {
            PhotoEngineCommand::ToggleLayerVisibility(_) => "toggle_visibility",
            PhotoEngineCommand::ReorderLayer { .. } => "reorder",
            PhotoEngineCommand::SetOpacity { .. } => "set_opacity",
            PhotoEngineCommand::SetBlendMode { .. } => "set_blend_mode",
            PhotoEngineCommand::Undo => "undo",
            PhotoEngineCommand::Redo => "redo",
            PhotoEngineCommand::PaintStroke { .. } => "paint_stroke",
            PhotoEngineCommand::MoveLayer { .. } => "move_layer",
            PhotoEngineCommand::OpenImage { .. } => "open_image",
            PhotoEngineCommand::AddEmptyLayer => "add_empty_layer",
            PhotoEngineCommand::DuplicateLayer(_) => "duplicate_layer",
            PhotoEngineCommand::DeleteLayer(_) => "delete_layer",
            PhotoEngineCommand::AddFilter { .. } => "add_filter",
            PhotoEngineCommand::RenameLayer { .. } => "rename_layer",
            PhotoEngineCommand::AddMask { .. } => "add_mask",
            PhotoEngineCommand::RemoveMask { .. } => "remove_mask",
            PhotoEngineCommand::MoveFilter { .. } => "move_filter",
            PhotoEngineCommand::MoveMask { .. } => "move_mask",
            PhotoEngineCommand::RemoveFilter { .. } => "remove_filter",
            PhotoEngineCommand::Export { .. } => "export",
            PhotoEngineCommand::Refresh => "refresh",
            PhotoEngineCommand::SetPreviewClip { .. } => "set_preview_clip",
        }
    }
}

/// Render event and invalidation of a command.
pub open spec fn routing_of(c: PhotoEngineCommand) -> (RenderEvent, RenderInvalidation) {
    match c {
        PhotoEngineCommand::SetOpacity { layer, .. } => (
            RenderEvent::NodeInvalidated(layer),
            RenderInvalidation::Composite,
        ),
        PhotoEngineCommand::MoveLayer { layer, .. } => (
            RenderEvent::NodeInvalidated(layer),
            RenderInvalidation::Composite,
        ),
        PhotoEngineCommand::PaintStroke { layer, .. } => (
            RenderEvent::NodeInvalidated(layer),
            RenderInvalidation::Composite,
        ),
        PhotoEngineCommand::RenameLayer { layer, .. } => (
            RenderEvent::NodeInvalidated(layer),
            RenderInvalidation::StateOnly,
        ),
        PhotoEngineCommand::Export { .. } => (
            RenderEvent::FullInvalidation,
            RenderInvalidation::Unchanged,
        ),
        _ => (RenderEvent::FullInvalidation, RenderInvalidation::Composite),
    }
}

/// The render event of a command and its invalidation in the CPU
/// pipeline: opacity, moves and strokes touch one node but the composite
/// is blended again; a rename changes state only; an export changes
/// nothing.
pub fn render_routing(command: &PhotoEngineCommand) -> (r: (RenderEvent, RenderInvalidation))
    ensures
        r == routing_of(*command),
{
    match command {
        PhotoEngineCommand::SetOpacity { layer, .. } => (
            RenderEvent::NodeInvalidated(*layer),
            RenderInvalidation::Composite,
        ),
        PhotoEngineCommand::MoveLayer { layer, .. } => (
            RenderEvent::NodeInvalidated(*layer),
            RenderInvalidation::Composite,
        ),
        PhotoEngineCommand::PaintStroke { layer, .. } => (
            RenderEvent::NodeInvalidated(*layer),
            RenderInvalidation::Composite,
        ),
        PhotoEngineCommand::RenameLayer { layer, .. } => (
            RenderEvent::NodeInvalidated(*layer),
            RenderInvalidation::StateOnly,
        ),
        PhotoEngineCommand::Export { .. } => (
            RenderEvent::FullInvalidation,
            RenderInvalidation::Unchanged,
        ),
        _ => (RenderEvent::FullInvalidation, RenderInvalidation::Composite),
    }
}

// ---------------------------------------------------------------------------
// Folding a batch
// ---------------------------------------------------------------------------

/// Whether `next` folds into `last`: two opacities of one layer (the last
/// value wins) or two moves of one layer (summed).
pub open spec fn folds_into(last: PhotoEngineCommand, next: PhotoEngineCommand) -> bool {
    match (last, next) {
        (
            PhotoEngineCommand::SetOpacity { layer: a, .. },
            PhotoEngineCommand::SetOpacity { layer: b, .. },
        ) => a == b,
        (
            PhotoEngineCommand::MoveLayer { layer: a, .. },
            PhotoEngineCommand::MoveLayer { layer: b, .. },
        ) => a == b,
        _ => false,
    }
}

/// `last` with `next` folded into it.
pub open spec fn folded_pair(last: PhotoEngineCommand, next: PhotoEngineCommand) -> PhotoEngineCommand {
    match (last, next) {
        (
            PhotoEngineCommand::SetOpacity { layer, .. },
            PhotoEngineCommand::SetOpacity { opacity, .. },
        ) => PhotoEngineCommand::SetOpacity { layer, opacity },
        (
            PhotoEngineCommand::MoveLayer { layer, dx, dy },
            PhotoEngineCommand::MoveLayer { dx: ndx, dy: ndy, .. },
        ) => PhotoEngineCommand::MoveLayer {
            layer,
            dx: saturated_sum(dx as int, ndx as int) as i64,
            dy: saturated_sum(dy as int, ndy as int) as i64,
        },
        _ => last,
    }
}

/// The first `n` commands folded, in order.
pub open spec fn folded_prefix(cmds: Seq<PhotoEngineCommand>, n: int) -> Seq<PhotoEngineCommand>
    decreases n,
{
    if n <= 0 {
        Seq::empty()
    } else {
        let acc = folded_prefix(cmds, n - 1);
        let c = cmds[n - 1];
        if acc.len() > 0 && folds_into(acc.last(), c) {
            acc.update(acc.len() - 1, folded_pair(acc.last(), c))
        } else {
            acc.push(c)
        }
    }
}

/// Whether a command is a move by nothing.
pub open spec fn is_still_move(c: PhotoEngineCommand) -> bool {
    c matches PhotoEngineCommand::MoveLayer { dx, dy, .. } && dx == 0 && dy == 0
}

/// The commands of a list other than moves by nothing, in order.
pub open spec fn without_still_moves(cmds: Seq<PhotoEngineCommand>, n: int) -> Seq<PhotoEngineCommand>
    decreases n,
{
    if n <= 0 {
        Seq::empty()
    } else {
        let rest = without_still_moves(cmds, n - 1);
        if is_still_move(cmds[n - 1]) {
            rest
        } else {
            rest.push(cmds[n - 1])
        }
    }
}

/// A batch folded: consecutive opacities of one layer keep the last value,
/// consecutive moves of one layer are summed, then moves by nothing are
/// dropped.
pub open spec fn folded_batch(cmds: Seq<PhotoEngineCommand>) -> Seq<PhotoEngineCommand> {
    let f = folded_prefix(cmds, cmds.len() as int);
    without_still_moves(f, f.len() as int)
}

/// Folds a batch of waiting commands before they are applied (the last
/// value wins): consecutive `SetOpacity` of one layer keep the last value,
/// consecutive `MoveLayer` of one layer are summed (a null sum is
/// dropped). Folding never crosses another command, so `Undo`/`Redo` and
/// the history of each gesture are kept.
pub fn fold_batch(commands: Vec<PhotoEngineCommand>) -> (r: Vec<PhotoEngineCommand>)
    ensures
        r@ == folded_batch(commands@),
{
    let ghost cmds = commands@;
    let mut src = commands;
    let mut folded: Vec<PhotoEngineCommand> = Vec::new();
    let len = src.len();
    let mut k: usize = 0;
    while k < len
        invariant
            k <= len,
            len == cmds.len(),
            src@ == cmds.subrange(k as int, len as int),
            folded@ == folded_prefix(cmds, k as int),
        decreases len - k,
    {
        let command = src.remove(0);
        let n = folded.len();
        let merged = if n > 0 {
            match (&folded[n - 1], &command) {
                (
                    PhotoEngineCommand::SetOpacity { layer: prev, .. },
                    PhotoEngineCommand::SetOpacity { layer, opacity },
                ) => {
                    if *prev == *layer {
                        Some(PhotoEngineCommand::SetOpacity { layer: *prev, opacity: *opacity })
                    } else {
                        None
                    }
                },
                (
                    PhotoEngineCommand::MoveLayer { layer: prev, dx, dy },
                    PhotoEngineCommand::MoveLayer { layer, dx: ndx, dy: ndy },
                ) => {
                    if *prev == *layer {
                        Some(
                            PhotoEngineCommand::MoveLayer {
                                layer: *prev,
                                dx: crate::geometry::saturating_sum(*dx, *ndx),
                                dy: crate::geometry::saturating_sum(*dy, *ndy),
                            },
                        )
                    } else {
                        None
                    }
                },
                _ => None,
            }
        } else {
            None
        };
        match merged {
            Some(m) => {
                folded.set(n - 1, m);
            },
            None => {
                folded.push(command);
            },
        }
        k += 1;
        assert(src@ =~= cmds.subrange(k as int, len as int));
    }
    let ghost f = folded@;
    let mut out: Vec<PhotoEngineCommand> = Vec::new();
    let flen = folded.len();
    let mut j: usize = 0;
    while j < flen
        invariant
            j <= flen,
            flen == f.len(),
            folded@ == f.subrange(j as int, flen as int),
            out@ == without_still_moves(f, j as int),
        decreases flen - j,
    {
        let command = folded.remove(0);
        let still = match &command {
            PhotoEngineCommand::MoveLayer { dx, dy, .. } => *dx == 0 && *dy == 0,
            _ => false,
        };
        if !still {
            out.push(command);
        }
        j += 1;
        assert(folded@ =~= f.subrange(j as int, flen as int));
    }
    out
}

// ---------------------------------------------------------------------------
// Answers, mutations and the worker's state
// ---------------------------------------------------------------------------

/// Outcome of the outside work that a command needed, handed with it.
pub enum Resolution {
    /// No outside work.
    Nothing,
    /// The pixels of the layer after the stroke; `None` when the stroke is
    /// no stroke (no point, or a radius that is not a positive number).
    Painted(Option<Raster>),
    /// The export was written (`Ok`), or the message of its failure.
    Exported(Result<(), String>),
}

/// An answer of the worker.
#[derive(Debug)]
pub enum Reply {
    /// New state with a new composite to render, under `revision`.
    Render { revision: RenderRevision, can_undo: bool, can_redo: bool },
    /// New state without a new render: the displayed texture stays.
    State { revision: RenderRevision, can_undo: bool, can_redo: bool },
    /// A failure that does not stop the worker.
    EngineError { message: String },
    /// An export was written.
    ExportDone { path: String },
}

/// What applying a command did, before any answer is built.
pub struct Mutation {
    /// Answers to send as they are (no render attached).
    pub immediates: Vec<Reply>,
    /// What the command asks of the render pipeline.
    pub invalidation: RenderInvalidation,
    /// Whether the state changed (a fresh answer must follow).
    pub changed: bool,
}

impl Mutation {
    /// A change: an answer follows.
    pub fn changed(invalidation: RenderInvalidation) -> (m: Mutation)
        ensures
            m.immediates@.len() == 0,
            m.invalidation == invalidation,
            m.changed,
    {
        Mutation { immediates: Vec::new(), invalidation, changed: true }
    }

    /// No change (unknown identifier, guard): nothing follows.
    pub fn unchanged() -> (m: Mutation)
        ensures
            m.immediates@.len() == 0,
            m.invalidation == RenderInvalidation::Unchanged,
            !m.changed,
    {
        Mutation { immediates: Vec::new(), invalidation: RenderInvalidation::Unchanged, changed: false }
    }

    /// An answer without a render (export, failure).
    pub fn immediate(response: Reply) -> (m: Mutation)
        ensures
            m.immediates@ == seq![response],
            m.invalidation == RenderInvalidation::Unchanged,
            !m.changed,
    {
        let mut immediates: Vec<Reply> = Vec::new();
        immediates.push(response);
        Mutation { immediates, invalidation: RenderInvalidation::Unchanged, changed: false }
    }
}

/// `s` is a snapshot of the document `d`: its size and an exact copy of
/// its forest.
pub open spec fn snapshot_of(d: Document, s: Snapshot) -> bool {
    s.doc_size == (d.width, d.height) && forest_copied(d.root@, s.root@, false)
}

/// The undo stack after `s` is pushed: the oldest entry goes when the
/// stack is full.
pub open spec fn bounded_push(stack: Seq<Snapshot>, s: Snapshot) -> Seq<Snapshot> {
    if stack.len() >= HISTORY_LIMIT {
        stack.drop_first().push(s)
    } else {
        stack.push(s)
    }
}

/// Whether a canvas of the size `(w, h)`, at least one pixel wide and
/// high, can be allocated.
pub open spec fn size_fits(size: (u32, u32)) -> bool {
    raster_fits(
        if size.0 == 0 {
            1
        } else {
            size.0
        },
        if size.1 == 0 {
            1
        } else {
            size.1
        },
    )
}

/// Whether a canvas of the document's size can be allocated (empty
/// layers and new masks take that size).
pub open spec fn canvas_fits(d: Document) -> bool {
    size_fits((d.width, d.height))
}

/// Whether a worker can take a document of this size: a canvas at least
/// one pixel wide and high, of that size, can be allocated.
pub fn document_fits(width: u32, height: u32) -> (fits: bool)
    ensures
        fits == size_fits((width, height)),
{
    let w: u64 = if width == 0 { 1 } else { width as u64 };
    let h: u64 = if height == 0 { 1 } else { height as u64 };
    assert(w * h <= 0xffff_ffff * 0xffff_ffff) by (nonlinear_arith)
        requires
            w <= 0xffff_ffff,
            h <= 0xffff_ffff,
    ;
    crate::raster::pixel_count_fits(w * h)
}

/// The editing worker: the live document and its undo/redo history.
pub struct EngineWorker {
    document: Document,
    undo: Vec<Snapshot>,
    redo: Vec<Snapshot>,
    /// Layer of the last `SetOpacity` recorded (one entry per slider
    /// gesture).
    coalesced_opacity_layer: Option<LayerId>,
    /// Preview cropped to the document.
    clip_to_doc: bool,
    /// Revision of the last composite produced.
    revision: RenderRevision,
}

impl EngineWorker {
    /// The live document.
    pub closed spec fn doc(self) -> Document {
        self.document
    }

    /// Snapshots to undo, the last one first to come back.
    pub closed spec fn undo_stack(self) -> Seq<Snapshot> {
        self.undo@
    }

    /// Snapshots to redo, the last one first to come back.
    pub closed spec fn redo_stack(self) -> Seq<Snapshot> {
        self.redo@
    }

    /// Layer of the opacity gesture in progress, if any.
    pub closed spec fn coalesced(self) -> Option<LayerId> {
        self.coalesced_opacity_layer
    }

    /// Whether the preview is cropped to the document.
    pub closed spec fn clip(self) -> bool {
        self.clip_to_doc
    }

    /// Revision of the last composite.
    pub closed spec fn rev(self) -> u64 {
        self.revision.0
    }

    /// The history holds at most `HISTORY_LIMIT` snapshots, undo and redo
    /// together.
    pub closed spec fn wf(self) -> bool {
        &&& self.undo@.len() + self.redo@.len() <= HISTORY_LIMIT
        &&& canvas_fits(self.document)
        &&& forall|i: int|
            0 <= i < self.undo@.len() ==> size_fits(#[trigger] self.undo@[i].doc_size)
        &&& forall|i: int|
            0 <= i < self.redo@.len() ==> size_fits(#[trigger] self.redo@[i].doc_size)
    }
}

/// History after the state before a change is recorded under the
/// coalescing key `key`: nothing when `key` continues the gesture in
/// progress; else a snapshot of the document pushed (bounded), the redo
/// stack cleared and `key` remembered.
pub open spec fn recorded(w0: EngineWorker, key: Option<LayerId>, w1: EngineWorker) -> bool {
    if key is Some && key == w0.coalesced() {
        &&& w1.undo_stack() == w0.undo_stack()
        &&& w1.redo_stack() == w0.redo_stack()
        &&& w1.coalesced() == w0.coalesced()
    } else {
        &&& exists|s: Snapshot|
            snapshot_of(w0.doc(), s) && w1.undo_stack() == bounded_push(w0.undo_stack(), s)
        &&& w1.redo_stack().len() == 0
        &&& w1.coalesced() == key
    }
}

/// Nothing changes and nothing is produced.
pub open spec fn no_step(w0: EngineWorker, w1: EngineWorker, m: Mutation) -> bool {
    &&& w1 == w0
    &&& m.immediates@.len() == 0
    &&& !m.changed
    &&& m.invalidation == RenderInvalidation::Unchanged
}

/// Only the answer `r` is produced; nothing changes.
pub open spec fn answer_step(w0: EngineWorker, w1: EngineWorker, m: Mutation, r: Reply) -> bool {
    &&& w1 == w0
    &&& m.immediates@ == seq![r]
    &&& !m.changed
    &&& m.invalidation == RenderInvalidation::Unchanged
}

/// A change recorded in the history under `key`, with the invalidation
/// `inv`; the preview setting and the revision stay.
pub open spec fn change_step(
    w0: EngineWorker,
    key: Option<LayerId>,
    w1: EngineWorker,
    m: Mutation,
    inv: RenderInvalidation,
) -> bool {
    &&& recorded(w0, key, w1)
    &&& w1.clip() == w0.clip()
    &&& w1.rev() == w0.rev()
    &&& m.immediates@.len() == 0
    &&& m.changed
    &&& m.invalidation == inv
}

/// Same size and clock.
pub open spec fn same_frame(d0: Document, d1: Document) -> bool {
    d1.width == d0.width && d1.height == d0.height && d1.version_clock == d0.version_clock
}

impl EngineWorker {
    /// A worker on a document, with an empty history.
    pub fn new(document: Document) -> (w: EngineWorker)
        requires
            canvas_fits(document),
        ensures
            w.wf(),
            w.doc() == document,
            w.undo_stack().len() == 0,
            w.redo_stack().len() == 0,
            w.coalesced() is None,
            !w.clip(),
            w.rev() == 0,
    {
        EngineWorker {
            document,
            undo: Vec::new(),
            redo: Vec::new(),
            coalesced_opacity_layer: None,
            clip_to_doc: false,
            revision: RenderRevision(0),
        }
    }

    /// The live document (read only).
    pub fn document(&self) -> (d: &Document)
        ensures
            *d == self.doc(),
    {
        &self.document
    }

    /// Number of snapshots to undo.
    pub fn undo_len(&self) -> (n: usize)
        ensures
            n == self.undo_stack().len(),
    {
        self.undo.len()
    }

    /// Number of snapshots to redo.
    pub fn redo_len(&self) -> (n: usize)
        ensures
            n == self.redo_stack().len(),
    {
        self.redo.len()
    }

    /// Whether the preview is cropped to the document.
    pub fn clips_preview(&self) -> (clip: bool)
        ensures
            clip == self.clip(),
    {
        self.clip_to_doc
    }

    /// Revision of the last composite.
    pub fn revision(&self) -> (r: RenderRevision)
        ensures
            r.0 == self.rev(),
    {
        self.revision
    }

    /// Records the state before a change (never after) and clears the
    /// redo stack; a continuous gesture (a slider) records once per layer.
    pub fn push_history(&mut self, coalesce_layer: Option<LayerId>)
        requires
            old(self).wf(),
        ensures
            final(self).wf(),
            recorded(*old(self), coalesce_layer, *final(self)),
            final(self).doc() == old(self).doc(),
            final(self).clip() == old(self).clip(),
            final(self).rev() == old(self).rev(),
    {
        let same = match (coalesce_layer, self.coalesced_opacity_layer) {
            (Some(a), Some(b)) => a == b,
            _ => false,
        };
        if same {
            return;
        }
        let ghost u0 = self.undo@;
        self.redo.clear();
        if self.undo.len() >= HISTORY_LIMIT {
            self.undo.remove(0);
        }
        let snap = self.document.snapshot();
        let ghost s = snap;
        self.undo.push(snap);
        self.coalesced_opacity_layer = coalesce_layer;
        proof {
            if u0.len() >= HISTORY_LIMIT {
                assert(self.undo@ =~= u0.drop_first().push(s));
            } else {
                assert(self.undo@ =~= u0.push(s));
            }
            assert(snapshot_of(old(self).document, s));
            assert(self.undo@ == bounded_push(old(self).undo@, s));
            assert(snapshot_of(old(self).doc(), s) && self.undo_stack() == bounded_push(
                old(self).undo_stack(),
                s,
            ));
            assert(self.redo@.len() == 0);
        }
    }

    /// The answer to a change: a new composite (`Composite`, revision
    /// bumped) or the state alone (texture kept).
    fn respond(&mut self, invalidation: RenderInvalidation) -> (r: Reply)
        requires
            old(self).wf(),
        ensures
            final(self).wf(),
            final(self).doc() == old(self).doc(),
            final(self).undo_stack() == old(self).undo_stack(),
            final(self).redo_stack() == old(self).redo_stack(),
            final(self).coalesced() == old(self).coalesced(),
            final(self).clip() == old(self).clip(),
            reply_for(*old(self), invalidation, r, *final(self)),
    {
        let can_undo = self.undo.len() > 0;
        let can_redo = self.redo.len() > 0;
        if invalidation.is_composite() {
            let revision = self.revision.bump();
            Reply::Render { revision, can_undo, can_redo }
        } else {
            Reply::State { revision: self.revision, can_undo, can_redo }
        }
    }
}

/// The answer built after a change with the invalidation `inv`, and the
/// revision it leaves.
pub open spec fn reply_for(w0: EngineWorker, inv: RenderInvalidation, r: Reply, w1: EngineWorker) -> bool {
    let can_undo = w0.undo_stack().len() > 0;
    let can_redo = w0.redo_stack().len() > 0;
    if inv == RenderInvalidation::Composite {
        &&& w1.rev() == next_tick(w0.rev())
        &&& r == Reply::Render { revision: RenderRevision(w1.rev()), can_undo, can_redo }
    } else {
        &&& w1.rev() == w0.rev()
        &&& r == Reply::State { revision: RenderRevision(w0.rev()), can_undo, can_redo }
    }
}

// ---------------------------------------------------------------------------
// One command
// ---------------------------------------------------------------------------


/// `l` is a new pixel layer over `image`: no filter, no mask, identity
/// placement, full opacity, normal blending, visible, versioned `version`.
pub open spec fn fresh_pixel(l: PixelLayer, image: Raster, version: u64) -> bool {
    &&& l.source_image == image
    &&& l.filter_layers@.len() == 0
    &&& l.transform == identity_transform()
    &&& l.opacity == OPACITY_MAX
    &&& l.blend_mode == BlendMode::Normal
    &&& l.visible
    &&& l.masks@.len() == 0
    &&& l.appearance_version == version
}

/// `m` is a new all-white mask of `w` × `h`, enabled, versioned `version`.
pub open spec fn fresh_mask(m: LayerMask, w: u32, h: u32, version: u64) -> bool {
    &&& m.image.width == w
    &&& m.image.height == h
    &&& m.image.wf()
    &&& *m.image.pixels == white_image(w, h)
    &&& m.enabled
    &&& !m.inverted
    &&& m.version == version
}

/// `v` or 1 when `v` is 0.
pub open spec fn at_least_one(v: u32) -> u32 {
    if v == 0 {
        1
    } else {
        v
    }
}

/// The larger of two sizes.
pub open spec fn larger(a: u32, b: u32) -> u32 {
    if a >= b {
        a
    } else {
        b
    }
}

/// An undo: the last snapshot to undo comes back as the document (its
/// size and forest), a snapshot of the document goes to the redo stack;
/// the gesture in progress ends.
pub open spec fn undo_step(w0: EngineWorker, w1: EngineWorker) -> bool {
    let s = w0.undo_stack().last();
    &&& w1.undo_stack() == w0.undo_stack().drop_last()
    &&& exists|t: Snapshot| snapshot_of(w0.doc(), t) && w1.redo_stack() == w0.redo_stack().push(t)
    &&& w1.doc().width == s.doc_size.0
    &&& w1.doc().height == s.doc_size.1
    &&& w1.doc().root == s.root
    &&& w1.doc().version_clock == w0.doc().version_clock
    &&& w1.coalesced() is None
    &&& w1.clip() == w0.clip()
    &&& w1.rev() == w0.rev()
}

/// A redo: the mirror of an undo.
pub open spec fn redo_step(w0: EngineWorker, w1: EngineWorker) -> bool {
    let s = w0.redo_stack().last();
    &&& w1.redo_stack() == w0.redo_stack().drop_last()
    &&& exists|t: Snapshot| snapshot_of(w0.doc(), t) && w1.undo_stack() == w0.undo_stack().push(t)
    &&& w1.doc().width == s.doc_size.0
    &&& w1.doc().height == s.doc_size.1
    &&& w1.doc().root == s.root
    &&& w1.doc().version_clock == w0.doc().version_clock
    &&& w1.coalesced() is None
    &&& w1.clip() == w0.clip()
    &&& w1.rev() == w0.rev()
}

/// A change that the history does not record (the answer only).
pub open spec fn plain_change(w0: EngineWorker, w1: EngineWorker, m: Mutation) -> bool {
    &&& w1.undo_stack() == w0.undo_stack()
    &&& w1.redo_stack() == w0.redo_stack()
    &&& w1.coalesced() == w0.coalesced()
    &&& w1.rev() == w0.rev()
    &&& m.immediates@.len() == 0
    &&& m.changed
    &&& m.invalidation == RenderInvalidation::Composite
}

/// What applying the command `c` (with the outcome `res` of its outside
/// work) does to the worker `w0`, giving `w1` and the mutation `m`.
pub open spec fn step(
    w0: EngineWorker,
    c: PhotoEngineCommand,
    res: Resolution,
    w1: EngineWorker,
    m: Mutation,
) -> bool {
    let d0 = w0.doc();
    let d1 = w1.doc();
    let r0 = d0.root@;
    let r1 = d1.root@;
    let composite = RenderInvalidation::Composite;
    match c {
        PhotoEngineCommand::ToggleLayerVisibility(id) => match find_node(r0, id) {
            Some(n) => change_step(w0, None, w1, m, composite) && root_with_edit(
                r0,
                id,
                NodeEdit::Show(!n.is_visible()),
                r1,
            ) && same_frame(d0, d1),
            None => no_step(w0, w1, m),
        },
        PhotoEngineCommand::ReorderLayer { from, to } => {
            let len = r0.len();
            let to2 = if to < len {
                to as int
            } else {
                len as int
            };
            if len == 0 || from >= len || from == to2 {
                no_step(w0, w1, m)
            } else {
                let taken = len - 1 - from;
                let at = if len - 1 >= to2 {
                    len - 1 - to2
                } else {
                    0
                };
                &&& change_step(w0, None, w1, m, composite)
                &&& same_frame(d0, d1)
                &&& r1 == r0.remove(taken).insert(at, r0[taken])
            }
        },
        PhotoEngineCommand::SetOpacity { layer, opacity } => if find_node(r0, layer) is Some {
            change_step(w0, Some(layer), w1, m, composite) && root_with_edit(
                r0,
                layer,
                NodeEdit::Opacity(opacity),
                r1,
            ) && same_frame(d0, d1)
        } else {
            no_step(w0, w1, m)
        },
        PhotoEngineCommand::SetBlendMode { layer, mode } => if find_node(r0, layer) is Some {
            change_step(w0, None, w1, m, composite) && root_with_edit(
                r0,
                layer,
                NodeEdit::Blend(mode),
                r1,
            ) && same_frame(d0, d1)
        } else {
            no_step(w0, w1, m)
        },
        PhotoEngineCommand::MoveLayer { layer, dx, dy } => if (dx == 0 && dy == 0) || find_node(
            r0,
            layer,
        ) is None {
            no_step(w0, w1, m)
        } else {
            &&& change_step(w0, None, w1, m, composite)
            &&& d1.width == d0.width
            &&& d1.height == d0.height
            &&& if is_pixel_at(r0, layer) {
                root_with_edit(r0, layer, NodeEdit::Translate(dx, dy, d0.version_clock), r1)
                    && d1.version_clock == next_tick(d0.version_clock)
            } else {
                r1 == r0 && d1.version_clock == d0.version_clock
            }
        },
        PhotoEngineCommand::Undo => if w0.undo_stack().len() == 0 {
            no_step(w0, w1, m)
        } else {
            undo_step(w0, w1) && m.immediates@.len() == 0 && m.changed && m.invalidation
                == composite
        },
        PhotoEngineCommand::Redo => if w0.redo_stack().len() == 0 {
            no_step(w0, w1, m)
        } else {
            redo_step(w0, w1) && m.immediates@.len() == 0 && m.changed && m.invalidation
                == composite
        },
        PhotoEngineCommand::PaintStroke { layer, .. } => match res {
            Resolution::Painted(Some(img)) => if is_pixel_at(r0, layer) {
                &&& change_step(w0, None, w1, m, composite)
                &&& d1.width == d0.width
                &&& d1.height == d0.height
                &&& find_node(r0, layer) matches Some(LayerNode::Pixel(l)) && root_with_node(
                    r0,
                    layer,
                    LayerNode::Pixel(
                        PixelLayer {
                            source_image: img,
                            appearance_version: tick(d0.version_clock, 1),
                            ..l
                        },
                    ),
                    r1,
                )
                &&& d1.version_clock == tick(d0.version_clock, 2)
            } else {
                no_step(w0, w1, m)
            },
            _ => no_step(w0, w1, m),
        },
        PhotoEngineCommand::OpenImage { outcome } => match outcome {
            Err(message) => answer_step(w0, w1, m, Reply::EngineError { message }),
            Ok((name, img)) => if !size_fits((larger(d0.width, img.width), larger(d0.height, img.height))) {
                &&& w1 == w0
                &&& m.immediates@.len() == 1
                &&& m.immediates@[0] matches Reply::EngineError { message } && message@
                    == "Ouverture impossible : document trop grand"@
                &&& !m.changed
                &&& m.invalidation == RenderInvalidation::Unchanged
            } else {
                &&& change_step(w0, None, w1, m, composite)
                &&& d1.width == larger(d0.width, img.width)
                &&& d1.height == larger(d0.height, img.height)
                &&& d1.version_clock == next_tick(d0.version_clock)
                &&& r1.len() == r0.len() + 1
                &&& r1.drop_last() == r0
                &&& r1.last() matches LayerNode::Pixel(l) && l.name == name && fresh_pixel(
                    l,
                    img,
                    d0.version_clock,
                )
            },
        },
        PhotoEngineCommand::AddEmptyLayer => {
            let w = at_least_one(d0.width);
            let h = at_least_one(d0.height);
            &&& change_step(w0, None, w1, m, composite)
            &&& d1.width == d0.width
            &&& d1.height == d0.height
            &&& d1.version_clock == next_tick(d0.version_clock)
            &&& r1.len() == r0.len() + 1
            &&& r1.drop_last() == r0
            &&& r1.last() matches LayerNode::Pixel(l) && l.name@ == "Calque "@ + decimal(
                sat_succ(r0.len() as int) as nat,
            ) && l.source_image.width == w && l.source_image.height == h
                && l.source_image.wf() && *l.source_image.pixels == blank_image(w, h)
                && fresh_pixel(l, l.source_image, d0.version_clock)
        },
        PhotoEngineCommand::DuplicateLayer(id) => if find_node(r0, id) is Some {
            &&& change_step(w0, None, w1, m, composite)
            &&& d1.width == d0.width
            &&& d1.height == d0.height
            &&& exists|copy_id: Option<LayerId>| duplicate_result(r0, id, copy_id, r1)
            &&& duplicate_stamps(r0, id, d0.version_clock, r1, d1.version_clock)
        } else {
            no_step(w0, w1, m)
        },
        PhotoEngineCommand::DeleteLayer(id) => if r0.len() <= 1 || find_node(r0, id) is None {
            no_step(w0, w1, m)
        } else {
            &&& change_step(w0, None, w1, m, composite)
            &&& same_frame(d0, d1)
            &&& exists|removed: Option<LayerNode>| remove_result(r0, id, removed, r1)
        },
        PhotoEngineCommand::AddFilter { layer, filter_type, filter } => match filter {
            None => {
                &&& w1 == w0
                &&& m.immediates@.len() == 1
                &&& m.immediates@[0] matches Reply::EngineError { message } && message@
                    == "Filtre inconnu : "@ + filter_type@
                &&& !m.changed
                &&& m.invalidation == RenderInvalidation::Unchanged
            },
            Some(f) => if is_pixel_at(r0, layer) {
                &&& change_step(w0, None, w1, m, composite)
                &&& d1.width == d0.width
                &&& d1.height == d0.height
                &&& find_node(r0, layer) matches Some(LayerNode::Pixel(l)) && chains_result(
                    r0,
                    d0.version_clock,
                    layer,
                    l.filter_layers@.push(f),
                    Seq::empty(),
                    r1,
                    d1.version_clock,
                )
            } else {
                no_step(w0, w1, m)
            },
        },
        PhotoEngineCommand::Export { path, .. } => match res {
            Resolution::Exported(Ok(())) => answer_step(w0, w1, m, Reply::ExportDone { path }),
            Resolution::Exported(Err(message)) => answer_step(
                w0,
                w1,
                m,
                Reply::EngineError { message },
            ),
            _ => no_step(w0, w1, m),
        },
        PhotoEngineCommand::RenameLayer { layer, name } => {
            let t = trimmed(name@);
            if t.len() == 0 || !renamable(r0, layer) {
                no_step(w0, w1, m)
            } else {
                &&& change_step(w0, None, w1, m, RenderInvalidation::StateOnly)
                &&& d1.width == d0.width
                &&& d1.height == d0.height
                &&& exists|s: String|
                    s@ == t && name_set(r0, d0.version_clock, layer, s, true, r1, d1.version_clock)
            }
        },
        PhotoEngineCommand::AddMask { layer } => if holds_masks(r0, layer) {
            let w = at_least_one(d0.width);
            let h = at_least_one(d0.height);
            let count = masks_of_carrier(r0, layer)->0.len();
            &&& change_step(w0, None, w1, m, composite)
            &&& d1.width == d0.width
            &&& d1.height == d0.height
            &&& exists|mk: LayerMask, mid: Seq<LayerNode>, mid_clock: u64|
                mk.name@ == "Masque "@ + decimal(sat_succ(count as int) as nat) && fresh_mask(
                    mk,
                    w,
                    h,
                    d0.version_clock,
                ) && mask_op_result(
                    r0,
                    next_tick(d0.version_clock),
                    layer,
                    MaskOp::Append(mk),
                    mid,
                    mid_clock,
                ) && owner_touch_result(mid, mid_clock, layer, r1, d1.version_clock)
        } else {
            no_step(w0, w1, m)
        },
        PhotoEngineCommand::RemoveMask { owner, mask } => if mask_op_applies(
            r0,
            owner,
            MaskOp::RemoveAll(mask),
        ) {
            &&& change_step(w0, None, w1, m, composite)
            &&& d1.width == d0.width
            &&& d1.height == d0.height
            &&& exists|mid: Seq<LayerNode>, mid_clock: u64|
                mask_op_result(r0, d0.version_clock, owner, MaskOp::RemoveAll(mask), mid, mid_clock)
                    && owner_touch_result(mid, mid_clock, owner, r1, d1.version_clock)
        } else {
            no_step(w0, w1, m)
        },
        PhotoEngineCommand::MoveFilter { layer, filter, up } => if filter_movable(
            r0,
            layer,
            filter,
            up,
        ) {
            &&& change_step(w0, None, w1, m, composite)
            &&& d1.width == d0.width
            &&& d1.height == d0.height
            &&& filter_moved(r0, d0.version_clock, layer, filter, up, true, r1, d1.version_clock)
        } else {
            no_step(w0, w1, m)
        },
        PhotoEngineCommand::MoveMask { owner, mask, up } => if mask_op_applies(
            r0,
            owner,
            MaskOp::Move(mask, up),
        ) {
            &&& change_step(w0, None, w1, m, composite)
            &&& d1.width == d0.width
            &&& d1.height == d0.height
            &&& exists|mid: Seq<LayerNode>, mid_clock: u64|
                mask_op_result(r0, d0.version_clock, owner, MaskOp::Move(mask, up), mid, mid_clock)
                    && owner_touch_result(mid, mid_clock, owner, r1, d1.version_clock)
        } else {
            no_step(w0, w1, m)
        },
        PhotoEngineCommand::RemoveFilter { layer, filter } => if carries_filter(r0, layer, filter) {
            &&& change_step(w0, None, w1, m, composite)
            &&& d1.width == d0.width
            &&& d1.height == d0.height
            &&& exists|removed: Option<FilterLayer>|
                filter_removed(r0, d0.version_clock, layer, filter, removed, r1, d1.version_clock)
        } else {
            no_step(w0, w1, m)
        },
        PhotoEngineCommand::Refresh => w1 == w0 && m.immediates@.len() == 0 && m.changed
            && m.invalidation == composite,
        PhotoEngineCommand::SetPreviewClip { clip } => {
            &&& w1.doc() == w0.doc()
            &&& plain_change(w0, w1, m)
            &&& w1.clip() == clip
        },
    }
}

impl EngineWorker {
    fn toggle_visibility(&mut self, id: LayerId) -> (m: Mutation)
        requires
            old(self).wf(),
        ensures
            final(self).wf(),
            step(
                *old(self),
                PhotoEngineCommand::ToggleLayerVisibility(id),
                Resolution::Nothing,
                *final(self),
                m,
            ),
    {
        let visible = match self.document.find(id) {
            Some(n) => n.visible(),
            None => {
                return Mutation::unchanged();
            },
        };
        self.push_history(None);
        self.document.edit_node(id, NodeEdit::Show(!visible));
        Mutation::changed(RenderInvalidation::Composite)
    }

    fn reorder_layer(&mut self, from: usize, to: usize) -> (m: Mutation)
        requires
            old(self).wf(),
        ensures
            final(self).wf(),
            step(
                *old(self),
                PhotoEngineCommand::ReorderLayer { from, to },
                Resolution::Nothing,
                *final(self),
                m,
            ),
    {
        let len = self.document.root.len();
        if len == 0 || from >= len {
            return Mutation::unchanged();
        }
        let to = if to < len {
            to
        } else {
            len
        };
        if from == to {
            return Mutation::unchanged();
        }
        self.push_history(None);
        let ghost r0 = self.document.root@;
        let node = self.document.root.remove(len - 1 - from);
        let remaining = self.document.root.len();
        let at = if remaining >= to {
            remaining - to
        } else {
            0
        };
        self.document.root.insert(at, node);
        Mutation::changed(RenderInvalidation::Composite)
    }

    fn set_opacity(&mut self, layer: LayerId, opacity: i64) -> (m: Mutation)
        requires
            old(self).wf(),
        ensures
            final(self).wf(),
            step(
                *old(self),
                PhotoEngineCommand::SetOpacity { layer, opacity },
                Resolution::Nothing,
                *final(self),
                m,
            ),
    {
        if self.document.find(layer).is_none() {
            return Mutation::unchanged();
        }
        self.push_history(Some(layer));
        self.document.edit_node(layer, NodeEdit::Opacity(opacity));
        Mutation::changed(RenderInvalidation::Composite)
    }

    fn set_blend_mode(&mut self, layer: LayerId, mode: BlendMode) -> (m: Mutation)
        requires
            old(self).wf(),
        ensures
            final(self).wf(),
            step(
                *old(self),
                PhotoEngineCommand::SetBlendMode { layer, mode },
                Resolution::Nothing,
                *final(self),
                m,
            ),
    {
        if self.document.find(layer).is_none() {
            return Mutation::unchanged();
        }
        self.push_history(None);
        self.document.edit_node(layer, NodeEdit::Blend(mode));
        Mutation::changed(RenderInvalidation::Composite)
    }

    fn move_layer(&mut self, layer: LayerId, dx: i64, dy: i64) -> (m: Mutation)
        requires
            old(self).wf(),
        ensures
            final(self).wf(),
            step(
                *old(self),
                PhotoEngineCommand::MoveLayer { layer, dx, dy },
                Resolution::Nothing,
                *final(self),
                m,
            ),
    {
        if dx == 0 && dy == 0 {
            return Mutation::unchanged();
        }
        if self.document.find(layer).is_none() {
            return Mutation::unchanged();
        }
        self.push_history(None);
        if self.document.pixel_layer(layer).is_some() {
            let v = self.document.next_version();
            self.document.edit_node(layer, NodeEdit::Translate(dx, dy, v));
        }
        Mutation::changed(RenderInvalidation::Composite)
    }

    fn undo(&mut self) -> (m: Mutation)
        requires
            old(self).wf(),
        ensures
            final(self).wf(),
            step(*old(self), PhotoEngineCommand::Undo, Resolution::Nothing, *final(self), m),
    {
        if self.undo.len() == 0 {
            return Mutation::unchanged();
        }
        let snapshot = self.undo.pop().unwrap();
        let current = self.document.snapshot();
        let ghost t = current;
        self.redo.push(current);
        self.document.restore_snapshot(snapshot);
        self.coalesced_opacity_layer = None;
        proof {
            assert(snapshot_of(old(self).doc(), t));
        }
        Mutation::changed(RenderInvalidation::Composite)
    }

    fn redo(&mut self) -> (m: Mutation)
        requires
            old(self).wf(),
        ensures
            final(self).wf(),
            step(*old(self), PhotoEngineCommand::Redo, Resolution::Nothing, *final(self), m),
    {
        if self.redo.len() == 0 {
            return Mutation::unchanged();
        }
        let snapshot = self.redo.pop().unwrap();
        let current = self.document.snapshot();
        let ghost t = current;
        self.undo.push(current);
        self.document.restore_snapshot(snapshot);
        self.coalesced_opacity_layer = None;
        proof {
            assert(snapshot_of(old(self).doc(), t));
        }
        Mutation::changed(RenderInvalidation::Composite)
    }
}

impl EngineWorker {
    fn paint_stroke(&mut self, layer: LayerId, stroke: usize, res: Resolution) -> (m: Mutation)
        requires
            old(self).wf(),
        ensures
            final(self).wf(),
            step(*old(self), PhotoEngineCommand::PaintStroke { layer, stroke }, res, *final(self), m),
    {
        let img = match res {
            Resolution::Painted(Some(img)) => img,
            _ => {
                return Mutation::unchanged();
            },
        };
        if self.document.pixel_layer(layer).is_none() {
            return Mutation::unchanged();
        }
        self.push_history(None);
        let ghost r0 = self.document.root@;
        let ghost c0 = self.document.version_clock;
        let ghost imgg = img;
        self.document.set_source_image(layer, img);
        let ghost r1 = self.document.root@;
        self.document.touch_pixel(layer);
        proof {
            let l = find_node(r0, layer)->0->Pixel_0;
            let n1 = LayerNode::Pixel(PixelLayer { source_image: imgg, appearance_version: c0, ..l });
            crate::forest::lemma_find_loc_from(r0, layer, 0);
            crate::document_edits::lemma_find_loc_kept(r0, layer, n1, r1);
            let n2 = LayerNode::Pixel(
                PixelLayer { source_image: imgg, appearance_version: tick(c0, 1), ..l },
            );
            assert(tick(c0, 1) == next_tick(c0)) by {
                assert(tick(c0, 0) == c0);
            }
            lemma_root_with_node_twice(r0, layer, n1, r1, n2, self.document.root@);
            assert(tick(c0, 2) == next_tick(tick(c0, 1)));
        }
        Mutation::changed(RenderInvalidation::Composite)
    }

    fn open_image(&mut self, outcome: Result<(String, Raster), String>) -> (m: Mutation)
        requires
            old(self).wf(),
        ensures
            final(self).wf(),
            step(
                *old(self),
                PhotoEngineCommand::OpenImage { outcome },
                Resolution::Nothing,
                *final(self),
                m,
            ),
    {
        match outcome {
            Err(message) => Mutation::immediate(Reply::EngineError { message }),
            Ok((name, img)) => {
                let width = if img.width > self.document.width {
                    img.width
                } else {
                    self.document.width
                };
                let height = if img.height > self.document.height {
                    img.height
                } else {
                    self.document.height
                };
                let w1: u64 = if width == 0 {
                    1
                } else {
                    width as u64
                };
                let h1: u64 = if height == 0 {
                    1
                } else {
                    height as u64
                };
                assert(w1 * h1 <= u64::MAX) by (nonlinear_arith)
                    requires
                        w1 <= u32::MAX,
                        h1 <= u32::MAX,
                ;
                if !crate::raster::pixel_count_fits(w1 * h1) {
                    return Mutation::immediate(Reply::EngineError { message: String::from_str("Ouverture impossible : document trop grand") });
                }
                self.push_history(None);
                if img.width > self.document.width {
                    self.document.width = img.width;
                }
                if img.height > self.document.height {
                    self.document.height = img.height;
                }
                let ghost r0 = self.document.root@;
                let v = self.document.next_version();
                let layer = PixelLayer::new(name, img, v);
                self.document.push_layer(LayerNode::Pixel(layer));
                proof {
                    assert(self.document.root@.drop_last() =~= r0);
                }
                Mutation::changed(RenderInvalidation::Composite)
            },
        }
    }

    fn add_empty_layer(&mut self) -> (m: Mutation)
        requires
            old(self).wf(),
        ensures
            final(self).wf(),
            step(
                *old(self),
                PhotoEngineCommand::AddEmptyLayer,
                Resolution::Nothing,
                *final(self),
                m,
            ),
    {
        self.push_history(None);
        let width = if self.document.width == 0 {
            1
        } else {
            self.document.width
        };
        let height = if self.document.height == 0 {
            1
        } else {
            self.document.height
        };
        let blank = Raster::transparent(width, height);
        let len = self.document.root.len();
        let count = if len < usize::MAX {
            len + 1
        } else {
            len
        };
        let name = numbered("Calque ", count);
        let ghost r0 = self.document.root@;
        let v = self.document.next_version();
        let layer = PixelLayer::new(name, blank, v);
        self.document.push_layer(LayerNode::Pixel(layer));
        proof {
            assert(self.document.root@.drop_last() =~= r0);
        }
        Mutation::changed(RenderInvalidation::Composite)
    }

    fn duplicate_layer(&mut self, id: LayerId) -> (m: Mutation)
        requires
            old(self).wf(),
        ensures
            final(self).wf(),
            step(
                *old(self),
                PhotoEngineCommand::DuplicateLayer(id),
                Resolution::Nothing,
                *final(self),
                m,
            ),
    {
        if self.document.find(id).is_none() {
            return Mutation::unchanged();
        }
        self.push_history(None);
        let _copy = self.document.duplicate(id);
        Mutation::changed(RenderInvalidation::Composite)
    }

    fn delete_layer(&mut self, id: LayerId) -> (m: Mutation)
        requires
            old(self).wf(),
        ensures
            final(self).wf(),
            step(
                *old(self),
                PhotoEngineCommand::DeleteLayer(id),
                Resolution::Nothing,
                *final(self),
                m,
            ),
    {
        if self.document.root.len() <= 1 || self.document.find(id).is_none() {
            return Mutation::unchanged();
        }
        self.push_history(None);
        let _removed = self.document.remove(id);
        Mutation::changed(RenderInvalidation::Composite)
    }

    fn add_filter(&mut self, layer: LayerId, filter_type: String, filter: Option<FilterLayer>) -> (m:
        Mutation)
        requires
            old(self).wf(),
        ensures
            final(self).wf(),
            step(
                *old(self),
                PhotoEngineCommand::AddFilter { layer, filter_type, filter },
                Resolution::Nothing,
                *final(self),
                m,
            ),
    {
        let f = match filter {
            Some(f) => f,
            None => {
                let mut message = String::from_str("Filtre inconnu : ");
                message.append(filter_type.as_str());
                return Mutation::immediate(Reply::EngineError { message });
            },
        };
        if self.document.pixel_layer(layer).is_none() {
            return Mutation::unchanged();
        }
        self.push_history(None);
        let _id = self.document.add_filter(layer, f);
        Mutation::changed(RenderInvalidation::Composite)
    }

    fn export(&mut self, path: String, quality: u8, res: Resolution) -> (m: Mutation)
        requires
            old(self).wf(),
        ensures
            final(self).wf(),
            step(*old(self), PhotoEngineCommand::Export { path, quality }, res, *final(self), m),
    {
        match res {
            Resolution::Exported(Ok(())) => Mutation::immediate(Reply::ExportDone { path }),
            Resolution::Exported(Err(message)) => Mutation::immediate(Reply::EngineError { message }),
            _ => Mutation::unchanged(),
        }
    }

    fn rename_layer(&mut self, layer: LayerId, name: String) -> (m: Mutation)
        requires
            old(self).wf(),
        ensures
            final(self).wf(),
            step(
                *old(self),
                PhotoEngineCommand::RenameLayer { layer, name },
                Resolution::Nothing,
                *final(self),
                m,
            ),
    {
        let trimmed_name = trim_text(name.as_str());
        if trimmed_name.as_str().is_empty() || !self.document.can_rename(layer) {
            return Mutation::unchanged();
        }
        self.push_history(None);
        let ghost t = trimmed_name;
        let _done = self.document.set_name_any(layer, trimmed_name);
        proof {
            assert(t@ == trimmed(name@));
        }
        Mutation::changed(RenderInvalidation::StateOnly)
    }

    fn add_mask(&mut self, layer: LayerId) -> (m: Mutation)
        requires
            old(self).wf(),
        ensures
            final(self).wf(),
            step(
                *old(self),
                PhotoEngineCommand::AddMask { layer },
                Resolution::Nothing,
                *final(self),
                m,
            ),
    {
        if !self.document.has_mask_list(layer) {
            return Mutation::unchanged();
        }
        self.push_history(None);
        let width = if self.document.width == 0 {
            1
        } else {
            self.document.width
        };
        let height = if self.document.height == 0 {
            1
        } else {
            self.document.height
        };
        let count = match self.document.masks_of(layer) {
            Some(ms) => ms.len(),
            None => 0,
        };
        let number = if count < usize::MAX {
            count + 1
        } else {
            count
        };
        let v = self.document.next_version();
        let mut mask = LayerMask::full(width, height, v);
        mask.name = numbered("Masque ", number);
        let ghost mk = mask;
        self.document.append_mask(layer, mask);
        let ghost mid = self.document.root@;
        let ghost mid_clock = self.document.version_clock;
        self.document.touch_mask_owner(layer);
        proof {
            let d0 = old(self).doc();
            assert(fresh_mask(mk, width, height, d0.version_clock));
            assert(mk.name@ == "Masque "@ + decimal(
                sat_succ(masks_of_carrier(d0.root@, layer)->0.len() as int) as nat,
            ));
            assert(mask_op_result(
                d0.root@,
                next_tick(d0.version_clock),
                layer,
                MaskOp::Append(mk),
                mid,
                mid_clock,
            ));
        }
        Mutation::changed(RenderInvalidation::Composite)
    }

    fn remove_mask(&mut self, owner: LayerId, mask: LayerId) -> (m: Mutation)
        requires
            old(self).wf(),
        ensures
            final(self).wf(),
            step(
                *old(self),
                PhotoEngineCommand::RemoveMask { owner, mask },
                Resolution::Nothing,
                *final(self),
                m,
            ),
    {
        if !self.document.mask_op_allowed(owner, &MaskOp::RemoveAll(mask)) {
            return Mutation::unchanged();
        }
        self.push_history(None);
        self.document.remove_mask(owner, mask);
        let ghost mid = self.document.root@;
        let ghost mid_clock = self.document.version_clock;
        self.document.touch_mask_owner(owner);
        Mutation::changed(RenderInvalidation::Composite)
    }

    fn move_filter(&mut self, layer: LayerId, filter: LayerId, up: bool) -> (m: Mutation)
        requires
            old(self).wf(),
        ensures
            final(self).wf(),
            step(
                *old(self),
                PhotoEngineCommand::MoveFilter { layer, filter, up },
                Resolution::Nothing,
                *final(self),
                m,
            ),
    {
        if !self.document.can_move_filter(layer, filter, up) {
            return Mutation::unchanged();
        }
        self.push_history(None);
        self.document.move_filter(layer, filter, up);
        Mutation::changed(RenderInvalidation::Composite)
    }

    fn move_mask(&mut self, owner: LayerId, mask: LayerId, up: bool) -> (m: Mutation)
        requires
            old(self).wf(),
        ensures
            final(self).wf(),
            step(
                *old(self),
                PhotoEngineCommand::MoveMask { owner, mask, up },
                Resolution::Nothing,
                *final(self),
                m,
            ),
    {
        if !self.document.mask_op_allowed(owner, &MaskOp::Move(mask, up)) {
            return Mutation::unchanged();
        }
        self.push_history(None);
        self.document.move_mask(owner, mask, up);
        let ghost mid = self.document.root@;
        let ghost mid_clock = self.document.version_clock;
        self.document.touch_mask_owner(owner);
        Mutation::changed(RenderInvalidation::Composite)
    }

    fn remove_filter(&mut self, layer: LayerId, filter: LayerId) -> (m: Mutation)
        requires
            old(self).wf(),
        ensures
            final(self).wf(),
            step(
                *old(self),
                PhotoEngineCommand::RemoveFilter { layer, filter },
                Resolution::Nothing,
                *final(self),
                m,
            ),
    {
        if !self.document.has_filter(layer, filter) {
            return Mutation::unchanged();
        }
        self.push_history(None);
        let _removed = self.document.remove_filter(layer, filter);
        Mutation::changed(RenderInvalidation::Composite)
    }

    fn set_preview_clip(&mut self, clip: bool) -> (m: Mutation)
        requires
            old(self).wf(),
        ensures
            final(self).wf(),
            step(
                *old(self),
                PhotoEngineCommand::SetPreviewClip { clip },
                Resolution::Nothing,
                *final(self),
                m,
            ),
    {
        self.clip_to_doc = clip;
        Mutation::changed(RenderInvalidation::Composite)
    }
}

/// The worker and the answer after the mutation `m` left the worker `w`:
/// the first immediate answer when there is one, else the answer to the
/// change (a new composite only when the state changed and asks for one).
pub open spec fn answered(w: EngineWorker, m: Mutation, r: Reply, w1: EngineWorker) -> bool {
    if m.immediates@.len() > 0 {
        r == m.immediates@[0] && w1 == w
    } else {
        &&& w1.doc() == w.doc()
        &&& w1.undo_stack() == w.undo_stack()
        &&& w1.redo_stack() == w.redo_stack()
        &&& w1.coalesced() == w.coalesced()
        &&& w1.clip() == w.clip()
        &&& reply_for(
            w,
            if m.changed {
                m.invalidation
            } else {
                RenderInvalidation::Unchanged
            },
            r,
            w1,
        )
    }
}

/// Applying the command `c` to `w0` gives the answer `r` and the worker
/// `w1`.
pub open spec fn applied(w0: EngineWorker, c: PhotoEngineCommand, res: Resolution, r: Reply, w1: EngineWorker) -> bool {
    exists|w: EngineWorker, m: Mutation| step(w0, c, res, w, m) && answered(w, m, r, w1)
}

/// A run of the commands `cmds` from `w0`, each with the outcome of its
/// outside work in `rs`: `ws` are the workers before and after each
/// command, `ms` the mutations.
pub open spec fn run_trace(
    w0: EngineWorker,
    cmds: Seq<PhotoEngineCommand>,
    rs: Seq<Resolution>,
    ws: Seq<EngineWorker>,
    ms: Seq<Mutation>,
) -> bool {
    &&& ws.len() == cmds.len() + 1
    &&& ms.len() == cmds.len()
    &&& rs.len() == cmds.len()
    &&& ws[0] == w0
    &&& forall|i: int|
        0 <= i < cmds.len() ==> step(#[trigger] ws[i], cmds[i], rs[i], ws[i + 1], ms[i])
}

/// The immediate answers of a run of mutations, in order.
pub open spec fn all_immediates(ms: Seq<Mutation>) -> Seq<Reply>
    decreases ms.len(),
{
    if ms.len() == 0 {
        Seq::empty()
    } else {
        all_immediates(ms.drop_last()) + ms.last().immediates@
    }
}

/// The strongest invalidation of a run of mutations.
pub open spec fn strongest(ms: Seq<Mutation>) -> RenderInvalidation
    decreases ms.len(),
{
    if ms.len() == 0 {
        RenderInvalidation::Unchanged
    } else {
        stronger(strongest(ms.drop_last()), ms.last().invalidation)
    }
}

/// Whether some mutation of a run changed the state.
pub open spec fn any_change(ms: Seq<Mutation>) -> bool
    decreases ms.len(),
{
    ms.len() > 0 && (any_change(ms.drop_last()) || ms.last().changed)
}

/// A worker as a fresh one starts on the document `d`: empty history, no
/// gesture in progress, preview not cropped, revision zero.
pub open spec fn fresh_worker(w: EngineWorker, d: Document) -> bool {
    &&& w.wf()
    &&& w.doc() == d
    &&& w.undo_stack().len() == 0
    &&& w.redo_stack().len() == 0
    &&& w.coalesced() is None
    &&& !w.clip()
    &&& w.rev() == 0
}

/// Applies one command to a document without a persistent worker: the
/// document becomes what a fresh worker on it makes of it (no history is
/// kept).
pub fn apply_command(document: &mut Document, command: PhotoEngineCommand, res: Resolution)
    requires
        canvas_fits(*old(document)),
    ensures
        exists|w0: EngineWorker, w1: EngineWorker, m: Mutation|
            fresh_worker(w0, *old(document)) && step(w0, command, res, w1, m) && *final(document)
                == w1.doc(),
{
    let ghost c = command;
    let ghost rs = res;
    let mut taken = Document::new(0, 0);
    std::mem::swap(&mut taken, document);
    let mut worker = EngineWorker::new(taken);
    let ghost w0 = worker;
    let m = worker.mutate(command, res);
    let ghost w1 = worker;
    *document = worker.document;
    proof {
        assert(fresh_worker(w0, *old(document)) && step(w0, c, rs, w1, m) && *document == w1.doc());
    }
}

/// A batch in progress: the immediate answers so far, the strongest
/// invalidation and whether anything changed.
pub struct BatchState {
    /// Whether the folded batch held any command.
    pub had_commands: bool,
    pub max_invalidation: RenderInvalidation,
    pub changed: bool,
    pub replies: Vec<Reply>,
}

impl BatchState {
    /// A batch that starts, holding commands or not.
    pub fn new(had_commands: bool) -> (b: BatchState)
        ensures
            b.had_commands == had_commands,
            b.max_invalidation == RenderInvalidation::Unchanged,
            !b.changed,
            b.replies@.len() == 0,
    {
        BatchState {
            had_commands,
            max_invalidation: RenderInvalidation::Unchanged,
            changed: false,
            replies: Vec::new(),
        }
    }
}

impl EngineWorker {
    /// Applies one command, with the outcome of its outside work, without
    /// building an answer: the history is recorded per command, the
    /// mutation says what the render pipeline must do.
    pub fn mutate(&mut self, command: PhotoEngineCommand, res: Resolution) -> (m: Mutation)
        requires
            old(self).wf(),
        ensures
            final(self).wf(),
            step(*old(self), command, res, *final(self), m),
    {
        match command {
            PhotoEngineCommand::ToggleLayerVisibility(id) => self.toggle_visibility(id),
            PhotoEngineCommand::ReorderLayer { from, to } => self.reorder_layer(from, to),
            PhotoEngineCommand::SetOpacity { layer, opacity } => self.set_opacity(layer, opacity),
            PhotoEngineCommand::SetBlendMode { layer, mode } => self.set_blend_mode(layer, mode),
            PhotoEngineCommand::Undo => self.undo(),
            PhotoEngineCommand::Redo => self.redo(),
            PhotoEngineCommand::PaintStroke { layer, stroke } => self.paint_stroke(layer, stroke, res),
            PhotoEngineCommand::MoveLayer { layer, dx, dy } => self.move_layer(layer, dx, dy),
            PhotoEngineCommand::OpenImage { outcome } => self.open_image(outcome),
            PhotoEngineCommand::AddEmptyLayer => self.add_empty_layer(),
            PhotoEngineCommand::DuplicateLayer(id) => self.duplicate_layer(id),
            PhotoEngineCommand::DeleteLayer(id) => self.delete_layer(id),
            PhotoEngineCommand::AddFilter { layer, filter_type, filter } => self.add_filter(
                layer,
                filter_type,
                filter,
            ),
            PhotoEngineCommand::RenameLayer { layer, name } => self.rename_layer(layer, name),
            PhotoEngineCommand::AddMask { layer } => self.add_mask(layer),
            PhotoEngineCommand::RemoveMask { owner, mask } => self.remove_mask(owner, mask),
            PhotoEngineCommand::MoveFilter { layer, filter, up } => self.move_filter(layer, filter, up),
            PhotoEngineCommand::MoveMask { owner, mask, up } => self.move_mask(owner, mask, up),
            PhotoEngineCommand::RemoveFilter { layer, filter } => self.remove_filter(layer, filter),
            PhotoEngineCommand::Export { path, quality } => self.export(path, quality, res),
            PhotoEngineCommand::Refresh => Mutation::changed(RenderInvalidation::Composite),
            PhotoEngineCommand::SetPreviewClip { clip } => self.set_preview_clip(clip),
        }
    }

    /// Applies one command and answers it (always one answer): an
    /// immediate answer (export, failure) as it is, else the new state,
    /// with a new composite when the change asks for one. An invalid
    /// command (unknown identifier, index out of bounds) changes nothing
    /// and answers the state without a render.
    pub fn apply(&mut self, command: PhotoEngineCommand, res: Resolution) -> (r: Reply)
        requires
            old(self).wf(),
        ensures
            final(self).wf(),
            applied(*old(self), command, res, r, *final(self)),
    {
        let ghost c = command;
        let ghost rs = res;
        let mut m = self.mutate(command, res);
        let ghost w = *self;
        let ghost mg = m;
        if m.immediates.len() > 0 {
            let r = m.immediates.remove(0);
            proof {
                assert(answered(w, mg, r, *self));
            }
            return r;
        }
        let invalidation = if m.changed {
            m.invalidation
        } else {
            RenderInvalidation::Unchanged
        };
        let r = self.respond(invalidation);
        proof {
            assert(answered(w, mg, r, *self));
        }
        r
    }

    /// Applies one command of a batch: its immediate answers are kept, its
    /// invalidation joins the batch's.
    pub fn batch_step(&mut self, batch: &mut BatchState, command: PhotoEngineCommand, res: Resolution)
        requires
            old(self).wf(),
        ensures
            final(self).wf(),
            exists|m: Mutation| batch_stepped(*old(self), *old(batch), command, res, *final(self), *final(batch), m),
    {
        let ghost c = command;
        let ghost rs = res;
        let mut m = self.mutate(command, res);
        let ghost mg = m;
        batch.replies.append(&mut m.immediates);
        batch.max_invalidation = batch.max_invalidation.max(m.invalidation);
        batch.changed = batch.changed || m.changed;
        proof {
            assert(batch.replies@ =~= old(batch).replies@ + mg.immediates@);
            assert(batch_stepped(*old(self), *old(batch), c, rs, *self, *batch, mg));
        }
    }

    /// Ends a batch: one answer for the whole batch when something changed
    /// (one render at most), the state alone when it held only no-ops,
    /// nothing when it was empty; after the immediate answers.
    pub fn finish_batch(&mut self, batch: BatchState) -> (replies: Vec<Reply>)
        requires
            old(self).wf(),
        ensures
            final(self).wf(),
            final(self).doc() == old(self).doc(),
            final(self).undo_stack() == old(self).undo_stack(),
            final(self).redo_stack() == old(self).redo_stack(),
            final(self).coalesced() == old(self).coalesced(),
            final(self).clip() == old(self).clip(),
            batch_answers(
                *old(self),
                batch.replies@,
                batch.max_invalidation,
                batch.changed,
                batch.had_commands,
                replies@,
                *final(self),
            ),
    {
        let mut replies = batch.replies;
        let ghost before = replies@;
        if batch.changed {
            let r = self.respond(batch.max_invalidation);
            replies.push(r);
        } else if batch.had_commands {
            let r = self.respond(RenderInvalidation::Unchanged);
            replies.push(r);
        }
        replies
    }

    /// Applies a batch of waiting commands: folded first (the last value
    /// wins), then applied one by one with the history recorded per
    /// command, then answered once (one render at most for the whole
    /// batch), after the immediate answers (exports, failures) in order.
    /// No answer when the batch folds to nothing. Before each command,
    /// `outside` is handed the document as it stands and the command, and
    /// does the outside work the command needs (rasterising a stroke,
    /// writing an export); what it returns is that work's outcome.
    #[verifier::spinoff_prover]
    #[verifier::rlimit(50)]
    pub fn apply_batch<F>(&mut self, commands: Vec<PhotoEngineCommand>, outside: F) -> (replies: Vec<Reply>)
        where
            F: Fn(&Document, &PhotoEngineCommand) -> Resolution,
        requires
            old(self).wf(),
            forall|d: &Document, c: &PhotoEngineCommand| outside.requires((d, c)),
        ensures
            final(self).wf(),
            exists|ws: Seq<EngineWorker>, ms: Seq<Mutation>, rs: Seq<Resolution>|
                {
                    &&& run_trace(*old(self), folded_batch(commands@), rs, ws, ms)
                    &&& forall|i: int|
                        0 <= i < rs.len() ==> outside.ensures(
                            (&ws[i].doc(), &folded_batch(commands@)[i]),
                            #[trigger] rs[i],
                        )
                    &&& batch_answers(
                        ws.last(),
                        all_immediates(ms),
                        strongest(ms),
                        any_change(ms),
                        folded_batch(commands@).len() > 0,
                        replies@,
                        *final(self),
                    )
                },
    {
        let mut folded = fold_batch(commands);
        let ghost f = folded@;
        let count = folded.len();
        let mut batch = BatchState::new(count > 0);
        let ghost w_start = *self;
        let ghost mut ws: Seq<EngineWorker> = seq![*self];
        let ghost mut ms: Seq<Mutation> = Seq::empty();
        let ghost mut rs: Seq<Resolution> = Seq::empty();
        let mut k: usize = 0;
        while k < count
            invariant
                self.wf(),
                k <= count,
                count == f.len(),
                folded@ == f.subrange(k as int, count as int),
                batch.had_commands == (count > 0),
                forall|d: &Document, c: &PhotoEngineCommand| outside.requires((d, c)),
                ws[0] == w_start,
                run_trace(w_start, f.take(k as int), rs, ws, ms),
                forall|i: int|
                    0 <= i < rs.len() ==> outside.ensures((&ws[i].doc(), &f[i]), #[trigger] rs[i]),
                ws.last() == *self,
                batch.replies@ == all_immediates(ms),
                batch.max_invalidation == strongest(ms),
                batch.changed == any_change(ms),
            decreases count - k,
        {
            let command = folded.remove(0);
            assert(command == f[k as int]);
            let res = outside(&self.document, &command);
            let ghost wk = *self;
            let ghost bk = batch;
            let ghost rk = res;
            self.batch_step(&mut batch, command, res);
            proof {
                let m = choose|m: Mutation| batch_stepped(wk, bk, f[k as int], rk, *self, batch, m);
                let ws2 = ws.push(*self);
                let ms2 = ms.push(m);
                let rs2 = rs.push(rk);
                assert(ms2.drop_last() =~= ms);
                assert(f.take(k + 1) =~= f.take(k as int).push(f[k as int]));
                assert forall|i: int| 0 <= i < k + 1 implies step(
                    #[trigger] ws2[i],
                    f.take(k + 1)[i],
                    rs2[i],
                    ws2[i + 1],
                    ms2[i],
                ) by {
                    if i < k {
                        assert(step(ws[i], f.take(k as int)[i], rs[i], ws[i + 1], ms[i]));
                    }
                }
                assert forall|i: int| 0 <= i < rs2.len() implies outside.ensures(
                    (&ws2[i].doc(), &f[i]),
                    #[trigger] rs2[i],
                ) by {
                    if i < k {
                        assert(outside.ensures((&ws[i].doc(), &f[i]), rs[i]));
                    }
                }
                ws = ws2;
                ms = ms2;
                rs = rs2;
            }
            k += 1;
            assert(folded@ =~= f.subrange(k as int, count as int));
        }
        proof {
            assert(f.take(count as int) =~= f);
        }
        let replies = self.finish_batch(batch);
        proof {
            assert(run_trace(w_start, f, rs, ws, ms));
            assert(batch_answers(
                ws.last(),
                all_immediates(ms),
                strongest(ms),
                any_change(ms),
                f.len() > 0,
                replies@,
                *self,
            ));
        }
        replies
    }
}

/// How many answers of a sequence come with a new composite.
pub open spec fn render_count(replies: Seq<Reply>) -> nat
    decreases replies.len(),
{
    if replies.len() == 0 {
        0
    } else {
        render_count(replies.drop_last()) + if replies.last() is Render {
            1nat
        } else {
            0nat
        }
    }
}

/// A counter advanced by `n`, stopping at `u64::MAX`.
pub open spec fn counted(c: u64, n: nat) -> u64 {
    if c + n > u64::MAX {
        u64::MAX
    } else {
        (c + n) as u64
    }
}

/// Counters of the worker's answers (they change nothing it does): the
/// answers sent and, among them, those with a new composite.
pub struct WorkerMetrics {
    pub responses: u64,
    pub renders: u64,
}

impl WorkerMetrics {
    /// No answer counted yet.
    pub fn new() -> (m: WorkerMetrics)
        ensures
            m.responses == 0,
            m.renders == 0,
    {
        WorkerMetrics { responses: 0, renders: 0 }
    }

    /// Counts the answers of one command or one batch.
    pub fn record(&mut self, replies: &Vec<Reply>)
        ensures
            final(self).responses == counted(old(self).responses, replies@.len()),
            final(self).renders == counted(old(self).renders, render_count(replies@)),
    {
        let mut renders: u64 = 0;
        let mut k: usize = 0;
        while k < replies.len()
            invariant
                k <= replies@.len(),
                renders == render_count(replies@.take(k as int)),
                renders <= k,
            decreases replies@.len() - k,
        {
            assert(replies@.take(k + 1).drop_last() =~= replies@.take(k as int));
            if let Reply::Render { .. } = &replies[k] {
                renders = renders + 1;
            }
            k += 1;
        }
        assert(replies@.take(replies@.len() as int) =~= replies@);
        let n = replies.len() as u64;
        self.responses = self.responses.saturating_add(n);
        self.renders = self.renders.saturating_add(renders);
    }
}

/// One command `c` of a batch applied: the worker goes from `w0` to `w1`
/// with the mutation `m`, the batch from `b0` to `b1`.
pub open spec fn batch_stepped(
    w0: EngineWorker,
    b0: BatchState,
    c: PhotoEngineCommand,
    res: Resolution,
    w1: EngineWorker,
    b1: BatchState,
    m: Mutation,
) -> bool {
    &&& step(w0, c, res, w1, m)
    &&& b1.replies@ == b0.replies@ + m.immediates@
    &&& b1.max_invalidation == stronger(b0.max_invalidation, m.invalidation)
    &&& b1.changed == (b0.changed || m.changed)
    &&& b1.had_commands == b0.had_commands
}

/// The answers that end a batch on the worker `w0`, leaving `w1`: after
/// the immediate answers `before`, one answer with the strongest
/// invalidation `max` when something changed, the state alone when the
/// batch held only no-ops, nothing when it was empty. Answering changes
/// neither the document nor the history.
pub open spec fn batch_answers(
    w0: EngineWorker,
    before: Seq<Reply>,
    max: RenderInvalidation,
    changed: bool,
    had_commands: bool,
    replies: Seq<Reply>,
    w1: EngineWorker,
) -> bool {
    &&& w1.doc() == w0.doc()
    &&& w1.undo_stack() == w0.undo_stack()
    &&& w1.redo_stack() == w0.redo_stack()
    &&& w1.coalesced() == w0.coalesced()
    &&& w1.clip() == w0.clip()
    &&& if changed {
        exists|r: Reply| replies == before.push(r) && reply_for(w0, max, r, w1)
    } else if had_commands {
        exists|r: Reply| replies == before.push(r) && reply_for(w0, RenderInvalidation::Unchanged, r, w1)
    } else {
        replies == before && w1 == w0
    }
}

// ---------------------------------------------------------------------------
// Laws of the worker
// ---------------------------------------------------------------------------

/// The history never holds more than `HISTORY_LIMIT` snapshots, undo and
/// redo together: every operation of the worker keeps `wf`.
pub proof fn law_history_bounded(w: EngineWorker)
    requires
        w.wf(),
    ensures
        w.undo_stack().len() + w.redo_stack().len() <= HISTORY_LIMIT,
{
}

/// A command other than undo and redo either leaves the undo stack as it
/// is or pushes on it a snapshot of the document as it was before the
/// command (never after).
pub proof fn law_history_records_state_before(
    w0: EngineWorker,
    c: PhotoEngineCommand,
    res: Resolution,
    w1: EngineWorker,
    m: Mutation,
)
    requires
        !(c is Undo),
        !(c is Redo),
        step(w0, c, res, w1, m),
    ensures
        w1.undo_stack() == w0.undo_stack() || exists|s: Snapshot|
            snapshot_of(w0.doc(), s) && w1.undo_stack() == bounded_push(w0.undo_stack(), s),
{
}

/// Undoing a command that recorded an entry gives back the document as it
/// was before the command: same size, and an exact copy of its forest.
pub proof fn law_undo_restores(
    w0: EngineWorker,
    c: PhotoEngineCommand,
    res: Resolution,
    w1: EngineWorker,
    m1: Mutation,
    w2: EngineWorker,
    m2: Mutation,
)
    requires
        !(c is Undo),
        !(c is Redo),
        step(w0, c, res, w1, m1),
        w1.undo_stack() != w0.undo_stack(),
        step(w1, PhotoEngineCommand::Undo, Resolution::Nothing, w2, m2),
    ensures
        m2.changed,
        w2.doc().width == w0.doc().width,
        w2.doc().height == w0.doc().height,
        forest_copied(w0.doc().root@, w2.doc().root@, false),
{
    law_history_records_state_before(w0, c, res, w1, m1);
    let s = choose|s: Snapshot|
        snapshot_of(w0.doc(), s) && w1.undo_stack() == bounded_push(w0.undo_stack(), s);
    assert(w1.undo_stack().last() == s);
}

/// Redoing right after an undo gives back the document as it was before
/// the undo: same size, and an exact copy of its forest.
pub proof fn law_redo_after_undo_restores(
    w0: EngineWorker,
    w1: EngineWorker,
    m1: Mutation,
    w2: EngineWorker,
    m2: Mutation,
)
    requires
        w0.undo_stack().len() > 0,
        step(w0, PhotoEngineCommand::Undo, Resolution::Nothing, w1, m1),
        step(w1, PhotoEngineCommand::Redo, Resolution::Nothing, w2, m2),
    ensures
        m2.changed,
        w2.doc().width == w0.doc().width,
        w2.doc().height == w0.doc().height,
        forest_copied(w0.doc().root@, w2.doc().root@, false),
{
    let t = choose|t: Snapshot| snapshot_of(w0.doc(), t) && w1.redo_stack() == w0.redo_stack().push(t);
    assert(w1.redo_stack().last() == t);
}

/// Undo with an empty history changes nothing and asks for no render.
pub proof fn law_undo_without_history_is_noop(
    w0: EngineWorker,
    res: Resolution,
    w1: EngineWorker,
    m: Mutation,
)
    requires
        w0.undo_stack().len() == 0,
        step(w0, PhotoEngineCommand::Undo, res, w1, m),
    ensures
        w1 == w0,
        !m.changed,
        m.invalidation == RenderInvalidation::Unchanged,
{
}

/// A slider gesture is recorded once: an opacity change of a layer right
/// after an opacity change of the same layer adds nothing to the history.
pub proof fn law_opacity_gesture_recorded_once(
    w0: EngineWorker,
    layer: LayerId,
    first: i64,
    second: i64,
    res1: Resolution,
    res2: Resolution,
    w1: EngineWorker,
    m1: Mutation,
    w2: EngineWorker,
    m2: Mutation,
)
    requires
        step(w0, PhotoEngineCommand::SetOpacity { layer, opacity: first }, res1, w1, m1),
        m1.changed,
        step(w1, PhotoEngineCommand::SetOpacity { layer, opacity: second }, res2, w2, m2),
    ensures
        w2.undo_stack() == w1.undo_stack(),
        w2.redo_stack() == w1.redo_stack(),
{
    assert(w1.coalesced() == Some(layer));
}

/// Whether a command is of a kind that folding merges.
pub open spec fn foldable_kind(c: PhotoEngineCommand) -> bool {
    c is SetOpacity || c is MoveLayer
}

/// The commands of a list of another kind than those folding merges, in
/// order.
pub open spec fn other_commands(s: Seq<PhotoEngineCommand>) -> Seq<PhotoEngineCommand>
    decreases s.len(),
{
    if s.len() == 0 {
        Seq::empty()
    } else {
        let o = other_commands(s.drop_last());
        if foldable_kind(s.last()) {
            o
        } else {
            o.push(s.last())
        }
    }
}

proof fn lemma_folded_prefix_others(cmds: Seq<PhotoEngineCommand>, n: int)
    requires
        0 <= n <= cmds.len(),
    ensures
        other_commands(folded_prefix(cmds, n)) == other_commands(cmds.take(n)),
        folded_prefix(cmds, n).len() <= n,
    decreases n,
{
    if n > 0 {
        lemma_folded_prefix_others(cmds, n - 1);
        let acc = folded_prefix(cmds, n - 1);
        let c = cmds[n - 1];
        assert(cmds.take(n).drop_last() =~= cmds.take(n - 1));
        assert(cmds.take(n).last() == c);
        if acc.len() > 0 && folds_into(acc.last(), c) {
            let new = acc.update(acc.len() - 1, folded_pair(acc.last(), c));
            assert(new.drop_last() =~= acc.drop_last());
        } else {
            assert(acc.push(c).drop_last() =~= acc);
        }
    }
}

proof fn lemma_without_still_moves_others(f: Seq<PhotoEngineCommand>, n: int)
    requires
        0 <= n <= f.len(),
    ensures
        other_commands(without_still_moves(f, n)) == other_commands(f.take(n)),
        without_still_moves(f, n).len() <= n,
    decreases n,
{
    if n > 0 {
        lemma_without_still_moves_others(f, n - 1);
        assert(f.take(n).drop_last() =~= f.take(n - 1));
        assert(f.take(n).last() == f[n - 1]);
        let rest = without_still_moves(f, n - 1);
        assert(rest.push(f[n - 1]).drop_last() =~= rest);
    }
}

/// Folding a batch never crosses a command of another kind than the
/// opacities and moves it merges: those commands (undo, redo, structural
/// edits...) come out all, in the same order; and the batch never grows.
pub proof fn law_fold_keeps_other_commands(cmds: Seq<PhotoEngineCommand>)
    ensures
        other_commands(folded_batch(cmds)) == other_commands(cmds),
        folded_batch(cmds).len() <= cmds.len(),
{
    let f = folded_prefix(cmds, cmds.len() as int);
    lemma_folded_prefix_others(cmds, cmds.len() as int);
    lemma_without_still_moves_others(f, f.len() as int);
    assert(cmds.take(cmds.len() as int) =~= cmds);
    assert(f.take(f.len() as int) =~= f);
}

/// Deleting never empties the layer stack: after a `DeleteLayer` the root
/// still holds a node when it held one before (a node alone is never
/// deleted; a node inside a group leaves the root as long as it was).
pub proof fn law_delete_keeps_a_layer(w0: EngineWorker, id: LayerId, w1: EngineWorker, m: Mutation)
    requires
        w0.wf(),
        w0.doc().root@.len() >= 1,
        step(w0, PhotoEngineCommand::DeleteLayer(id), Resolution::Nothing, w1, m),
    ensures
        w1.doc().root@.len() >= 1,
{
    let r0 = w0.doc().root@;
    let r1 = w1.doc().root@;
    if r0.len() > 1 && find_node(r0, id) is Some {
        let removed = choose|removed: Option<LayerNode>| remove_result(r0, id, removed, r1);
        crate::forest::lemma_find_iff_locate(r0, id);
        crate::forest::lemma_locate(r0, id);
        let (p, i) = crate::forest::locate(r0, id)->0;
        if p.len() == 0 {
            assert(r1 == r0.remove(i));
        }
    }
}

/// Deleting a node whose identifier no other node of the forest carries
/// (its descendants included) removes that identifier: afterwards no node
/// has it. (The root must hold more than one node: a node alone is never
/// deleted.)
pub proof fn law_delete_removes_the_identifier(w0: EngineWorker, id: LayerId, w1: EngineWorker, m: Mutation)
    requires
        w0.wf(),
        w0.doc().root@.len() > 1,
        crate::occurrences::id_count(w0.doc().root@, id) == 1,
        step(w0, PhotoEngineCommand::DeleteLayer(id), Resolution::Nothing, w1, m),
    ensures
        find_node(w1.doc().root@, id) is None,
{
    let r0 = w0.doc().root@;
    let r1 = w1.doc().root@;
    crate::occurrences::lemma_count_occurs(r0, id, 0);
    crate::forest::lemma_find_iff_locate(r0, id);
    crate::forest::lemma_find_loc_occurs(r0, id, 0);
    let removed = choose|removed: Option<LayerNode>| remove_result(r0, id, removed, r1);
    crate::forest::lemma_locate(r0, id);
    let (p, i) = crate::forest::locate(r0, id)->0;
    crate::occurrences::lemma_count_removed(r0, p, i, r1, id);
    crate::occurrences::lemma_count_occurs(r1, id, 0);
    crate::forest::lemma_find_iff_locate(r1, id);
}

/// The displacement a command gives the layer `layer`: its move when it
/// moves that layer, nothing otherwise.
pub open spec fn move_of(c: PhotoEngineCommand, layer: LayerId) -> (int, int) {
    match c {
        PhotoEngineCommand::MoveLayer { layer: l, dx, dy } => if l == layer {
            (dx as int, dy as int)
        } else {
            (0, 0)
        },
        _ => (0, 0),
    }
}

/// The total displacement a list of commands gives the layer `layer`.
pub open spec fn total_move(cmds: Seq<PhotoEngineCommand>, layer: LayerId) -> (int, int)
    decreases cmds.len(),
{
    if cmds.len() == 0 {
        (0, 0)
    } else {
        let t = total_move(cmds.drop_last(), layer);
        let m = move_of(cmds.last(), layer);
        (t.0 + m.0, t.1 + m.1)
    }
}

/// The largest step of a move the displacement law covers (a drag step of
/// over four billion units of a pixel's millionth is none a window makes).
pub open spec fn step_bound() -> int {
    0x1_0000_0000
}

/// A batch of fewer than 2^30 commands whose moves each step by at most
/// `step_bound` along each axis: no sum of its moves saturates.
pub open spec fn moves_bounded(cmds: Seq<PhotoEngineCommand>) -> bool {
    &&& cmds.len() <= 0x4000_0000
    &&& forall|i: int|
        0 <= i < cmds.len() ==> (#[trigger] cmds[i] matches PhotoEngineCommand::MoveLayer { dx, dy, .. }
            ==> -step_bound() <= dx <= step_bound() && -step_bound() <= dy <= step_bound())
}

/// Every move of a list steps by at most `bound` along each axis.
pub open spec fn moves_within(cmds: Seq<PhotoEngineCommand>, bound: int) -> bool {
    forall|i: int|
        0 <= i < cmds.len() ==> (#[trigger] cmds[i] matches PhotoEngineCommand::MoveLayer { dx, dy, .. }
            ==> -bound <= dx <= bound && -bound <= dy <= bound)
}

/// Folding the first `n` commands keeps the displacement of every layer,
/// and keeps each move within `n` steps.
proof fn lemma_folded_prefix_moves(cmds: Seq<PhotoEngineCommand>, n: int, layer: LayerId)
    requires
        0 <= n <= cmds.len(),
        moves_bounded(cmds),
    ensures
        total_move(folded_prefix(cmds, n), layer) == total_move(cmds.take(n), layer),
        moves_within(folded_prefix(cmds, n), n * step_bound()),
    decreases n,
{
    if n > 0 {
        lemma_folded_prefix_moves(cmds, n - 1, layer);
        let acc = folded_prefix(cmds, n - 1);
        let c = cmds[n - 1];
        assert(cmds.take(n).drop_last() =~= cmds.take(n - 1));
        assert(cmds.take(n).last() == c);
        assert(c matches PhotoEngineCommand::MoveLayer { dx, dy, .. } ==> -step_bound() <= dx
            <= step_bound() && -step_bound() <= dy <= step_bound());
        if acc.len() > 0 && folds_into(acc.last(), c) {
            let k = acc.len() - 1;
            let f = folded_pair(acc.last(), c);
            let new = acc.update(k, f);
            assert(new.drop_last() =~= acc.drop_last());
            assert(new.last() == f);
            assert(acc[k] == acc.last());
            match (acc.last(), c) {
                (
                    PhotoEngineCommand::MoveLayer { layer: a, dx, dy },
                    PhotoEngineCommand::MoveLayer { dx: ndx, dy: ndy, .. },
                ) => {
                    assert(-(n - 1) * step_bound() <= dx <= (n - 1) * step_bound());
                    assert(-(n - 1) * step_bound() <= dy <= (n - 1) * step_bound());
                    assert(n * step_bound() <= 0x4000_0000 * 0x1_0000_0000);
                    assert(f == PhotoEngineCommand::MoveLayer {
                        layer: a,
                        dx: (dx + ndx) as i64,
                        dy: (dy + ndy) as i64,
                    });
                },
                _ => {},
            }
            assert forall|i: int| 0 <= i < new.len() implies (#[trigger] new[i] matches PhotoEngineCommand::MoveLayer {
                dx,
                dy,
                ..
            } ==> -(n * step_bound()) <= dx <= n * step_bound() && -(n * step_bound()) <= dy
                <= n * step_bound()) by {
                if i < k {
                    assert(new[i] == acc[i]);
                }
            }
        } else {
            let new = acc.push(c);
            assert(new.drop_last() =~= acc);
            assert forall|i: int| 0 <= i < new.len() implies (#[trigger] new[i] matches PhotoEngineCommand::MoveLayer {
                dx,
                dy,
                ..
            } ==> -(n * step_bound()) <= dx <= n * step_bound() && -(n * step_bound()) <= dy
                <= n * step_bound()) by {
                if i < acc.len() {
                    assert(new[i] == acc[i]);
                }
            }
        }
    }
}

/// Dropping moves by nothing keeps the displacement of every layer.
proof fn lemma_without_still_moves_total(f: Seq<PhotoEngineCommand>, m: int, layer: LayerId)
    requires
        0 <= m <= f.len(),
    ensures
        total_move(without_still_moves(f, m), layer) == total_move(f.take(m), layer),
    decreases m,
{
    if m > 0 {
        lemma_without_still_moves_total(f, m - 1, layer);
        assert(f.take(m).drop_last() =~= f.take(m - 1));
        assert(f.take(m).last() == f[m - 1]);
        let rest = without_still_moves(f, m - 1);
        assert(rest.push(f[m - 1]).drop_last() =~= rest);
    }
}

/// Folding a batch keeps, for every layer, the total displacement of its
/// moves (as long as no sum saturates): consecutive moves are summed, and
/// only moves by nothing are dropped, so a move along either axis is
/// never lost.
pub proof fn law_fold_keeps_displacement(cmds: Seq<PhotoEngineCommand>, layer: LayerId)
    requires
        moves_bounded(cmds),
    ensures
        total_move(folded_batch(cmds), layer) == total_move(cmds, layer),
{
    lemma_folded_prefix_moves(cmds, cmds.len() as int, layer);
    assert(cmds.take(cmds.len() as int) =~= cmds);
    let f = folded_prefix(cmds, cmds.len() as int);
    lemma_without_still_moves_total(f, f.len() as int, layer);
    assert(f.take(f.len() as int) =~= f);
}

/// The last opacity a list of commands sets on the layer `layer`, if any.
pub open spec fn last_opacity(cmds: Seq<PhotoEngineCommand>, layer: LayerId) -> Option<i64>
    decreases cmds.len(),
{
    if cmds.len() == 0 {
        None
    } else {
        match cmds.last() {
            PhotoEngineCommand::SetOpacity { layer: l, opacity } => if l == layer {
                Some(opacity)
            } else {
                last_opacity(cmds.drop_last(), layer)
            },
            _ => last_opacity(cmds.drop_last(), layer),
        }
    }
}

/// Folding the first `n` commands keeps the last opacity of every layer.
proof fn lemma_folded_prefix_opacity(cmds: Seq<PhotoEngineCommand>, n: int, layer: LayerId)
    requires
        0 <= n <= cmds.len(),
    ensures
        last_opacity(folded_prefix(cmds, n), layer) == last_opacity(cmds.take(n), layer),
    decreases n,
{
    if n > 0 {
        lemma_folded_prefix_opacity(cmds, n - 1, layer);
        let acc = folded_prefix(cmds, n - 1);
        let c = cmds[n - 1];
        assert(cmds.take(n).drop_last() =~= cmds.take(n - 1));
        assert(cmds.take(n).last() == c);
        if acc.len() > 0 && folds_into(acc.last(), c) {
            let k = acc.len() - 1;
            let new = acc.update(k, folded_pair(acc.last(), c));
            assert(new.drop_last() =~= acc.drop_last());
            assert(new.last() == folded_pair(acc.last(), c));
        } else {
            assert(acc.push(c).drop_last() =~= acc);
        }
    }
}

/// Dropping moves by nothing keeps the last opacity of every layer.
proof fn lemma_without_still_moves_opacity(f: Seq<PhotoEngineCommand>, m: int, layer: LayerId)
    requires
        0 <= m <= f.len(),
    ensures
        last_opacity(without_still_moves(f, m), layer) == last_opacity(f.take(m), layer),
    decreases m,
{
    if m > 0 {
        lemma_without_still_moves_opacity(f, m - 1, layer);
        assert(f.take(m).drop_last() =~= f.take(m - 1));
        assert(f.take(m).last() == f[m - 1]);
        let rest = without_still_moves(f, m - 1);
        assert(rest.push(f[m - 1]).drop_last() =~= rest);
    }
}

/// Folding a batch keeps, for every layer, the last opacity the batch
/// sets on it: the last value of a slider gesture wins and is never lost.
pub proof fn law_fold_keeps_last_opacity(cmds: Seq<PhotoEngineCommand>, layer: LayerId)
    ensures
        last_opacity(folded_batch(cmds), layer) == last_opacity(cmds, layer),
{
    lemma_folded_prefix_opacity(cmds, cmds.len() as int, layer);
    assert(cmds.take(cmds.len() as int) =~= cmds);
    let f = folded_prefix(cmds, cmds.len() as int);
    lemma_without_still_moves_opacity(f, f.len() as int, layer);
    assert(f.take(f.len() as int) =~= f);
}

} // verus!
