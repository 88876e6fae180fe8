//! The shell of the photo window, independently of any drawing toolkit:
//! the actions that panels, menus and the canvas emit, how one is routed
//! (a change of the interface's own state, a command for the document's
//! engine, or work for the window), and what an engine answer changes.

use crate::blend::BlendMode;
use crate::command::RenderRevision;
use crate::ids::{LayerId, first_index, lemma_first_index};
use crate::interface::{FilterModalState, MenuAvailability, PhotoCanvasTool, PhotoLayerInfo};
use crate::text::{trim_text, trimmed};
use crate::worker::PhotoEngineCommand;
use vstd::prelude::*;

verus! {

// ---------------------------------------------------------------------------
// Actions
// ---------------------------------------------------------------------------

/// A tab of the dock.
#[derive(Debug, Clone, Copy, PartialEq, Eq, Hash, Structural)]
pub enum PhotoDockTab {
    /// The compact tool rail.
    Tools,
    /// The canvas of the document with this identifier.
    Canvas(LayerId),
    /// The inspector of the selected layer.
    Inspector,
    /// The list of layers.
    Layers,
}

/// An action emitted by a panel, the canvas or a menu. Layer identifiers
/// are resolved when it is emitted; opacities are thousandths of a
/// percent and moves fixed-point document pixels.
#[derive(Debug, Clone, PartialEq)]
pub enum PhotoAction {
    /// Opens the "New document" window.
    OpenNewDocumentDialog,
    /// Creates a document of the given size in a new tab.
    CreateDocument { width: u32, height: u32 },
    /// Opens the image file picker.
    OpenImageDialog,
    /// Opens the "Export" window.
    OpenExportDialog,
    /// Exports the active document (its folder is created if needed).
    ExportDocument { path: String, quality: u8 },
    /// Closes the active tab.
    CloseTab,
    Undo,
    Redo,
    /// A new empty layer.
    AddEmptyLayer,
    /// A layer from an image (file picker).
    AddImageLayer,
    /// Duplicates the selected layer (nothing without a selection).
    DuplicateSelectedLayer,
    /// Deletes the selected layer (nothing without a selection).
    DeleteSelectedLayer,
    /// Deletes this layer (from its row).
    DeleteLayer(LayerId),
    /// Duplicates this layer (context menu).
    DuplicateLayer(LayerId),
    /// Adds a mask to the selected layer (nothing without a selection).
    AddMaskToSelected,
    /// Opens the add-filter window.
    OpenFilterMenu,
    /// Adds a live filter of a registry type.
    AddFilter { layer: LayerId, filter_type: String },
    /// Selects a layer (interface state only).
    SelectLayer(LayerId),
    RenameLayer { layer: LayerId, name: String },
    /// Moves a root layer (display indices).
    ReorderLayers { from: usize, to: usize },
    ToggleLayerVisibility(LayerId),
    SetOpacity { layer: LayerId, opacity: i64 },
    SetBlendMode { layer: LayerId, mode: BlendMode },
    MoveFilter { layer: LayerId, filter: LayerId, up: bool },
    MoveMask { owner: LayerId, mask: LayerId, up: bool },
    RemoveFilter { layer: LayerId, filter: LayerId },
    RemoveMask { owner: LayerId, mask: LayerId },
    /// Changes the canvas tool (interface state only).
    SetTool(PhotoCanvasTool),
    /// Shows or hides the canvas grid (interface state only).
    ToggleGrid,
    /// Crops the preview to the document or shows the plane around it.
    TogglePreviewClip,
    ZoomIn,
    ZoomOut,
    ZoomReset,
    /// Commits a brush or eraser stroke that the canvas recorded.
    CommitStroke { layer: LayerId, stroke: usize },
    /// Moves a pixel layer (move tool, on release).
    MoveLayer { layer: LayerId, dx: i64, dy: i64 },
    /// Opens a closed dock tab again.
    ShowDockTab(PhotoDockTab),
    /// Restores the default dock layout.
    ResetDockLayout,
    ShowHelp,
    Quit,
}

/// An entry of the menu bar.
#[derive(Debug, Clone, Copy, PartialEq, Eq, Structural)]
pub enum PhotoMenuAction {
    NewDocument,
    OpenImage,
    Export,
    Quit,
    Undo,
    Redo,
    AddEmptyLayer,
    DuplicateLayer,
    AddMask,
    DeleteLayer,
    ToggleGrid,
    ZoomIn,
    ZoomOut,
    ZoomReset,
    CloseDocument,
    ShowDockTab(PhotoDockTab),
    ResetDockLayout,
    ShowHelp,
}

/// What a menu entry asks of the shell.
pub open spec fn menu_action_of(a: PhotoMenuAction) -> PhotoAction {
    match a {
        PhotoMenuAction::NewDocument => PhotoAction::OpenNewDocumentDialog,
        PhotoMenuAction::OpenImage => PhotoAction::OpenImageDialog,
        PhotoMenuAction::Export => PhotoAction::OpenExportDialog,
        PhotoMenuAction::Quit => PhotoAction::Quit,
        PhotoMenuAction::Undo => PhotoAction::Undo,
        PhotoMenuAction::Redo => PhotoAction::Redo,
        PhotoMenuAction::AddEmptyLayer => PhotoAction::AddEmptyLayer,
        PhotoMenuAction::DuplicateLayer => PhotoAction::DuplicateSelectedLayer,
        PhotoMenuAction::AddMask => PhotoAction::AddMaskToSelected,
        PhotoMenuAction::DeleteLayer => PhotoAction::DeleteSelectedLayer,
        PhotoMenuAction::ToggleGrid => PhotoAction::ToggleGrid,
        PhotoMenuAction::ZoomIn => PhotoAction::ZoomIn,
        PhotoMenuAction::ZoomOut => PhotoAction::ZoomOut,
        PhotoMenuAction::ZoomReset => PhotoAction::ZoomReset,
        PhotoMenuAction::CloseDocument => PhotoAction::CloseTab,
        PhotoMenuAction::ShowDockTab(tab) => PhotoAction::ShowDockTab(tab),
        PhotoMenuAction::ResetDockLayout => PhotoAction::ResetDockLayout,
        PhotoMenuAction::ShowHelp => PhotoAction::ShowHelp,
    }
}

/// Converts a menu entry into an action of the shell.
pub fn menu_action_to_photo(action: PhotoMenuAction) -> (r: PhotoAction)
    ensures
        r == menu_action_of(action),
{
    match action {
        PhotoMenuAction::NewDocument => PhotoAction::OpenNewDocumentDialog,
        PhotoMenuAction::OpenImage => PhotoAction::OpenImageDialog,
        PhotoMenuAction::Export => PhotoAction::OpenExportDialog,
        PhotoMenuAction::Quit => PhotoAction::Quit,
        PhotoMenuAction::Undo => PhotoAction::Undo,
        PhotoMenuAction::Redo => PhotoAction::Redo,
        PhotoMenuAction::AddEmptyLayer => PhotoAction::AddEmptyLayer,
        PhotoMenuAction::DuplicateLayer => PhotoAction::DuplicateSelectedLayer,
        PhotoMenuAction::AddMask => PhotoAction::AddMaskToSelected,
        PhotoMenuAction::DeleteLayer => PhotoAction::DeleteSelectedLayer,
        PhotoMenuAction::ToggleGrid => PhotoAction::ToggleGrid,
        PhotoMenuAction::ZoomIn => PhotoAction::ZoomIn,
        PhotoMenuAction::ZoomOut => PhotoAction::ZoomOut,
        PhotoMenuAction::ZoomReset => PhotoAction::ZoomReset,
        PhotoMenuAction::CloseDocument => PhotoAction::CloseTab,
        PhotoMenuAction::ShowDockTab(tab) => PhotoAction::ShowDockTab(tab),
        PhotoMenuAction::ResetDockLayout => PhotoAction::ResetDockLayout,
        PhotoMenuAction::ShowHelp => PhotoAction::ShowHelp,
    }
}

/// An action of the layers panel.
#[derive(Debug, Clone, PartialEq)]
pub enum LayerPanelAction {
    AddImage,
    AddEmpty,
    Duplicate,
    OpenFilterMenu,
    AddMask,
    Delete,
    Select(LayerId),
    RenameCommit { layer: LayerId, name: String },
    Reorder { from: usize, to: usize },
    ToggleVisibility(LayerId),
    DeleteLayer(LayerId),
    DuplicateLayer(LayerId),
    MoveFilter { layer: LayerId, filter: LayerId, up: bool },
    MoveMask { owner: LayerId, mask: LayerId, up: bool },
    RemoveFilter { layer: LayerId, filter: LayerId },
    RemoveMask { owner: LayerId, mask: LayerId },
    SetOpacity { layer: LayerId, opacity: i64 },
    SetBlendMode { layer: LayerId, mode: BlendMode },
}

/// What an action of the layers panel asks of the shell.
pub open spec fn panel_action_of(a: LayerPanelAction) -> PhotoAction {
    match a {
        LayerPanelAction::AddImage => PhotoAction::AddImageLayer,
        LayerPanelAction::AddEmpty => PhotoAction::AddEmptyLayer,
        LayerPanelAction::Duplicate => PhotoAction::DuplicateSelectedLayer,
        LayerPanelAction::OpenFilterMenu => PhotoAction::OpenFilterMenu,
        LayerPanelAction::AddMask => PhotoAction::AddMaskToSelected,
        LayerPanelAction::Delete => PhotoAction::DeleteSelectedLayer,
        LayerPanelAction::Select(id) => PhotoAction::SelectLayer(id),
        LayerPanelAction::RenameCommit { layer, name } => PhotoAction::RenameLayer { layer, name },
        LayerPanelAction::Reorder { from, to } => PhotoAction::ReorderLayers { from, to },
        LayerPanelAction::ToggleVisibility(id) => PhotoAction::ToggleLayerVisibility(id),
        LayerPanelAction::DeleteLayer(id) => PhotoAction::DeleteLayer(id),
        LayerPanelAction::DuplicateLayer(id) => PhotoAction::DuplicateLayer(id),
        LayerPanelAction::MoveFilter { layer, filter, up } => PhotoAction::MoveFilter { layer, filter, up },
        LayerPanelAction::MoveMask { owner, mask, up } => PhotoAction::MoveMask { owner, mask, up },
        LayerPanelAction::RemoveFilter { layer, filter } => PhotoAction::RemoveFilter { layer, filter },
        LayerPanelAction::RemoveMask { owner, mask } => PhotoAction::RemoveMask { owner, mask },
        LayerPanelAction::SetOpacity { layer, opacity } => PhotoAction::SetOpacity { layer, opacity },
        LayerPanelAction::SetBlendMode { layer, mode } => PhotoAction::SetBlendMode { layer, mode },
    }
}

/// Converts an action of the layers panel into an action of the shell
/// (only the selection stays with the interface).
pub fn layer_panel_action_to_photo(action: LayerPanelAction) -> (r: PhotoAction)
    ensures
        r == panel_action_of(action),
{
    match action {
        LayerPanelAction::AddImage => PhotoAction::AddImageLayer,
        LayerPanelAction::AddEmpty => PhotoAction::AddEmptyLayer,
        LayerPanelAction::Duplicate => PhotoAction::DuplicateSelectedLayer,
        LayerPanelAction::OpenFilterMenu => PhotoAction::OpenFilterMenu,
        LayerPanelAction::AddMask => PhotoAction::AddMaskToSelected,
        LayerPanelAction::Delete => PhotoAction::DeleteSelectedLayer,
        LayerPanelAction::Select(id) => PhotoAction::SelectLayer(id),
        LayerPanelAction::RenameCommit { layer, name } => PhotoAction::RenameLayer { layer, name },
        LayerPanelAction::Reorder { from, to } => PhotoAction::ReorderLayers { from, to },
        LayerPanelAction::ToggleVisibility(id) => PhotoAction::ToggleLayerVisibility(id),
        LayerPanelAction::DeleteLayer(id) => PhotoAction::DeleteLayer(id),
        LayerPanelAction::DuplicateLayer(id) => PhotoAction::DuplicateLayer(id),
        LayerPanelAction::MoveFilter { layer, filter, up } => PhotoAction::MoveFilter { layer, filter, up },
        LayerPanelAction::MoveMask { owner, mask, up } => PhotoAction::MoveMask { owner, mask, up },
        LayerPanelAction::RemoveFilter { layer, filter } => PhotoAction::RemoveFilter { layer, filter },
        LayerPanelAction::RemoveMask { owner, mask } => PhotoAction::RemoveMask { owner, mask },
        LayerPanelAction::SetOpacity { layer, opacity } => PhotoAction::SetOpacity { layer, opacity },
        LayerPanelAction::SetBlendMode { layer, mode } => PhotoAction::SetBlendMode { layer, mode },
    }
}

/// An action of the inspector.
#[derive(Debug, Clone, Copy, PartialEq, Eq, Structural)]
pub enum InspectorAction {
    ToggleVisibility(LayerId),
    SetOpacity { layer: LayerId, opacity: i64 },
}

/// Converts an action of the inspector into an action of the shell.
pub fn inspector_action_to_photo(action: InspectorAction) -> (r: PhotoAction)
    ensures
        r == match action {
            InspectorAction::ToggleVisibility(id) => PhotoAction::ToggleLayerVisibility(id),
            InspectorAction::SetOpacity { layer, opacity } => PhotoAction::SetOpacity {
                layer,
                opacity,
            },
        },
{
    match action {
        InspectorAction::ToggleVisibility(id) => PhotoAction::ToggleLayerVisibility(id),
        InspectorAction::SetOpacity { layer, opacity } => PhotoAction::SetOpacity { layer, opacity },
    }
}

/// Inline renaming in the layers panel (a double click on a name).
pub struct LayerRenameState {
    /// The layer being renamed, if any.
    pub editing: Option<LayerId>,
    /// The text typed so far.
    pub buffer: String,
}

impl Default for LayerRenameState {
    fn default() -> (s: LayerRenameState)
        ensures
            s.editing is None,
            s.buffer@.len() == 0,
    {
        LayerRenameState { editing: None, buffer: String::new() }
    }
}

/// What ends a rename: `None` when it was cancelled (Escape), when the
/// trimmed text is empty or when it is the current name; else the commit
/// of the trimmed text for `layer`.
pub open spec fn rename_outcome(
    layer: LayerId,
    typed: Seq<char>,
    current: Seq<char>,
    cancelled: bool,
    r: Option<LayerPanelAction>,
) -> bool {
    let t = trimmed(typed);
    if cancelled || t.len() == 0 || t == current {
        r is None
    } else {
        r matches Some(LayerPanelAction::RenameCommit { layer: l, name }) && l == layer && name@ == t
    }
}

impl LayerRenameState {
    /// Starts renaming `layer`: the text starts as its current name.
    pub fn begin(&mut self, layer: LayerId, current: &String)
        ensures
            final(self).editing == Some(layer),
            final(self).buffer@ == current@,
    {
        self.editing = Some(layer);
        self.buffer = current.clone();
    }

    /// Ends the rename of `layer`, whose name is `current`: cancelled
    /// (Escape), nothing is committed; else the trimmed text is committed
    /// when it is not empty and differs from the current name.
    pub fn finish(&mut self, layer: LayerId, current: &String, cancelled: bool) -> (r: Option<
        LayerPanelAction,
    >)
        ensures
            final(self).editing is None,
            final(self).buffer@ == old(self).buffer@,
            rename_outcome(layer, old(self).buffer@, current@, cancelled, r),
    {
        self.editing = None;
        if cancelled {
            return None;
        }
        let name = trim_text(self.buffer.as_str());
        if name.as_str().is_empty() {
            return None;
        }
        if name == *current {
            return None;
        }
        Some(LayerPanelAction::RenameCommit { layer, name })
    }
}

/// Whether the menus offer the entry `a`: undo and redo when the history
/// allows them, the entries on the selected layer (duplicate, add a mask,
/// delete) when a layer is selected, every other entry always.
pub open spec fn menu_entry_enabled(m: MenuAvailability, a: PhotoMenuAction) -> bool {
    match a {
        PhotoMenuAction::Undo => m.can_undo,
        PhotoMenuAction::Redo => m.can_redo,
        PhotoMenuAction::DuplicateLayer => m.has_selection,
        PhotoMenuAction::AddMask => m.has_selection,
        PhotoMenuAction::DeleteLayer => m.has_selection,
        _ => true,
    }
}

impl MenuAvailability {
    /// Whether the menus offer the entry `action` (greyed out otherwise).
    pub fn enables(&self, action: &PhotoMenuAction) -> (r: bool)
        ensures
            r == menu_entry_enabled(*self, *action),
    {
        match action {
            PhotoMenuAction::Undo => self.can_undo,
            PhotoMenuAction::Redo => self.can_redo,
            PhotoMenuAction::DuplicateLayer => self.has_selection,
            PhotoMenuAction::AddMask => self.has_selection,
            PhotoMenuAction::DeleteLayer => self.has_selection,
            _ => true,
        }
    }
}

impl PhotoUiState {
    /// What the menus grey out for this document: its history and its
    /// selection.
    pub fn menu_availability(&self) -> (m: MenuAvailability)
        ensures
            m.can_undo == self.can_undo,
            m.can_redo == self.can_redo,
            m.has_selection == (self.selected is Some),
    {
        MenuAvailability {
            can_undo: self.can_undo,
            can_redo: self.can_redo,
            has_selection: self.selected.is_some(),
        }
    }
}

// ---------------------------------------------------------------------------
// The queue of actions
// ---------------------------------------------------------------------------

/// Actions waiting to be routed, drained once per frame.
pub struct PhotoCommandQueue {
    actions: Vec<PhotoAction>,
}

impl PhotoCommandQueue {
    /// The waiting actions, in the order they were emitted.
    pub closed spec fn pending(self) -> Seq<PhotoAction> {
        self.actions@
    }

    /// An empty queue.
    pub fn new() -> (q: PhotoCommandQueue)
        ensures
            q.pending().len() == 0,
    {
        PhotoCommandQueue { actions: Vec::new() }
    }

    /// Adds an action at the end.
    pub fn push(&mut self, action: PhotoAction)
        ensures
            final(self).pending() == old(self).pending().push(action),
    {
        self.actions.push(action);
    }

    /// Adds actions at the end, in their order.
    pub fn extend(&mut self, actions: Vec<PhotoAction>)
        ensures
            final(self).pending() == old(self).pending() + actions@,
    {
        let mut actions = actions;
        self.actions.append(&mut actions);
    }

    /// Number of waiting actions.
    pub fn len(&self) -> (n: usize)
        ensures
            n == self.pending().len(),
    {
        self.actions.len()
    }

    /// Whether no action waits.
    pub fn is_empty(&self) -> (r: bool)
        ensures
            r == (self.pending().len() == 0),
    {
        self.actions.len() == 0
    }

    /// Empties the queue and hands out its actions, in emission order.
    pub fn drain(&mut self) -> (r: Vec<PhotoAction>)
        ensures
            r@ == old(self).pending(),
            final(self).pending().len() == 0,
    {
        let mut out: Vec<PhotoAction> = Vec::new();
        std::mem::swap(&mut out, &mut self.actions);
        out
    }
}

// ---------------------------------------------------------------------------
// The interface state of a document and the routing of actions
// ---------------------------------------------------------------------------

/// A preview of the composite: RGBA8 pixels `width` x `height` (rows
/// first), the size of the whole plane it covers, where the document's
/// corner lies in it (fixed point, `FIXED_ONE` = 1 pixel) and the
/// document's size.
pub struct PreviewImage {
    pub width: u32,
    pub height: u32,
    pub rgba: Vec<u8>,
    pub full_width: u32,
    pub full_height: u32,
    pub origin_x: i64,
    pub origin_y: i64,
    pub doc_width: u32,
    pub doc_height: u32,
}

/// An answer of a document's engine, with the layer stack as it stands.
pub enum PhotoEngineResponse {
    /// New state and a new composite (`None`: nothing to show).
    LayersChanged {
        layers: Vec<PhotoLayerInfo>,
        preview: Option<PreviewImage>,
        revision: RenderRevision,
        can_undo: bool,
        can_redo: bool,
    },
    /// New state, same pixels: the displayed texture stays.
    StateChanged { layers: Vec<PhotoLayerInfo>, revision: RenderRevision, can_undo: bool, can_redo: bool },
    /// A failure that does not stop the engine.
    EngineError { message: String },
    /// An export was written.
    ExportDone { path: String },
}

/// What the shell decides of one document's interface.
pub struct PhotoUiState {
    /// The layer stack, top first.
    pub layers: Vec<PhotoLayerInfo>,
    /// The selected layer (interface state only).
    pub selected: Option<LayerId>,
    pub tool: PhotoCanvasTool,
    pub show_grid: bool,
    /// Preview cropped to the document.
    pub preview_clip: bool,
    pub can_undo: bool,
    pub can_redo: bool,
    /// Status line.
    pub status: String,
    /// The preview on display.
    pub last_preview: Option<PreviewImage>,
    /// Revision of the preview on display.
    pub displayed_revision: Option<RenderRevision>,
    /// Previews uploaded for display (saturating counter).
    pub texture_uploads: u64,
}

impl Default for PhotoUiState {
    fn default() -> (s: PhotoUiState)
        ensures
            s.layers@.len() == 0,
            s.selected is None,
            s.tool == PhotoCanvasTool::Move,
            !s.show_grid,
            !s.preview_clip,
            !s.can_undo,
            !s.can_redo,
            s.status@.len() == 0,
            s.last_preview is None,
            s.displayed_revision is None,
            s.texture_uploads == 0,
    {
        PhotoUiState {
            layers: Vec::new(),
            selected: None,
            tool: PhotoCanvasTool::Move,
            show_grid: false,
            preview_clip: false,
            can_undo: false,
            can_redo: false,
            status: String::new(),
            last_preview: None,
            displayed_revision: None,
            texture_uploads: 0,
        }
    }
}

/// The windows of the shell.
pub struct PhotoShellState {
    pub filter_modal: FilterModalState,
    pub new_document_open: bool,
    pub export_open: bool,
    pub help_open: bool,
}

impl Default for PhotoShellState {
    fn default() -> (s: PhotoShellState)
        ensures
            !s.filter_modal.open,
            s.filter_modal.choice == 0,
            !s.new_document_open,
            !s.export_open,
            !s.help_open,
    {
        PhotoShellState {
            filter_modal: FilterModalState { open: false, choice: 0 },
            new_document_open: false,
            export_open: false,
            help_open: false,
        }
    }
}

/// A zoom step of the canvas (anchored at its centre).
#[derive(Debug, Clone, Copy, PartialEq, Eq, Structural)]
pub enum ZoomStep {
    In,
    Out,
    /// Back to 100 %.
    Reset,
}

/// The work an action leaves to the window once the shell's state is
/// updated.
pub enum ShellEffect {
    Nothing,
    /// A command for the active document's engine.
    Engine(PhotoEngineCommand),
    /// A filter to add, once the registry gives the type's default layer.
    AddFilter { layer: LayerId, filter_type: String },
    /// A new tab on a document of this size.
    CreateDocument { width: u32, height: u32 },
    /// The image file picker.
    PickImage,
    CloseTab,
    Zoom(ZoomStep),
    ShowDockTab(PhotoDockTab),
    ResetDockLayout,
    Quit,
}

/// Nothing changes; the engine gets `c`.
pub open spec fn to_engine(ui: PhotoUiState, shell: PhotoShellState, c: PhotoEngineCommand) -> (
    PhotoUiState,
    PhotoShellState,
    ShellEffect,
) {
    (ui, shell, ShellEffect::Engine(c))
}

/// Nothing changes; the window gets `e`.
pub open spec fn to_window(ui: PhotoUiState, shell: PhotoShellState, e: ShellEffect) -> (
    PhotoUiState,
    PhotoShellState,
    ShellEffect,
) {
    (ui, shell, e)
}

/// With a selection, the engine gets the command made for it; else
/// nothing happens.
pub open spec fn on_selection(
    ui: PhotoUiState,
    shell: PhotoShellState,
    c: spec_fn(LayerId) -> PhotoEngineCommand,
) -> (PhotoUiState, PhotoShellState, ShellEffect) {
    match ui.selected {
        Some(id) => to_engine(ui, shell, c(id)),
        None => to_window(ui, shell, ShellEffect::Nothing),
    }
}

/// How an action is routed: the interface state and the windows after it,
/// and the work left to the window.
pub open spec fn routed(ui: PhotoUiState, shell: PhotoShellState, a: PhotoAction) -> (
    PhotoUiState,
    PhotoShellState,
    ShellEffect,
) {
    match a {
        PhotoAction::OpenNewDocumentDialog => (
            ui,
            PhotoShellState { new_document_open: true, ..shell },
            ShellEffect::Nothing,
        ),
        PhotoAction::CreateDocument { width, height } => to_window(
            ui,
            shell,
            ShellEffect::CreateDocument { width, height },
        ),
        PhotoAction::OpenImageDialog => to_window(ui, shell, ShellEffect::PickImage),
        PhotoAction::AddImageLayer => to_window(ui, shell, ShellEffect::PickImage),
        PhotoAction::OpenExportDialog => (
            ui,
            PhotoShellState { export_open: true, ..shell },
            ShellEffect::Nothing,
        ),
        PhotoAction::ExportDocument { path, quality } => to_engine(
            ui,
            shell,
            PhotoEngineCommand::Export { path, quality },
        ),
        PhotoAction::CloseTab => to_window(ui, shell, ShellEffect::CloseTab),
        PhotoAction::Undo => to_engine(ui, shell, PhotoEngineCommand::Undo),
        PhotoAction::Redo => to_engine(ui, shell, PhotoEngineCommand::Redo),
        PhotoAction::AddEmptyLayer => to_engine(ui, shell, PhotoEngineCommand::AddEmptyLayer),
        PhotoAction::DuplicateSelectedLayer => on_selection(
            ui,
            shell,
            |id: LayerId| PhotoEngineCommand::DuplicateLayer(id),
        ),
        PhotoAction::DeleteSelectedLayer => on_selection(
            ui,
            shell,
            |id: LayerId| PhotoEngineCommand::DeleteLayer(id),
        ),
        PhotoAction::DeleteLayer(id) => to_engine(ui, shell, PhotoEngineCommand::DeleteLayer(id)),
        PhotoAction::DuplicateLayer(id) => to_engine(
            ui,
            shell,
            PhotoEngineCommand::DuplicateLayer(id),
        ),
        PhotoAction::AddMaskToSelected => on_selection(
            ui,
            shell,
            |id: LayerId| PhotoEngineCommand::AddMask { layer: id },
        ),
        PhotoAction::OpenFilterMenu => (
            ui,
            PhotoShellState {
                filter_modal: FilterModalState { open: ui.selected is Some, choice: 0 },
                ..shell
            },
            ShellEffect::Nothing,
        ),
        PhotoAction::AddFilter { layer, filter_type } => to_window(
            ui,
            shell,
            ShellEffect::AddFilter { layer, filter_type },
        ),
        PhotoAction::SelectLayer(id) => (
            PhotoUiState { selected: Some(id), ..ui },
            shell,
            ShellEffect::Nothing,
        ),
        PhotoAction::RenameLayer { layer, name } => to_engine(
            ui,
            shell,
            PhotoEngineCommand::RenameLayer { layer, name },
        ),
        PhotoAction::ReorderLayers { from, to } => to_engine(
            ui,
            shell,
            PhotoEngineCommand::ReorderLayer { from, to },
        ),
        PhotoAction::ToggleLayerVisibility(id) => to_engine(
            ui,
            shell,
            PhotoEngineCommand::ToggleLayerVisibility(id),
        ),
        PhotoAction::SetOpacity { layer, opacity } => to_engine(
            ui,
            shell,
            PhotoEngineCommand::SetOpacity { layer, opacity },
        ),
        PhotoAction::SetBlendMode { layer, mode } => to_engine(
            ui,
            shell,
            PhotoEngineCommand::SetBlendMode { layer, mode },
        ),
        PhotoAction::MoveFilter { layer, filter, up } => to_engine(
            ui,
            shell,
            PhotoEngineCommand::MoveFilter { layer, filter, up },
        ),
        PhotoAction::MoveMask { owner, mask, up } => to_engine(
            ui,
            shell,
            PhotoEngineCommand::MoveMask { owner, mask, up },
        ),
        PhotoAction::RemoveFilter { layer, filter } => to_engine(
            ui,
            shell,
            PhotoEngineCommand::RemoveFilter { layer, filter },
        ),
        PhotoAction::RemoveMask { owner, mask } => to_engine(
            ui,
            shell,
            PhotoEngineCommand::RemoveMask { owner, mask },
        ),
        PhotoAction::SetTool(tool) => (PhotoUiState { tool, ..ui }, shell, ShellEffect::Nothing),
        PhotoAction::ToggleGrid => (
            PhotoUiState { show_grid: !ui.show_grid, ..ui },
            shell,
            ShellEffect::Nothing,
        ),
        PhotoAction::TogglePreviewClip => (
            PhotoUiState { preview_clip: !ui.preview_clip, ..ui },
            shell,
            ShellEffect::Engine(PhotoEngineCommand::SetPreviewClip { clip: !ui.preview_clip }),
        ),
        PhotoAction::ZoomIn => to_window(ui, shell, ShellEffect::Zoom(ZoomStep::In)),
        PhotoAction::ZoomOut => to_window(ui, shell, ShellEffect::Zoom(ZoomStep::Out)),
        PhotoAction::ZoomReset => to_window(ui, shell, ShellEffect::Zoom(ZoomStep::Reset)),
        PhotoAction::CommitStroke { layer, stroke } => to_engine(
            ui,
            shell,
            PhotoEngineCommand::PaintStroke { layer, stroke },
        ),
        PhotoAction::MoveLayer { layer, dx, dy } => to_engine(
            ui,
            shell,
            PhotoEngineCommand::MoveLayer { layer, dx, dy },
        ),
        PhotoAction::ShowDockTab(tab) => to_window(ui, shell, ShellEffect::ShowDockTab(tab)),
        PhotoAction::ResetDockLayout => to_window(ui, shell, ShellEffect::ResetDockLayout),
        PhotoAction::ShowHelp => (
            ui,
            PhotoShellState { help_open: true, ..shell },
            ShellEffect::Nothing,
        ),
        PhotoAction::Quit => to_window(ui, shell, ShellEffect::Quit),
    }
}

/// Routes an action: the interface's own state (selection, tool, grid,
/// windows) changes here; a command goes to the active document's engine;
/// the rest is work for the window. An action on the selection does
/// nothing without one.
pub fn handle_action(ui: &mut PhotoUiState, shell: &mut PhotoShellState, action: PhotoAction) -> (e:
    ShellEffect)
    ensures
        (*final(ui), *final(shell), e) == routed(*old(ui), *old(shell), action),
{
    match action {
        PhotoAction::OpenNewDocumentDialog => {
            shell.new_document_open = true;
            ShellEffect::Nothing
        },
        PhotoAction::CreateDocument { width, height } => ShellEffect::CreateDocument { width, height },
        PhotoAction::OpenImageDialog => ShellEffect::PickImage,
        PhotoAction::AddImageLayer => ShellEffect::PickImage,
        PhotoAction::OpenExportDialog => {
            shell.export_open = true;
            ShellEffect::Nothing
        },
        PhotoAction::ExportDocument { path, quality } => ShellEffect::Engine(
            PhotoEngineCommand::Export { path, quality },
        ),
        PhotoAction::CloseTab => ShellEffect::CloseTab,
        PhotoAction::Undo => ShellEffect::Engine(PhotoEngineCommand::Undo),
        PhotoAction::Redo => ShellEffect::Engine(PhotoEngineCommand::Redo),
        PhotoAction::AddEmptyLayer => ShellEffect::Engine(PhotoEngineCommand::AddEmptyLayer),
        PhotoAction::DuplicateSelectedLayer => match ui.selected {
            Some(id) => ShellEffect::Engine(PhotoEngineCommand::DuplicateLayer(id)),
            None => ShellEffect::Nothing,
        },
        PhotoAction::DeleteSelectedLayer => match ui.selected {
            Some(id) => ShellEffect::Engine(PhotoEngineCommand::DeleteLayer(id)),
            None => ShellEffect::Nothing,
        },
        PhotoAction::DeleteLayer(id) => ShellEffect::Engine(PhotoEngineCommand::DeleteLayer(id)),
        PhotoAction::DuplicateLayer(id) => ShellEffect::Engine(PhotoEngineCommand::DuplicateLayer(id)),
        PhotoAction::AddMaskToSelected => match ui.selected {
            Some(id) => ShellEffect::Engine(PhotoEngineCommand::AddMask { layer: id }),
            None => ShellEffect::Nothing,
        },
        PhotoAction::OpenFilterMenu => {
            shell.filter_modal = FilterModalState { open: ui.selected.is_some(), choice: 0 };
            ShellEffect::Nothing
        },
        PhotoAction::AddFilter { layer, filter_type } => ShellEffect::AddFilter { layer, filter_type },
        PhotoAction::SelectLayer(id) => {
            ui.selected = Some(id);
            ShellEffect::Nothing
        },
        PhotoAction::RenameLayer { layer, name } => ShellEffect::Engine(
            PhotoEngineCommand::RenameLayer { layer, name },
        ),
        PhotoAction::ReorderLayers { from, to } => ShellEffect::Engine(
            PhotoEngineCommand::ReorderLayer { from, to },
        ),
        PhotoAction::ToggleLayerVisibility(id) => ShellEffect::Engine(
            PhotoEngineCommand::ToggleLayerVisibility(id),
        ),
        PhotoAction::SetOpacity { layer, opacity } => ShellEffect::Engine(
            PhotoEngineCommand::SetOpacity { layer, opacity },
        ),
        PhotoAction::SetBlendMode { layer, mode } => ShellEffect::Engine(
            PhotoEngineCommand::SetBlendMode { layer, mode },
        ),
        PhotoAction::MoveFilter { layer, filter, up } => ShellEffect::Engine(
            PhotoEngineCommand::MoveFilter { layer, filter, up },
        ),
        PhotoAction::MoveMask { owner, mask, up } => ShellEffect::Engine(
            PhotoEngineCommand::MoveMask { owner, mask, up },
        ),
        PhotoAction::RemoveFilter { layer, filter } => ShellEffect::Engine(
            PhotoEngineCommand::RemoveFilter { layer, filter },
        ),
        PhotoAction::RemoveMask { owner, mask } => ShellEffect::Engine(
            PhotoEngineCommand::RemoveMask { owner, mask },
        ),
        PhotoAction::SetTool(tool) => {
            ui.tool = tool;
            ShellEffect::Nothing
        },
        PhotoAction::ToggleGrid => {
            ui.show_grid = !ui.show_grid;
            ShellEffect::Nothing
        },
        PhotoAction::TogglePreviewClip => {
            ui.preview_clip = !ui.preview_clip;
            ShellEffect::Engine(PhotoEngineCommand::SetPreviewClip { clip: ui.preview_clip })
        },
        PhotoAction::ZoomIn => ShellEffect::Zoom(ZoomStep::In),
        PhotoAction::ZoomOut => ShellEffect::Zoom(ZoomStep::Out),
        PhotoAction::ZoomReset => ShellEffect::Zoom(ZoomStep::Reset),
        PhotoAction::CommitStroke { layer, stroke } => ShellEffect::Engine(
            PhotoEngineCommand::PaintStroke { layer, stroke },
        ),
        PhotoAction::MoveLayer { layer, dx, dy } => ShellEffect::Engine(
            PhotoEngineCommand::MoveLayer { layer, dx, dy },
        ),
        PhotoAction::ShowDockTab(tab) => ShellEffect::ShowDockTab(tab),
        PhotoAction::ResetDockLayout => ShellEffect::ResetDockLayout,
        PhotoAction::ShowHelp => {
            shell.help_open = true;
            ShellEffect::Nothing
        },
        PhotoAction::Quit => ShellEffect::Quit,
    }
}

// ---------------------------------------------------------------------------
// Engine answers and the preview on display
// ---------------------------------------------------------------------------

/// The selection kept when it still names a layer of the stack, else
/// none.
pub open spec fn kept_selection(selected: Option<LayerId>, layers: Seq<PhotoLayerInfo>) -> Option<LayerId> {
    match selected {
        Some(id) => if exists|i: int| 0 <= i < layers.len() && #[trigger] layers[i].id == id {
            selected
        } else {
            None
        },
        None => None,
    }
}

/// Whether a composite of `revision` is newer than the one on display.
pub open spec fn is_fresh(displayed: Option<RenderRevision>, revision: RenderRevision) -> bool {
    match displayed {
        Some(shown) => revision.0 > shown.0,
        None => true,
    }
}

/// One more, saturating.
pub open spec fn sat_inc(n: u64) -> u64 {
    if n == u64::MAX {
        n
    } else {
        (n + 1) as u64
    }
}

/// The state with a new layer stack, its history flags and the selection
/// that survives it.
pub open spec fn with_stack(
    ui: PhotoUiState,
    layers: Vec<PhotoLayerInfo>,
    can_undo: bool,
    can_redo: bool,
) -> PhotoUiState {
    PhotoUiState { selected: kept_selection(ui.selected, layers@), layers, can_undo, can_redo, ..ui }
}

/// Whether some layer of the stack has the identifier `id`.
fn lists_layer(layers: &Vec<PhotoLayerInfo>, id: LayerId) -> (r: bool)
    ensures
        r == exists|i: int| 0 <= i < layers@.len() && #[trigger] layers@[i].id == id,
{
    let mut i: usize = 0;
    while i < layers.len()
        invariant
            i <= layers@.len(),
            forall|j: int| 0 <= j < i ==> #[trigger] layers@[j].id != id,
        decreases layers@.len() - i,
    {
        if layers[i].id == id {
            assert(layers@[i as int].id == id);
            return true;
        }
        i += 1;
    }
    false
}

/// Takes an engine answer into the document's interface state. A new
/// stack drops a selection that no longer names a layer; a preview is
/// shown only when its revision is newer than the one on display (a late
/// answer changes nothing on screen), which clears the status line; no
/// preview clears the display; an error or an export sets the status line.
/// Returns whether the new preview (`last_preview`) must be uploaded.
pub fn apply_response(ui: &mut PhotoUiState, response: PhotoEngineResponse) -> (upload: bool)
    ensures
        match response {
            PhotoEngineResponse::LayersChanged { layers, preview, revision, can_undo, can_redo } => {
                let base = with_stack(*old(ui), layers, can_undo, can_redo);
                match preview {
                    Some(img) => if is_fresh(old(ui).displayed_revision, revision) {
                        &&& upload
                        &&& final(ui).status@.len() == 0
                        &&& *final(ui) == PhotoUiState {
                            last_preview: Some(img),
                            displayed_revision: Some(revision),
                            texture_uploads: sat_inc(old(ui).texture_uploads),
                            status: final(ui).status,
                            ..base
                        }
                    } else {
                        !upload && *final(ui) == base
                    },
                    None => !upload && *final(ui) == PhotoUiState {
                        last_preview: None,
                        displayed_revision: None,
                        ..base
                    },
                }
            },
            PhotoEngineResponse::StateChanged { layers, can_undo, can_redo, .. } => !upload
                && *final(ui) == with_stack(*old(ui), layers, can_undo, can_redo),
            PhotoEngineResponse::EngineError { message } => !upload && *final(ui) == PhotoUiState {
                status: message,
                ..*old(ui)
            },
            PhotoEngineResponse::ExportDone { path } => {
                &&& !upload
                &&& final(ui).status@ == "Exporte : "@ + path@
                &&& PhotoUiState { status: old(ui).status, ..*final(ui) } == *old(ui)
            },
        },
{
    match response {
        PhotoEngineResponse::LayersChanged { layers, preview, revision, can_undo, can_redo } => {
            let keep = match ui.selected {
                Some(id) => lists_layer(&layers, id),
                None => false,
            };
            if !keep {
                ui.selected = None;
            }
            ui.layers = layers;
            ui.can_undo = can_undo;
            ui.can_redo = can_redo;
            match preview {
                Some(img) => {
                    let fresh = match ui.displayed_revision {
                        Some(shown) => revision.is_newer_than(shown),
                        None => true,
                    };
                    if fresh {
                        if ui.texture_uploads < u64::MAX {
                            ui.texture_uploads = ui.texture_uploads + 1;
                        }
                        ui.last_preview = Some(img);
                        ui.displayed_revision = Some(revision);
                        ui.status = String::new();
                        true
                    } else {
                        false
                    }
                },
                None => {
                    ui.last_preview = None;
                    ui.displayed_revision = None;
                    false
                },
            }
        },
        PhotoEngineResponse::StateChanged { layers, can_undo, can_redo, .. } => {
            let keep = match ui.selected {
                Some(id) => lists_layer(&layers, id),
                None => false,
            };
            if !keep {
                ui.selected = None;
            }
            ui.layers = layers;
            ui.can_undo = can_undo;
            ui.can_redo = can_redo;
            false
        },
        PhotoEngineResponse::EngineError { message } => {
            ui.status = message;
            false
        },
        PhotoEngineResponse::ExportDone { path } => {
            let mut status = String::from_str("Exporte : ");
            status.append(path.as_str());
            ui.status = status;
            false
        },
    }
}

/// Offset in the preview's bytes of the pixel `(x, y)`, when that pixel
/// lies in the preview.
pub open spec fn pixel_offset(width: u32, height: u32, x: int, y: int) -> Option<int> {
    if 0 <= x < width && 0 <= y < height {
        Some((y * width + x) * 4)
    } else {
        None
    }
}

/// The colour of the preview under the pixel `(x, y)` (preview
/// coordinates, rounded): `None` outside the preview or past the end of
/// its bytes.
pub fn sample_preview_color(preview: &PreviewImage, x: i64, y: i64) -> (r: Option<[u8; 3]>)
    ensures
        match pixel_offset(preview.width, preview.height, x as int, y as int) {
            Some(off) => if off + 3 <= preview.rgba@.len() {
                r matches Some(c) && c@ == seq![
                    preview.rgba@[off],
                    preview.rgba@[off + 1],
                    preview.rgba@[off + 2],
                ]
            } else {
                r is None
            },
            None => r is None,
        },
{
    if preview.width == 0 || preview.height == 0 {
        return None;
    }
    if x < 0 || y < 0 || x >= preview.width as i64 || y >= preview.height as i64 {
        return None;
    }
    let xu = x as u128;
    let yu = y as u128;
    let w = preview.width as u128;
    assert(yu * w + xu < 0x1_0000_0000_0000_0000) by (nonlinear_arith)
        requires
            yu < 0x1_0000_0000,
            w <= 0xffff_ffff,
            xu < w,
    ;
    let off = (yu * w + xu) * 4;
    if off + 3 > preview.rgba.len() as u128 {
        return None;
    }
    let o = off as usize;
    let c = [preview.rgba[o], preview.rgba[o + 1], preview.rgba[o + 2]];
    assert(c@ =~= seq![preview.rgba@[o as int], preview.rgba@[o + 1], preview.rgba@[o + 2]]);
    Some(c)
}

// ---------------------------------------------------------------------------
// Tabs of open documents
// ---------------------------------------------------------------------------

/// The active position once the list holds `len` tabs: `active`, or the
/// last tab when `active` is past the end.
pub open spec fn clamped_active(active: int, len: int) -> int {
    if len > 0 && active > len - 1 {
        len - 1
    } else {
        active
    }
}

/// Tabs and active position after the document `id` is closed: its first
/// tab goes (nothing when it has none), a tab closed before the active
/// one moves the active position back by one.
pub open spec fn tabs_after_close(ids: Seq<LayerId>, active: int, id: LayerId) -> (Seq<LayerId>, int) {
    match first_index(ids, id) {
        Some(k) => {
            let rest = ids.remove(k);
            let a = if k < active {
                active - 1
            } else {
                active
            };
            (rest, clamped_active(a, rest.len() as int))
        },
        None => (ids, clamped_active(active, ids.len() as int)),
    }
}

/// Tabs and active position after the document `id` is closed in a
/// window that never shows zero documents: as `tabs_after_close`, and
/// when that leaves no tab, one tab on the blank document `blank`.
pub open spec fn tabs_after_close_keeping_one(
    ids: Seq<LayerId>,
    active: int,
    id: LayerId,
    blank: LayerId,
) -> (Seq<LayerId>, int) {
    let (rest, a) = tabs_after_close(ids, active, id);
    if rest.len() == 0 {
        (seq![blank], 0)
    } else {
        (rest, a)
    }
}

/// The documents open in the window, as tabs in opening order, and the
/// active one. There is always at least one.
pub struct DocumentTabs {
    ids: Vec<LayerId>,
    active: usize,
}

impl DocumentTabs {
    /// Identifiers of the open documents, in tab order.
    pub closed spec fn tabs(self) -> Seq<LayerId> {
        self.ids@
    }

    /// Position of the active tab.
    pub closed spec fn active_at(self) -> int {
        self.active as int
    }

    /// At least one tab is open and the active position lies in the list.
    pub closed spec fn wf(self) -> bool {
        0 <= self.active < self.ids@.len()
    }

    /// A window holding one tab, on the document `first`.
    pub fn new(first: LayerId) -> (t: DocumentTabs)
        ensures
            t.wf(),
            t.tabs() == seq![first],
            t.active_at() == 0,
    {
        let mut ids: Vec<LayerId> = Vec::new();
        ids.push(first);
        DocumentTabs { ids, active: 0 }
    }

    /// The active document.
    pub fn active_id(&self) -> (r: LayerId)
        requires
            self.wf(),
        ensures
            r == self.tabs()[self.active_at()],
    {
        self.ids[self.active]
    }

    /// Position of the active tab.
    pub fn active_index(&self) -> (i: usize)
        ensures
            i == self.active_at(),
    {
        self.active
    }

    /// Number of open documents.
    pub fn len(&self) -> (n: usize)
        ensures
            n == self.tabs().len(),
    {
        self.ids.len()
    }

    /// Makes the tab at `index` active; `false`, no change, when there is
    /// no such tab.
    pub fn activate(&mut self, index: usize) -> (done: bool)
        requires
            old(self).wf(),
        ensures
            final(self).wf(),
            done == (index < old(self).tabs().len()),
            final(self).tabs() == old(self).tabs(),
            final(self).active_at() == if done {
                index as int
            } else {
                old(self).active_at()
            },
    {
        if index < self.ids.len() {
            self.active = index;
            true
        } else {
            false
        }
    }

    /// Opens a tab on the document `id` and makes it active.
    pub fn open(&mut self, id: LayerId)
        ensures
            final(self).wf(),
            final(self).tabs() == old(self).tabs().push(id),
            final(self).active_at() == old(self).tabs().len(),
    {
        self.ids.push(id);
        self.active = self.ids.len() - 1;
    }

    /// Closes the document `id` (nothing when it has no tab). The active
    /// document stays active when another one closes. When the last tab
    /// closes, a tab opens on the blank document `blank`, so that there is
    /// never none; returns whether it did.
    pub fn close_document(&mut self, id: LayerId, blank: LayerId) -> (opened_blank: bool)
        requires
            old(self).wf(),
        ensures
            final(self).wf(),
            (final(self).tabs(), final(self).active_at()) == tabs_after_close_keeping_one(
                old(self).tabs(),
                old(self).active_at(),
                id,
                blank,
            ),
            opened_blank == (tabs_after_close(old(self).tabs(), old(self).active_at(), id).0.len()
                == 0),
    {
        let ghost ids0 = self.ids@;
        proof {
            lemma_first_index(ids0, id);
        }
        let mut k: usize = 0;
        let mut found = false;
        while k < self.ids.len()
            invariant_except_break
                !found,
            invariant
                self.ids@ == ids0,
                k <= ids0.len(),
                forall|j: int| 0 <= j < k ==> #[trigger] ids0[j] != id,
            ensures
                self.ids@ == ids0,
                k <= ids0.len(),
                forall|j: int| 0 <= j < k ==> #[trigger] ids0[j] != id,
                found ==> k < ids0.len() && ids0[k as int] == id,
                !found ==> k == ids0.len(),
            decreases ids0.len() - k,
        {
            if self.ids[k] == id {
                found = true;
                break;
            }
            k += 1;
        }
        if found {
            assert(first_index(ids0, id) == Some(k as int));
            self.ids.remove(k);
            if k < self.active {
                self.active = self.active - 1;
            }
        } else {
            assert(first_index(ids0, id) is None);
        }
        if self.ids.len() == 0 {
            self.ids.push(blank);
            self.active = 0;
            return true;
        }
        if self.active > self.ids.len() - 1 {
            self.active = self.ids.len() - 1;
        }
        false
    }

    /// Closes the active tab; as `close_document` on the active document,
    /// the blank document `blank` opening when it was the last.
    pub fn close_active_tab(&mut self, blank: LayerId) -> (opened_blank: bool)
        requires
            old(self).wf(),
        ensures
            final(self).wf(),
            (final(self).tabs(), final(self).active_at()) == tabs_after_close_keeping_one(
                old(self).tabs(),
                old(self).active_at(),
                old(self).tabs()[old(self).active_at()],
                blank,
            ),
            opened_blank == (old(self).tabs().len() == 1),
    {
        let id = self.ids[self.active];
        proof {
            lemma_first_index(self.ids@, id);
        }
        self.close_document(id, blank)
    }
}

/// A window in order holds at least one tab, and its active position
/// lies in the list.
pub proof fn lemma_tabs_wf(t: DocumentTabs)
    requires
        t.wf(),
    ensures
        t.tabs().len() >= 1,
        0 <= t.active_at() < t.tabs().len(),
{
}

/// Closing another document than the active one leaves the same document
/// active.
pub proof fn law_close_keeps_active_document(ids: Seq<LayerId>, active: int, id: LayerId)
    requires
        0 <= active < ids.len(),
        id != ids[active],
    ensures
        ({
            let (rest, a) = tabs_after_close(ids, active, id);
            0 <= a < rest.len() && rest[a] == ids[active]
        }),
{
    lemma_first_index(ids, id);
}

/// The window never shows zero documents: closing any document leaves at
/// least one tab, with the active position in the list.
pub proof fn law_close_keeps_one_document(ids: Seq<LayerId>, active: int, id: LayerId, blank: LayerId)
    requires
        0 <= active < ids.len(),
    ensures
        ({
            let (rest, a) = tabs_after_close_keeping_one(ids, active, id, blank);
            rest.len() >= 1 && 0 <= a < rest.len()
        }),
{
    lemma_first_index(ids, id);
}

} // verus!
