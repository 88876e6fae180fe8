//! What the editing interface derives from the engine, independently of
//! any drawing toolkit: edit modes and their tools, canvas tools, the
//! display snapshot of the layer stack (top of the stack first), menu
//! availability, new-document and export choices, and plain state and
//! counters of the shell.

use crate::blend::BlendMode;
use crate::document::Document;
use crate::geometry::OPACITY_MAX;
use crate::ids::LayerId;
use crate::model::{FilterLayer, LayerMask, LayerNode};
use crate::text::{trim_text, trimmed};
use vstd::prelude::*;

verus! {

// ---------------------------------------------------------------------------
// Canvas tools and edit modes
// ---------------------------------------------------------------------------

/// Tool of the generic viewport that a canvas tool drives.
#[derive(Debug, Clone, Copy, PartialEq, Eq, Structural)]
pub enum ViewportTool {
    Move,
    Pan,
    Zoom,
    Brush,
}

/// Active tool of the photo canvas.
#[derive(Debug, Clone, Copy, PartialEq, Eq, Structural)]
pub enum PhotoCanvasTool {
    /// Move / select.
    Move,
    /// Hand: dragging moves the view.
    Pan,
    /// Magnifier: click zooms in, right click zooms out.
    Zoom,
    /// Brush: dragging builds a stroke sent to the engine.
    Brush,
    /// Eraser: like the brush, erasing.
    Eraser,
    /// Eyedropper: a click samples the colour of the composite.
    Eyedropper,
}

impl Default for PhotoCanvasTool {
    fn default() -> (t: PhotoCanvasTool)
        ensures
            t == PhotoCanvasTool::Move,
    {
        PhotoCanvasTool::Move
    }
}

/// Whether a tool builds a stroke.
pub open spec fn paints(t: PhotoCanvasTool) -> bool {
    t == PhotoCanvasTool::Brush || t == PhotoCanvasTool::Eraser
}

impl PhotoCanvasTool {
    /// The generic viewport tool that this tool drives.
    pub fn viewport_tool(self) -> (v: ViewportTool)
        ensures
            v == match self {
                PhotoCanvasTool::Move => ViewportTool::Move,
                PhotoCanvasTool::Pan => ViewportTool::Pan,
                PhotoCanvasTool::Zoom => ViewportTool::Zoom,
                _ => ViewportTool::Brush,
            },
    {
        match self {
            PhotoCanvasTool::Move => ViewportTool::Move,
            PhotoCanvasTool::Pan => ViewportTool::Pan,
            PhotoCanvasTool::Zoom => ViewportTool::Zoom,
            PhotoCanvasTool::Brush | PhotoCanvasTool::Eraser | PhotoCanvasTool::Eyedropper =>
                ViewportTool::Brush,
        }
    }

    /// Whether the tool builds a stroke (brush, eraser).
    pub fn is_painting(self) -> (r: bool)
        ensures
            r == paints(self),
    {
        match self {
            PhotoCanvasTool::Brush | PhotoCanvasTool::Eraser => true,
            _ => false,
        }
    }

    /// Contextual help shown in the status bar.
    pub fn hint(self) -> (h: &'static str)
        ensures
            h@ == tool_hint(self),
    {
        match self {
            PhotoCanvasTool::Move => "Glisser : deplacer le calque — molette : zoom",
            PhotoCanvasTool::Pan => "Glisser : deplacer la vue — molette : zoom",
            PhotoCanvasTool::Zoom => "Clic : zoom avant — clic droit : zoom arriere",
            PhotoCanvasTool::Brush => "Glisser : peindre — relacher : commettre le trait",
            PhotoCanvasTool::Eraser => "Glisser : effacer — relacher : commettre",
            PhotoCanvasTool::Eyedropper => "Cliquer : echantillonner la couleur",
        }
    }
}

/// The help text of a tool.
pub open spec fn tool_hint(t: PhotoCanvasTool) -> Seq<char> {
    match t {
        PhotoCanvasTool::Move => "Glisser : deplacer le calque — molette : zoom"@,
        PhotoCanvasTool::Pan => "Glisser : deplacer la vue — molette : zoom"@,
        PhotoCanvasTool::Zoom => "Clic : zoom avant — clic droit : zoom arriere"@,
        PhotoCanvasTool::Brush => "Glisser : peindre — relacher : commettre le trait"@,
        PhotoCanvasTool::Eraser => "Glisser : effacer — relacher : commettre"@,
        PhotoCanvasTool::Eyedropper => "Cliquer : echantillonner la couleur"@,
    }
}

/// Edit mode of the document.
#[derive(Debug, Clone, Copy, PartialEq, Eq, Structural)]
pub enum PhotoEditMode {
    /// Vector paths (move, hand and magnifier for now).
    Vector,
    /// Pixel retouching (every tool).
    Pixel,
    /// Page layout (move, hand and magnifier for now).
    Layout,
}

impl Default for PhotoEditMode {
    fn default() -> (m: PhotoEditMode)
        ensures
            m == PhotoEditMode::Pixel,
    {
        PhotoEditMode::Pixel
    }
}

/// The tools of a mode, in the order of the tool rail.
pub open spec fn mode_tools(m: PhotoEditMode) -> Seq<PhotoCanvasTool> {
    match m {
        PhotoEditMode::Pixel => seq![
            PhotoCanvasTool::Move,
            PhotoCanvasTool::Brush,
            PhotoCanvasTool::Eraser,
            PhotoCanvasTool::Eyedropper,
            PhotoCanvasTool::Pan,
            PhotoCanvasTool::Zoom,
        ],
        _ => seq![PhotoCanvasTool::Move, PhotoCanvasTool::Pan, PhotoCanvasTool::Zoom],
    }
}

impl PhotoEditMode {
    /// Every mode, in display order.
    pub fn all() -> (modes: Vec<PhotoEditMode>)
        ensures
            modes@ == seq![PhotoEditMode::Vector, PhotoEditMode::Pixel, PhotoEditMode::Layout],
    {
        let mut modes: Vec<PhotoEditMode> = Vec::new();
        modes.push(PhotoEditMode::Vector);
        modes.push(PhotoEditMode::Pixel);
        modes.push(PhotoEditMode::Layout);
        assert(modes@ =~= seq![PhotoEditMode::Vector, PhotoEditMode::Pixel, PhotoEditMode::Layout]);
        modes
    }

    /// Label of the mode.
    pub fn label(self) -> (l: &'static str)
        ensures
            l@ == match self {
                PhotoEditMode::Vector => "Vector"@,
                PhotoEditMode::Pixel => "Pixel"@,
                PhotoEditMode::Layout => "Layout"@,
            },
    {
        match self {
            PhotoEditMode::Vector => "Vector",
            PhotoEditMode::Pixel => "Pixel",
            PhotoEditMode::Layout => "Layout",
        }
    }

    /// The tools available in this mode.
    pub fn tools(self) -> (tools: Vec<PhotoCanvasTool>)
        ensures
            tools@ == mode_tools(self),
    {
        let mut tools: Vec<PhotoCanvasTool> = Vec::new();
        match self {
            PhotoEditMode::Pixel => {
                tools.push(PhotoCanvasTool::Move);
                tools.push(PhotoCanvasTool::Brush);
                tools.push(PhotoCanvasTool::Eraser);
                tools.push(PhotoCanvasTool::Eyedropper);
                tools.push(PhotoCanvasTool::Pan);
                tools.push(PhotoCanvasTool::Zoom);
            },
            PhotoEditMode::Vector | PhotoEditMode::Layout => {
                tools.push(PhotoCanvasTool::Move);
                tools.push(PhotoCanvasTool::Pan);
                tools.push(PhotoCanvasTool::Zoom);
            },
        }
        assert(tools@ =~= mode_tools(self));
        tools
    }

    /// Whether the tool is available in this mode.
    pub fn supports(self, tool: PhotoCanvasTool) -> (r: bool)
        ensures
            r == mode_tools(self).contains(tool),
    {
        let tools = self.tools();
        let mut i: usize = 0;
        while i < tools.len()
            invariant
                i <= tools@.len(),
                tools@ == mode_tools(self),
                forall|j: int| 0 <= j < i ==> tools@[j] != tool,
            decreases tools@.len() - i,
        {
            if tools[i] == tool {
                assert(tools@[i as int] == tool);
                return true;
            }
            i += 1;
        }
        false
    }
}

/// Every tool is available in the pixel mode; the vector and layout modes
/// offer only the navigation tools and moving (no brush, no eraser).
pub proof fn law_modes_and_tools(t: PhotoCanvasTool)
    ensures
        mode_tools(PhotoEditMode::Pixel).contains(t),
        mode_tools(PhotoEditMode::Vector).contains(t) == !(paints(t) || t
            == PhotoCanvasTool::Eyedropper),
        mode_tools(PhotoEditMode::Layout).contains(t) == !(paints(t) || t
            == PhotoCanvasTool::Eyedropper),
{
    let px = mode_tools(PhotoEditMode::Pixel);
    let nav = mode_tools(PhotoEditMode::Vector);
    match t {
        PhotoCanvasTool::Move => {
            assert(px[0] == t);
            assert(nav[0] == t);
        },
        PhotoCanvasTool::Brush => {
            assert(px[1] == t);
        },
        PhotoCanvasTool::Eraser => {
            assert(px[2] == t);
        },
        PhotoCanvasTool::Eyedropper => {
            assert(px[3] == t);
        },
        PhotoCanvasTool::Pan => {
            assert(px[4] == t);
            assert(nav[1] == t);
        },
        PhotoCanvasTool::Zoom => {
            assert(px[5] == t);
            assert(nav[2] == t);
        },
    }
}

// ---------------------------------------------------------------------------
// The layer stack as displayed
// ---------------------------------------------------------------------------

/// Kind of a displayed layer.
#[derive(Debug, Clone, Copy, PartialEq, Eq, Hash, Structural)]
pub enum PhotoLayerKind {
    Pixel,
    Group,
    Adjustment,
}

/// Kind of a node.
pub open spec fn kind_of(n: LayerNode) -> PhotoLayerKind {
    match n {
        LayerNode::Pixel(_) => PhotoLayerKind::Pixel,
        LayerNode::Group(_) => PhotoLayerKind::Group,
        LayerNode::Adjustment(_) => PhotoLayerKind::Adjustment,
    }
}

impl PhotoLayerKind {
    /// Every kind, in display order.
    pub fn all() -> (kinds: Vec<PhotoLayerKind>)
        ensures
            kinds@ == seq![PhotoLayerKind::Pixel, PhotoLayerKind::Group, PhotoLayerKind::Adjustment],
    {
        let mut kinds: Vec<PhotoLayerKind> = Vec::new();
        kinds.push(PhotoLayerKind::Pixel);
        kinds.push(PhotoLayerKind::Group);
        kinds.push(PhotoLayerKind::Adjustment);
        assert(kinds@ =~= seq![
            PhotoLayerKind::Pixel,
            PhotoLayerKind::Group,
            PhotoLayerKind::Adjustment,
        ]);
        kinds
    }

    /// Label of the kind.
    pub fn icon_label(self) -> (l: &'static str)
        ensures
            l@ == match self {
                PhotoLayerKind::Pixel => "Pixels"@,
                PhotoLayerKind::Group => "Groupe"@,
                PhotoLayerKind::Adjustment => "Reglage"@,
            },
    {
        match self {
            PhotoLayerKind::Pixel => "Pixels",
            PhotoLayerKind::Group => "Groupe",
            PhotoLayerKind::Adjustment => "Reglage",
        }
    }

    /// Kind of a node of the engine.
    pub fn from_node(node: &LayerNode) -> (k: PhotoLayerKind)
        ensures
            k == kind_of(*node),
    {
        match node {
            LayerNode::Pixel(_) => PhotoLayerKind::Pixel,
            LayerNode::Group(_) => PhotoLayerKind::Group,
            LayerNode::Adjustment(_) => PhotoLayerKind::Adjustment,
        }
    }
}

/// A filter or a mask shown under its carrier.
#[derive(Debug, Clone, PartialEq, Eq)]
pub struct PhotoSubLayerInfo {
    pub id: LayerId,
    pub name: String,
    /// `true` for a live filter, `false` for a mask.
    pub is_filter: bool,
}

/// Thumbnail of a layer for the panel (uploaded again only when its
/// appearance version changes).
#[derive(Debug, Clone, PartialEq, Eq)]
pub struct PhotoLayerThumb {
    pub width: u32,
    pub height: u32,
    pub rgba: Vec<u8>,
    pub version: u64,
}

/// What the layers panel shows of one node.
pub struct PhotoLayerInfo {
    pub id: LayerId,
    pub name: String,
    pub kind: PhotoLayerKind,
    pub visible: bool,
    /// Thousandths of a percent.
    pub opacity: u32,
    /// Normal for an adjustment layer.
    pub blend_mode: BlendMode,
    pub has_filters: bool,
    pub has_masks: bool,
    /// Live filters, in application order.
    pub filters: Vec<PhotoSubLayerInfo>,
    pub masks: Vec<PhotoSubLayerInfo>,
    /// Pixel layers only; the caller fills it from the appearance cache.
    pub thumb: Option<PhotoLayerThumb>,
    /// Selection (interface state).
    pub selected: bool,
}

/// `s` shows the filter `f`.
pub open spec fn shows_filter(f: FilterLayer, s: PhotoSubLayerInfo) -> bool {
    s.id == f.id && s.name@ == f.name@ && s.is_filter
}

/// `s` shows the mask `m`.
pub open spec fn shows_mask(m: LayerMask, s: PhotoSubLayerInfo) -> bool {
    s.id == m.id && s.name@ == m.name@ && !s.is_filter
}

/// `info` is what the panel shows of the node `n` (thumbnail left to the
/// caller, not selected).
pub open spec fn info_of(n: LayerNode, info: PhotoLayerInfo) -> bool {
    let fs: Seq<FilterLayer> = match n {
        LayerNode::Pixel(l) => l.filter_layers@,
        _ => Seq::empty(),
    };
    let ms = n.node_masks();
    &&& info.id == n.node_id()
    &&& info.name@ == n.node_name()
    &&& info.kind == kind_of(n)
    &&& info.visible == n.is_visible()
    &&& info.opacity == n.node_opacity()
    &&& info.blend_mode == match n.node_blend() {
        Some(m) => m,
        None => BlendMode::Normal,
    }
    &&& info.filters@.len() == fs.len()
    &&& (forall|i: int| 0 <= i < fs.len() ==> shows_filter(fs[i], #[trigger] info.filters@[i]))
    &&& info.masks@.len() == ms.len()
    &&& (forall|i: int| 0 <= i < ms.len() ==> shows_mask(ms[i], #[trigger] info.masks@[i]))
    &&& info.has_filters == (fs.len() > 0)
    &&& info.has_masks == (ms.len() > 0)
    &&& info.thumb is None
    &&& !info.selected
}

impl PhotoLayerInfo {
    /// What the panel shows of a node.
    pub fn from_node(node: &LayerNode) -> (info: PhotoLayerInfo)
        ensures
            info_of(*node, info),
    {
        let mut filters: Vec<PhotoSubLayerInfo> = Vec::new();
        match node {
            LayerNode::Pixel(l) => {
                let mut i: usize = 0;
                while i < l.filter_layers.len()
                    invariant
                        i <= l.filter_layers@.len(),
                        filters@.len() == i,
                        forall|j: int|
                            0 <= j < i ==> shows_filter(
                                l.filter_layers@[j],
                                #[trigger] filters@[j],
                            ),
                    decreases l.filter_layers@.len() - i,
                {
                    let f = &l.filter_layers[i];
                    filters.push(PhotoSubLayerInfo { id: f.id, name: f.name.clone(), is_filter: true });
                    i += 1;
                }
            },
            _ => {},
        }
        let ms = node.masks();
        let mut masks: Vec<PhotoSubLayerInfo> = Vec::new();
        let mut i: usize = 0;
        while i < ms.len()
            invariant
                i <= ms@.len(),
                ms@ == node.node_masks(),
                masks@.len() == i,
                forall|j: int| 0 <= j < i ==> shows_mask(ms@[j], #[trigger] masks@[j]),
            decreases ms@.len() - i,
        {
            let m = &ms[i];
            masks.push(PhotoSubLayerInfo { id: m.id, name: m.name.clone(), is_filter: false });
            i += 1;
        }
        let has_filters = filters.len() > 0;
        let has_masks = masks.len() > 0;
        PhotoLayerInfo {
            id: node.id(),
            name: node.name().clone(),
            kind: PhotoLayerKind::from_node(node),
            visible: node.visible(),
            opacity: node.opacity(),
            blend_mode: match node.blend_mode() {
                Some(m) => m,
                None => BlendMode::Normal,
            },
            has_filters,
            has_masks,
            filters,
            masks,
            thumb: None,
            selected: false,
        }
    }
}

/// The display snapshot of the root stack, top of the stack first: entry
/// `i` shows the root node `len - 1 - i` (display indices are those of
/// `ReorderLayer`).
pub fn snapshot_layers(document: &Document) -> (layers: Vec<PhotoLayerInfo>)
    ensures
        layers@.len() == document.root@.len(),
        forall|i: int|
            0 <= i < layers@.len() ==> info_of(
                document.root@[document.root@.len() - 1 - i],
                #[trigger] layers@[i],
            ),
{
    let len = document.root.len();
    let mut layers: Vec<PhotoLayerInfo> = Vec::new();
    let mut i: usize = 0;
    while i < len
        invariant
            i <= len,
            len == document.root@.len(),
            layers@.len() == i,
            forall|j: int|
                0 <= j < i ==> info_of(document.root@[len - 1 - j], #[trigger] layers@[j]),
        decreases len - i,
    {
        layers.push(PhotoLayerInfo::from_node(&document.root[len - 1 - i]));
        i += 1;
    }
    layers
}

// ---------------------------------------------------------------------------
// Menus, dialogs and shell state
// ---------------------------------------------------------------------------

/// What the menus grey out.
#[derive(Debug, Clone, Copy, PartialEq, Eq, Default)]
pub struct MenuAvailability {
    pub can_undo: bool,
    pub can_redo: bool,
    /// A layer is selected.
    pub has_selection: bool,
}

/// Orientation of a new document.
#[derive(Debug, Clone, Copy, PartialEq, Eq, Structural)]
pub enum DocOrientation {
    /// Height at least the width.
    Portrait,
    /// Width at least the height.
    Paysage,
}

impl Default for DocOrientation {
    fn default() -> (o: DocOrientation)
        ensures
            o == DocOrientation::Portrait,
    {
        DocOrientation::Portrait
    }
}

/// Choice made in the "Create a document" window.
#[derive(Debug, Clone, Copy, PartialEq, Eq, Structural)]
pub enum NewDocumentChoice {
    /// A blank document of the given size in pixels.
    Create(u32, u32),
    /// Open an image from disk.
    OpenImage,
}

/// Formats offered by the export window.
pub open spec fn export_format_name(i: int) -> Seq<char> {
    if i == 1 {
        "jpeg"@
    } else if i == 2 {
        "jpg"@
    } else if i == 3 {
        "gif"@
    } else {
        "png"@
    }
}

/// A validated export: destination path (its extension names the format)
/// and JPEG quality 1..=100.
#[derive(Debug, Clone, PartialEq, Eq)]
pub struct ExportRequest {
    pub path: String,
    pub quality: u8,
}

/// The export file name: the trimmed name (`export` when nothing is
/// left), a dot, the extension of the chosen format (PNG, JPEG, JPG, GIF;
/// PNG out of range).
pub open spec fn export_file_name(filename: Seq<char>, format: usize) -> Seq<char> {
    let stem = if trimmed(filename).len() == 0 {
        "export"@
    } else {
        trimmed(filename)
    };
    stem + "."@ + export_format_name(format as int)
}

/// Builds the export request from the window's fields: the file name in
/// `folder` (a separator added when `folder` does not end with one) and
/// the quality clamped to 1..=100.
pub fn export_request(folder: &String, filename: &String, format: usize, quality: u8) -> (r:
    ExportRequest)
    ensures
        r.path@ == if folder@.len() == 0 {
            export_file_name(filename@, format)
        } else if folder@.last() == '/' {
            folder@ + export_file_name(filename@, format)
        } else {
            folder@ + "/"@ + export_file_name(filename@, format)
        },
        r.quality == if quality < 1 {
            1
        } else if quality > 100 {
            100
        } else {
            quality
        },
{
    let stem = trim_text(filename.as_str());
    let mut name = if stem.as_str().is_empty() {
        String::from_str("export")
    } else {
        stem
    };
    name.append(".");
    let ext = if format == 1 {
        "jpeg"
    } else if format == 2 {
        "jpg"
    } else if format == 3 {
        "gif"
    } else {
        "png"
    };
    proof {
        reveal_strlit("jpeg");
        reveal_strlit("jpg");
        reveal_strlit("gif");
        reveal_strlit("png");
    }
    name.append(ext);
    let mut path = folder.clone();
    let n = path.as_str().unicode_len();
    if n == 0 {
        path = name;
    } else {
        let last = path.as_str().get_char(n - 1);
        if last != '/' {
            path.append("/");
        }
        path.append(name.as_str());
    }
    let quality = if quality < 1 {
        1
    } else if quality > 100 {
        100
    } else {
        quality
    };
    ExportRequest { path, quality }
}

/// The add-filter window.
#[derive(Debug, Clone, Copy, PartialEq, Eq, Default)]
pub struct FilterModalState {
    pub open: bool,
    /// Index in the list of filters.
    pub choice: usize,
}

/// Short-lived state of the shell: the catalogue of filters (display name
/// and registry type) and the counter of untitled documents.
pub struct PhotoRuntimeState {
    pub filter_types: Vec<(String, String)>,
    pub untitled_counter: usize,
}

impl PhotoRuntimeState {
    /// The state at start, over the registry's catalogue of filters.
    pub fn new(filter_types: Vec<(String, String)>) -> (s: PhotoRuntimeState)
        ensures
            s.filter_types@ == filter_types@,
            s.untitled_counter == 0,
    {
        PhotoRuntimeState { filter_types, untitled_counter: 0 }
    }
}

/// Composition of the whole photo window (drawing lives with the
/// interface toolkit).
pub struct PhotoWorkspace;

/// The inspector panel (drawing lives with the interface toolkit).
pub struct InspectorPanel;

/// The layers panel (drawing lives with the interface toolkit).
pub struct LayersPanel;

/// The video application (a placeholder until its engine exists).
pub struct VideoApp {
    placeholder: (),
}

impl VideoApp {
    /// Creates the application.
    pub fn new() -> (app: VideoApp) {
        VideoApp { placeholder: () }
    }
}

// ---------------------------------------------------------------------------
// Counters
// ---------------------------------------------------------------------------

/// Durations of one preview render (microseconds) and its pixel counts.
#[derive(Debug, Default, Clone, Copy, PartialEq, Eq)]
pub struct PreviewTimings {
    pub composite_us: u128,
    pub thumb_us: u128,
    pub full_px: u64,
    pub preview_px: u64,
}

/// Measures of one worker command.
#[derive(Debug, Default, Clone, Copy, PartialEq, Eq)]
pub struct OpMetrics {
    /// Name of the command.
    pub op: &'static str,
    pub total_us: u128,
    pub snapshot_us: u128,
    pub composite_us: u128,
    pub thumb_us: u128,
    pub full_px: u64,
    pub preview_px: u64,
}

/// Counters of the worker.
#[derive(Debug, Default, Clone, Copy, PartialEq, Eq)]
pub struct WorkerMetrics {
    /// Measures of the last command.
    pub last: Option<OpMetrics>,
    /// Command in progress.
    pub current_op: &'static str,
    /// Answers produced.
    pub responses: u64,
    /// Answers with a preview.
    pub previews: u64,
    /// Composites actually produced.
    pub renders: u64,
}

/// Counters of the appearance cache.
#[derive(Debug, Default, Clone, Copy, PartialEq, Eq)]
pub struct AppearanceStats {
    /// Entries served again without running the chain.
    pub hits: u64,
    /// Entries computed (chain run).
    pub misses: u64,
    /// Preview buffers rebuilt.
    pub preview_rebuilds: u64,
    /// Thumbnails rebuilt.
    pub thumb_rebuilds: u64,
}

} // verus!
