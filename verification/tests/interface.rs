use photo_engine::document::Document;
use photo_engine::interface::{
    export_request, snapshot_layers, PhotoCanvasTool, PhotoEditMode, PhotoLayerInfo, PhotoLayerKind,
    PhotoRuntimeState, ViewportTool,
};
use photo_engine::model::{GroupLayer, LayerNode, PixelLayer};
use photo_engine::raster::Raster;

fn three_layer_doc() -> Document {
    let mut doc = Document::new(8, 8);
    for name in ["fond", "milieu", "dessus"] {
        let version = doc.next_version();
        doc.push_layer(LayerNode::Pixel(PixelLayer::new(String::from(name), Raster::transparent(4, 4), version)));
    }
    doc
}

fn all_tools() -> [PhotoCanvasTool; 6] {
    [
        PhotoCanvasTool::Move,
        PhotoCanvasTool::Pan,
        PhotoCanvasTool::Zoom,
        PhotoCanvasTool::Brush,
        PhotoCanvasTool::Eraser,
        PhotoCanvasTool::Eyedropper,
    ]
}

#[test]
fn pixel_mode_supports_every_tool() {
    for tool in all_tools() {
        assert!(PhotoEditMode::Pixel.supports(tool));
    }
}

#[test]
fn vector_and_layout_are_navigation_only() {
    for mode in [PhotoEditMode::Vector, PhotoEditMode::Layout] {
        assert!(mode.supports(PhotoCanvasTool::Move));
        assert!(!mode.supports(PhotoCanvasTool::Brush));
        assert!(!mode.supports(PhotoCanvasTool::Eraser));
    }
}

#[test]
fn modes_list_their_tools_in_rail_order() {
    assert_eq!(PhotoEditMode::all(), vec![PhotoEditMode::Vector, PhotoEditMode::Pixel, PhotoEditMode::Layout]);
    assert_eq!(PhotoEditMode::Pixel.tools().len(), 6);
    assert_eq!(
        PhotoEditMode::Layout.tools(),
        vec![PhotoCanvasTool::Move, PhotoCanvasTool::Pan, PhotoCanvasTool::Zoom]
    );
    assert!(!PhotoEditMode::Vector.supports(PhotoCanvasTool::Eyedropper));
    assert_eq!(PhotoEditMode::default(), PhotoEditMode::Pixel);
    assert_eq!(PhotoEditMode::Vector.label(), "Vector");
}

#[test]
fn tool_mapping_and_painting_flags() {
    assert_eq!(PhotoCanvasTool::Move.viewport_tool(), ViewportTool::Move);
    assert_eq!(PhotoCanvasTool::Pan.viewport_tool(), ViewportTool::Pan);
    assert_eq!(PhotoCanvasTool::Zoom.viewport_tool(), ViewportTool::Zoom);
    assert_eq!(PhotoCanvasTool::Brush.viewport_tool(), ViewportTool::Brush);
    assert_eq!(PhotoCanvasTool::Eraser.viewport_tool(), ViewportTool::Brush);
    assert_eq!(PhotoCanvasTool::Eyedropper.viewport_tool(), ViewportTool::Brush);
    assert!(PhotoCanvasTool::Brush.is_painting());
    assert!(PhotoCanvasTool::Eraser.is_painting());
    assert!(!PhotoCanvasTool::Eyedropper.is_painting());
    assert!(!PhotoCanvasTool::Move.is_painting());
    assert!(!PhotoCanvasTool::Pan.is_painting());
    assert!(!PhotoCanvasTool::Zoom.is_painting());
}

#[test]
fn every_tool_has_a_hint() {
    for tool in all_tools() {
        assert!(!tool.hint().is_empty());
    }
    assert_eq!(PhotoCanvasTool::Eyedropper.hint(), "Cliquer : echantillonner la couleur");
    assert_eq!(PhotoCanvasTool::default(), PhotoCanvasTool::Move);
}

#[test]
fn snapshot_is_top_first() {
    let doc = three_layer_doc();
    let layers = snapshot_layers(&doc);
    assert_eq!(layers.len(), 3);
    assert_eq!(layers[0].name, "dessus");
    assert_eq!(layers[2].name, "fond");
}

#[test]
fn snapshot_preserves_visibility_and_kind() {
    let mut doc = three_layer_doc();
    let id = doc.root[0].id();
    doc.find_mut(id).expect("calque present").set_visible(false);
    let layers = snapshot_layers(&doc);
    let fond = layers.iter().find(|l| l.id == id).expect("snapshot present");
    assert!(!fond.visible);
    assert_eq!(fond.kind, PhotoLayerKind::Pixel);
    assert_eq!(fond.kind.icon_label(), "Pixels");
}

#[test]
fn group_info_shows_its_kind() {
    let group = LayerNode::Group(GroupLayer::new(String::from("Groupe"), Vec::new()));
    let info = PhotoLayerInfo::from_node(&group);
    assert_eq!(info.kind, PhotoLayerKind::Group);
    assert_eq!(info.name, "Groupe");
    assert!(!info.has_filters);
    assert!(!info.has_masks);
    assert!(info.thumb.is_none());
    assert_eq!(PhotoLayerKind::all().len(), 3);
}

#[test]
fn export_request_builds_path_and_quality() {
    let folder = String::from("/tmp/cygnus");
    let request = export_request(&folder, &String::from("rendu"), 1, 80);
    assert_eq!(request.path, "/tmp/cygnus/rendu.jpeg");
    assert_eq!(request.quality, 80);
    assert_eq!(export_request(&folder, &String::from("   "), 1, 80).path, "/tmp/cygnus/export.jpeg");
}

#[test]
fn export_request_edges() {
    let request = export_request(&String::from("/tmp/"), &String::from(" photo "), 9, 0);
    assert_eq!(request.path, "/tmp/photo.png");
    assert_eq!(request.quality, 1);
    let request = export_request(&String::new(), &String::from("x"), 3, 200);
    assert_eq!(request.path, "x.gif");
    assert_eq!(request.quality, 100);
    assert_eq!(export_request(&String::from("d"), &String::from("y"), 2, 50).path, "d/y.jpg");
}

#[test]
fn runtime_state_starts_untitled_at_zero() {
    let state = PhotoRuntimeState::new(vec![(String::from("Flou"), String::from("blur"))]);
    assert_eq!(state.untitled_counter, 0);
    assert_eq!(state.filter_types.len(), 1);
}
