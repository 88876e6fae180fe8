use photo_engine::blend::BlendMode;
use photo_engine::command::{RenderEvent, RenderRevision};
use photo_engine::document::Document;
use photo_engine::ids::LayerId;
use photo_engine::interface::snapshot_layers;
use photo_engine::model::{FilterLayer, LayerNode, PixelLayer};
use photo_engine::raster::Raster;
use photo_engine::worker::{
    apply_command, display_to_doc_index, document_fits, render_routing, EngineWorker, PhotoEngineCommand, RenderInvalidation,
    Reply, Resolution, WorkerMetrics, HISTORY_LIMIT,
};


fn unknown_id() -> LayerId {
    uuid::Uuid::new_v4().as_u128()
}

fn three_layer_doc() -> Document {
    let mut doc = Document::new(8, 8);
    for name in ["fond", "milieu", "dessus"] {
        let version = doc.next_version();
        doc.push_layer(LayerNode::Pixel(PixelLayer::new(String::from(name), Raster::transparent(4, 4), version)));
    }
    doc
}

fn names(doc: &Document) -> Vec<String> {
    snapshot_layers(doc).iter().map(|l| l.name.clone()).collect()
}

fn apply(worker: &mut EngineWorker, command: PhotoEngineCommand) -> Reply {
    worker.apply(command, Resolution::Nothing)
}

fn no_outside_work(_document: &Document, _command: &PhotoEngineCommand) -> Resolution {
    Resolution::Nothing
}

fn first_id(worker: &EngineWorker) -> LayerId {
    worker.document().root[0].id()
}

fn offset_of(worker: &EngineWorker, id: LayerId) -> (i64, i64) {
    match worker.document().find(id).expect("present") {
        LayerNode::Pixel(pixels) => (pixels.transform.offset_x, pixels.transform.offset_y),
        _ => panic!("pixels attendus"),
    }
}

fn filter_types(worker: &EngineWorker, id: LayerId) -> Vec<String> {
    match worker.document().find(id).expect("present") {
        LayerNode::Pixel(pixels) => pixels.filter_layers.iter().map(|f| f.type_id.clone()).collect(),
        _ => panic!("pixels attendus"),
    }
}

fn opacity_gesture(id: LayerId) -> Vec<PhotoEngineCommand> {
    (1..=20i64).map(|i| PhotoEngineCommand::SetOpacity { layer: id, opacity: i * 4_000 }).collect()
}

#[test]
fn display_index_conversion() {
    assert_eq!(display_to_doc_index(0, 3), Some(2));
    assert_eq!(display_to_doc_index(2, 3), Some(0));
    assert_eq!(display_to_doc_index(3, 3), None);
    assert_eq!(display_to_doc_index(0, 0), None);
}

#[test]
fn toggle_visibility_command() {
    let mut doc = three_layer_doc();
    let id = doc.root[0].id();
    assert!(doc.find(id).expect("present").visible());
    apply_command(&mut doc, PhotoEngineCommand::ToggleLayerVisibility(id), Resolution::Nothing);
    assert!(!doc.find(id).expect("present").visible());
    apply_command(&mut doc, PhotoEngineCommand::ToggleLayerVisibility(id), Resolution::Nothing);
    assert!(doc.find(id).expect("present").visible());
}

#[test]
fn reorder_command_moves_display_top_to_bottom() {
    let mut doc = three_layer_doc();
    apply_command(&mut doc, PhotoEngineCommand::ReorderLayer { from: 0, to: 3 }, Resolution::Nothing);
    assert_eq!(names(&doc), ["milieu", "fond", "dessus"]);
}

#[test]
fn reorder_command_bottom_to_top() {
    let mut doc = three_layer_doc();
    apply_command(&mut doc, PhotoEngineCommand::ReorderLayer { from: 2, to: 0 }, Resolution::Nothing);
    assert_eq!(names(&doc), ["fond", "dessus", "milieu"]);
}

#[test]
fn invalid_commands_are_noops() {
    let mut doc = three_layer_doc();
    apply_command(&mut doc, PhotoEngineCommand::ToggleLayerVisibility(unknown_id()), Resolution::Nothing);
    apply_command(&mut doc, PhotoEngineCommand::ReorderLayer { from: 9, to: 0 }, Resolution::Nothing);
    apply_command(&mut doc, PhotoEngineCommand::ReorderLayer { from: 1, to: 1 }, Resolution::Nothing);
    assert_eq!(names(&doc), ["dessus", "milieu", "fond"]);
    assert!(snapshot_layers(&doc).iter().all(|l| l.visible));
}

#[test]
fn set_blend_mode_snapshots_and_undoes() {
    let mut worker = EngineWorker::new(three_layer_doc());
    let id = first_id(&worker);
    apply(&mut worker, PhotoEngineCommand::SetBlendMode { layer: id, mode: BlendMode::Multiply });
    assert_eq!(worker.document().find(id).expect("present").blend_mode(), Some(BlendMode::Multiply));
    let layers = snapshot_layers(worker.document());
    assert_eq!(layers.iter().find(|l| l.id == id).expect("present").blend_mode, BlendMode::Multiply);
    assert_eq!(worker.undo_len(), 1);
    apply(&mut worker, PhotoEngineCommand::SetBlendMode { layer: unknown_id(), mode: BlendMode::Screen });
    assert_eq!(worker.undo_len(), 1);
    apply(&mut worker, PhotoEngineCommand::Undo);
    assert_eq!(worker.document().find(id).expect("present").blend_mode(), Some(BlendMode::Normal));
}

#[test]
fn set_opacity_clamps_and_snapshots() {
    let mut worker = EngineWorker::new(three_layer_doc());
    let id = first_id(&worker);
    apply(&mut worker, PhotoEngineCommand::SetOpacity { layer: id, opacity: 250_000 });
    assert_eq!(worker.document().find(id).expect("present").opacity(), 100_000);
    let layers = snapshot_layers(worker.document());
    assert_eq!(layers.iter().find(|l| l.id == id).expect("present").opacity, 100_000);
    apply(&mut worker, PhotoEngineCommand::SetOpacity { layer: id, opacity: 10_000 });
    apply(&mut worker, PhotoEngineCommand::SetOpacity { layer: id, opacity: 20_000 });
    assert_eq!(worker.undo_len(), 1);
    apply(&mut worker, PhotoEngineCommand::Undo);
    assert_eq!(worker.document().find(id).expect("present").opacity(), 100_000);
}

#[test]
fn undo_redo_cycle() {
    let mut worker = EngineWorker::new(three_layer_doc());
    let response = apply(&mut worker, PhotoEngineCommand::Undo);
    assert!(matches!(response, Reply::State { can_undo: false, can_redo: false, .. }));
    assert_eq!(worker.revision(), RenderRevision(0));
    apply(&mut worker, PhotoEngineCommand::ReorderLayer { from: 0, to: 3 });
    apply(&mut worker, PhotoEngineCommand::Undo);
    assert_eq!(names(worker.document()), ["dessus", "milieu", "fond"]);
    apply(&mut worker, PhotoEngineCommand::Redo);
    assert_eq!(names(worker.document()), ["milieu", "fond", "dessus"]);
}

#[test]
fn open_missing_image_is_engine_error() {
    let mut worker = EngineWorker::new(three_layer_doc());
    let response = apply(
        &mut worker,
        PhotoEngineCommand::OpenImage {
            outcome: Err(String::from("Ouverture impossible : /chemin/inexistant/photo.png")),
        },
    );
    assert!(matches!(response, Reply::EngineError { .. }));
    assert_eq!(worker.document().root.len(), 3);
}

#[test]
fn rename_trims_and_rejects_empty_or_unknown() {
    let mut worker = EngineWorker::new(three_layer_doc());
    let id = first_id(&worker);
    apply(&mut worker, PhotoEngineCommand::RenameLayer { layer: id, name: String::from("  fond clair  ") });
    assert_eq!(worker.document().find(id).expect("present").name(), "fond clair");
    assert_eq!(worker.undo_len(), 1);
    apply(&mut worker, PhotoEngineCommand::RenameLayer { layer: id, name: String::from("   ") });
    apply(&mut worker, PhotoEngineCommand::RenameLayer { layer: unknown_id(), name: String::from("fantome") });
    assert_eq!(worker.document().find(id).expect("present").name(), "fond clair");
    assert_eq!(worker.undo_len(), 1);
    apply(&mut worker, PhotoEngineCommand::Undo);
    assert_eq!(worker.document().find(id).expect("present").name(), "fond");
}

#[test]
fn mask_add_remove_roundtrip_with_undo() {
    let mut worker = EngineWorker::new(three_layer_doc());
    let id = first_id(&worker);
    apply(&mut worker, PhotoEngineCommand::AddMask { layer: id });
    let masks = worker.document().masks_of(id).expect("masques");
    assert_eq!(masks.len(), 1);
    assert_eq!(masks[0].name, "Masque 1");
    let mask_id = masks[0].id;
    let layers = snapshot_layers(worker.document());
    let info = layers.iter().find(|l| l.id == id).expect("present");
    assert!(info.has_masks);
    assert_eq!(info.masks.len(), 1);
    apply(&mut worker, PhotoEngineCommand::MoveMask { owner: id, mask: mask_id, up: true });
    assert_eq!(worker.document().masks_of(id).expect("masques").len(), 1);
    apply(&mut worker, PhotoEngineCommand::RemoveMask { owner: id, mask: mask_id });
    assert!(worker.document().masks_of(id).expect("masques").is_empty());
    apply(&mut worker, PhotoEngineCommand::Undo);
    assert_eq!(worker.document().masks_of(id).expect("masques").len(), 1);
    apply(&mut worker, PhotoEngineCommand::AddMask { layer: unknown_id() });
    assert_eq!(worker.document().masks_of(id).expect("masques").len(), 1);
}

#[test]
fn filter_move_and_remove() {
    let mut doc = three_layer_doc();
    let id = doc.root[0].id();
    for type_id in ["brightness_contrast", "blur"] {
        let filter = FilterLayer::neutral(String::from(type_id), Vec::new());
        assert!(doc.add_filter(id, filter).is_some());
    }
    let mut worker = EngineWorker::new(doc);
    let first = match worker.document().find(id).expect("present") {
        LayerNode::Pixel(pixels) => pixels.filter_layers[0].id,
        _ => panic!("pixels attendus"),
    };
    apply(&mut worker, PhotoEngineCommand::MoveFilter { layer: id, filter: first, up: true });
    assert_eq!(filter_types(&worker, id), ["blur", "brightness_contrast"]);
    apply(&mut worker, PhotoEngineCommand::MoveFilter { layer: id, filter: first, up: true });
    apply(&mut worker, PhotoEngineCommand::RemoveFilter { layer: id, filter: first });
    assert_eq!(filter_types(&worker, id), ["blur"]);
}

#[test]
fn move_layer_translates_pixel_transform_with_undo() {
    let mut worker = EngineWorker::new(three_layer_doc());
    let id = first_id(&worker);
    apply(&mut worker, PhotoEngineCommand::MoveLayer { layer: id, dx: 12_000_000, dy: -5_000_000 });
    assert_eq!(offset_of(&worker, id), (12_000_000, -5_000_000));
    assert_eq!(worker.undo_len(), 1);
    apply(&mut worker, PhotoEngineCommand::MoveLayer { layer: id, dx: 0, dy: 0 });
    apply(&mut worker, PhotoEngineCommand::MoveLayer { layer: unknown_id(), dx: 3_000_000, dy: 3_000_000 });
    assert_eq!(worker.undo_len(), 1);
    apply(&mut worker, PhotoEngineCommand::Undo);
    assert_eq!(offset_of(&worker, id), (0, 0));
}

#[test]
fn render_routing_matches_semantics() {
    let id = unknown_id();
    assert_eq!(
        render_routing(&PhotoEngineCommand::ReorderLayer { from: 0, to: 1 }),
        (RenderEvent::FullInvalidation, RenderInvalidation::Composite)
    );
    assert_eq!(
        render_routing(&PhotoEngineCommand::ToggleLayerVisibility(id)),
        (RenderEvent::FullInvalidation, RenderInvalidation::Composite)
    );
    assert_eq!(
        render_routing(&PhotoEngineCommand::SetOpacity { layer: id, opacity: 50_000 }),
        (RenderEvent::NodeInvalidated(id), RenderInvalidation::Composite)
    );
    assert_eq!(
        render_routing(&PhotoEngineCommand::RenameLayer { layer: id, name: String::from("x") }),
        (RenderEvent::NodeInvalidated(id), RenderInvalidation::StateOnly)
    );
}

#[test]
fn batch_opacity_coalesces_to_single_render() {
    let mut worker = EngineWorker::new(three_layer_doc());
    let id = first_id(&worker);
    let responses = worker.apply_batch(opacity_gesture(id), no_outside_work);
    let mut metrics = WorkerMetrics::new();
    metrics.record(&responses);
    assert_eq!(responses.len(), 1, "un seul rendu par geste");
    assert_eq!(metrics.renders, 1);
    assert_eq!(worker.revision(), RenderRevision(1));
    let revision = match &responses[0] {
        Reply::Render { revision, .. } => *revision,
        other => panic!("rendu attendu, obtenu : {other:?}"),
    };
    assert_eq!(revision, RenderRevision(1));
    assert_eq!(worker.document().find(id).expect("present").opacity(), 80_000);
    assert_eq!(worker.undo_len(), 1);
}

#[test]
fn batch_opacity_undo_restores_initial_value() {
    let mut worker = EngineWorker::new(three_layer_doc());
    let id = first_id(&worker);
    worker.apply_batch(opacity_gesture(id), no_outside_work);
    apply(&mut worker, PhotoEngineCommand::Undo);
    assert_eq!(worker.document().find(id).expect("present").opacity(), 100_000);
    apply(&mut worker, PhotoEngineCommand::Redo);
    assert_eq!(worker.document().find(id).expect("present").opacity(), 80_000);
}

#[test]
fn batch_move_sums_deltas_with_single_history_entry() {
    let mut worker = EngineWorker::new(three_layer_doc());
    let id = first_id(&worker);
    let responses = worker.apply_batch(
        vec![
            PhotoEngineCommand::MoveLayer { layer: id, dx: 5_000_000, dy: 0 },
            PhotoEngineCommand::MoveLayer { layer: id, dx: -2_000_000, dy: 1_000_000 },
        ],
        no_outside_work,
    );
    assert_eq!(responses.len(), 1);
    assert_eq!(worker.revision(), RenderRevision(1));
    assert_eq!(offset_of(&worker, id), (3_000_000, 1_000_000));
    assert_eq!(worker.undo_len(), 1);
    apply(&mut worker, PhotoEngineCommand::Undo);
    assert_eq!(offset_of(&worker, id), (0, 0));
}

#[test]
fn rename_produces_state_without_render() {
    let mut worker = EngineWorker::new(three_layer_doc());
    let id = first_id(&worker);
    apply(&mut worker, PhotoEngineCommand::Refresh);
    assert_eq!(worker.revision(), RenderRevision(1));
    let response =
        apply(&mut worker, PhotoEngineCommand::RenameLayer { layer: id, name: String::from("renomme") });
    match response {
        Reply::State { revision, .. } => assert_eq!(revision, RenderRevision(1), "pas de nouveau rendu"),
        other => panic!("etat attendu, obtenu : {other:?}"),
    }
    assert!(snapshot_layers(worker.document()).iter().any(|l| l.id == id && l.name == "renomme"));
    assert_eq!(worker.revision(), RenderRevision(1));
}

#[test]
fn batch_keeps_export_and_error_responses() {
    let mut worker = EngineWorker::new(three_layer_doc());
    let id = first_id(&worker);
    let path = String::from("/tmp/rendu.png");
    let responses = worker.apply_batch(
        vec![
            PhotoEngineCommand::SetOpacity { layer: id, opacity: 50_000 },
            PhotoEngineCommand::Export { path: path.clone(), quality: 80 },
            PhotoEngineCommand::SetOpacity { layer: id, opacity: 60_000 },
        ],
        |_document: &Document, command: &PhotoEngineCommand| match command {
            PhotoEngineCommand::Export { .. } => Resolution::Exported(Ok(())),
            _ => Resolution::Nothing,
        },
    );
    assert_eq!(responses.len(), 2);
    assert!(matches!(&responses[0], Reply::ExportDone { path: p } if *p == path));
    assert!(matches!(responses[1], Reply::Render { .. }));
    let mut metrics = WorkerMetrics::new();
    metrics.record(&responses);
    assert_eq!(metrics.renders, 1);
    assert_eq!(worker.revision(), RenderRevision(1));
    assert_eq!(worker.document().find(id).expect("present").opacity(), 60_000);
}

#[test]
fn batch_of_one_export_answers_its_outcome() {
    let mut worker = EngineWorker::new(three_layer_doc());
    let path = String::from("/tmp/seul.png");
    let responses = worker.apply_batch(
        vec![PhotoEngineCommand::Export { path: path.clone(), quality: 90 }],
        |_document: &Document, _command: &PhotoEngineCommand| Resolution::Exported(Ok(())),
    );
    assert_eq!(responses.len(), 2);
    assert!(matches!(&responses[0], Reply::ExportDone { path: p } if *p == path));
    assert!(matches!(responses[1], Reply::State { .. }));
    let failed = worker.apply_batch(
        vec![PhotoEngineCommand::Export { path, quality: 90 }],
        |_document: &Document, _command: &PhotoEngineCommand| {
            Resolution::Exported(Err(String::from("disque plein")))
        },
    );
    assert_eq!(failed.len(), 2);
    assert!(matches!(&failed[0], Reply::EngineError { message } if message == "disque plein"));
    assert_eq!(worker.undo_len(), 0);
}

#[test]
fn batch_stroke_paints_what_the_outside_work_drew() {
    let mut worker = EngineWorker::new(three_layer_doc());
    let id = first_id(&worker);
    let responses = worker.apply_batch(
        vec![PhotoEngineCommand::PaintStroke { layer: id, stroke: 0 }],
        |document: &Document, command: &PhotoEngineCommand| match command {
            PhotoEngineCommand::PaintStroke { .. } => {
                Resolution::Painted(Some(Raster::opaque_white(document.width, document.height)))
            }
            _ => Resolution::Nothing,
        },
    );
    assert_eq!(responses.len(), 1);
    assert!(matches!(responses[0], Reply::Render { .. }));
    assert_eq!(worker.undo_len(), 1);
    match worker.document().find(id).expect("present") {
        LayerNode::Pixel(pixels) => assert_eq!(pixels.source_image.width, 8),
        _ => panic!("pixels attendus"),
    }
}

#[test]
fn failed_export_is_engine_error() {
    let mut worker = EngineWorker::new(three_layer_doc());
    let response = worker.apply(
        PhotoEngineCommand::Export { path: String::from("/nulle/part.png"), quality: 80 },
        Resolution::Exported(Err(String::from("Export impossible"))),
    );
    assert!(matches!(response, Reply::EngineError { message } if message == "Export impossible"));
    assert_eq!(worker.undo_len(), 0);
}

#[test]
fn preview_clip_crops_to_document_without_history() {
    let mut worker = EngineWorker::new(three_layer_doc());
    let id = first_id(&worker);
    apply(&mut worker, PhotoEngineCommand::MoveLayer { layer: id, dx: 6_000_000, dy: 0 });
    assert!(matches!(apply(&mut worker, PhotoEngineCommand::Refresh), Reply::Render { .. }));
    assert!(!worker.clips_preview());
    let undo_len = worker.undo_len();
    assert_eq!(undo_len, 1);
    let clip = apply(&mut worker, PhotoEngineCommand::SetPreviewClip { clip: true });
    assert!(matches!(clip, Reply::Render { .. }));
    assert_eq!(worker.undo_len(), undo_len, "pas de snapshot");
    assert!(worker.clips_preview());
    assert!(matches!(apply(&mut worker, PhotoEngineCommand::Refresh), Reply::Render { .. }));
    assert_eq!(offset_of(&worker, id), (6_000_000, 0));
}

#[test]
fn preview_clip_is_not_history() {
    let mut worker = EngineWorker::new(three_layer_doc());
    assert!(!worker.clips_preview());
    apply(&mut worker, PhotoEngineCommand::SetPreviewClip { clip: true });
    assert!(worker.clips_preview());
    assert_eq!(worker.undo_len(), 0);
}

#[test]
fn history_is_bounded() {
    let mut worker = EngineWorker::new(three_layer_doc());
    let id = first_id(&worker);
    for _ in 0..(HISTORY_LIMIT + 5) {
        apply(&mut worker, PhotoEngineCommand::ToggleLayerVisibility(id));
    }
    assert_eq!(worker.undo_len(), HISTORY_LIMIT);
    apply(&mut worker, PhotoEngineCommand::Undo);
    assert_eq!(worker.undo_len(), HISTORY_LIMIT - 1);
    assert_eq!(worker.redo_len(), 1);
}

#[test]
fn a_new_change_clears_redo() {
    let mut worker = EngineWorker::new(three_layer_doc());
    let id = first_id(&worker);
    apply(&mut worker, PhotoEngineCommand::ToggleLayerVisibility(id));
    apply(&mut worker, PhotoEngineCommand::Undo);
    assert_eq!(worker.redo_len(), 1);
    apply(&mut worker, PhotoEngineCommand::SetBlendMode { layer: id, mode: BlendMode::Screen });
    assert_eq!(worker.redo_len(), 0);
    let response = apply(&mut worker, PhotoEngineCommand::Redo);
    assert!(matches!(response, Reply::State { can_undo: true, can_redo: false, .. }));
}

#[test]
fn delete_keeps_the_last_layer() {
    let mut doc = Document::new(8, 8);
    let version = doc.next_version();
    doc.push_layer(LayerNode::Pixel(PixelLayer::new(String::from("seul"), Raster::transparent(4, 4), version)));
    let id = doc.root[0].id();
    let mut worker = EngineWorker::new(doc);
    apply(&mut worker, PhotoEngineCommand::DeleteLayer(id));
    assert_eq!(worker.document().root.len(), 1);
    assert_eq!(worker.undo_len(), 0);
    let mut worker = EngineWorker::new(three_layer_doc());
    let id = first_id(&worker);
    apply(&mut worker, PhotoEngineCommand::DeleteLayer(id));
    assert_eq!(names(worker.document()), ["dessus", "milieu"]);
    apply(&mut worker, PhotoEngineCommand::Undo);
    assert_eq!(names(worker.document()), ["dessus", "milieu", "fond"]);
}

#[test]
fn add_empty_and_duplicate_layers() {
    let mut worker = EngineWorker::new(three_layer_doc());
    apply(&mut worker, PhotoEngineCommand::AddEmptyLayer);
    assert_eq!(worker.document().root.len(), 4);
    assert_eq!(worker.document().root[3].name(), "Calque 4");
    let id = first_id(&worker);
    apply(&mut worker, PhotoEngineCommand::DuplicateLayer(id));
    assert_eq!(worker.document().root.len(), 5);
    assert_eq!(worker.document().root[1].name(), "fond");
    assert_ne!(worker.document().root[1].id(), id);
    assert_eq!(worker.undo_len(), 2);
}

#[test]
fn unknown_filter_type_is_engine_error() {
    let mut worker = EngineWorker::new(three_layer_doc());
    let id = first_id(&worker);
    let response = apply(
        &mut worker,
        PhotoEngineCommand::AddFilter { layer: id, filter_type: String::from("inconnu"), filter: None },
    );
    assert!(matches!(response, Reply::EngineError { message } if message == "Filtre inconnu : inconnu"));
    let filter = FilterLayer::neutral(String::from("blur"), Vec::new());
    apply(&mut worker, PhotoEngineCommand::AddFilter { layer: id, filter_type: String::from("blur"), filter: Some(filter) });
    assert_eq!(filter_types(&worker, id), ["blur"]);
}

#[test]
fn paint_stroke_replaces_the_source() {
    let mut worker = EngineWorker::new(three_layer_doc());
    let id = first_id(&worker);
    let none = worker.apply(PhotoEngineCommand::PaintStroke { layer: id, stroke: 0 }, Resolution::Painted(None));
    assert!(matches!(none, Reply::State { .. }));
    assert_eq!(worker.undo_len(), 0);
    let painted = Raster::opaque_white(4, 4);
    worker.apply(PhotoEngineCommand::PaintStroke { layer: id, stroke: 0 }, Resolution::Painted(Some(painted)));
    assert_eq!(worker.undo_len(), 1);
    assert_eq!(worker.revision(), RenderRevision(1));
}

#[test]
fn open_image_grows_the_canvas() {
    let mut worker = EngineWorker::new(three_layer_doc());
    apply(
        &mut worker,
        PhotoEngineCommand::OpenImage { outcome: Ok((String::from("photo.png"), Raster::transparent(20, 6))) },
    );
    assert_eq!(worker.document().root.len(), 4);
    assert_eq!((worker.document().width, worker.document().height), (20, 8));
    assert_eq!(worker.document().root[3].name(), "photo.png");
}

#[test]
fn edits_leave_other_layers_untouched() {
    let mut worker = EngineWorker::new(three_layer_doc());
    let versions = |w: &EngineWorker| -> Vec<(LayerId, u64)> {
        w.document()
            .root
            .iter()
            .map(|n| match n {
                LayerNode::Pixel(p) => (p.id, p.appearance_version),
                _ => panic!("pixels attendus"),
            })
            .collect()
    };
    let before = versions(&worker);
    let target = first_id(&worker);
    worker.apply(PhotoEngineCommand::PaintStroke { layer: target, stroke: 1 }, Resolution::Painted(Some(Raster::opaque_white(4, 4))));
    apply(&mut worker, PhotoEngineCommand::MoveLayer { layer: target, dx: 1_000_000, dy: 0 });
    apply(&mut worker, PhotoEngineCommand::SetOpacity { layer: target, opacity: 5_000 });
    let after = versions(&worker);
    for (b, a) in before.iter().zip(after.iter()) {
        assert_eq!(b.0, a.0);
        if b.0 == target {
            assert_ne!(b.1, a.1);
        } else {
            assert_eq!(b.1, a.1);
        }
    }
}

#[test]
fn commands_have_stable_names() {
    assert_eq!(PhotoEngineCommand::Undo.op_name(), "undo");
    assert_eq!(PhotoEngineCommand::ReorderLayer { from: 0, to: 1 }.op_name(), "reorder");
    assert_eq!(PhotoEngineCommand::SetPreviewClip { clip: true }.op_name(), "set_preview_clip");
    assert_eq!(PhotoEngineCommand::ToggleLayerVisibility(1).op_name(), "toggle_visibility");
}

#[test]
fn worker_paint_invalid_is_noop() {
    let mut doc = Document::new(4, 4);
    let version = doc.next_version();
    doc.push_layer(LayerNode::Pixel(PixelLayer::new(String::from("fond"), Raster::opaque_white(4, 4), version)));
    let id = doc.root[0].id();
    let before = match &doc.root[0] {
        LayerNode::Pixel(p) => (std::sync::Arc::clone(&p.source_image.pixels), p.appearance_version),
        _ => panic!("pixels attendus"),
    };
    // Unknown layer: the painted pixels are dropped.
    apply_command(
        &mut doc,
        PhotoEngineCommand::PaintStroke { layer: unknown_id(), stroke: 0 },
        Resolution::Painted(Some(Raster::transparent(4, 4))),
    );
    // No point, or a radius of zero: no stroke came out of the brush.
    apply_command(&mut doc, PhotoEngineCommand::PaintStroke { layer: id, stroke: 1 }, Resolution::Painted(None));
    apply_command(&mut doc, PhotoEngineCommand::PaintStroke { layer: id, stroke: 2 }, Resolution::Painted(None));
    match &doc.root[0] {
        LayerNode::Pixel(p) => {
            assert!(std::sync::Arc::ptr_eq(&p.source_image.pixels, &before.0));
            assert_eq!(p.appearance_version, before.1);
        }
        _ => panic!("pixels attendus"),
    }
}

fn doc_4k() -> Document {
    let (w, h) = (3840u32, 2160u32);
    let mut doc = Document::new(w, h);
    for (name, px) in [("fond", [200u8, 40, 40, 255]), ("milieu", [40, 200, 40, 255]), ("dessus", [40, 40, 200, 255])] {
        let img = image::DynamicImage::ImageRgba8(image::RgbaImage::from_pixel(w, h, image::Rgba(px)));
        let version = doc.next_version();
        doc.push_layer(LayerNode::Pixel(PixelLayer::new(String::from(name), Raster::from_image(img), version)));
    }
    doc
}

#[test]
fn probe_2_toggle_visibility_4k() {
    let mut worker = EngineWorker::new(doc_4k());
    let first = apply(&mut worker, PhotoEngineCommand::Refresh);
    let id = first_id(&worker);
    let second = apply(&mut worker, PhotoEngineCommand::ToggleLayerVisibility(id));
    assert!(matches!(first, Reply::Render { .. }));
    assert!(matches!(second, Reply::Render { .. }));
    assert_eq!(worker.revision(), RenderRevision(2));
}

#[test]
fn probe_3_opacity_slider_drag_4k() {
    let mut worker = EngineWorker::new(doc_4k());
    apply(&mut worker, PhotoEngineCommand::Refresh);
    let id = first_id(&worker);
    let before = worker.revision().0;
    for i in 1..=20i64 {
        let reply = apply(&mut worker, PhotoEngineCommand::SetOpacity { layer: id, opacity: i * 5_000 });
        assert!(matches!(reply, Reply::Render { .. }));
    }
    assert_eq!(worker.revision().0, before + 20);
    assert_eq!(worker.undo_len(), 1);
}

#[test]
fn probe_4_move_layer_4k() {
    let mut worker = EngineWorker::new(doc_4k());
    apply(&mut worker, PhotoEngineCommand::Refresh);
    let id = first_id(&worker);
    apply(&mut worker, PhotoEngineCommand::MoveLayer { layer: id, dx: 500_000_000, dy: 200_000_000 });
    assert_eq!(offset_of(&worker, id), (500_000_000, 200_000_000));
}

#[test]
fn probe_8_add_remove_mask_4k() {
    let mut worker = EngineWorker::new(doc_4k());
    apply(&mut worker, PhotoEngineCommand::Refresh);
    let id = first_id(&worker);
    apply(&mut worker, PhotoEngineCommand::AddMask { layer: id });
    let mask = worker.document().masks_of(id).expect("masques")[0].id;
    assert_eq!(worker.document().masks_of(id).expect("masques")[0].image.width, 3840);
    apply(&mut worker, PhotoEngineCommand::RemoveMask { owner: id, mask });
    assert!(worker.document().masks_of(id).expect("masques").is_empty());
}

#[test]
fn document_size_limit() {
    assert!(document_fits(0, 0));
    assert!(document_fits(1920, 1080));
    assert!(document_fits(1 << 24, 1 << 24));
    assert!(!document_fits((1 << 24) + 1, 1 << 24));
    assert!(!document_fits(u32::MAX, u32::MAX));
    assert!(document_fits(u32::MAX, 0));
}

#[test]
fn versions_of_a_document_do_not_repeat() {
    let mut doc = Document::new(4, 4);
    assert_eq!(doc.version_clock, 1);
    let first = doc.next_version();
    let second = doc.next_version();
    assert_eq!(first, 1);
    assert_eq!(second, 2);
    doc.version_clock = u64::MAX;
    let last = doc.next_version();
    let wrapped = doc.next_version();
    assert_eq!(last, u64::MAX);
    assert_eq!(wrapped, 0);
    assert_ne!(last, wrapped);
}

#[test]
fn metrics_count_answers_and_renders() {
    let mut worker = EngineWorker::new(three_layer_doc());
    let id = first_id(&worker);
    let mut metrics = WorkerMetrics::new();
    let replies = worker.apply_batch(opacity_gesture(id), no_outside_work);
    metrics.record(&replies);
    assert_eq!((metrics.responses, metrics.renders), (1, 1));
    let replies = worker.apply_batch(
        vec![PhotoEngineCommand::Export { path: String::from("/tmp/x.png"), quality: 80 }],
        |_document: &Document, _command: &PhotoEngineCommand| Resolution::Exported(Ok(())),
    );
    metrics.record(&replies);
    assert_eq!((metrics.responses, metrics.renders), (3, 1));
    metrics.responses = u64::MAX;
    metrics.record(&replies);
    assert_eq!(metrics.responses, u64::MAX);
}

#[test]
fn delete_removes_a_unique_identifier() {
    let mut worker = EngineWorker::new(three_layer_doc());
    let id = first_id(&worker);
    assert!(worker.document().find(id).is_some());
    apply(&mut worker, PhotoEngineCommand::DeleteLayer(id));
    assert!(worker.document().find(id).is_none());
    assert_eq!(worker.document().root.len(), 2);
}

#[test]
fn history_push_records_once_per_gesture_and_clears_redo() {
    let mut worker = EngineWorker::new(three_layer_doc());
    let id = first_id(&worker);
    worker.push_history(Some(id));
    assert_eq!(worker.undo_len(), 1);
    worker.push_history(Some(id));
    assert_eq!(worker.undo_len(), 1, "meme geste : une seule entree");
    worker.push_history(None);
    assert_eq!(worker.undo_len(), 2);
    apply(&mut worker, PhotoEngineCommand::Undo);
    assert_eq!(worker.redo_len(), 1);
    worker.push_history(None);
    assert_eq!(worker.redo_len(), 0);
    for _ in 0..(HISTORY_LIMIT + 3) {
        worker.push_history(None);
    }
    assert_eq!(worker.undo_len() + worker.redo_len(), HISTORY_LIMIT);
}
