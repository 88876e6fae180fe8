use photo_engine::blend::BlendMode;
use photo_engine::command::RenderRevision;
use photo_engine::ids::LayerId;
use photo_engine::interface::{MenuAvailability, PhotoCanvasTool};
use photo_engine::shell::{
    apply_response, handle_action, inspector_action_to_photo, layer_panel_action_to_photo, menu_action_to_photo,
    sample_preview_color, DocumentTabs, InspectorAction, LayerPanelAction, LayerRenameState, PhotoAction, PhotoCommandQueue,
    PhotoDockTab, PhotoEngineResponse, PhotoMenuAction, PhotoShellState, PhotoUiState, PreviewImage, ShellEffect,
    ZoomStep,
};
use photo_engine::worker::PhotoEngineCommand;


fn unknown_id() -> LayerId {
    uuid::Uuid::new_v4().as_u128()
}

fn pixels_2x2() -> Vec<u8> {
    vec![10, 20, 30, 255, 40, 50, 60, 255, 70, 80, 90, 255, 100, 110, 120, 255]
}

fn preview(width: u32, height: u32, rgba: Vec<u8>) -> PreviewImage {
    PreviewImage {
        width,
        height,
        rgba,
        full_width: width,
        full_height: height,
        origin_x: 0,
        origin_y: 0,
        doc_width: width,
        doc_height: height,
    }
}

fn preview_at_revision(revision: RenderRevision) -> PhotoEngineResponse {
    PhotoEngineResponse::LayersChanged {
        layers: Vec::new(),
        preview: Some(preview(2, 2, pixels_2x2())),
        revision,
        can_undo: false,
        can_redo: false,
    }
}

#[test]
fn queue_preserves_emission_order() {
    let mut queue = PhotoCommandQueue::new();
    assert!(queue.is_empty());
    queue.push(PhotoAction::Undo);
    queue.extend(vec![PhotoAction::Redo, PhotoAction::ZoomIn]);
    assert_eq!(queue.len(), 3);
    assert_eq!(queue.drain(), vec![PhotoAction::Undo, PhotoAction::Redo, PhotoAction::ZoomIn]);
    assert!(queue.is_empty());
}

#[test]
fn every_menu_action_converts() {
    assert_eq!(menu_action_to_photo(PhotoMenuAction::Undo), PhotoAction::Undo);
    assert_eq!(menu_action_to_photo(PhotoMenuAction::DeleteLayer), PhotoAction::DeleteSelectedLayer);
    assert_eq!(menu_action_to_photo(PhotoMenuAction::NewDocument), PhotoAction::OpenNewDocumentDialog);
    assert_eq!(menu_action_to_photo(PhotoMenuAction::CloseDocument), PhotoAction::CloseTab);
    assert_eq!(
        menu_action_to_photo(PhotoMenuAction::ShowDockTab(PhotoDockTab::Layers)),
        PhotoAction::ShowDockTab(PhotoDockTab::Layers)
    );
}

#[test]
fn every_inspector_action_converts() {
    let id = unknown_id();
    assert_eq!(
        inspector_action_to_photo(InspectorAction::ToggleVisibility(id)),
        PhotoAction::ToggleLayerVisibility(id)
    );
    assert_eq!(
        inspector_action_to_photo(InspectorAction::SetOpacity { layer: id, opacity: 42_000 }),
        PhotoAction::SetOpacity { layer: id, opacity: 42_000 }
    );
}

#[test]
fn every_panel_action_converts() {
    let id = unknown_id();
    assert_eq!(layer_panel_action_to_photo(LayerPanelAction::Select(id)), PhotoAction::SelectLayer(id));
    assert_eq!(
        layer_panel_action_to_photo(LayerPanelAction::Reorder { from: 0, to: 2 }),
        PhotoAction::ReorderLayers { from: 0, to: 2 }
    );
    assert_eq!(
        layer_panel_action_to_photo(LayerPanelAction::ToggleVisibility(id)),
        PhotoAction::ToggleLayerVisibility(id)
    );
    assert_eq!(layer_panel_action_to_photo(LayerPanelAction::Delete), PhotoAction::DeleteSelectedLayer);
    assert_eq!(layer_panel_action_to_photo(LayerPanelAction::DuplicateLayer(id)), PhotoAction::DuplicateLayer(id));
    assert_eq!(
        layer_panel_action_to_photo(LayerPanelAction::SetOpacity { layer: id, opacity: 42_000 }),
        PhotoAction::SetOpacity { layer: id, opacity: 42_000 }
    );
    assert_eq!(
        layer_panel_action_to_photo(LayerPanelAction::SetBlendMode { layer: id, mode: BlendMode::Screen }),
        PhotoAction::SetBlendMode { layer: id, mode: BlendMode::Screen }
    );
}

#[test]
fn actions_route_to_local_state() {
    let mut ui = PhotoUiState::default();
    let mut shell = PhotoShellState::default();
    let before = ui.show_grid;
    assert!(matches!(handle_action(&mut ui, &mut shell, PhotoAction::ToggleGrid), ShellEffect::Nothing));
    assert_eq!(ui.show_grid, !before);
    assert!(matches!(handle_action(&mut ui, &mut shell, PhotoAction::ZoomIn), ShellEffect::Zoom(ZoomStep::In)));
    assert!(matches!(
        handle_action(&mut ui, &mut shell, PhotoAction::ZoomReset),
        ShellEffect::Zoom(ZoomStep::Reset)
    ));
    handle_action(&mut ui, &mut shell, PhotoAction::ShowHelp);
    assert!(shell.help_open);
}

#[test]
fn select_action_updates_selection_without_worker() {
    let mut ui = PhotoUiState::default();
    let mut shell = PhotoShellState::default();
    let id = unknown_id();
    let effect = handle_action(&mut ui, &mut shell, PhotoAction::SelectLayer(id));
    assert!(matches!(effect, ShellEffect::Nothing));
    assert_eq!(ui.selected, Some(id));
}

#[test]
fn selection_actions_need_a_selection() {
    let mut ui = PhotoUiState::default();
    let mut shell = PhotoShellState::default();
    assert!(matches!(
        handle_action(&mut ui, &mut shell, PhotoAction::DeleteSelectedLayer),
        ShellEffect::Nothing
    ));
    handle_action(&mut ui, &mut shell, PhotoAction::OpenFilterMenu);
    assert!(!shell.filter_modal.open);
    let id = unknown_id();
    handle_action(&mut ui, &mut shell, PhotoAction::SelectLayer(id));
    match handle_action(&mut ui, &mut shell, PhotoAction::DuplicateSelectedLayer) {
        ShellEffect::Engine(PhotoEngineCommand::DuplicateLayer(target)) => assert_eq!(target, id),
        _ => panic!("commande moteur attendue"),
    }
    handle_action(&mut ui, &mut shell, PhotoAction::OpenFilterMenu);
    assert!(shell.filter_modal.open);
    assert_eq!(shell.filter_modal.choice, 0);
}

#[test]
fn engine_actions_become_commands() {
    let mut ui = PhotoUiState::default();
    let mut shell = PhotoShellState::default();
    match handle_action(&mut ui, &mut shell, PhotoAction::SetOpacity { layer: 7, opacity: 50_000 }) {
        ShellEffect::Engine(PhotoEngineCommand::SetOpacity { layer, opacity }) => {
            assert_eq!((layer, opacity), (7, 50_000))
        }
        _ => panic!("commande moteur attendue"),
    }
    match handle_action(&mut ui, &mut shell, PhotoAction::TogglePreviewClip) {
        ShellEffect::Engine(PhotoEngineCommand::SetPreviewClip { clip }) => assert!(clip),
        _ => panic!("commande moteur attendue"),
    }
    assert!(ui.preview_clip);
    handle_action(&mut ui, &mut shell, PhotoAction::SetTool(PhotoCanvasTool::Brush));
    assert_eq!(ui.tool, PhotoCanvasTool::Brush);
    assert!(matches!(
        handle_action(&mut ui, &mut shell, PhotoAction::CreateDocument { width: 10, height: 20 }),
        ShellEffect::CreateDocument { width: 10, height: 20 }
    ));
    assert!(matches!(handle_action(&mut ui, &mut shell, PhotoAction::Quit), ShellEffect::Quit));
}

#[test]
fn app_engine_error_sets_status() {
    let mut ui = PhotoUiState::default();
    let upload = apply_response(&mut ui, PhotoEngineResponse::EngineError { message: String::from("echec test") });
    assert!(!upload);
    assert_eq!(ui.status, "echec test");
}

#[test]
fn state_engine_error_sets_status() {
    let mut ui = PhotoUiState::default();
    apply_response(&mut ui, PhotoEngineResponse::EngineError { message: String::from("echec test") });
    assert_eq!(ui.status, "echec test");
}

#[test]
fn export_done_sets_status() {
    let mut ui = PhotoUiState::default();
    apply_response(&mut ui, PhotoEngineResponse::ExportDone { path: String::from("/tmp/test.png") });
    assert!(ui.status.contains("test.png"));
    assert_eq!(ui.status, "Exporte : /tmp/test.png");
}

#[test]
fn stale_preview_revision_does_not_reupload() {
    let mut ui = PhotoUiState::default();
    assert!(apply_response(&mut ui, preview_at_revision(RenderRevision(2))));
    assert_eq!(ui.displayed_revision, Some(RenderRevision(2)));
    let uploads = ui.texture_uploads;
    assert!(!apply_response(&mut ui, preview_at_revision(RenderRevision(1))));
    assert_eq!(ui.texture_uploads, uploads, "aucun re-televersement");
    assert_eq!(ui.displayed_revision, Some(RenderRevision(2)));
    assert!(apply_response(&mut ui, preview_at_revision(RenderRevision(3))));
    assert_eq!(ui.texture_uploads, uploads + 1);
    assert_eq!(ui.displayed_revision, Some(RenderRevision(3)));
}

#[test]
fn state_changed_keeps_displayed_texture() {
    let mut ui = PhotoUiState::default();
    apply_response(&mut ui, preview_at_revision(RenderRevision(4)));
    let uploads = ui.texture_uploads;
    let upload = apply_response(
        &mut ui,
        PhotoEngineResponse::StateChanged {
            layers: Vec::new(),
            revision: RenderRevision(4),
            can_undo: true,
            can_redo: false,
        },
    );
    assert!(!upload);
    assert!(ui.can_undo);
    assert_eq!(ui.texture_uploads, uploads);
    assert!(ui.last_preview.is_some());
    assert_eq!(ui.displayed_revision, Some(RenderRevision(4)));
}

#[test]
fn a_new_stack_drops_a_vanished_selection() {
    let mut ui = PhotoUiState::default();
    ui.selected = Some(unknown_id());
    apply_response(
        &mut ui,
        PhotoEngineResponse::StateChanged {
            layers: Vec::new(),
            revision: RenderRevision(0),
            can_undo: false,
            can_redo: true,
        },
    );
    assert_eq!(ui.selected, None);
    assert!(ui.can_redo);
    apply_response(
        &mut ui,
        PhotoEngineResponse::LayersChanged {
            layers: Vec::new(),
            preview: None,
            revision: RenderRevision(1),
            can_undo: false,
            can_redo: false,
        },
    );
    assert!(ui.last_preview.is_none());
    assert_eq!(ui.displayed_revision, None);
}

#[test]
fn sample_preview_color_clamps() {
    let image = preview(2, 2, pixels_2x2());
    assert_eq!(sample_preview_color(&image, 0, 0), Some([10, 20, 30]));
    assert_eq!(sample_preview_color(&image, 1, 1), Some([100, 110, 120]));
    assert_eq!(sample_preview_color(&image, 5, 0), None);
    assert_eq!(sample_preview_color(&image, -1, 0), None);
    let empty = preview(0, 0, Vec::new());
    assert_eq!(sample_preview_color(&empty, 0, 0), None);
    let short = preview(2, 2, vec![1, 2, 3, 4]);
    assert_eq!(sample_preview_color(&short, 1, 1), None);
}

#[test]
fn tabs_open_close() {
    let mut tabs = DocumentTabs::new(1);
    for id in [2u128, 3] {
        tabs.open(id);
    }
    assert_eq!(tabs.len(), 3);
    assert_eq!(tabs.active_id(), 3);
    assert!(!tabs.close_active_tab(10));
    assert_eq!(tabs.len(), 2);
    assert_eq!(tabs.active_id(), 2);
    assert!(!tabs.close_active_tab(11));
    assert!(tabs.close_active_tab(12));
    assert_eq!(tabs.len(), 1);
    assert_eq!(tabs.active_id(), 12);
    assert!(!tabs.close_document(999, 13));
    assert_eq!(tabs.len(), 1);
    assert_eq!(tabs.active_id(), 12);
}

#[test]
fn closing_before_active_keeps_selection() {
    let mut tabs = DocumentTabs::new(1);
    for id in [2u128, 3] {
        tabs.open(id);
    }
    assert!(tabs.activate(1));
    assert!(!tabs.close_document(1, 9));
    assert_eq!(tabs.len(), 2);
    assert_eq!(tabs.active_index(), 0);
    assert_eq!(tabs.active_id(), 2);
    assert!(!tabs.activate(5));
}

#[test]
fn closing_the_only_document_opens_a_blank_one() {
    let mut tabs = DocumentTabs::new(7);
    assert!(tabs.close_document(7, 8));
    assert_eq!(tabs.len(), 1);
    assert_eq!(tabs.active_index(), 0);
    assert_eq!(tabs.active_id(), 8);
}

#[test]
fn rename_state_defaults_to_idle() {
    let state = LayerRenameState::default();
    assert_eq!(state.editing, None);
    assert!(state.buffer.is_empty());
}

#[test]
fn menus_grey_out_history_and_selection_entries() {
    let mut ui = PhotoUiState::default();
    let idle = ui.menu_availability();
    assert_eq!(idle, MenuAvailability { can_undo: false, can_redo: false, has_selection: false });
    assert!(!idle.enables(&PhotoMenuAction::Undo));
    assert!(!idle.enables(&PhotoMenuAction::Redo));
    assert!(!idle.enables(&PhotoMenuAction::DeleteLayer));
    assert!(!idle.enables(&PhotoMenuAction::DuplicateLayer));
    assert!(!idle.enables(&PhotoMenuAction::AddMask));
    assert!(idle.enables(&PhotoMenuAction::AddEmptyLayer));
    assert!(idle.enables(&PhotoMenuAction::Export));
    ui.can_undo = true;
    ui.selected = Some(7);
    let busy = ui.menu_availability();
    assert!(busy.enables(&PhotoMenuAction::Undo));
    assert!(!busy.enables(&PhotoMenuAction::Redo));
    assert!(busy.enables(&PhotoMenuAction::DeleteLayer));
    assert!(busy.enables(&PhotoMenuAction::AddMask));
}

#[test]
fn rename_commits_trimmed_changed_names_only() {
    let current = String::from("fond");
    let mut state = LayerRenameState::default();
    state.begin(4, &current);
    assert_eq!(state.editing, Some(4));
    assert_eq!(state.buffer, "fond");
    state.buffer = String::from("\u{3000} ciel\u{2003}\t");
    assert_eq!(
        state.finish(4, &current, false),
        Some(LayerPanelAction::RenameCommit { layer: 4, name: String::from("ciel") })
    );
    assert_eq!(state.editing, None);
    state.begin(4, &current);
    state.buffer = String::from("  fond ");
    assert_eq!(state.finish(4, &current, false), None);
    state.begin(4, &current);
    state.buffer = String::from("   ");
    assert_eq!(state.finish(4, &current, false), None);
    state.begin(4, &current);
    state.buffer = String::from("autre");
    assert_eq!(state.finish(4, &current, true), None);
    assert_eq!(state.editing, None);
}
