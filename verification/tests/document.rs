use photo_engine::blend::BlendMode;
use photo_engine::command::Command;
use photo_engine::document::Document;
use photo_engine::geometry::{clamp_opacity, saturating_sum, Transform2D};
use photo_engine::ids::{LayerId, UUID_FORMAT_BITS, UUID_V4_FORMAT};
use photo_engine::model::{FilterLayer, LayerMask, LayerNode, PixelLayer};
use photo_engine::params::{get_param, set_param, ParamEntry, ParamValue};
use photo_engine::raster::Raster;
use photo_engine::interface::export_request;
use photo_engine::worker::{EngineWorker, PhotoEngineCommand, Resolution};


fn unknown_id() -> LayerId {
    uuid::Uuid::new_v4().as_u128()
}

fn pixel(doc: &mut Document, name: &str, w: u32, h: u32) -> LayerNode {
    let version = doc.next_version();
    LayerNode::Pixel(PixelLayer::new(String::from(name), Raster::transparent(w, h), version))
}

fn doc_of(names: &[&str]) -> Document {
    let mut doc = Document::new(8, 8);
    for name in names {
        let node = pixel(&mut doc, name, 4, 4);
        doc.push_layer(node);
    }
    doc
}

fn root_names(doc: &Document) -> Vec<String> {
    doc.root.iter().map(|n| n.name().clone()).collect()
}

fn source_size(doc: &Document, id: LayerId) -> (u32, u32) {
    doc.pixel_layer(id).expect("pixels").dimensions()
}

#[test]
fn fresh_ids_are_version_4() {
    let doc = doc_of(&["a", "b"]);
    let a = doc.root[0].id();
    let b = doc.root[1].id();
    assert_eq!(a & UUID_FORMAT_BITS, UUID_V4_FORMAT);
    assert_eq!(b & UUID_FORMAT_BITS, UUID_V4_FORMAT);
    assert_ne!(a, b);
}

#[test]
fn opacity_is_clamped_and_sums_saturate() {
    assert_eq!(clamp_opacity(-5), 0);
    assert_eq!(clamp_opacity(42_500), 42_500);
    assert_eq!(clamp_opacity(250_000), 100_000);
    assert_eq!(saturating_sum(i64::MAX, 1), i64::MAX);
    assert_eq!(saturating_sum(i64::MIN, -1), i64::MIN);
    assert_eq!(saturating_sum(3, -5), -2);
}

#[test]
fn transform_translation_and_identity() {
    let t = Transform2D::identity();
    assert!(t.is_identity());
    assert!(!t.has_skew());
    let moved = t.translate(2_000_000, -1_000_000);
    assert_eq!((moved.offset_x, moved.offset_y), (2_000_000, -1_000_000));
    assert!(!moved.is_identity());
}

#[test]
fn blend_ids_round_trip() {
    for mode in BlendMode::all() {
        assert_eq!(BlendMode::from_id(mode.id()), Some(mode));
    }
    assert_eq!(BlendMode::from_id(6), None);
    assert_eq!(BlendMode::Multiply.label(), "Multiply");
    assert!(BlendMode::Normal.is_normal());
}

#[test]
fn names_are_trimmed_and_numbered() {
    let folder = String::new();
    assert_eq!(export_request(&folder, &String::from("  fond clair \t"), 0, 50).path, "fond clair.png");
    assert_eq!(export_request(&folder, &String::from("   "), 0, 50).path, "export.png");
    let mut worker = EngineWorker::new(doc_of(&[]));
    for _ in 0..12 {
        worker.apply(PhotoEngineCommand::AddEmptyLayer, Resolution::Nothing);
    }
    assert_eq!(worker.document().root[11].name(), "Calque 12");
    let id = worker.document().root[0].id();
    worker.apply(PhotoEngineCommand::AddMask { layer: id }, Resolution::Nothing);
    worker.apply(PhotoEngineCommand::AddMask { layer: id }, Resolution::Nothing);
    let masks = worker.document().masks_of(id).expect("masques");
    assert_eq!(masks[1].name, "Masque 2");
}

#[test]
fn params_replace_the_first_entry_or_append() {
    let mut params: Vec<ParamEntry> = Vec::new();
    set_param(&mut params, String::from("radius"), ParamValue::Float(2_000_000));
    set_param(&mut params, String::from("mode"), ParamValue::Enum(String::from("gauss")));
    set_param(&mut params, String::from("radius"), ParamValue::Float(3_000_000));
    assert_eq!(params.len(), 2);
    assert_eq!(get_param(&params, &String::from("radius")), Some(&ParamValue::Float(3_000_000)));
    assert_eq!(get_param(&params, &String::from("absent")), None);
}

#[test]
fn blank_document_has_one_layer() {
    let doc = Document::with_blank_layer(0, 5);
    assert_eq!(doc.root.len(), 1);
    assert_eq!(doc.root[0].name(), "Calque 1");
    assert_eq!((doc.width, doc.height), (1, 5));
}

#[test]
fn move_up_and_down_within_bounds() {
    let mut doc = doc_of(&["a", "b", "c"]);
    let a = doc.root[0].id();
    assert!(doc.move_up(a));
    assert_eq!(root_names(&doc), ["b", "a", "c"]);
    assert!(doc.move_down(a));
    assert!(!doc.move_down(a));
    assert_eq!(root_names(&doc), ["a", "b", "c"]);
    let c = doc.root[2].id();
    assert!(!doc.move_up(c));
    assert!(!doc.move_up(unknown_id()));
}

#[test]
fn group_and_ungroup_keep_order() {
    let mut doc = doc_of(&["a", "b", "c"]);
    let a = doc.root[0].id();
    let b = doc.root[1].id();
    let gid = doc.group(&vec![b, a]).expect("groupe");
    assert_eq!(root_names(&doc), ["Groupe", "c"]);
    match doc.find(gid).expect("groupe present") {
        LayerNode::Group(g) => {
            let names: Vec<String> = g.children.iter().map(|n| n.name().clone()).collect();
            assert_eq!(names, ["a", "b"]);
        }
        _ => panic!("groupe attendu"),
    }
    assert!(doc.group(&Vec::new()).is_none());
    let freed = doc.ungroup(gid).expect("degroupe");
    assert_eq!(freed, vec![a, b]);
    assert_eq!(root_names(&doc), ["a", "b", "c"]);
    assert!(doc.ungroup(a).is_none());
}

#[test]
fn move_into_refuses_cycles() {
    let mut doc = doc_of(&["a", "b", "c"]);
    let a = doc.root[0].id();
    let c = doc.root[2].id();
    let gid = doc.group(&vec![a]).expect("groupe");
    assert!(doc.can_move_into(c, gid));
    assert!(doc.move_into(c, gid));
    assert!(!doc.can_move_into(gid, gid));
    assert!(!doc.move_into(gid, gid));
    assert_eq!(root_names(&doc), ["Groupe", "b"]);
}

#[test]
fn reorder_before_and_after() {
    let mut doc = doc_of(&["a", "b", "c"]);
    let a = doc.root[0].id();
    let c = doc.root[2].id();
    assert!(doc.can_reorder_before(c, a));
    assert!(doc.reorder_before(c, a, true));
    assert_eq!(root_names(&doc), ["c", "a", "b"]);
    assert!(doc.reorder_before(c, a, false));
    assert_eq!(root_names(&doc), ["a", "c", "b"]);
    assert!(!doc.reorder_before(a, a, true));
}

#[test]
fn insert_remove_and_duplicate() {
    let mut doc = doc_of(&["a", "b"]);
    let a = doc.root[0].id();
    let node = pixel(&mut doc, "n", 2, 2);
    assert!(doc.insert_above(a, node));
    assert_eq!(root_names(&doc), ["a", "n", "b"]);
    let copy = doc.duplicate(a).expect("copie");
    assert_ne!(copy, a);
    assert_eq!(root_names(&doc), ["a", "a", "n", "b"]);
    let removed = doc.remove(copy).expect("retire");
    assert_eq!(removed.id(), copy);
    assert!(doc.remove(copy).is_none());
    assert!(doc.contains(a));
    assert_eq!(doc.pixel_count(), 3);
    assert_eq!(doc.all_pixel_ids().len(), 3);
}

#[test]
fn snapshot_restores_everything() {
    let mut doc = doc_of(&["a", "b"]);
    let snap = doc.snapshot();
    let a = doc.root[0].id();
    doc.remove(a);
    assert_eq!(root_names(&doc), ["b"]);
    doc.restore_snapshot(snap);
    assert_eq!(root_names(&doc), ["a", "b"]);
}

#[test]
fn flip_and_crop_pixel_layers() {
    let mut doc = doc_of(&["a"]);
    let a = doc.root[0].id();
    assert_eq!(doc.flip(a, true), Ok(()));
    assert_eq!(doc.flip(unknown_id(), false), Err(String::from("calque introuvable")));
    assert_eq!(doc.crop(a, 0, 0, 0, 2), Err(String::from("rogner : dimensions nulles")));
    assert_eq!(
        doc.crop(a, 2, 2, 3, 2),
        Err(String::from("rogner : la sélection dépasse les bords du calque"))
    );
    assert_eq!(doc.crop(a, -1, 0, 2, 2), Err(String::from("rogner : la sélection dépasse les bords du calque")));
    assert_eq!(doc.crop(a, 1, 1, 2, 3), Ok(()));
    assert_eq!(source_size(&doc, a), (2, 3));
}

#[test]
fn filters_on_a_pixel_layer() {
    let mut doc = doc_of(&["a"]);
    let a = doc.root[0].id();
    let blur = FilterLayer::neutral(String::from("blur"), Vec::new());
    let blur_id = doc.add_filter(a, blur).expect("ajout");
    assert_eq!(doc.find_filter_parent(blur_id), Some(a));
    assert!(doc.has_filter(a, blur_id));
    assert!(doc.set_filter_param(a, blur_id, String::from("radius"), ParamValue::Float(4_000_000)));
    let f = doc.find_filter_layer(blur_id).expect("filtre");
    assert_eq!(get_param(&f.params, &String::from("radius")), Some(&ParamValue::Float(4_000_000)));
    assert!(doc.set_filter_enabled(a, blur_id, false));
    assert!(!doc.find_filter_layer(blur_id).expect("filtre").enabled);
    let copy = doc.duplicate_filter(a, blur_id).expect("copie");
    assert_ne!(copy, blur_id);
    assert!(doc.can_move_filter(a, blur_id, true));
    assert!(doc.move_filter(a, blur_id, true));
    assert!(!doc.can_move_filter(a, blur_id, true));
    let removed = doc.remove_filter(a, blur_id).expect("retire");
    assert_eq!(removed.id, blur_id);
    assert!(doc.remove_filter(a, blur_id).is_none());
    assert!(doc.add_filter(unknown_id(), FilterLayer::neutral(String::from("blur"), Vec::new())).is_none());
}

#[test]
fn masks_on_a_pixel_layer() {
    let mut doc = doc_of(&["a"]);
    let a = doc.root[0].id();
    let version = doc.next_version();
    let mut mask = LayerMask::full(8, 8, version);
    mask.name = String::from("Masque 1");
    let mid = mask.id;
    assert!(doc.append_mask(a, mask));
    assert_eq!(doc.mask_owner_of(mid), Some(a));
    assert_eq!(doc.mask_name(mid), Some(String::from("Masque 1")));
    assert!(doc.set_mask_inverted(a, mid, true));
    assert!(doc.mask_of(a, mid).expect("masque").inverted);
    assert!(doc.set_mask_enabled(a, mid, false));
    assert!(!doc.mask_of(a, mid).expect("masque").enabled);
    assert_eq!(doc.iter_masks().len(), 1);
    assert!(doc.remove_mask(a, mid));
    assert!(!doc.remove_mask(a, mid));
    assert!(doc.masks_of(a).expect("liste").is_empty());
}

#[test]
fn attribute_commands_undo_exactly() {
    let mut doc = doc_of(&["a"]);
    let a = doc.root[0].id();
    let inverse = doc.apply_command(Command::SetOpacity { layer_id: a, before: 100_000, after: 30_000 });
    assert_eq!(doc.find(a).expect("present").opacity(), 30_000);
    assert_eq!(inverse, Command::SetOpacity { layer_id: a, before: 30_000, after: 100_000 });
    doc.apply_command(inverse);
    assert_eq!(doc.find(a).expect("present").opacity(), 100_000);
    let rename = Command::RenameLayer { node_id: a, before: String::from("a"), after: String::from("b") };
    let back = doc.apply_command(rename);
    assert_eq!(doc.find(a).expect("present").name(), "b");
    doc.apply_command(back);
    assert_eq!(doc.find(a).expect("present").name(), "a");
    let ghost = Command::SetVisibility { node_id: unknown_id(), before: true, after: false };
    assert_eq!(doc.apply_command(ghost.clone()), ghost);
}

#[test]
fn attribute_getters_and_setters() {
    let mut doc = doc_of(&["a"]);
    let a = doc.root[0].id();
    assert_eq!(doc.opacity_of(a), Some(100_000));
    assert!(doc.set_opacity_any(a, -3));
    assert_eq!(doc.opacity_of(a), Some(0));
    assert!(doc.set_blend_any(a, BlendMode::Darken));
    assert_eq!(doc.blend_of(a), Some(BlendMode::Darken));
    let moved = Transform2D::identity().translate(1_000_000, 0);
    assert!(doc.set_transform_any(a, moved));
    assert_eq!(doc.transform_of(a), Some(moved));
    assert!(doc.can_rename(a));
    assert!(doc.set_name_any(a, String::from("z")));
    assert_eq!(doc.root[0].name(), "z");
    assert!(!doc.set_opacity_any(unknown_id(), 1));
}

#[test]
fn fallback_follows_blending() {
    let mut doc = doc_of(&["a"]);
    let a = doc.root[0].id();
    assert!(!doc.needs_fallback());
    assert!(doc.set_blend_any(a, BlendMode::Screen));
    assert!(doc.needs_fallback());
}

#[test]
fn edits_in_place_reach_the_right_node() {
    let mut doc = doc_of(&["a", "b"]);
    let a = doc.root[0].id();
    let b = doc.root[1].id();
    let gid = doc.group(&vec![b]).expect("groupe");
    doc.find_mut(b).expect("present").set_name(String::from("b2"));
    match doc.find(gid).expect("groupe") {
        LayerNode::Group(g) => assert_eq!(g.children[0].name(), "b2"),
        _ => panic!("groupe attendu"),
    }
    assert!(doc.find_mut(unknown_id()).is_none());
    doc.pixel_layer_mut(a).expect("pixels").visible = false;
    assert!(!doc.find(a).expect("present").visible());
    assert!(doc.pixel_layer_mut(gid).is_none());
    let blur = doc.add_filter(a, FilterLayer::neutral(String::from("blur"), Vec::new())).expect("ajout");
    doc.find_filter_layer_mut(blur).expect("filtre").opacity = 500;
    assert_eq!(doc.find_filter_layer(blur).expect("filtre").opacity, 500);
    let version = doc.next_version();
    let mask = LayerMask::full(2, 2, version);
    let mid = mask.id;
    doc.masks_of_mut(blur).expect("masques du filtre").push(mask);
    doc.mask_of_mut(blur, mid).expect("masque").inverted = true;
    assert!(doc.mask_of(blur, mid).expect("masque").inverted);
    assert!(doc.mask_of_mut(a, mid).is_none());
}

#[test]
fn node_lists_in_place() {
    let mut doc = doc_of(&["a"]);
    let version = doc.next_version();
    let mask = LayerMask::full(2, 2, version);
    let mid = mask.id;
    let node = &mut doc.root[0];
    node.masks_mut().expect("masques").push(mask);
    assert_eq!(node.mask(mid).expect("masque").id, mid);
    node.mask_mut(mid).expect("masque").enabled = false;
    assert!(!node.mask(mid).expect("masque").enabled);
    assert!(node.filters_mut().is_none());
    assert!(node.mask_mut(unknown_id()).is_none());
}

#[test]
fn rasters_record_their_size_and_share_pixels() {
    let raster = Raster::from_image(image::DynamicImage::new_rgba8(3, 2));
    assert_eq!((raster.width, raster.height), (3, 2));
    let shared = raster.share();
    assert!(std::sync::Arc::ptr_eq(&shared.pixels, &raster.pixels));
    let white = Raster::opaque_white(2, 1);
    assert_eq!(white.pixels.to_rgba8().get_pixel(1, 0).0, [255, 255, 255, 255]);
    let clear = Raster::transparent(2, 1);
    assert_eq!(clear.pixels.to_rgba8().get_pixel(0, 0).0, [0, 0, 0, 0]);
}

#[test]
fn flip_mirrors_the_pixels() {
    let mut img = image::RgbaImage::new(2, 1);
    img.put_pixel(0, 0, image::Rgba([9, 8, 7, 255]));
    let mut doc = Document::new(2, 1);
    let version = doc.next_version();
    doc.push_layer(LayerNode::Pixel(PixelLayer::new(
        String::from("a"),
        Raster::from_image(image::DynamicImage::ImageRgba8(img)),
        version,
    )));
    let a = doc.root[0].id();
    assert_eq!(doc.flip(a, true), Ok(()));
    let pixels = doc.pixel_layer(a).expect("pixels").source_image.pixels.to_rgba8();
    assert_eq!(pixels.get_pixel(1, 0).0, [9, 8, 7, 255]);
    assert_eq!(pixels.get_pixel(0, 0).0, [0, 0, 0, 0]);
}

#[test]
fn filter_and_mask_commands_undo_up_to_versions() {
    let mut doc = doc_of(&["a"]);
    let a = doc.root[0].id();
    let blur_id = doc.add_filter(a, FilterLayer::neutral(String::from("blur"), Vec::new())).expect("ajout");
    assert!(doc.set_filter_param(a, blur_id, String::from("radius"), ParamValue::Float(1_000_000)));
    let set = Command::SetFilterParam {
        layer_id: a,
        filter_id: blur_id,
        param_name: String::from("radius"),
        before: ParamValue::Float(1_000_000),
        after: ParamValue::Float(5_000_000),
    };
    let clock = doc.version_clock;
    let back = doc.apply_command(set.clone());
    assert_eq!(back, set.inverse());
    let f = doc.find_filter_layer(blur_id).expect("filtre");
    assert_eq!(get_param(&f.params, &String::from("radius")), Some(&ParamValue::Float(5_000_000)));
    let again = doc.apply_command(back);
    assert_eq!(again, set);
    let f = doc.find_filter_layer(blur_id).expect("filtre");
    assert_eq!(f.params.len(), 1);
    assert_eq!(get_param(&f.params, &String::from("radius")), Some(&ParamValue::Float(1_000_000)));
    assert_eq!(doc.version_clock, clock + 2);
    match doc.find(a).expect("present") {
        LayerNode::Pixel(l) => assert_eq!(l.appearance_version, clock + 1),
        _ => panic!("pixels attendus"),
    }

    let version = doc.next_version();
    let mask = LayerMask::full(8, 8, version);
    let mid = mask.id;
    assert!(doc.append_mask(a, mask));
    let switch = Command::SetMaskEnabled { node_id: a, mask_id: mid, before: true, after: false };
    let clock = doc.version_clock;
    let back = doc.apply_command(switch.clone());
    assert!(!doc.mask_of(a, mid).expect("masque").enabled);
    assert_eq!(doc.apply_command(back), switch);
    let m = doc.mask_of(a, mid).expect("masque");
    assert!(m.enabled);
    assert!(!m.inverted);
    assert_eq!(m.version, clock + 1);
    assert_eq!(doc.version_clock, clock + 2);
}

#[test]
fn sublayer_commands_undo_up_to_the_carrier_version() {
    let mut doc = doc_of(&["a"]);
    let a = doc.root[0].id();
    let blur_id = doc.add_filter(a, FilterLayer::neutral(String::from("blur"), Vec::new())).expect("ajout");
    let set = Command::SetOpacity { layer_id: blur_id, before: 100_000, after: 40_000 };
    let clock = doc.version_clock;
    let back = doc.apply_command(set.clone());
    assert_eq!(back, set.inverse());
    assert_eq!(doc.find_filter_layer(blur_id).expect("filtre").opacity, 40_000);
    assert_eq!(doc.apply_command(back), set);
    assert_eq!(doc.find_filter_layer(blur_id).expect("filtre").opacity, 100_000);
    assert_eq!(doc.version_clock, clock + 2);
    match doc.find(a).expect("present") {
        LayerNode::Pixel(l) => {
            assert_eq!(l.appearance_version, clock + 1);
            assert_eq!(l.filter_layers.len(), 1);
        }
        _ => panic!("pixels attendus"),
    }
    let rename = Command::RenameLayer { node_id: blur_id, before: String::from("blur"), after: String::from("flou") };
    let back = doc.apply_command(rename.clone());
    assert_eq!(doc.find_filter_layer(blur_id).expect("filtre").name, "flou");
    assert_eq!(doc.apply_command(back), rename);
    assert_eq!(doc.find_filter_layer(blur_id).expect("filtre").name, "blur");
}

#[test]
fn sublayer_mask_switch_undoes_up_to_its_version() {
    let mut doc = doc_of(&["a"]);
    let a = doc.root[0].id();
    let blur_id = doc.add_filter(a, FilterLayer::neutral(String::from("blur"), Vec::new())).expect("ajout");
    let version = doc.next_version();
    let mask = LayerMask::full(8, 8, version);
    let mid = mask.id;
    assert!(doc.append_mask(blur_id, mask));
    let switch = Command::SetMaskInverted { node_id: blur_id, mask_id: mid, before: false, after: true };
    let clock = doc.version_clock;
    let back = doc.apply_command(switch.clone());
    assert!(doc.mask_of(blur_id, mid).expect("masque").inverted);
    assert_eq!(doc.apply_command(back), switch);
    let m = doc.mask_of(blur_id, mid).expect("masque");
    assert!(!m.inverted);
    assert!(m.enabled);
    assert_eq!(m.version, clock + 1);
    assert_eq!(doc.version_clock, clock + 2);
}

#[test]
fn mask_rename_undoes_exactly() {
    let mut doc = doc_of(&["a"]);
    let a = doc.root[0].id();
    let version = doc.next_version();
    let mut mask = LayerMask::full(8, 8, version);
    mask.name = String::from("Masque 1");
    let mid = mask.id;
    assert!(doc.append_mask(a, mask));
    let rename = Command::RenameLayer { node_id: mid, before: String::from("Masque 1"), after: String::from("bord") };
    let clock = doc.version_clock;
    let back = doc.apply_command(rename.clone());
    assert_eq!(doc.mask_name(mid), Some(String::from("bord")));
    assert_eq!(back, rename.inverse());
    assert_eq!(doc.apply_command(back), rename);
    assert_eq!(doc.mask_name(mid), Some(String::from("Masque 1")));
    assert_eq!(doc.mask_of(a, mid).expect("masque").version, version);
    assert_eq!(doc.version_clock, clock);
}

#[test]
fn duplicate_stamps_the_copy_with_successive_versions() {
    let mut doc = doc_of(&["a", "b", "c"]);
    let ids = vec![doc.root[0].id(), doc.root[1].id()];
    let gid = doc.group(&ids).expect("groupe");
    let clock = doc.version_clock;
    let copy = doc.duplicate(gid).expect("copie");
    assert_eq!(doc.version_clock, clock + 2);
    match doc.find(copy).expect("copie") {
        LayerNode::Group(g) => {
            let versions: Vec<u64> = g
                .children
                .iter()
                .map(|n| match n {
                    LayerNode::Pixel(l) => l.appearance_version,
                    _ => panic!("pixels attendus"),
                })
                .collect();
            assert_eq!(versions, vec![clock, clock + 1]);
        }
        _ => panic!("groupe attendu"),
    }
    let single = doc.find(ids[0]).map(|n| n.id()).expect("present");
    let clock = doc.version_clock;
    let copy = doc.duplicate(single).expect("copie");
    match doc.find(copy).expect("copie") {
        LayerNode::Pixel(l) => assert_eq!(l.appearance_version, clock),
        _ => panic!("pixels attendus"),
    }
    assert_eq!(doc.version_clock, clock + 1);
    assert!(doc.duplicate(unknown_id()).is_none());
    assert_eq!(doc.version_clock, clock + 1);
}
