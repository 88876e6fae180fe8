use photo_engine::ids::LayerId;
use photo_engine::blend::BlendMode;
use photo_engine::command::{Command, RenderEvent, RenderRevision};
use photo_engine::geometry::Transform2D;
use photo_engine::params::ParamValue;


fn unknown_id() -> LayerId {
    uuid::Uuid::new_v4().as_u128()
}

fn t(x: i64) -> Transform2D {
    let mut tr = Transform2D::identity();
    tr.offset_x = x;
    tr
}

#[test]
fn inverse_echange_old_et_new() {
    let cmd = Command::SetOpacity { layer_id: 0, before: 20_000, after: 80_000 };
    assert_eq!(cmd.inverse(), Command::SetOpacity { layer_id: 0, before: 80_000, after: 20_000 });
    assert_eq!(cmd.inverse().inverse(), cmd);
}

#[test]
fn merge_garde_le_vieil_et_prend_le_nouveau_dernier() {
    let mut base = Command::SetOpacity { layer_id: 0, before: 50_000, after: 60_000 };
    assert!(base.merge_forward(&Command::SetOpacity { layer_id: 0, before: 60_000, after: 70_000 }));
    assert!(base.merge_forward(&Command::SetOpacity { layer_id: 0, before: 70_000, after: 80_000 }));
    assert_eq!(base, Command::SetOpacity { layer_id: 0, before: 50_000, after: 80_000 });
}

#[test]
fn merge_refuse_des_cibles_differentes() {
    let mut base = Command::SetFilterParam {
        layer_id: 0,
        filter_id: 0,
        param_name: String::from("brightness"),
        before: ParamValue::Float(0),
        after: ParamValue::Float(1_000_000),
    };
    let autre_filtre = Command::SetFilterParam {
        layer_id: 0,
        filter_id: unknown_id(),
        param_name: String::from("brightness"),
        before: ParamValue::Float(1_000_000),
        after: ParamValue::Float(2_000_000),
    };
    assert!(!base.merge_forward(&autre_filtre));
    assert_eq!(
        base,
        Command::SetFilterParam {
            layer_id: 0,
            filter_id: 0,
            param_name: String::from("brightness"),
            before: ParamValue::Float(0),
            after: ParamValue::Float(1_000_000),
        }
    );
}

#[test]
fn evenement_rendu_par_type() {
    let id = unknown_id();
    let opacity = Command::SetOpacity { layer_id: id, before: 1_000, after: 2_000 };
    assert_eq!(opacity.render_event(), RenderEvent::NodeInvalidated(id));
    let blend = Command::SetBlendMode { node_id: id, before: BlendMode::Normal, after: BlendMode::Multiply };
    assert_eq!(blend.render_event(), RenderEvent::FullInvalidation);
    let transform = Command::SetTransform { layer_id: id, before: t(0), after: t(5_000_000) };
    assert_eq!(transform.render_event(), RenderEvent::NodeInvalidated(id));
}

#[test]
fn revision_bump_est_monotone() {
    let mut revision = RenderRevision::default();
    assert_eq!(revision, RenderRevision(0));
    assert_eq!(revision.bump(), RenderRevision(1));
    assert_eq!(revision.bump(), RenderRevision(2));
    assert!(RenderRevision(2).is_newer_than(RenderRevision(1)));
    assert!(!RenderRevision(1).is_newer_than(RenderRevision(1)));
    assert!(!RenderRevision(1).is_newer_than(RenderRevision(2)));
}

#[test]
fn bump_wraps_at_the_top() {
    let mut revision = RenderRevision(u64::MAX);
    assert_eq!(revision.bump(), RenderRevision(0));
}

#[test]
fn merge_keeps_mask_commands_apart() {
    let mut base = Command::SetMaskEnabled { node_id: 1, mask_id: 2, before: true, after: false };
    let next = Command::SetMaskEnabled { node_id: 1, mask_id: 2, before: false, after: true };
    assert!(!base.merge_forward(&next));
    assert_eq!(base, Command::SetMaskEnabled { node_id: 1, mask_id: 2, before: true, after: false });
}

#[test]
fn merge_refuses_another_kind() {
    let mut base = Command::SetOpacity { layer_id: 3, before: 0, after: 1 };
    let next = Command::SetVisibility { node_id: 3, before: true, after: false };
    assert!(!base.merge_forward(&next));
    assert_eq!(base.target(), 3);
}

#[test]
fn composite_commands_are_visibility_blend_and_masks() {
    assert!(Command::SetVisibility { node_id: 1, before: true, after: false }.affects_composite());
    assert!(Command::SetBlendMode { node_id: 1, before: BlendMode::Normal, after: BlendMode::Screen }
        .affects_composite());
    assert!(Command::SetMaskInverted { node_id: 1, mask_id: 2, before: false, after: true }
        .affects_composite());
    assert!(!Command::SetOpacity { layer_id: 1, before: 0, after: 5 }.affects_composite());
    assert!(!Command::RenameLayer { node_id: 1, before: String::from("a"), after: String::from("b") }
        .affects_composite());
}
