use schist_workspace::culling::{ColourLabel, CullEdit, CullFlag};
use schist_workspace::fields::Modifiers;
use schist_workspace::keys::{cloud_culling_key, culling_key, CullingKey, EscapeStep};
use schist_workspace::modal::Modal;
use schist_workspace::workspace::Workspace;

#[test]
fn escape_closes_the_innermost_thing_first() {
    let mut ws = Workspace::new(true);
    ws.open_modal(Modal::NewDocument { name: "x".into() });
    ws.focus_field("new-doc-name", "x");
    ws.chrome.open_popup = true;
    ws.chrome.context_menu = true;
    assert_eq!(ws.cancel_gesture(true, false), EscapeStep::BackgroundRemoval);
    assert_eq!(ws.cancel_gesture(false, false), EscapeStep::ContextMenuClosed);
    assert_eq!(ws.cancel_gesture(false, false), EscapeStep::PopupClosed);
    assert_eq!(ws.cancel_gesture(false, false), EscapeStep::FieldReleased);
    assert!(ws.modal.is_some(), "the first escape only lets go of the field");
    assert_eq!(ws.cancel_gesture(false, false), EscapeStep::DialogClosed);
    assert!(ws.modal.is_none());
    assert_eq!(ws.cancel_gesture(false, false), EscapeStep::ToolCancelled);
}

#[test]
fn escape_leaves_a_busy_dialog_alone() {
    let mut ws = Workspace::new(true);
    ws.open_modal(Modal::Busy);
    assert_eq!(ws.cancel_gesture(false, false), EscapeStep::Busy);
    assert!(matches!(ws.modal, Some(Modal::Busy)));
    ws.chrome.layer_rename = true;
    assert_eq!(ws.cancel_gesture(false, false), EscapeStep::RenameCancelled);
    assert!(!ws.chrome.layer_rename);
}

#[test]
fn culling_keys_in_the_grid_and_the_comparison() {
    let none = Modifiers::default();
    let shift = Modifiers { shift: true, ..Default::default() };
    assert_eq!(culling_key("c", none, false, false), CullingKey::OpenCompare);
    assert_eq!(culling_key("5", none, false, false), CullingKey::Cull(CullEdit::Rating(5)));
    assert_eq!(culling_key("5", none, true, false), CullingKey::Ignored);
    assert_eq!(culling_key("5", shift, false, false), CullingKey::Ignored);
    assert_eq!(culling_key("+", shift, false, true), CullingKey::ZoomIn);
    assert_eq!(culling_key("space", none, false, true), CullingKey::CloseCompare);
    assert_eq!(culling_key("tab", none, false, true), CullingKey::OtherPane);
    assert_eq!(culling_key("x", none, false, true), CullingKey::Cull(CullEdit::Flag(CullFlag::Reject)));
    assert_eq!(culling_key("c", none, false, true), CullingKey::Ignored);
    assert_eq!(culling_key("p", Modifiers { platform: true, ..Default::default() }, false, false), CullingKey::Ignored);
}

#[test]
fn cloud_culling_keys_need_the_cloud_to_offer_culling() {
    let none = Modifiers::default();
    assert_eq!(cloud_culling_key("9", none, false, false, true), CullingKey::Cull(CullEdit::Label(ColourLabel::Blue)));
    assert_eq!(cloud_culling_key("9", none, false, false, false), CullingKey::Ignored);
    assert_eq!(cloud_culling_key("c", none, false, false, false), CullingKey::Ignored);
    assert_eq!(cloud_culling_key("c", none, false, false, true), CullingKey::OpenCompare);
    assert_eq!(cloud_culling_key("space", none, false, true, true), CullingKey::Ignored);
    assert_eq!(cloud_culling_key("escape", none, false, true, true), CullingKey::CloseCompare);
    assert_eq!(cloud_culling_key("left", Modifiers { shift: true, ..Default::default() }, false, true, true), CullingKey::ShowPane(0));
}
