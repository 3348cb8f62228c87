use schist_workspace::clipboard::clipboard_image_url;
use schist_workspace::field_commit::commit_field;
use schist_workspace::fields::{modal_enter_confirms, Modifiers};
use schist_workspace::metadata::{cloud_check, cloud_field, commit_metadata_field, library_field_id, metadata_enabled};
use schist_workspace::modal::{Modal, RecipeEditor};
use schist_workspace::recipes::ExportStart;
use schist_workspace::workspace::Workspace;

#[test]
fn clipboard_urls_accept_http_without_requiring_an_extension() {
    for url in [
        "https://example.com/image.png",
        "http://localhost:8080/image?id=42&size=original",
        "https://example.com/a%20b",
    ] {
        assert_eq!(clipboard_image_url(&format!(" \n{url}\r\n")), Some(url.into()));
    }
    for text in [
        "",
        "hello",
        "example.com/image.png",
        "file:///tmp/image.png",
        "data:image/png;base64,AAAA",
        "javascript:alert(1)",
        "https://",
        "Here is https://example.com/image.png",
        "https://example.com/one\nhttps://example.com/two",
        "https://example.com/a b",
    ] {
        assert_eq!(clipboard_image_url(text), None, "{text}");
    }
}

#[test]
fn metadata_edits_select_only_changed_fields_and_keep_time_modes_exclusive() {
    let mut fields = Vec::new();
    for index in 0..6 {
        fields.push((cloud_check(index).to_string(), String::new(), String::new()));
        fields.push((cloud_field(index).to_string(), String::new(), String::new()));
    }
    // Merely focusing and committing the same value must not clear metadata.
    assert!(commit_metadata_field(&mut fields, cloud_field(1), ""));
    assert_eq!(metadata_enabled(&fields), [false; 6]);
    commit_metadata_field(&mut fields, cloud_field(1), "Caption\nSecond line");
    assert_eq!(metadata_enabled(&fields), [false, true, false, false, false, false]);
    commit_metadata_field(&mut fields, cloud_field(3), "2026-09-20T12:00:00Z");
    commit_metadata_field(&mut fields, cloud_field(4), "3600");
    assert_eq!(metadata_enabled(&fields), [false, true, false, false, true, false]);
    commit_metadata_field(&mut fields, cloud_field(3), "2026-09-21T12:00:00Z");
    assert_eq!(metadata_enabled(&fields), [false, true, false, true, false, false]);
    // Clearing a changed field is an intentional edit, too.
    commit_metadata_field(&mut fields, cloud_field(1), "");
    assert!(metadata_enabled(&fields)[1]);
    assert!(!commit_metadata_field(&mut fields, "cloud-folder", "other"));
}

fn metadata_modal() -> Modal {
    Modal::MetadataEdit {
        id: 1,
        photos: vec![],
        values: Default::default(),
        enabled: [false; 6],
        error: String::new(),
        busy: false,
    }
}

#[test]
fn metadata_focusing_does_not_select_a_field_and_typing_time_modes_is_exclusive() {
    let mut modal = metadata_modal();
    assert!(commit_field(&mut modal, library_field_id(1), String::new()));
    if let Modal::MetadataEdit { enabled, .. } = &modal {
        assert_eq!(*enabled, [false; 6]);
    }
    commit_field(&mut modal, library_field_id(3), "2024-02-29T12:00:00".into());
    commit_field(&mut modal, library_field_id(4), "3600".into());
    if let Modal::MetadataEdit { enabled, .. } = &modal {
        assert!(!enabled[3] && enabled[4]);
    }
    commit_field(&mut modal, library_field_id(3), "2024-03-01T12:00:00".into());
    if let Modal::MetadataEdit { enabled, .. } = &modal {
        assert!(enabled[3] && !enabled[4]);
    }
}

#[test]
fn metadata_caption_shift_enter_does_not_save_the_dialog() {
    let shift = Modifiers { shift: true, ..Default::default() };
    for field in ["metadata-caption", "cloud-meta-caption"] {
        assert!(!modal_enter_confirms(Some(field), "enter", shift));
        // The ordinary Save shortcut must still work, including after the
        // caption has inserted a newline and retained keyboard focus.
        assert!(modal_enter_confirms(Some(field), "enter", Default::default()));
        assert!(!modal_enter_confirms(Some(field), "a", Default::default()));
        assert!(!modal_enter_confirms(Some(field), "tab", shift));
    }
}

#[test]
fn metadata_caption_exception_does_not_change_other_save_shortcuts() {
    let shift = Modifiers { shift: true, ..Default::default() };
    for field in [None, Some("metadata-keywords"), Some("new-doc-name")] {
        assert!(modal_enter_confirms(field, "enter", shift));
        assert!(modal_enter_confirms(field, "enter", Default::default()));
    }
    for mods in [Modifiers { control: true, ..shift }, Modifiers { platform: true, ..shift }] {
        assert!(modal_enter_confirms(Some("metadata-caption"), "enter", mods));
    }
}

#[test]
fn metadata_form_busy_saving_ignores_typing() {
    let mut modal = Modal::MetadataEdit {
        id: 1,
        photos: vec!["a.jpg".into()],
        values: Default::default(),
        enabled: [false; 6],
        error: String::new(),
        busy: true,
    };
    assert!(commit_field(&mut modal, library_field_id(1), "caption".into()));
    if let Modal::MetadataEdit { values, enabled, .. } = &modal {
        assert_eq!(values[1], "");
        assert_eq!(*enabled, [false; 6]);
    }
    assert!(!commit_field(&mut modal, "layer-name", "x".into()));
}

fn recipe_dialog(photos: &[&str], cloud: &[&str]) -> Workspace {
    let mut ws = Workspace::new(true);
    ws.modal = Some(Modal::ExportRecipes {
        editor: RecipeEditor {
            recipes: vec!["web".into()],
            book_selected: 0,
            selected: Some(0),
            name: "web".into(),
            destination: "/exports".into(),
            outputs: vec![],
            output: 0,
            finishing_category: None,
            error: None,
            photos: photos.iter().map(|p| p.to_string()).collect(),
            cloud_assets: cloud.iter().map(|p| p.to_string()).collect(),
        },
    });
    ws
}

fn recipe_error(ws: &Workspace) -> Option<String> {
    match &ws.modal {
        Some(Modal::ExportRecipes { editor }) => editor.error.clone(),
        _ => None,
    }
}

#[test]
fn export_recipe_saving_reports_and_restarts_the_sync_countdown() {
    let mut ws = recipe_dialog(&[], &[]);
    ws.workflow_ticks = 3;
    assert!(ws.export_recipe_saved(Ok(())));
    assert_eq!(ws.status, "export_recipes.saved");
    assert_eq!(ws.workflow_ticks, 400);
    assert!(!ws.export_recipe_saved(Err("disk full".into())));
    assert_eq!(recipe_error(&ws).as_deref(), Some("disk full"));
    let mut none = Workspace::new(true);
    assert!(!none.export_recipe_saved(Ok(())));
}

#[test]
fn export_recipe_runs_in_the_cloud_or_checks_the_local_run() {
    let mut ws = recipe_dialog(&["a.jpg"], &["c1"]);
    assert_eq!(ws.export_recipe_start(false, None, false), ExportStart::Cloud(vec!["c1".to_string()]));
    let mut ws = recipe_dialog(&["a.jpg"], &[]);
    assert_eq!(ws.export_recipe_start(false, Some("no webp".into()), true), ExportStart::Refused);
    assert_eq!(recipe_error(&ws).as_deref(), Some("export_recipes.folder_required"));
    assert_eq!(ws.export_recipe_start(true, Some("no webp".into()), true), ExportStart::Refused);
    assert_eq!(recipe_error(&ws).as_deref(), Some("no webp"));
    assert_eq!(
        ws.export_recipe_start(true, None, true),
        ExportStart::Local { photos: vec!["a.jpg".to_string()], document: false }
    );
    assert!(ws.modal.is_none());
    assert_eq!(ws.status, "export_recipes.running");
    let mut empty = recipe_dialog(&[], &[]);
    assert_eq!(empty.export_recipe_start(true, None, false), ExportStart::Nothing);
    assert_eq!(
        empty.export_recipe_start(true, None, true),
        ExportStart::Local { photos: vec![], document: true }
    );
}
