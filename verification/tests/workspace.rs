use schist_workspace::assets::{Asset, Snapshot};
use schist_workspace::canvas::tool_index;
use schist_workspace::cloud_sync::{CloudAction, CloudEvent, CloudJob};
use schist_workspace::documents::RemoteDocument;
use schist_workspace::field_commit::clean_preset_name;
use schist_workspace::fields::caret_on_at;
use schist_workspace::line_edit::TextPress;
use schist_workspace::modal::{ColorTarget, FinishingCategory, Modal, RecipeEditor, RecipeOutput, Rgba8};
use schist_workspace::raster::CanvasTransform;
use schist_workspace::workspace::{ActionDraft, Document, InkChannel, MaskRefineState, ToolInfo, Workspace};

fn editor(outputs: usize) -> RecipeEditor {
    RecipeEditor {
        recipes: vec!["web".into(), "print".into(), "archive".into()],
        book_selected: 0,
        selected: Some(1),
        name: "print".into(),
        destination: "/exports".into(),
        outputs: (0..outputs)
            .map(|i| RecipeOutput {
                template: format!("{{name}}-{i}"),
                text: String::new(),
                copyright: String::new(),
                max_edge: 2048,
            })
            .collect(),
        output: 0,
        finishing_category: None,
        error: None,
        photos: vec![],
        cloud_assets: vec![],
    }
}

#[test]
fn opening_a_dialog_replaces_the_one_up_and_closing_leaves_none() {
    let mut ws = Workspace::new(true);
    ws.open_modal(Modal::Workspaces { name: "a".into() });
    ws.focus_field("workspace-name", "a");
    ws.open_modal(Modal::NewDocument { name: "b".into() });
    assert!(matches!(ws.modal, Some(Modal::NewDocument { .. })));
    assert!(ws.modal_stack.is_empty());
    assert!(ws.focused_field.is_none());
    ws.close_modal();
    assert!(ws.modal.is_none());
    assert!(ws.modal_stack.is_empty());
}

#[test]
fn cloud_dialogs_need_the_cloud_feature() {
    let mut ws = Workspace::new(false);
    ws.jobs.printing = true;
    ws.open_modal(Modal::CloudGenerate);
    assert!(ws.modal.is_none());
    assert!(!ws.jobs.printing, "printing stops even when the dialog is refused");
    ws.open_modal(Modal::BucketName { cloud: false, name: String::new(), query: String::new() });
    assert!(ws.modal.is_some());
}

#[test]
fn colour_picker_suspends_the_dialog_and_brings_it_back() {
    let mut ws = Workspace::new(true);
    ws.open_modal(Modal::LayerProperties { name: "Layer 1".into() });
    ws.open_color_picker_on(ColorTarget::ColorRange, Rgba8 { r: 1, g: 2, b: 3, a: 255 });
    assert!(matches!(ws.modal, Some(Modal::ColorPicker { .. })));
    assert_eq!(ws.modal_stack.len(), 1);
    ws.close_modal();
    assert!(matches!(&ws.modal, Some(Modal::LayerProperties { name }) if name == "Layer 1"));
    assert!(ws.modal_stack.is_empty());
}

#[test]
fn colour_picker_on_editor_colours_only() {
    let mut ws = Workspace::new(true);
    ws.editor.foreground = Rgba8 { r: 10, g: 20, b: 30, a: 255 };
    ws.open_color_picker(ColorTarget::Foreground);
    match &ws.modal {
        Some(Modal::ColorPicker { target, original }) => {
            assert_eq!(*target, ColorTarget::Foreground);
            assert_eq!(*original, Rgba8 { r: 10, g: 20, b: 30, a: 255 });
        }
        other => panic!("{other:?}"),
    }
    ws.close_modal();
    ws.open_color_picker(ColorTarget::SpotInk(3));
    assert!(ws.modal.is_none());
}

#[test]
fn a_running_batch_is_asked_to_stop_rather_than_closed() {
    let mut ws = Workspace::new(true);
    ws.open_modal(Modal::RecordedActionBatch { finished: false });
    ws.jobs.batch_cancel = Some(false);
    ws.close_modal();
    assert!(matches!(ws.modal, Some(Modal::RecordedActionBatch { finished: false })));
    assert_eq!(ws.jobs.batch_cancel, Some(true));
}

#[test]
fn closing_preferences_reverts_its_preview_and_mask_refine_is_kept_for_its_dialog() {
    let mut ws = Workspace::new(true);
    ws.jobs.mask_refine = Some(MaskRefineState { processing: true, rgb: true, error: None });
    ws.open_modal(Modal::MaskRefine);
    assert!(ws.mask_refine_busy() && ws.mask_refine_rgb());
    assert_eq!(ws.mask_refine_note(), "mask_refine.preview_note");
    ws.open_modal(Modal::Preferences);
    assert!(ws.jobs.mask_refine.is_none());
    ws.jobs.preferences_preview = true;
    ws.close_modal();
    assert!(!ws.jobs.preferences_preview);
}

#[test]
fn focusing_a_field_seeds_it_and_puts_the_caret_at_the_end() {
    let mut ws = Workspace::new(true);
    ws.focus_field("new-doc-name", "Untitled");
    assert_eq!(ws.focused_field.as_deref(), Some("new-doc-name"));
    assert_eq!(ws.field_buffer, "Untitled");
    assert_eq!((ws.field_cursor, ws.field_anchor), (8, 8));
    assert!(ws.field_fresh);
    assert_eq!(ws.field_selection(), 8..8);
    assert!(ws.caret_somewhere());
}

#[test]
fn pressing_and_dragging_a_field_selects() {
    let mut ws = Workspace::new(true);
    ws.press_field("layer-name", "hello brave world", &TextPress { offset: 8, clicks: 2, shift: false });
    assert_eq!(ws.field_selection(), 6..11);
    ws.press_field("layer-name", "ignored", &TextPress { offset: 2, clicks: 1, shift: false });
    assert_eq!(ws.field_buffer, "hello brave world");
    ws.drag_field("layer-name", 99);
    assert_eq!(ws.field_selection(), 2..17);
    ws.drag_field("other", 0);
    assert_eq!(ws.field_selection(), 2..17);
    ws.press_field("layer-name", "", &TextPress { offset: 0, clicks: 3, shift: false });
    assert_eq!(ws.field_selection(), 0..17);
}

#[test]
fn committing_a_field_writes_its_dialog_and_lets_go() {
    let mut ws = Workspace::new(true);
    ws.open_modal(Modal::BucketName { cloud: false, name: String::new(), query: String::new() });
    ws.focus_field("bucket-query", "tag:holiday");
    ws.commit_focused_field();
    match &ws.modal {
        Some(Modal::BucketName { name, query, .. }) => {
            assert_eq!(name, "");
            assert_eq!(query, "tag:holiday");
        }
        other => panic!("{other:?}"),
    }
    assert!(ws.focused_field.is_none());
    assert_eq!(ws.field_buffer, "");
}

#[test]
fn brush_preset_names_are_trimmed_cleaned_and_limited() {
    // A tab is a control character too.
    assert_eq!(clean_preset_name("  Soft\tround \u{7}brush  "), "Softround brush");
    let long = "x".repeat(80);
    assert_eq!(clean_preset_name(&long).len(), 64);
    let mut ws = Workspace::new(true);
    ws.focus_field("brush-preset-name", "  Hard\u{1}  ");
    ws.commit_field_value("brush-preset-name");
    assert_eq!(ws.brush_preset_name, "Hard");
}

#[test]
fn recipe_sizes_above_the_limit_mean_no_limit_with_an_error() {
    let mut ws = Workspace::new(true);
    ws.open_modal(Modal::ExportRecipes { editor: editor(2) });
    ws.focus_field("recipe-max-edge", "4096");
    ws.commit_field_value("recipe-max-edge");
    if let Some(Modal::ExportRecipes { editor }) = &ws.modal {
        assert_eq!(editor.outputs[0].max_edge, 4096);
        assert!(editor.error.is_none());
    }
    ws.field_buffer = "40000".into();
    ws.commit_field_value("recipe-max-edge");
    if let Some(Modal::ExportRecipes { editor }) = &ws.modal {
        assert_eq!(editor.outputs[0].max_edge, u32::MAX);
        assert_eq!(editor.error.as_deref(), Some("export_recipes.invalid_size"));
        assert_eq!(editor.outputs[1].max_edge, 2048);
    }
    ws.field_buffer = "© Me".into();
    ws.commit_field_value("recipe-copyright");
    if let Some(Modal::ExportRecipes { editor }) = &ws.modal {
        assert_eq!(editor.outputs[0].copyright, "© Me");
    }
}

#[test]
fn recorded_action_fields_write_the_draft() {
    let mut ws = Workspace::new(true);
    ws.action_draft = Some(ActionDraft { name: "old".into(), layer_steps: vec![None, Some("Background".into())] });
    ws.open_modal(Modal::RecordedActions { name: "old".into(), step: Some(1) });
    ws.focus_field("recorded-action-layer", "Sky");
    ws.commit_field("recorded-action-layer");
    assert_eq!(ws.action_draft.as_ref().unwrap().layer_steps, vec![None, Some("Sky".to_string())]);
    ws.focus_field("recorded-action-name", "Sharpen");
    ws.commit_field("recorded-action-name");
    assert_eq!(ws.action_draft.as_ref().unwrap().name, "Sharpen");
    assert!(matches!(&ws.modal, Some(Modal::RecordedActions { name, step: Some(1) }) if name == "Sharpen"));
}

#[test]
fn spot_channel_rename_is_one_history_step_and_only_when_changed() {
    let mut ws = Workspace::new(true);
    ws.doc = Some(Document {
        title: "t".into(),
        width: 1,
        height: 1,
        layers: vec![vec![0]],
        ink_channels: vec![InkChannel { id: 7, name: "Spot 1".into() }],
        active_ink: Some(7),
        history: vec![],
    });
    ws.focus_field("spot-name", "Spot 1");
    ws.commit_field("spot-name");
    assert!(ws.doc.as_ref().unwrap().history.is_empty());
    ws.focus_field("spot-name", "  Varnish ");
    ws.commit_field("spot-name");
    let doc = ws.doc.as_ref().unwrap();
    assert_eq!(doc.ink_channels[0].name, "Varnish");
    assert_eq!(doc.history, vec!["common.rename".to_string()]);
    assert!(ws.focused_field.is_none());
}

#[test]
fn caret_blinks_in_530_ms_beats() {
    assert!(caret_on_at(None));
    assert!(caret_on_at(Some(0)));
    assert!(caret_on_at(Some(529)));
    assert!(!caret_on_at(Some(530)));
    assert!(caret_on_at(Some(1060)));
}

#[test]
fn the_active_tool_decides_who_takes_typing() {
    let mut ws = Workspace::new(true);
    ws.tools = vec![
        ToolInfo { id: "brush".into(), captures_keys: false },
        ToolInfo { id: "text".into(), captures_keys: true },
    ];
    ws.editor.active_tool = "text".into();
    assert!(ws.tool_captures_keys());
    ws.editor.active_tool = "brush".into();
    assert!(!ws.tool_captures_keys());
    ws.editor.active_tool = "missing".into();
    assert!(!ws.tool_captures_keys());
    let _ = tool_index;
}

fn doc(width: usize, height: usize) -> Document {
    Document {
        title: "t".into(),
        width,
        height,
        layers: vec![(0..(width * height) as u32).collect()],
        ink_channels: vec![],
        active_ink: None,
        history: vec![],
    }
}

#[test]
fn quarter_turns_swap_the_sides_and_turn_back() {
    let mut ws = Workspace::new(true);
    ws.transform_canvas(CanvasTransform::Cw90);
    assert!(ws.doc.is_none());
    ws.doc = Some(doc(3, 2));
    ws.transform_canvas(CanvasTransform::Cw90);
    let d = ws.doc.as_ref().unwrap();
    assert_eq!((d.width, d.height), (2, 3));
    // 0 1 2 / 3 4 5 turned clockwise is 3 0 / 4 1 / 5 2.
    assert_eq!(d.layers[0], vec![3, 0, 4, 1, 5, 2]);
    assert_eq!(ws.status, "canvas.rotate_cw");
    ws.transform_canvas(CanvasTransform::Ccw90);
    let d = ws.doc.as_ref().unwrap();
    assert_eq!((d.width, d.height), (3, 2));
    assert_eq!(d.layers[0], vec![0, 1, 2, 3, 4, 5]);
    assert_eq!(d.history, vec!["canvas.rotate_cw".to_string(), "canvas.rotate_ccw".to_string()]);
    ws.transform_canvas(CanvasTransform::FlipH);
    assert_eq!(ws.doc.as_ref().unwrap().layers[0], vec![2, 1, 0, 5, 4, 3]);
}

#[test]
fn trim_crops_to_what_differs_from_the_corner() {
    let mut ws = Workspace::new(true);
    ws.doc = Some(doc(3, 3));
    let mut composite = [9u8, 9, 9, 255].repeat(9);
    // The centre pixel differs.
    composite[16..20].copy_from_slice(&[1, 2, 3, 255]);
    assert_eq!(ws.trim(&composite), Some((1, 1, 2, 2)));
    let d = ws.doc.as_ref().unwrap();
    assert_eq!((d.width, d.height), (1, 1));
    assert_eq!(d.layers[0], vec![4]);
    assert_eq!(ws.status, "workspace.canvas.trimmed");
    let flat = [9u8, 9, 9, 255].to_vec();
    assert_eq!(ws.trim(&flat), None);
    assert_eq!(ws.status, "workspace.canvas.nothing_to_trim");
}

#[test]
fn finishing_page_opens_over_the_recipe_dialog_and_saves_back() {
    let mut ws = Workspace::new(true);
    let mut e = editor(1);
    e.error = Some("stale".into());
    ws.open_modal(Modal::ExportRecipes { editor: e });
    ws.open_export_finishing(FinishingCategory::Watermark);
    assert_eq!(ws.modal_stack.len(), 1);
    match &ws.modal {
        Some(Modal::ExportRecipes { editor }) => {
            assert_eq!(editor.finishing_category, Some(FinishingCategory::Watermark));
            assert!(editor.error.is_none());
        }
        other => panic!("{other:?}"),
    }
    ws.focus_field("recipe-watermark", "© 2024");
    ws.save_export_finishing();
    assert!(ws.modal_stack.is_empty());
    match &ws.modal {
        Some(Modal::ExportRecipes { editor }) => {
            assert_eq!(editor.finishing_category, None);
            assert_eq!(editor.outputs[0].text, "© 2024");
            assert_eq!(editor.error.as_deref(), Some("stale"));
        }
        other => panic!("{other:?}"),
    }
}

#[test]
fn deleting_a_recipe_keeps_the_selection_in_place_or_on_the_last() {
    let mut ws = Workspace::new(true);
    ws.open_modal(Modal::ExportRecipes { editor: editor(1) });
    let book = ws.delete_export_recipe().unwrap();
    assert_eq!(book.recipes, vec!["web".to_string(), "archive".to_string()]);
    assert_eq!(book.selected, 1);
    if let Some(Modal::ExportRecipes { editor }) = &mut ws.modal {
        editor.selected = Some(2);
    }
    let book = ws.delete_export_recipe().unwrap();
    assert_eq!(book.selected, 1);
    ws.workflow_ticks = 0;
    ws.export_recipe_book_saved(book, Ok(()));
    assert_eq!(ws.workflow_ticks, 400);
    if let Some(Modal::ExportRecipes { editor }) = &ws.modal {
        assert_eq!(editor.recipes, vec!["web".to_string(), "print".to_string()]);
        assert_eq!(editor.selected, None);
    }
    let book = schist_workspace::recipes::RecipeBook { recipes: vec![], selected: 0 };
    ws.export_recipe_book_saved(book, Err("disk full".into()));
    if let Some(Modal::ExportRecipes { editor }) = &ws.modal {
        assert_eq!(editor.error.as_deref(), Some("disk full"));
    }
}

fn photo(id: &str) -> Asset {
    Asset {
        id: id.into(),
        name: id.into(),
        revision: 1,
        thumbnail_url: None,
        rating: 0,
        flag: String::new(),
        label: String::new(),
        mime_type: "image/jpeg".to_string(),
        metadata_revision: 0,
    }
}

#[test]
fn gallery_query_restarts_from_its_first_page() {
    let mut ws = Workspace::new(true);
    ws.cloud_set_visible(true);
    assert!(ws.feed.show && ws.library_open);
    ws.cloud_client = true;
    ws.documents.connected = true;
    let dropped = ws.cloud_watch_assets(false, "w0".into());
    assert!(dropped.is_empty());
    assert!(ws.feed.apply_asset_snapshot("w0", Snapshot { total: 4, items: vec![photo("a"), photo("b")], people: None }));
    assert_eq!(ws.cloud_load_more("w1".into()), Some(2));
    assert_eq!(ws.feed.pages.len(), 2);
    assert_eq!(ws.cloud_load_more("w2".into()), None, "the new page is still pending");
    let dropped = ws.cloud_watch_assets(true, "w3".into());
    assert_eq!(dropped, vec!["w0".to_string(), "w1".to_string()]);
    assert_eq!(ws.feed.assets.len(), 2, "kept until the replacement arrives");
    assert_eq!(ws.feed.pages.len(), 1);
    assert!(!ws.feed.loaded);
}

#[test]
fn hiding_is_always_allowed_showing_needs_the_cloud() {
    let mut ws = Workspace::new(false);
    ws.cloud_set_visible(true);
    assert!(!ws.feed.show);
    ws.feed.show = true;
    ws.cloud_set_visible(false);
    assert!(!ws.feed.show && !ws.library_open);
}

#[test]
fn cloud_jobs_from_an_earlier_sign_in_are_ignored() {
    let mut ws = Workspace::new(true);
    ws.cloud_epoch = 3;
    ws.cloud_job(CloudJob::Done { epoch: 2, message: "old".into() }, "Not enough storage");
    assert_eq!(ws.status, "");
    ws.cloud_job(CloudJob::Progress { epoch: 3, done: 1, total: 4, label: "Uploading".into() }, "Not enough storage");
    assert_eq!(ws.cloud_progress, Some((1, 4, "Uploading".to_string())));
    ws.cloud_job(CloudJob::Done { epoch: 3, message: "Uploaded".into() }, "Not enough storage");
    assert_eq!(ws.cloud_progress, None);
    assert_eq!(ws.status, "Uploaded");
    assert_eq!(ws.cloud_message, "Uploaded");
}

#[test]
fn running_out_of_storage_opens_its_warning() {
    let mut ws = Workspace::new(true);
    ws.cloud_job(CloudJob::Error { epoch: 0, error: "Not enough storage: 2 GB needed".into() }, "Not enough storage");
    match &ws.modal {
        Some(Modal::Cloud { kind, fields }) => {
            assert_eq!(kind, "storage-warning");
            assert_eq!(fields[0].2, "Not enough storage: 2 GB needed");
        }
        other => panic!("{other:?}"),
    }
    assert_eq!(ws.status, "Not enough storage: 2 GB needed");
    let mut ws = Workspace::new(true);
    ws.cloud_job(CloudJob::Error { epoch: 0, error: "offline".into() }, "Not enough storage");
    assert!(ws.modal.is_none());
    assert_eq!(ws.cloud_message, "offline");
}

#[test]
fn thumbnails_for_a_superseded_revision_are_dropped() {
    let mut ws = Workspace::new(true);
    ws.feed.show = true;
    ws.feed.assets = vec![photo("a")];
    ws.feed.grid_wanted = vec!["a".into()];
    ws.thumbnails.active = 2;
    ws.thumbnails.jobs = vec![("a".into(), 0), ("a".into(), 1)];
    assert!(!ws.cloud_job(CloudJob::Thumbnail { epoch: 0, id: "a".into(), revision: 0, loaded: true }, ""));
    assert_eq!(ws.thumbnails.jobs, vec![("a".to_string(), 1)]);
    assert!(ws.thumbnails.have.is_empty());
    assert!(!ws.cloud_job(CloudJob::Thumbnail { epoch: 0, id: "a".into(), revision: 1, loaded: false }, ""));
    assert_eq!(ws.thumbnails.failed, vec!["a".to_string()]);
    assert!(ws.cloud_job(CloudJob::Thumbnail { epoch: 0, id: "a".into(), revision: 1, loaded: true }, ""));
    assert_eq!(ws.thumbnails.have, vec![("a".to_string(), 1)]);
    assert!(ws.thumbnails.failed.is_empty());
    assert_eq!(ws.thumbnails.active, 0);
}

#[test]
fn map_markers_record_their_key_even_when_they_fail() {
    let mut ws = Workspace::new(true);
    ws.map_loading = true;
    ws.cloud_job(CloudJob::MapAssets { epoch: 0, key: "k".into(), result: Err("world map failed".into()) }, "");
    assert!(!ws.map_loading);
    assert_eq!(ws.map_key.as_deref(), Some("k"));
    assert_eq!(ws.status, "world map failed");
    ws.cloud_job(CloudJob::MapAssets { epoch: 0, key: "k2".into(), result: Ok(vec![photo("m")]) }, "");
    assert_eq!(ws.feed.map_assets.len(), 1);
}

fn binding(asset: &str) -> RemoteDocument {
    RemoteDocument {
        asset_id: asset.into(),
        joined: true,
        detached: false,
        sending: true,
        changed: true,
        render: true,
        generation: 2,
        saved: 1,
    }
}

#[test]
fn losing_access_empties_the_gallery_and_detaches_documents() {
    let mut ws = Workspace::new(true);
    ws.cloud_client = true;
    ws.feed.signed_in = true;
    ws.feed.assets = vec![photo("a")];
    ws.feed.selected = vec!["a".into()];
    ws.documents.docs.push((5, binding("a")));
    ws.documents.connected = true;
    assert_eq!(ws.cloud_event(CloudEvent::AccountUnavailable), CloudAction::AccessLost);
    assert!(ws.feed.assets.is_empty() && ws.feed.selected.is_empty());
    assert!(!ws.feed.signed_in && !ws.cloud_client && !ws.documents.connected);
    assert_eq!(ws.cloud_epoch, 1);
    assert!(ws.documents.docs[0].1.detached);
    assert_eq!(ws.documents.docs[0].1.generation, 2, "local edits are kept");
    assert!(ws.documents.joinable_documents().is_empty());
    assert_eq!(ws.status, "cloud.error.access_unavailable");
    ws.cloud_job(CloudJob::Done { epoch: 0, message: "late".into() }, "");
    assert_eq!(ws.status, "cloud.error.access_unavailable");
}

#[test]
fn connecting_asks_for_capabilities_and_disconnecting_reports() {
    let mut ws = Workspace::new(true);
    assert_eq!(ws.cloud_event(CloudEvent::Connected), CloudAction::Nothing);
    ws.cloud_client = true;
    assert_eq!(ws.cloud_event(CloudEvent::Connected), CloudAction::RequestCapabilities);
    assert!(ws.documents.connected);
    assert_eq!(ws.cloud_message, "cloud.status.connected");
    ws.cloud_event(CloudEvent::Disconnected("gone".into()));
    assert!(!ws.documents.connected);
    assert_eq!(ws.feed.load_error.as_deref(), Some("gone"));
    assert_eq!(ws.cloud_event(CloudEvent::Credentials), CloudAction::StoreCredentials);
    assert!(ws.feed.signed_in);
}

#[test]
fn a_snapshot_drops_selected_photos_that_left_the_gallery() {
    let mut ws = Workspace::new(true);
    ws.feed.watch_page("p".into(), 0);
    ws.feed.selected = vec!["a".into(), "gone".into()];
    ws.select_anchor = Some("gone".into());
    let s = Snapshot { total: 2, items: vec![photo("a"), photo("b")], people: None };
    ws.cloud_event(CloudEvent::AssetSnapshot { watch: "p".into(), snapshot: s });
    assert_eq!(ws.feed.selected, vec!["a".to_string()]);
    assert!(ws.select_anchor.is_none());
    let s = Snapshot { total: 0, items: vec![], people: None };
    ws.cloud_event(CloudEvent::AssetSnapshot { watch: "unknown".into(), snapshot: s });
    assert_eq!(ws.feed.assets.len(), 2);
    ws.cloud_event(CloudEvent::WatchError { watch: "folders".into(), error: "denied".into(), catalogue: true });
    assert_eq!(ws.status, "denied");
}

#[test]
fn a_failed_document_cancels_the_quit_waiting_on_it() {
    let mut ws = Workspace::new(true);
    ws.documents.docs.push((9, binding("x")));
    ws.close_after_save = Some(9);
    assert_eq!(
        ws.cloud_event(CloudEvent::DocumentError { asset: "x".into(), error: "revoked".into() }),
        CloudAction::CancelQuit
    );
    assert!(ws.close_after_save.is_none());
    assert!(ws.documents.docs[0].1.detached);
    assert_eq!(ws.status, "revoked");
}

fn gallery_photo(id: &str, name: &str, rating: u8) -> Asset {
    Asset {
        id: id.to_string(),
        name: name.to_string(),
        revision: 1,
        thumbnail_url: None,
        rating,
        flag: String::new(),
        label: String::new(),
        mime_type: "image/jpeg".to_string(),
        metadata_revision: 0,
    }
}

#[test]
fn gallery_updates_replace_listed_photos_with_their_last_copy() {
    let mut ws = Workspace::new(true);
    ws.feed.assets = vec![gallery_photo("a", "A", 0), gallery_photo("b", "B", 0)];
    ws.cloud_gallery_updated(vec![
        gallery_photo("b", "B2", 3),
        gallery_photo("z", "Z", 5),
        gallery_photo("b", "B3", 4),
    ]);
    let names: Vec<&str> = ws.feed.assets.iter().map(|a| a.name.as_str()).collect();
    assert_eq!(names, ["A", "B3"]);
    assert_eq!(ws.feed.assets[1].rating, 4);
    assert_eq!(ws.cloud_message, "common.done");
}

#[test]
fn field_carets_count_utf8_bytes() {
    let mut ws = Workspace::new(true);
    ws.focus_field("layer-name", "é");
    assert_eq!((ws.field_cursor, ws.field_anchor), (2, 2));
    ws.field_anchor = 0;
    assert_eq!(ws.field_selection(), 0..2);
    ws.field_cursor = 9;
    assert_eq!(ws.field_selection(), 0..2);
    // A double click on the second word of "çà va" selects it by bytes.
    ws.press_field("other-name", "çà va", &TextPress { offset: 6, clicks: 2, shift: false });
    assert_eq!(ws.field_selection(), 5..7);
    ws.press_field("other-name", "", &TextPress { offset: 3, clicks: 1, shift: false });
    assert_eq!(ws.field_selection(), 2..2);
    ws.drag_field("other-name", 99);
    assert_eq!(ws.field_selection(), 2..7);
}

#[test]
fn a_gesture_is_recorded_only_when_it_changed_the_document() {
    assert_eq!(Workspace::commit_gesture(Some("rotate"), 3, 4), Some("rotate"));
    assert_eq!(Workspace::commit_gesture(Some("rotate"), 3, 3), None);
    assert_eq!(Workspace::commit_gesture::<&str>(None, 3, 4), None);
}

#[test]
fn the_generation_input_being_edited_takes_the_typed_text() {
    let mut ws = Workspace::new(true);
    ws.field_buffer = "a lighthouse".into();
    ws.commit_field_value("cloud-generation-input");
    assert!(ws.generation_inputs.is_empty(), "no input is being edited");
    ws.generation_editing = Some("prompt".into());
    ws.commit_field_value("cloud-generation-input");
    assert_eq!(ws.generation_inputs, vec![("prompt".to_string(), "a lighthouse".to_string())]);
    ws.field_buffer = "a harbour".into();
    ws.commit_field_value("cloud-generation-input");
    assert_eq!(ws.generation_inputs, vec![("prompt".to_string(), "a harbour".to_string())]);
    ws.generation_editing = Some("style".into());
    ws.commit_field_value("cloud-generation-input");
    assert_eq!(ws.generation_inputs.len(), 2);
    assert_eq!(ws.generation_inputs[1], ("style".to_string(), "a harbour".to_string()));
}

#[test]
fn a_new_workspace_is_signed_out_with_an_empty_gallery() {
    let ws = Workspace::new(true);
    assert_eq!(ws.cloud_message, "cloud.msg.not_signed_in");
    assert_eq!(ws.query_limit, 200);
    assert_eq!(ws.cloud_epoch, 0);
    assert!(ws.feed.pages.is_empty() && ws.feed.assets.is_empty() && ws.feed.total == 0);
    assert!(ws.documents.docs.is_empty() && ws.documents.pending.is_empty());
    assert!(ws.feed.map_assets.is_empty() && ws.feed.grid_wanted.is_empty() && ws.feed.map_wanted.is_empty());
    assert!(!ws.browser_gpu.pending && ws.browser_gpu.requested.is_none());
}

#[test]
fn an_empty_canvas_turns_and_flips_back_too() {
    let mut ws = Workspace::new(true);
    ws.doc = Some(doc(4, 0));
    ws.transform_canvas(CanvasTransform::Cw90);
    assert_eq!((ws.doc.as_ref().unwrap().width, ws.doc.as_ref().unwrap().height), (0, 4));
    ws.transform_canvas(CanvasTransform::Ccw90);
    let d = ws.doc.as_ref().unwrap();
    assert_eq!((d.width, d.height), (4, 0));
    assert!(d.layers[0].is_empty());
    ws.transform_canvas(CanvasTransform::FlipV);
    ws.transform_canvas(CanvasTransform::FlipV);
    assert_eq!(ws.doc.as_ref().unwrap().history.len(), 4);
}
