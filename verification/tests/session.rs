use schist_workspace::assets::Asset;
use schist_workspace::cloud_sync::CloudJob;
use schist_workspace::import_target::Scope;
use schist_workspace::modal::Modal;
use schist_workspace::session::{upload_destination, Browse};
use schist_workspace::workspace::Workspace;

fn shot(id: &str) -> Asset {
    Asset {
        id: id.to_string(),
        name: id.to_string(),
        revision: 1,
        thumbnail_url: None,
        rating: 0,
        flag: String::new(),
        label: String::new(),
        mime_type: "image/jpeg".to_string(),
        metadata_revision: 0,
    }
}

#[test]
fn session_connect_starts_the_library_query_quietly() {
    let mut off = Workspace::new(false);
    assert!(off.cloud_connect("w0".into()).is_none());
    assert!(!off.cloud_client);

    let mut ws = Workspace::new(true);
    ws.query_scope = Scope::Folder { id: "f".into() };
    ws.feed.assets = vec![shot("a")];
    let dropped = ws.cloud_connect("w1".into()).expect("connected");
    assert!(dropped.is_empty());
    assert!(ws.cloud_client && ws.feed.signed_in);
    assert!(!ws.feed.show, "a stored login does not pull the gallery up");
    assert!(matches!(ws.query_scope, Scope::Library));
    assert!(ws.feed.assets.is_empty());
    assert_eq!(ws.feed.pages.len(), 1);
    assert_eq!(ws.feed.pages[0].watch, "w1");
    assert_eq!(ws.cloud_message, "cloud.status.connecting");
}

#[test]
fn session_browse_needs_an_account() {
    let mut ws = Workspace::new(true);
    assert!(matches!(ws.cloud_browse(Scope::Library, "w".into()), Browse::SignIn));
    assert!(!ws.feed.show);
    ws.cloud_connect("w1".into());
    ws.feed.selected = vec!["a".into()];
    match ws.cloud_browse(Scope::Bucket { id: "b".into() }, "w2".into()) {
        Browse::Watching(dropped) => assert_eq!(dropped, ["w1"]),
        other => panic!("unexpected {other:?}"),
    }
    assert!(ws.feed.show && ws.library_open);
    assert!(ws.feed.selected.is_empty());
    assert!(matches!(ws.query_scope, Scope::Bucket { ref id } if id == "b"));
    assert_eq!(ws.feed.pages[0].watch, "w2");
    let mut off = Workspace::new(false);
    assert!(matches!(off.cloud_browse(Scope::Library, "w".into()), Browse::Ignored));
}

#[test]
fn session_sign_out_forgets_the_account_and_late_work() {
    let mut ws = Workspace::new(true);
    ws.cloud_connect("w1".into());
    ws.feed.show = true;
    ws.feed.selected = vec!["a".into()];
    ws.thumbnails.active = 3;
    let epoch = ws.cloud_epoch;
    assert!(ws.cloud_sign_out());
    assert_eq!(ws.cloud_epoch, epoch + 1);
    assert!(!ws.cloud_client && !ws.feed.signed_in && !ws.feed.show);
    assert!(ws.feed.pages.is_empty() && ws.feed.selected.is_empty());
    assert_eq!(ws.thumbnails.active, 0);
    assert_eq!(ws.cloud_message, "cloud.status.signed_out");
    ws.cloud_job(CloudJob::Done { epoch, message: "late".into() }, "");
    assert_eq!(ws.cloud_message, "cloud.status.signed_out");
    assert!(!ws.cloud_sign_out());
}

#[test]
fn session_retry_rewatches_only_the_failed_pages() {
    let mut ws = Workspace::new(true);
    ws.cloud_connect("p0".into());
    ws.feed.watch_page("p1".into(), 50);
    ws.feed.watch_page("p2".into(), 100);
    assert!(ws.feed.fail_asset_page("p0", "timeout"));
    assert!(ws.feed.fail_asset_page("p2", "timeout"));
    assert_eq!(ws.feed.failed_pages(), 2);
    let r = ws.cloud_retry_assets(vec!["n0".into(), "n2".into()]);
    assert_eq!(r, [("p0".to_string(), "n0".to_string(), 0), ("p2".to_string(), "n2".to_string(), 100)]);
    let watches: Vec<_> = ws.feed.pages.iter().map(|p| p.watch.as_str()).collect();
    assert_eq!(watches, ["n0", "p1", "n2"]);
    assert!(ws.feed.pages.iter().all(|p| p.pending && p.error.is_none()));
    assert_eq!(ws.feed.load_error, None);
    assert_eq!(ws.feed.failed_pages(), 0);
}

#[test]
fn session_bucket_work_needs_a_live_connection() {
    let mut ws = Workspace::new(true);
    assert!(!ws.cloud_client_for_bucket());
    assert_eq!(ws.status, "cloud.error.sign_in_first");
    ws.cloud_connect("w".into());
    assert!(!ws.cloud_client_for_bucket());
    assert_eq!(ws.cloud_message, "cloud.error.wait_for_connection");
    ws.documents.connected = true;
    assert!(ws.cloud_client_for_bucket());
}

#[test]
fn session_moving_a_bucket_asks_for_the_folder() {
    let mut ws = Workspace::new(true);
    ws.cloud_move_bucket("b1".into(), 7);
    assert_eq!(ws.form_target, Some(("b1".to_string(), 7)));
    match &ws.modal {
        Some(Modal::Cloud { kind, fields }) => {
            assert_eq!(kind, "move-items");
            assert_eq!(fields, &[("cloud-folder".to_string(), "common.folder".to_string(), String::new())]);
        }
        other => panic!("unexpected {other:?}"),
    }
}

#[test]
fn session_map_fetches_once_per_key() {
    let mut ws = Workspace::new(true);
    ws.cloud_connect("w".into());
    ws.feed.show = true;
    let key = "captured_desc|0".to_string();
    assert!(!ws.cloud_map_refresh(&key), "not connected yet");
    ws.documents.connected = true;
    assert!(ws.cloud_map_refresh(&key));
    assert!(ws.map_loading);
    assert!(!ws.cloud_map_refresh(&key), "a fetch is running");
    ws.map_loading = false;
    ws.map_key = Some(key.clone());
    assert!(!ws.cloud_map_refresh(&key));
    assert!(ws.cloud_map_refresh(&"captured_desc|1".to_string()));
}

#[test]
fn session_uploads_go_to_the_scope_on_show() {
    assert_eq!(upload_destination(&Scope::Bucket { id: "b".into() }), (Some("b".to_string()), None));
    assert_eq!(upload_destination(&Scope::Folder { id: "f".into() }), (None, Some("f".to_string())));
    assert_eq!(upload_destination(&Scope::Library), (None, None));
}
