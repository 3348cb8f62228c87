use schist_workspace::assets::Asset;
use schist_workspace::thumbnail_queue::{THUMBNAIL_CACHE, THUMBNAIL_WORKERS};
use schist_workspace::workspace::Workspace;

fn shot(id: &str, revision: u64, url: Option<&str>) -> Asset {
    Asset {
        id: id.to_string(),
        name: id.to_string(),
        revision,
        thumbnail_url: url.map(|u| u.to_string()),
        rating: 0,
        flag: String::new(),
        label: String::new(),
        mime_type: "image/jpeg".to_string(),
        metadata_revision: 0,
    }
}

fn gallery(count: usize) -> Workspace {
    let mut ws = Workspace::new(true);
    ws.feed.signed_in = true;
    ws.feed.show = true;
    ws.feed.assets = (0..count).map(|i| shot(&format!("p{i}"), 1, Some(&format!("https://t/{i}")))).collect();
    ws.feed.grid_wanted = (0..count).map(|i| format!("p{i}")).collect();
    ws
}

#[test]
fn thumbnails_wait_for_sign_in() {
    let mut ws = gallery(3);
    ws.feed.signed_in = false;
    let plan = ws.cloud_load_thumbnails();
    assert!(plan.start.is_empty());
    assert!(!plan.evicted);
    assert_eq!(ws.thumbnails.active, 0);
}

#[test]
fn thumbnails_start_in_order_up_to_the_pool_and_not_twice() {
    let mut ws = gallery(10);
    let plan = ws.cloud_load_thumbnails();
    let ids: Vec<_> = plan.start.iter().map(|(id, _, _)| id.as_str()).collect();
    assert_eq!(ids, ["p0", "p1", "p2", "p3", "p4", "p5", "p6", "p7"]);
    assert_eq!(plan.start[3], ("p3".to_string(), 1, "https://t/3".to_string()));
    assert_eq!(ws.thumbnails.active, THUMBNAIL_WORKERS);
    assert_eq!(ws.thumbnails.jobs.len(), 8);
    assert!(ws.cloud_load_thumbnails().start.is_empty());
    // Two downloads end: the next two start, and the others not again.
    ws.thumbnails.active = 6;
    let plan = ws.cloud_load_thumbnails();
    let ids: Vec<_> = plan.start.iter().map(|(id, _, _)| id.as_str()).collect();
    assert_eq!(ids, ["p8", "p9"]);
}

#[test]
fn thumbnails_skip_held_images_and_photos_without_an_address() {
    let mut ws = gallery(4);
    ws.feed.assets[1].thumbnail_url = None;
    ws.thumbnails.have = vec![("p0".to_string(), 1), ("p2".to_string(), 0)];
    ws.thumbnails.jobs = vec![("gone".to_string(), 3)];
    ws.thumbnails.failed = vec!["gone".to_string(), "p3".to_string()];
    let plan = ws.cloud_load_thumbnails();
    let ids: Vec<_> = plan.start.iter().map(|(id, _, _)| id.as_str()).collect();
    assert_eq!(ids, ["p2", "p3"]);
    assert_eq!(ws.thumbnails.jobs, [("p2".to_string(), 1), ("p3".to_string(), 1)]);
    assert_eq!(ws.thumbnails.failed, ["p3".to_string()]);
    assert_eq!(ws.thumbnails.have.len(), 2);
}

#[test]
fn thumbnails_overfull_cache_keeps_the_photos_in_view() {
    let mut ws = gallery(2);
    ws.thumbnails.have = (0..=THUMBNAIL_CACHE).map(|i| (format!("old{i}"), 1)).collect();
    ws.thumbnails.have.push(("p1".to_string(), 1));
    let plan = ws.cloud_load_thumbnails();
    assert!(plan.evicted);
    assert_eq!(ws.thumbnails.have, [("p1".to_string(), 1)]);
    let ids: Vec<_> = plan.start.iter().map(|(id, _, _)| id.as_str()).collect();
    assert_eq!(ids, ["p0"]);
}
