use schist_workspace::assets::Asset;
use schist_workspace::fields::Modifiers;
use schist_workspace::gallery_review::{
    valid_groups, GalleryAction, GalleryEvent, GalleryReply, GalleryView, PreviewSource,
};
use schist_workspace::keys::CullingKey;
use schist_workspace::workspace::Workspace;

fn shot(id: &str, mime: &str, metadata_revision: u64) -> Asset {
    Asset {
        id: id.to_string(),
        name: format!("{id}.jpg"),
        revision: 1,
        thumbnail_url: None,
        rating: 0,
        flag: String::new(),
        label: String::new(),
        mime_type: mime.to_string(),
        metadata_revision,
    }
}

fn connected_with(ids: &[&str], selected: &[&str]) -> Workspace {
    let mut ws = Workspace::new(true);
    ws.cloud_client = true;
    ws.feed.assets = ids.iter().map(|id| shot(id, "image/jpeg", 0)).collect();
    ws.feed.selected = selected.iter().map(|s| s.to_string()).collect();
    ws
}

fn sources(action: &GalleryAction) -> Vec<(usize, String)> {
    match action {
        GalleryAction::FetchPreviews(r) => r
            .iter()
            .map(|p| match &p.source {
                PreviewSource::Photo(id) => (p.slot, format!("photo:{id}")),
                PreviewSource::Version(url) => (p.slot, format!("version:{url}")),
            })
            .collect(),
        _ => panic!("no previews asked for"),
    }
}

#[test]
fn gallery_compare_needs_two_still_photos() {
    let mut ws = connected_with(&["a", "b", "c"], &["a"]);
    assert!(ws.cloud_compare().is_none());
    assert_eq!(ws.gallery.view, None);

    ws.feed.assets[1].mime_type = "video/mp4".into();
    ws.feed.selected = vec!["a".into(), "b".into()];
    assert!(ws.cloud_compare().is_none());

    ws.feed.selected = vec!["a".into(), "c".into()];
    let serial = ws.gallery.serial;
    let previews = ws.cloud_compare().expect("opened");
    assert_eq!(ws.gallery.view, Some(GalleryView::Compare));
    assert_eq!(ws.gallery.active, 1);
    assert_eq!(ws.gallery.serial, serial + 2);
    let ids: Vec<_> = previews.iter().map(|p| (p.slot, p.serial)).collect();
    assert_eq!(ids, [(0, serial + 2), (1, serial + 2)]);
    // The active pane is what actions apply to.
    let photos = ws.cloud_gallery_photos();
    assert_eq!(photos.len(), 1);
    assert_eq!(photos[0].id, "c");
}

#[test]
fn gallery_review_lands_and_steps_through_groups() {
    let mut ws = connected_with(&["a", "b", "c", "d"], &[]);
    let serial = ws.cloud_review().expect("connected");
    assert!(ws.gallery.busy);
    assert_eq!(ws.gallery.view, Some(GalleryView::Review));
    let action = ws.cloud_gallery_event(GalleryEvent::Progress { serial, done: 1, total: 4 });
    assert!(matches!(action, GalleryAction::Nothing));
    assert_eq!(ws.gallery.progress, Some((1, 4)));

    let photos: Vec<Asset> = ["a", "b", "c", "d"].iter().map(|id| shot(id, "image/jpeg", 0)).collect();
    let groups = vec![vec![0, 1, 2], vec![3]];
    assert!(valid_groups(&photos, &groups));
    assert!(!valid_groups(&photos, &vec![vec![]]));
    assert!(!valid_groups(&photos, &vec![vec![4]]));
    let action = ws.cloud_gallery_event(GalleryEvent::Review { serial, result: Ok((photos, groups)) });
    assert!(!ws.gallery.busy);
    assert_eq!(ws.gallery.progress, None);
    assert_eq!((ws.gallery.group, ws.gallery.candidate), (0, 1));
    assert_eq!(sources(&action), [(0, "photo:a".to_string()), (1, "photo:b".to_string())]);

    ws.gallery.candidate = 7;
    let ids: Vec<_> = ws.gallery.pair().into_iter().map(|a| a.id).collect();
    assert_eq!(ids, ["a", "c"]);

    let next = ws.cloud_review_step(true);
    assert_eq!(ws.gallery.group, 1);
    let ids: Vec<_> = next.iter().map(|p| p.slot).collect();
    assert_eq!(ids, [0, 1]);
    let ids: Vec<_> = ws.gallery.pair().into_iter().map(|a| a.id).collect();
    assert_eq!(ids, ["d", "d"]);
    ws.cloud_review_step(true);
    assert_eq!(ws.gallery.group, 1);
    ws.cloud_review_step(false);
    ws.cloud_review_step(false);
    assert_eq!(ws.gallery.group, 0);
    assert_eq!(ws.gallery.candidate, 1);

    let (group, chosen) = ws.cloud_review_choice().expect("sent");
    let ids: Vec<_> = group.into_iter().map(|a| a.id).collect();
    assert_eq!(ids, ["a", "b", "c"]);
    assert_eq!(chosen, "a");
    assert!(ws.gallery.busy);
    assert!(ws.cloud_review_choice().is_none());
}

#[test]
fn gallery_events_for_a_closed_view_are_ignored() {
    let mut ws = connected_with(&["a"], &[]);
    let serial = ws.cloud_review().expect("connected");
    let mods = Modifiers::default();
    assert_eq!(ws.cloud_gallery_key("escape", mods, false, true), CullingKey::CloseCompare);
    assert_eq!(ws.gallery.view, None);
    let before = ws.gallery.serial;
    let action = ws.cloud_gallery_event(GalleryEvent::Review {
        serial,
        result: Ok((vec![shot("z", "image/jpeg", 0)], vec![vec![0]])),
    });
    assert!(matches!(action, GalleryAction::Nothing));
    assert_eq!(ws.gallery.photos.len(), 0);
    assert_eq!(ws.gallery.serial, before);
}

#[test]
fn gallery_versions_open_for_one_photo_and_ask_for_its_history() {
    let mut ws = connected_with(&["a", "b"], &["a", "b"]);
    assert_eq!(ws.cloud_versions(), None);
    ws.feed.selected = vec!["b".into()];
    assert_eq!(ws.cloud_versions(), Some("b".to_string()));
    assert_eq!(ws.gallery.view, Some(GalleryView::Versions));
    assert!(ws.gallery.busy);
    let serial = ws.gallery.serial;
    let action = ws.cloud_gallery_event(GalleryEvent::Reply {
        serial,
        result: Ok(GalleryReply::Versions(vec!["v1.png".into(), "v2.png".into()])),
    });
    assert!(!ws.gallery.busy);
    assert_eq!(ws.gallery.version, 0);
    assert_eq!(sources(&action), [(0, "photo:b".to_string()), (1, "version:v1.png".to_string())]);

    let serial = ws.gallery.serial;
    let action = ws.cloud_gallery_event(GalleryEvent::Reply { serial, result: Ok(GalleryReply::VersionCreated) });
    assert!(matches!(action, GalleryAction::RequestVersions(ref id) if id == "b"));
    assert!(ws.gallery.busy);

    let action = ws.cloud_gallery_event(GalleryEvent::Reply {
        serial,
        result: Ok(GalleryReply::Metadata { name: "b.jpg".into(), xmp_url: "https://x/b".into() }),
    });
    match action {
        GalleryAction::Download { url, name } => {
            assert_eq!(url, "https://x/b");
            assert_eq!(name, "b.jpg.xmp");
        }
        _ => panic!("expected a download"),
    }

    let action = ws.cloud_gallery_event(GalleryEvent::Reply { serial, result: Ok(GalleryReply::VersionRestored) });
    assert!(matches!(action, GalleryAction::WatchAssets));
    assert_eq!(ws.gallery.view, None);
    assert_eq!(ws.cloud_message, "common.done");
}

#[test]
fn gallery_replies_update_photos_and_report_failures() {
    let mut ws = connected_with(&["a", "b"], &["a", "b"]);
    ws.cloud_compare().expect("opened");
    let serial = ws.gallery.serial;
    let mut newer = shot("b", "image/jpeg", 3);
    newer.rating = 5;
    let action = ws.cloud_gallery_event(GalleryEvent::Reply { serial, result: Ok(GalleryReply::Assets(vec![newer])) });
    assert!(matches!(action, GalleryAction::Nothing));
    assert_eq!(ws.feed.assets[1].rating, 5);
    assert_eq!(ws.gallery.photos[1].rating, 5);
    assert_eq!(ws.feed.assets[0].rating, 0);

    let action = ws.cloud_gallery_event(GalleryEvent::Preview { serial, slot: 1, result: Ok(()) });
    assert!(matches!(action, GalleryAction::ShowPreview(1)));
    ws.cloud_gallery_event(GalleryEvent::Preview { serial, slot: 0, result: Err("broken image".into()) });
    assert_eq!(ws.gallery.error.as_deref(), Some("broken image"));
    assert_eq!(ws.status, "broken image");
    assert_eq!(ws.cloud_message, "broken image");
}

#[test]
fn gallery_reconcile_takes_newer_metadata_of_the_same_revision() {
    let mut ws = connected_with(&[], &[]);
    ws.gallery.photos = vec![shot("a", "image/jpeg", 2), shot("b", "image/jpeg", 2)];
    let mut older = shot("a", "image/jpeg", 1);
    older.rating = 1;
    let mut same = shot("a", "image/jpeg", 2);
    same.rating = 2;
    let mut later = shot("a", "image/jpeg", 4);
    later.rating = 4;
    let mut other_revision = shot("b", "image/jpeg", 9);
    other_revision.revision = 2;
    let assets = vec![older, same, later, other_revision];
    ws.gallery.reconcile(&assets);
    assert_eq!(ws.gallery.photos[0].rating, 2);
    assert_eq!(ws.gallery.photos[1].metadata_revision, 2);
    ws.gallery.reconcile(&assets);
    assert_eq!(ws.gallery.photos[0].rating, 2);
}

#[test]
fn gallery_keys_pick_panes_and_culling_needs_the_feature() {
    let mut ws = connected_with(&["a", "b"], &["a", "b"]);
    ws.cloud_compare().expect("opened");
    let mods = Modifiers::default();
    assert_eq!(ws.cloud_gallery_key("left", mods, false, true), CullingKey::ShowPane(0));
    assert_eq!(ws.gallery.active, 0);
    assert_eq!(ws.cloud_gallery_key("tab", mods, false, true), CullingKey::OtherPane);
    assert_eq!(ws.gallery.active, 1);
    assert_eq!(ws.cloud_gallery_key("tab", mods, true, true), CullingKey::Ignored);
    assert_eq!(ws.gallery.active, 1);

    assert!(ws.cloud_cull(false).is_none());
    let photos = ws.cloud_cull(true).expect("sent");
    assert_eq!(photos.len(), 1);
    assert_eq!(photos[0].id, "b");
    assert!(ws.gallery.busy);
    assert!(ws.cloud_cull(true).is_none());
}
