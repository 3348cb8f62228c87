use schist_workspace::cloud_view::{query_assets, SCAN_LIMIT};
use schist_workspace::assets::{Asset, AssetFeed, People, Person, PersonAvatar, Snapshot};
use schist_workspace::documents::{Documents, Pending, RemoteDocument};
use schist_workspace::modal::Modal;

fn photo(id: &str) -> Asset {
    Asset {
        id: id.to_string(),
        name: "Original".to_string(),
        revision: 1,
        thumbnail_url: None,
        rating: 0,
        flag: String::new(),
        label: String::new(),
        mime_type: "image/jpeg".to_string(),
        metadata_revision: 0,
    }
}

fn asset_snapshot(total: u64, _offset: u64, ids: &[&str]) -> Snapshot {
    Snapshot { total, items: ids.iter().map(|id| photo(id)).collect(), people: None }
}

fn add_page(state: &mut AssetFeed, offset: u64) -> String {
    let watch = format!("page-{}-{}", offset, state.pages.len());
    state.watch_page(watch.clone(), offset);
    watch
}

fn ids(state: &AssetFeed) -> Vec<&str> {
    state.assets.iter().map(|a| a.id.as_str()).collect()
}

#[test]
fn infinite_scroll_appends_batches_and_waits_for_each_request() {
    let mut state = AssetFeed::new();
    let first = add_page(&mut state, 0);
    assert_eq!(state.next_asset_offset(), None);
    assert!(state.apply_asset_snapshot(&first, asset_snapshot(5, 0, &["a", "b"])));
    // Respect a provider that returns fewer than a full page of photos.
    assert_eq!(state.next_asset_offset(), Some(2));
    state.selected.push("a".into());
    let second = add_page(&mut state, 2);
    assert!(state.is_loading_more());
    assert_eq!(state.next_asset_offset(), None);
    assert!(state.apply_asset_snapshot(&second, asset_snapshot(5, 2, &["c", "d"])));
    assert_eq!(ids(&state), ["a", "b", "c", "d"]);
    assert_eq!(state.selected, ["a"]);
    assert!(!state.is_loading_more());
    assert_eq!(state.next_asset_offset(), Some(4));
    let last = add_page(&mut state, 4);
    assert!(state.apply_asset_snapshot(&last, asset_snapshot(5, 4, &["e"])));
    assert_eq!(state.next_asset_offset(), None);
}

#[test]
fn infinite_scroll_keeps_live_pages_and_deduplicates_moving_boundaries() {
    let mut state = AssetFeed::new();
    let first = add_page(&mut state, 0);
    state.apply_asset_snapshot(&first, asset_snapshot(5, 0, &["a", "b"]));
    let second = add_page(&mut state, 2);
    state.apply_asset_snapshot(&second, asset_snapshot(5, 2, &["c", "d"]));
    // Deleting the first photo moves c across the page boundary before
    // the second subscription's corresponding update arrives.
    let mut updated = asset_snapshot(4, 0, &["b", "c"]);
    let mut asset = photo("c");
    asset.revision = 2;
    updated.items[1] = asset;
    state.apply_asset_snapshot(&first, updated);
    assert_eq!(ids(&state), ["b", "c", "d"]);
    assert_eq!(state.assets[1].revision, 2);
    state.apply_asset_snapshot(&second, asset_snapshot(4, 2, &["d", "e"]));
    assert_eq!(ids(&state), ["b", "c", "d", "e"]);
    assert_eq!(state.next_asset_offset(), None);
}

#[test]
fn infinite_scroll_stops_on_empty_batches_and_recovers_from_errors() {
    let mut state = AssetFeed::new();
    let first = add_page(&mut state, 0);
    state.apply_asset_snapshot(&first, asset_snapshot(8, 0, &["a", "b"]));
    let second = add_page(&mut state, 2);
    assert!(state.fail_asset_page(&second, "offline"));
    assert!(state.loaded);
    assert_eq!(state.assets.len(), 2, "earlier results survive a failed batch");
    assert_eq!(state.next_asset_offset(), None);
    assert!(!state.is_loading_more());
    assert!(!state.fail_asset_page("obsolete-query", "stale error"));
    assert!(!state.apply_asset_snapshot("obsolete-query", asset_snapshot(0, 0, &[])));
    assert_eq!(state.load_error.as_deref(), Some("offline"));
    state.apply_asset_snapshot(&second, asset_snapshot(8, 2, &[]));
    assert!(state.load_error.is_none());
    assert_eq!(state.next_asset_offset(), None, "an empty batch cannot loop");
    // A later live update can make this page useful again.
    state.apply_asset_snapshot(&second, asset_snapshot(8, 2, &["c"]));
    assert_eq!(state.next_asset_offset(), Some(3));
}

#[test]
fn infinite_scroll_only_fetches_thumbnails_near_the_viewport() {
    let mut state = AssetFeed::new();
    state.show = true;
    state.assets = (0..1000).map(|n| photo(&n.to_string())).collect();
    state.grid_wanted.extend(["400".to_string(), "401".to_string()]);
    assert_eq!(
        state.wanted_thumbnails().iter().map(|a| a.0.as_str()).collect::<Vec<_>>(),
        ["400", "401"]
    );
    state.grid_wanted.clear();
    state.grid_wanted.push("800".into());
    assert_eq!(
        state.wanted_thumbnails().iter().map(|a| a.0.as_str()).collect::<Vec<_>>(),
        ["800"]
    );
}

fn people_modal(kind: &str, asset: &str) -> Modal {
    Modal::Cloud {
        kind: kind.to_string(),
        fields: vec![("cloud-asset-id".to_string(), String::new(), asset.to_string())],
    }
}

#[test]
fn people_view_keeps_its_photo_and_thumbnail_when_the_gallery_page_changes() {
    let mut state = AssetFeed::new();
    state.show = true;
    let mut asset = photo("portrait");
    asset.thumbnail_url = Some("https://cloud.test/portrait".into());
    state.assets.push(asset.duplicate());
    state.set_people_modal(Some(&people_modal("people-view", &asset.id)));
    // The page and viewer share one thumbnail request.
    assert_eq!(
        state.wanted_thumbnails(),
        vec![(asset.id.clone(), asset.revision, asset.thumbnail_url.clone())]
    );

    // A live refresh moves the photo off the page. Viewing and naming must
    // still resolve the selected photo.
    state.assets.clear();
    state.refresh_people_target();
    assert_eq!(state.people_asset("portrait"), Some(&asset));
    assert!(state.people_asset("another-photo").is_none());
    state.set_people_modal(Some(&people_modal("face-name", &asset.id)));
    assert_eq!(state.people_asset("portrait"), Some(&asset));
    assert_eq!(
        state.wanted_thumbnails(),
        vec![(asset.id.clone(), asset.revision, asset.thumbnail_url.clone())]
    );

    // Closing the dialog releases the photo and its thumbnail request.
    state.set_people_modal(None);
    assert!(state.people_asset("portrait").is_none());
    assert!(state.wanted_thumbnails().is_empty());
}

#[test]
fn people_view_retains_updated_faces_and_revision_after_a_later_page_change() {
    let mut state = AssetFeed::new();
    let mut asset = photo("portrait");
    state.assets.push(asset.duplicate());
    state.set_people_modal(Some(&people_modal("people-view", &asset.id)));
    asset.revision = 2;
    asset.thumbnail_url = Some("https://cloud.test/updated-portrait".into());
    state.assets = vec![asset.duplicate()];
    state.refresh_people_target();
    assert_eq!(state.people_asset("portrait"), Some(&asset));

    state.assets = vec![photo("another-photo")];
    state.refresh_people_target();
    assert_eq!(state.people_asset("portrait"), Some(&asset));
    assert_eq!(state.wanted_thumbnails(), vec![(asset.id.clone(), 2, asset.thumbnail_url.clone())]);
    state.set_people_modal(Some(&people_modal("sign-in", "")));
    assert!(state.people_asset("portrait").is_none());
    assert!(state.wanted_thumbnails().is_empty());
}

#[test]
fn people_thumbnails_load_outside_the_page_and_while_browsing_local_photos() {
    let mut state = AssetFeed::new();
    state.assets.push(photo("on-page"));
    state.people = Some(People {
        people: vec![Person {
            id: "ann".into(),
            name: "Ann".into(),
            avatar: Some(PersonAvatar {
                asset_id: "off-page".into(),
                revision: Some(7),
                thumbnail_url: Some("https://cloud.test/portrait".into()),
            }),
        }],
    });
    let portrait = ("off-page".to_string(), 7, Some("https://cloud.test/portrait".to_string()));
    assert_eq!(state.wanted_thumbnails(), vec![portrait.clone()]);
    state.show = true;
    state.grid_wanted.push("on-page".into());
    assert_eq!(state.wanted_thumbnails(), vec![portrait, ("on-page".into(), 1, None)]);
    let avatar = state.people.as_mut().unwrap().people[0].avatar.as_mut().unwrap();
    avatar.revision = Some(8);
    assert_eq!(state.wanted_thumbnails()[0].1, 8);
    // Multiple people, the page and stale map markers may share a photo.
    // Fetch it once, using the newest revision and its matching URL.
    let mut source = photo("off-page");
    source.revision = 9;
    source.thumbnail_url = Some("https://cloud.test/new-portrait".into());
    state.assets.push(source.duplicate());
    state.grid_wanted.push(source.id.clone());
    source.revision = 7;
    source.thumbnail_url = Some("https://cloud.test/stale-portrait".into());
    state.map_assets.push(source);
    state.map_wanted.push("off-page".into());
    assert_eq!(
        state.wanted_thumbnails(),
        vec![
            ("off-page".to_string(), 9, Some("https://cloud.test/new-portrait".to_string())),
            ("on-page".to_string(), 1, None),
        ]
    );
    state.people = None;
    state.show = false;
    assert!(state.wanted_thumbnails().is_empty());
}

#[test]
fn legacy_people_avatars_use_the_page_thumbnail_when_available() {
    let mut state = AssetFeed::new();
    let mut asset = photo("photo");
    asset.thumbnail_url = Some("https://cloud.test/thumbnail".into());
    state.assets.push(asset);
    let avatar = PersonAvatar { asset_id: "photo".into(), revision: None, thumbnail_url: None };
    assert_eq!(state.avatar_source(&avatar), Some((1, Some("https://cloud.test/thumbnail".into()))));
    state.assets.clear();
    assert_eq!(state.avatar_source(&avatar), None);
}

fn binding(asset: &str) -> RemoteDocument {
    RemoteDocument {
        asset_id: asset.to_string(),
        joined: true,
        detached: false,
        sending: true,
        changed: true,
        render: true,
        generation: 1,
        saved: 0,
    }
}

#[test]
fn terminated_document_keeps_edits_ignores_late_events_and_requires_explicit_reopen() {
    let mut state = Documents::new();
    let id = 41;
    let other = 42;
    state.docs.push((id, binding("revoked")));
    state.docs.push((other, binding("other")));
    state.pending.push(("late-join".into(), Pending::Join(id)));
    state.pending.push(("late-update".into(), Pending::Update { doc: id, generation: 1 }));
    state.pending.push(("other-join".into(), Pending::Join(other)));
    assert_eq!(state.detach_document("revoked"), Some(id));
    let has = |s: &Documents, key: &str| s.pending.iter().any(|(k, _)| k == key);
    assert!(!has(&state, "late-join"));
    assert!(!has(&state, "late-update"));
    assert!(has(&state, "other-join"));
    // A late push for the detached document finds no live target, so even
    // one that would not apply is discarded before touching it.
    assert_eq!(state.update_target("revoked"), None);
    assert_eq!(state.apply_document_update("revoked", Err("malformed update".into())), Ok(None));
    state.disconnect();
    assert_eq!(state.joinable_documents(), vec![other]);
    let document = &state.docs[0].1;
    assert_eq!((document.generation, document.saved), (1, 0));
    assert!(!document.joined && !document.sending && !document.render);
    assert!(state.reopen_document(id));
    assert!(!state.reopen_document(id));
    assert!(state.joinable_documents().contains(&id));
    assert_eq!(state.update_target("revoked"), Some(0));
    assert!(state.apply_document_update("revoked", Err("malformed update".into())).is_err());
}

#[test]
fn a_live_document_is_redrawn_after_an_update() {
    let mut state = Documents::new();
    state.docs.push((7, binding("photo")));
    state.docs[0].1.render = false;
    assert_eq!(state.apply_document_update("elsewhere", Ok(())), Ok(None));
    assert!(!state.docs[0].1.render);
    assert_eq!(state.apply_document_update("photo", Ok(())), Ok(Some(7)));
    assert!(state.docs[0].1.render);
}

#[test]
fn a_scan_pages_until_an_empty_page_the_total_or_the_cap() {
    assert_eq!(SCAN_LIMIT, 500);
    assert_eq!(query_assets(0, 500, 1200, 500, usize::MAX), Some(500));
    assert_eq!(query_assets(1000, 200, 1200, 1200, usize::MAX), None);
    assert_eq!(query_assets(500, 0, 1200, 500, usize::MAX), None);
    assert_eq!(query_assets(0, 500, 1200, 500, 500), None);
}
