use schist_workspace::doc_sync::{ReplyStep, SaveStep};
use schist_workspace::documents::{Pending, RemoteDocument};
use schist_workspace::workspace::Workspace;

fn doc(asset: &str) -> RemoteDocument {
    RemoteDocument {
        asset_id: asset.to_string(),
        joined: false,
        detached: false,
        sending: false,
        changed: false,
        render: false,
        generation: 0,
        saved: 0,
    }
}

fn online() -> Workspace {
    let mut ws = Workspace::new(true);
    ws.cloud_client = true;
    ws.documents.connected = true;
    ws.documents.pending.push(("caps".to_string(), Pending::Capabilities));
    ws.documents.docs.push((1, doc("a")));
    let mut gone = doc("b");
    gone.detached = true;
    ws.documents.docs.push((2, gone));
    ws.documents.docs.push((3, doc("c")));
    ws
}

#[test]
fn doc_sync_capabilities_join_the_live_documents() {
    let mut ws = online();
    ws.documents.pending.push(("j3".to_string(), Pending::Join(3)));
    match ws.cloud_reply("caps", Ok(Some(true))) {
        ReplyStep::Join(joins) => assert_eq!(joins, [(1, "a".to_string())]),
        other => panic!("unexpected {other:?}"),
    }
    assert!(ws.documents.capabilities_ready);
    assert_eq!(ws.documents.image_model, Some(true));
    assert_eq!(ws.documents.pending.len(), 1);
    assert!(matches!(ws.cloud_reply("caps", Ok(None)), ReplyStep::Unknown));
}

#[test]
fn doc_sync_without_collaborative_editing_nothing_joins() {
    let mut ws = online();
    match ws.cloud_reply("caps", Ok(Some(false))) {
        ReplyStep::Join(joins) => assert!(joins.is_empty()),
        other => panic!("unexpected {other:?}"),
    }
    assert_eq!(ws.status, "cloud.error.no_collaborative_editing");
    assert_eq!(ws.cloud_join(1), None);
    assert_eq!(ws.cloud_save(Some(1), Ok(())), SaveStep::LocalOnly);
    assert_eq!(ws.status, "cloud.error.no_collaborative_editing_save_local");
}

#[test]
fn doc_sync_join_then_send_then_saved() {
    let mut ws = online();
    ws.cloud_reply("caps", Ok(None));
    ws.cloud_pending("j1".into(), Pending::Join(1));
    assert_eq!(ws.cloud_join(1), None, "a join already awaits its answer");
    assert!(matches!(ws.cloud_reply("j1", Ok(None)), ReplyStep::Done));
    let d = &ws.documents.docs[0].1;
    assert!(d.joined && d.changed && d.render);

    ws.documents.docs[0].1.generation = 4;
    let sent = ws.cloud_send_document(1, Ok(()));
    assert_eq!(sent, Some(("a".to_string(), 4)));
    assert!(ws.documents.docs[0].1.sending && !ws.documents.docs[0].1.changed);
    assert_eq!(ws.cloud_send_document(1, Ok(())), None, "one update at a time");
    ws.cloud_pending("u1".into(), Pending::Update { doc: 1, generation: 4 });
    ws.close_after_save = Some(1);
    assert_eq!(
        format!("{:?}", ws.cloud_reply("u1", Ok(None))),
        format!("{:?}", ReplyStep::Saved { doc: 1, close: true })
    );
    let d = &ws.documents.docs[0].1;
    assert!(!d.sending && d.saved == 4);
    assert_eq!(ws.close_after_save, None);
    assert_eq!(ws.cloud_save(Some(1), Ok(())), SaveStep::Saved { close: false });
    assert_eq!(ws.status, "cloud.status.saved");
}

#[test]
fn doc_sync_failures_unjoin_and_report() {
    let mut ws = online();
    ws.documents.docs[0].1.joined = true;
    ws.documents.docs[0].1.changed = true;
    assert_eq!(ws.cloud_send_document(1, Err("too large".into())), None);
    assert!(!ws.documents.docs[0].1.joined);
    assert_eq!(ws.status, "too large");

    ws.documents.docs[0].1.joined = true;
    ws.documents.docs[0].1.sending = true;
    ws.cloud_pending("u1".into(), Pending::Update { doc: 1, generation: 1 });
    assert!(matches!(ws.cloud_reply("u1", Err("conflict".into())), ReplyStep::Done));
    assert!(!ws.documents.docs[0].1.joined && !ws.documents.docs[0].1.sending);
    assert_eq!(ws.cloud_message, "conflict");

    ws.cloud_pending("m".into(), Pending::Mutation);
    ws.cloud_reply("m", Ok(None));
    assert_eq!(ws.cloud_message, "cloud.status.updated");
}

#[test]
fn doc_sync_save_joins_first_and_detached_documents_stop() {
    let mut ws = online();
    ws.cloud_reply("caps", Ok(None));
    match ws.cloud_save(Some(3), Ok(())) {
        SaveStep::Sending { join, update } => {
            assert_eq!(join, Some("c".to_string()));
            assert_eq!(update, None);
        }
        other => panic!("unexpected {other:?}"),
    }
    assert_eq!(ws.status, "cloud.status.saving");
    assert_eq!(ws.cloud_save(Some(2), Ok(())), SaveStep::Stopped);
    assert_eq!(ws.status, "cloud.error.sync_stopped");
    assert_eq!(ws.cloud_save(Some(9), Ok(())), SaveStep::NotCloud);
    assert_eq!(ws.cloud_save(None, Ok(())), SaveStep::NotCloud);
    ws.documents.connected = false;
    ws.documents.docs[0].1.joined = true;
    ws.documents.docs[0].1.changed = true;
    match ws.cloud_save(Some(1), Ok(())) {
        SaveStep::Sending { join: None, update: Some((asset, _)) } => assert_eq!(asset, "a"),
        other => panic!("unexpected {other:?}"),
    }
    assert_eq!(ws.status, "cloud.status.offline_will_sync");
}

#[test]
fn doc_sync_undo_needs_a_joined_document() {
    let mut ws = online();
    assert_eq!(ws.cloud_undo_allowed(None), None);
    assert_eq!(ws.cloud_undo_allowed(Some(1)), Some(false));
    assert_eq!(ws.status, "cloud.error.connect_before_undo");
    ws.documents.docs[0].1.joined = true;
    assert_eq!(ws.cloud_undo_allowed(Some(1)), Some(true));
    ws.cloud_undone(1);
    let d = &ws.documents.docs[0].1;
    assert!(d.render && d.changed && d.generation == 1);
}

#[test]
fn doc_sync_closing_forgets_the_document_and_its_answers() {
    let mut ws = online();
    ws.cloud_pending("j1".into(), Pending::Join(1));
    ws.cloud_pending("u3".into(), Pending::Update { doc: 3, generation: 0 });
    assert_eq!(ws.cloud_close_document(1), Some("a".to_string()));
    assert_eq!(ws.documents.docs.len(), 2);
    assert!(matches!(ws.cloud_reply("j1", Ok(None)), ReplyStep::Unknown));
    assert_eq!(ws.documents.pending.len(), 2);
    assert_eq!(ws.cloud_close_document(1), None);
    ws.documents.rerender(1);
    assert!(ws.documents.docs[1].1.render);
}

#[test]
fn doc_sync_captured_edits_count_once_each() {
    let mut ws = online();
    ws.cloud_edit_captured(1, Ok(true));
    ws.cloud_edit_captured(1, Ok(false));
    let d = &ws.documents.docs[0].1;
    assert!(d.changed && d.generation == 1);
    ws.cloud_edit_captured(1, Err("cloud.error.edit_not_saved".into()));
    assert_eq!(ws.status, "cloud.error.edit_not_saved");
    ws.cloud_edit_captured(42, Ok(true));
    assert_eq!(ws.documents.docs[0].1.generation, 1);
}
