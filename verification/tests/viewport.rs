use schist_workspace::viewport_queue::{ViewportDone, ViewportQueue, ViewportStep};
use schist_workspace::workspace::Workspace;

fn ready() -> ViewportQueue {
    ViewportQueue { context: true, epoch: 3, pending: false, requested: None, failed: None }
}

#[test]
fn a_viewport_render_starts_with_the_tiles_not_cached() {
    let mut q = ready();
    let coords = vec![(0, 0), (1, 0), (0, 1), (1, 1)];
    let cached = vec![true, false, true, false];
    match q.request(Some(7), 1, &coords, &cached, true) {
        ViewportStep::Start { missing } => assert_eq!(missing, vec![(1, 0), (1, 1)]),
        other => panic!("{other:?}"),
    }
    assert!(q.pending);
    assert_eq!(q.requested, Some((7, 1)));
    // A newer paint while the render runs is remembered and answered busy.
    assert!(matches!(q.request(Some(7), 2, &coords, &cached, true), ViewportStep::Busy));
    assert_eq!(q.requested, Some((7, 2)));
}

#[test]
fn a_viewport_is_not_queued_without_a_context_a_document_or_a_plan() {
    let mut q = ViewportQueue::new();
    assert!(matches!(q.request(Some(7), 1, &vec![], &vec![], true), ViewportStep::NotQueued));
    assert_eq!(q.requested, None);
    let mut q = ready();
    assert!(matches!(q.request(None, 1, &vec![], &vec![], true), ViewportStep::NotQueued));
    assert!(matches!(q.request(Some(7), 1, &vec![(0, 0)], &vec![false], false), ViewportStep::NotQueued));
    assert!(!q.pending);
    // With every tile cached no plan is needed.
    match q.request(Some(7), 1, &vec![(0, 0)], &vec![true], false) {
        ViewportStep::Start { missing } => assert!(missing.is_empty()),
        other => panic!("{other:?}"),
    }
}

#[test]
fn a_failed_render_is_not_retried_and_old_renders_are_ignored() {
    let mut q = ready();
    q.request(Some(7), 1, &vec![(0, 0)], &vec![false], true);
    assert_eq!(q.finished(2, (7, 1), Some(5), 5, false, false, true), ViewportDone { store: false, present: false });
    assert!(q.pending, "a render from an older context changes nothing");
    assert_eq!(q.finished(3, (7, 1), Some(5), 5, false, false, true), ViewportDone { store: false, present: false });
    assert!(!q.pending);
    assert_eq!(q.failed, Some((7, 1)));
    assert!(matches!(q.request(Some(7), 1, &vec![(0, 0)], &vec![false], true), ViewportStep::NotQueued));
    match q.request(Some(7), 2, &vec![(0, 0)], &vec![false], true) {
        ViewportStep::Start { .. } => {}
        other => panic!("{other:?}"),
    }
    // An intermediate frame is shown but its tiles are not kept.
    assert_eq!(q.finished(3, (7, 2), Some(6), 5, true, true, true), ViewportDone { store: false, present: true });
    assert!(!q.context, "a lost context goes");
}

#[test]
fn the_workspace_queues_only_with_a_document() {
    let mut ws = Workspace::new(true);
    ws.browser_gpu.context = true;
    assert!(matches!(ws.queue_browser_viewport(7, 1, &vec![], &vec![], true), ViewportStep::NotQueued));
    assert_eq!(ws.browser_gpu.requested, None);
}
