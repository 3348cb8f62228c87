use schist_workspace::cloud_paths::{account_key, folder_path_below, recovery_file_name, safe_component, Folder};
use schist_workspace::export_report::Report;
use schist_workspace::filter_stack::{change_stack, StackChange, StackEdit, StackEffect};
use schist_workspace::import_target::{Bucket, CloudImportTarget, Scope};
use schist_workspace::line_edit::LineEdit;
use schist_workspace::mask_refine::Background;
use schist_workspace::metadata::{build_patch, enable_field, split_keywords, unique_keywords};
use schist_workspace::numbers::{parse_i64, parse_u32, parse_u8};
use schist_workspace::search::{parse_filters, FilterError};
use schist_workspace::similar::{SimilarReview, SimilarStep};
use schist_workspace::workspace::Workspace;

fn effects(ids: &[&str]) -> Vec<StackEffect> {
    ids.iter().map(|id| StackEffect { id: id.to_string(), enabled: true }).collect()
}

fn ids(e: &[StackEffect]) -> Vec<&str> {
    e.iter().map(|x| x.id.as_str()).collect()
}

#[test]
fn filter_stack_edits_move_switch_and_remove_effects() {
    let mut e = effects(&["blur", "noise", "sharpen"]);
    assert_eq!(change_stack(&mut e, StackChange::Up(2)), StackEdit::Install);
    assert_eq!(ids(&e), ["blur", "sharpen", "noise"]);
    assert_eq!(change_stack(&mut e, StackChange::Down(1)), StackEdit::Install);
    assert_eq!(ids(&e), ["blur", "noise", "sharpen"]);
    assert_eq!(change_stack(&mut e, StackChange::Up(0)), StackEdit::Nothing);
    assert_eq!(change_stack(&mut e, StackChange::Down(2)), StackEdit::Nothing);
    assert_eq!(change_stack(&mut e, StackChange::Toggle(1)), StackEdit::Install);
    assert!(!e[1].enabled);
    assert_eq!(change_stack(&mut e, StackChange::Toggle(1)), StackEdit::Install);
    assert!(e[1].enabled);
    assert_eq!(change_stack(&mut e, StackChange::Remove(0)), StackEdit::Install);
    assert_eq!(ids(&e), ["noise", "sharpen"]);
    assert_eq!(change_stack(&mut e, StackChange::Remove(5)), StackEdit::Nothing);
    assert_eq!(change_stack(&mut e, StackChange::Bake), StackEdit::Bake);
    assert!(e.is_empty());
}

#[test]
fn mask_refine_backgrounds_have_labels() {
    let all = Background::all();
    assert_eq!(all.len(), 5);
    assert_eq!(all[0], Background::Checkerboard);
    assert_eq!(Background::Mask.label(), "mask_refine.mask_only");
    assert_eq!(Background::White.label(), "mask_refine.white");
}

#[test]
fn similar_review_steps_through_candidates_within_the_group() {
    let mut r = SimilarReview::new();
    assert_eq!(r.open_review(), SimilarStep::Scan);
    r.photos = 5;
    r.group_sizes = vec![3, 2];
    assert_eq!(r.open_review(), SimilarStep::LoadPair);
    assert_eq!(r.review_key("right", false, false), (true, true));
    assert_eq!(r.candidate, 2);
    assert_eq!(r.review_key("right", false, false), (true, false));
    assert_eq!(r.review_key("left", false, false), (true, true));
    assert_eq!(r.review_key("left", false, false), (true, false));
    assert_eq!(r.candidate, 1);
    assert_eq!(r.review_key("space", false, false), (true, false));
    assert_eq!(r.review_key("x", false, false), (false, false));
    assert_eq!(r.review_key("left", true, false), (false, false));
    r.running = true;
    assert_eq!(r.open_review(), SimilarStep::Wait);
    r.close_review();
    assert!(!r.open);
    assert_eq!(r.revision, 1);
}

#[test]
fn camera_import_rejects_an_account_change_before_staging_or_upload() {
    let ws = Workspace::new(true);
    let target = CloudImportTarget { epoch: ws.cloud_epoch, scope: Scope::Library };
    assert_eq!(target.check(&ws).unwrap_err(), "cloud.error.sign_in_first");
    let mut changed_account = ws;
    changed_account.cloud_epoch += 1;
    assert_eq!(target.check(&changed_account).unwrap_err(), "cloud.upload.cancelled");
    assert!(target.destination(&changed_account).is_err());
    changed_account.cloud_epoch -= 1;
    changed_account.cloud_client = true;
    assert!(target.check(&changed_account).is_ok());
    assert_eq!(target.destination(&changed_account), Ok((None, None)));
    let to_folder = CloudImportTarget { epoch: changed_account.cloud_epoch, scope: Scope::Folder { id: "f".into() } };
    assert_eq!(to_folder.destination(&changed_account), Ok((None, Some("f".to_string()))));
    let to_bucket = CloudImportTarget { epoch: changed_account.cloud_epoch, scope: Scope::Bucket { id: "b".into() } };
    assert_eq!(to_bucket.destination(&changed_account), Ok((Some("b".to_string()), None)));
}

#[test]
fn camera_import_label_names_the_destination() {
    let folders = vec![Folder { id: "f".into(), name: "Trips".into(), parent_id: None }];
    let buckets = vec![Bucket { id: "b".into(), name: "Best".into() }];
    let t = CloudImportTarget { epoch: 0, scope: Scope::Folder { id: "f".into() } };
    assert_eq!(t.label("Upload", &folders, &buckets), "Upload / Trips");
    let t = CloudImportTarget { epoch: 0, scope: Scope::Bucket { id: "b".into() } };
    assert_eq!(t.label("Upload", &folders, &buckets), "Upload / Best");
    let t = CloudImportTarget { epoch: 0, scope: Scope::Bucket { id: "gone".into() } };
    assert_eq!(t.label("Upload", &folders, &buckets), "Upload");
}

fn form(pairs: &[(&str, &str)]) -> Vec<(String, String, String)> {
    pairs.iter().map(|(k, v)| (k.to_string(), String::new(), v.to_string())).collect()
}

#[test]
fn search_form_reads_lists_choices_and_rating() {
    let f = form(&[
        ("cloud-types", " image/jpeg, ,image/png "),
        ("cloud-tags", ""),
        ("cloud-edited", " yes "),
        ("cloud-content", "flagged"),
        ("cloud-rating", "4"),
    ]);
    let filters = parse_filters(&f, Ok(()), Ok(Some(10)), Ok(None)).unwrap();
    assert_eq!(filters.mime_types, Some(vec!["image/jpeg".to_string(), "image/png".to_string()]));
    assert_eq!(filters.tags, None);
    assert_eq!(filters.edited, Some(true));
    assert_eq!(filters.content.as_deref(), Some("flagged"));
    assert_eq!(filters.min_rating, Some(4));
    assert_eq!(filters.captured_after, Some(10));
    let f = form(&[("cloud-edited", "any"), ("cloud-content", "all")]);
    let filters = parse_filters(&f, Ok(()), Ok(None), Ok(None)).unwrap();
    assert_eq!((filters.edited, filters.content, filters.min_rating), (None, None, None));
}

#[test]
fn search_form_errors_come_in_the_form_order() {
    let bad = form(&[("cloud-edited", "maybe"), ("cloud-content", "weird"), ("cloud-rating", "9")]);
    assert_eq!(parse_filters(&bad, Ok(()), Ok(None), Ok(None)).unwrap_err(), FilterError::Edited);
    let bad = form(&[("cloud-content", "weird"), ("cloud-rating", "9")]);
    assert_eq!(parse_filters(&bad, Ok(()), Ok(None), Ok(None)).unwrap_err(), FilterError::Content);
    let bad = form(&[("cloud-rating", "9")]);
    assert_eq!(parse_filters(&bad, Ok(()), Ok(None), Ok(None)).unwrap_err(), FilterError::RatingRange);
    let bad = form(&[("cloud-rating", "x")]);
    assert_eq!(parse_filters(&bad, Ok(()), Ok(None), Ok(None)).unwrap_err(), FilterError::RatingNotANumber);
    let ok = form(&[]);
    assert_eq!(
        parse_filters(&ok, Err("bounds".into()), Err("date".into()), Ok(None)).unwrap_err(),
        FilterError::Bounds("bounds".into())
    );
    assert_eq!(parse_filters(&ok, Ok(()), Ok(None), Err("late".into())).unwrap_err(), FilterError::Date("late".into()));
    assert_eq!(parse_filters(&ok, Ok(()), Ok(Some(5)), Ok(Some(4))).unwrap_err(), FilterError::DateOrder);
    assert!(parse_filters(&ok, Ok(()), Ok(Some(4)), Ok(Some(4))).is_ok());
}

#[test]
fn export_reports_count_and_keep_the_first_error() {
    let mut r = Report::new();
    r.wrote();
    r.fail("first".into());
    r.fail("second".into());
    assert_eq!((r.written, r.failed, r.error.as_deref()), (1, 2, Some("first")));
    let mut run = Report::new();
    run.absorb(Report { written: 2, failed: 0, error: None });
    run.absorb(r);
    assert_eq!((run.written, run.failed, run.error.as_deref()), (3, 2, Some("first")));
}

#[test]
fn workflow_sync_waits_for_its_countdown_and_one_run_at_a_time() {
    let mut ws = Workspace::new(true);
    ws.documents.connected = true;
    assert!(ws.workflows_may_sync(true, false));
    assert!(!ws.workflows_may_sync(false, false));
    assert!(!ws.workflows_may_sync(true, true));
    assert!(ws.workflows_due(), "a new workspace syncs at once");
    assert_eq!(ws.workflow_ticks, 0);
    assert!(!ws.workflows_due());
    assert_eq!(ws.workflow_ticks, 1);
    ws.workflows_started();
    ws.cloud_workflows_changed();
    assert!(!ws.workflows_due(), "nothing counts while a sync runs");
    ws.workflows_result_taken();
    assert!(ws.workflows_due());
}

#[test]
fn recovery_files_and_sync_keys_hash_the_domain_and_name() {
    assert_eq!(
        recovery_file_name("cloud.test", "portrait"),
        "fce7dd3dfc1f9d63b8c4d5e6a670d8f968e352b7a39eede2ec788af69e01817c.msgpack"
    );
    assert_eq!(
        account_key("schist.app", "acct-1"),
        "4906483b9136fb42e433091d1c4074800deffd089d464017f93c8481238259e1"
    );
}

#[test]
fn cloud_names_become_safe_path_components() {
    assert_eq!(safe_component("a/b\\c\0d"), "a_b_c_d");
    assert_eq!(safe_component("  Holiday  "), "Holiday");
    assert_eq!(safe_component(".."), "untitled");
    assert_eq!(safe_component("   "), "untitled");
    assert_eq!(safe_component("."), "untitled");
}

#[test]
fn folder_paths_walk_up_to_the_root() {
    let folders = vec![
        Folder { id: "a".into(), name: "A".into(), parent_id: None },
        Folder { id: "b".into(), name: "B".into(), parent_id: Some("a".into()) },
        Folder { id: "c".into(), name: "C".into(), parent_id: Some("b".into()) },
        Folder { id: "x".into(), name: "X".into(), parent_id: Some("y".into()) },
        Folder { id: "y".into(), name: "Y".into(), parent_id: Some("x".into()) },
    ];
    assert_eq!(folder_path_below(&folders, None, Some("c")), vec!["A", "B", "C"]);
    assert_eq!(folder_path_below(&folders, Some("a"), Some("c")), vec!["B", "C"]);
    assert!(folder_path_below(&folders, None, None).is_empty());
    assert!(folder_path_below(&folders, None, Some("missing")).is_empty());
    // A cycle stops after 32 steps.
    assert_eq!(folder_path_below(&folders, None, Some("x")).len(), 32);
}

#[test]
fn numbers_parse_as_rust_parses_them() {
    let c = |s: &str| s.chars().collect::<Vec<char>>();
    assert_eq!(parse_u32(&c("4096")), Some(4096));
    assert_eq!(parse_u32(&c("+7")), Some(7));
    assert_eq!(parse_u32(&c("-7")), None);
    assert_eq!(parse_u32(&c("4294967296")), None);
    assert_eq!(parse_u32(&c("")), None);
    assert_eq!(parse_u8(&c("255")), Some(255));
    assert_eq!(parse_u8(&c("256")), None);
    assert_eq!(parse_i64(&c("-9223372036854775808")), Some(i64::MIN));
    assert_eq!(parse_i64(&c("9223372036854775808")), None);
    assert_eq!(parse_i64(&c("12a")), None);
}

#[test]
fn keywords_split_on_semicolons_once_each() {
    assert_eq!(split_keywords("one; two; one;;"), vec!["one", "two", "one"]);
    assert_eq!(unique_keywords("one; two; one"), vec!["one", "two"]);
}

#[test]
fn checking_one_time_mode_unchecks_the_other() {
    let mut e = [false; 6];
    enable_field(&mut e, 3, true);
    enable_field(&mut e, 4, true);
    assert!(!e[3] && e[4]);
    enable_field(&mut e, 3, true);
    assert!(e[3] && !e[4]);
    enable_field(&mut e, 3, false);
    assert_eq!(e, [false; 6]);
}

#[test]
fn line_edit_typing_replaces_the_selection() {
    let mut e = LineEdit::new();
    e.insert(&['a', 'b', 'c', 'd']);
    assert_eq!(e.cursor, 4);
    e.move_caret(1, false);
    e.extend_to(3);
    assert_eq!(e.selection(), (1, 3));
    e.insert(&['X']);
    assert_eq!(e.text, vec!['a', 'X', 'd']);
    assert_eq!((e.cursor, e.anchor), (2, 2));
    e.select_all();
    assert!(e.delete_selection());
    assert!(e.text.is_empty());
    assert!(!e.delete_selection());
}

#[test]
fn metadata_batch_changes_only_checked_fields_and_validates_input() {
    let values: [String; 6] = [
        "one; two; one".into(),
        "new caption".into(),
        "copyright".into(),
        "2024-02-29T12:00:00".into(),
        "3600".into(),
        "-33.75, 151.2".into(),
    ];
    let taken = Ok("2024-02-29T12:00:00".to_string());
    let patch = build_patch(&values, &[true, false, false, false, true, true], taken.clone(), true, true).unwrap();
    assert_eq!(patch.keywords, Some(vec!["one".into(), "two".into()]));
    assert!(patch.caption.is_none() && patch.copyright.is_none() && patch.taken.is_none());
    assert_eq!(patch.offset_seconds, Some(3600));
    assert_eq!(patch.gps, Some(true));
    assert!(build_patch(&values, &[false, false, false, true, true, false], taken.clone(), true, true).is_err());
    let empty: [String; 6] = Default::default();
    let clear = build_patch(&empty, &[true, true, true, true, false, true], Err(()), false, true).unwrap();
    assert_eq!(clear.gps, Some(false));
    assert_eq!(clear.taken, Some(String::new()));
}

#[test]
fn each_refused_metadata_field_is_named() {
    let mut values: [String; 6] = Default::default();
    values[3] = "yesterday".into();
    values[4] = " -90 ".into();
    values[5] = "north".into();
    let time_only = [false, false, false, true, false, false];
    assert_eq!(build_patch(&values, &time_only, Err(()), true, true).unwrap_err(), 3);
    let both_times = [false, false, false, true, true, false];
    assert_eq!(build_patch(&values, &both_times, Ok("2024-01-01T00:00:00".into()), true, true).unwrap_err(), 4);
    let offset = [false, false, false, false, true, false];
    assert_eq!(build_patch(&values, &offset, Err(()), true, true).unwrap().offset_seconds, Some(-90));
    values[4] = "1.5".into();
    assert_eq!(build_patch(&values, &offset, Err(()), true, true).unwrap_err(), 4);
    let place = [false, false, false, false, false, true];
    assert_eq!(build_patch(&values, &place, Err(()), false, true).unwrap_err(), 5);
    assert_eq!(build_patch(&values, &place, Err(()), true, false).unwrap_err(), 5);
    let caption = [false, true, false, false, false, false];
    assert_eq!(build_patch(&values, &caption, Err(()), false, false).unwrap_err(), 1);
}
