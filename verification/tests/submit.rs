use schist_workspace::import_target::Scope;
use schist_workspace::submit::{FormReadings, Param, SubmitError, SubmitStep};
use schist_workspace::workspace::Workspace;

fn form(pairs: &[(&str, &str)]) -> Vec<(String, String, String)> {
    pairs.iter().map(|(k, v)| (k.to_string(), String::new(), v.to_string())).collect()
}

fn plain() -> FormReadings {
    FormReadings { bounds: Ok(()), after: Ok(None), before: Ok(None) }
}

fn mutation(step: SubmitStep) -> (String, Vec<(String, Param)>) {
    match step {
        SubmitStep::Mutate { method, params } => (method, params),
        other => panic!("{other:?}"),
    }
}

#[test]
fn forms_that_hand_their_values_on() {
    let mut ws = Workspace::new(true);
    match ws.cloud_submit("download", &form(&[("cloud-download-format", " jpeg ")]), plain()).unwrap() {
        SubmitStep::Download(f) => assert_eq!(f.as_deref(), Some("jpeg")),
        other => panic!("{other:?}"),
    }
    match ws.cloud_submit("download", &form(&[]), plain()).unwrap() {
        SubmitStep::Download(f) => assert_eq!(f, None),
        other => panic!("{other:?}"),
    }
    match ws.cloud_submit("sign-in", &form(&[("cloud-domain", " schist.app ")]), plain()).unwrap() {
        SubmitStep::SignIn(d) => assert_eq!(d, "schist.app"),
        other => panic!("{other:?}"),
    }
    match ws.cloud_submit("upload-folder", &form(&[("cloud-path", "/photos"), ("cloud-folder", "")]), plain()).unwrap() {
        SubmitStep::UploadFolder { path, folder } => {
            assert_eq!(path, "/photos");
            assert_eq!(folder, None);
        }
        other => panic!("{other:?}"),
    }
    assert!(matches!(
        ws.cloud_submit("bogus", &form(&[]), plain()),
        Err(SubmitError::Message(m)) if m == "cloud.error.unknown_action"
    ));
}

#[test]
fn a_search_sets_the_gallery_query() {
    let mut ws = Workspace::new(true);
    let f = form(&[("cloud-query", " beach "), ("cloud-rating", "3"), ("cloud-tags", "sea, sun")]);
    assert!(matches!(ws.cloud_submit("search", &f, plain()).unwrap(), SubmitStep::Search));
    assert_eq!(ws.query_text, "beach");
    assert_eq!(ws.query_filters.min_rating, Some(3));
    assert_eq!(ws.query_filters.tags, Some(vec!["sea".to_string(), "sun".to_string()]));
    assert_eq!(ws.search_text, "beach");
    let bad = form(&[("cloud-query", "x"), ("cloud-rating", "7")]);
    assert!(ws.cloud_submit("search", &bad, plain()).is_err());
    assert_eq!(ws.query_text, "beach", "a refused search leaves the query");
    assert_eq!(ws.search_text, "x", "the search box shows what was typed, refused or not");
    assert!(matches!(ws.cloud_submit("catalogue", &form(&[("cloud-query", "trip")]), plain()).unwrap(), SubmitStep::Catalogue));
    assert_eq!(ws.catalogue, "trip");
}

#[test]
fn folder_forms_create_where_the_gallery_is() {
    let mut ws = Workspace::new(true);
    ws.query_scope = Scope::Folder { id: "f1".into() };
    let (method, params) = mutation(ws.cloud_submit("new-folder", &form(&[("cloud-name", "Trips")]), plain()).unwrap());
    assert_eq!(method, "folder.create");
    assert!(matches!(&params[0], (k, Param::Text(n)) if k == "name" && n == "Trips"));
    assert!(matches!(&params[1], (k, Param::Text(p)) if k == "parent_id" && p == "f1"));
    ws.form_target = Some(("f2".into(), 4));
    let (_, params) = mutation(ws.cloud_submit("new-subfolder", &form(&[("cloud-name", "Day 1")]), plain()).unwrap());
    assert!(matches!(&params[1], (_, Param::Text(p)) if p == "f2"));
    assert!(ws.form_target.is_none(), "the target is used up");
    let (_, params) = mutation(ws.cloud_submit("new-subfolder", &form(&[("cloud-name", "Day 2")]), plain()).unwrap());
    assert!(matches!(&params[1], (_, Param::Nil)));
}

#[test]
fn forms_on_a_target_need_one() {
    let mut ws = Workspace::new(true);
    for (kind, key) in [
        ("delete-asset", "cloud.error.no_photo_selected"),
        ("rename-folder", "cloud.error.no_folder_selected"),
        ("delete-folder", "cloud.error.no_item_selected"),
        ("edit-bucket", "cloud.error.no_bucket_selected"),
        ("move-items", "cloud.error.no_bucket_selected"),
    ] {
        assert!(matches!(ws.cloud_submit(kind, &form(&[]), plain()), Err(SubmitError::Message(m)) if m == key), "{kind}");
    }
    ws.form_target = Some(("p".into(), 9));
    ws.feed.selected = vec!["q".into(), "p".into()];
    let (method, params) = mutation(ws.cloud_submit("delete-asset", &form(&[]), plain()).unwrap());
    assert_eq!(method, "asset.delete");
    assert!(matches!(&params[1], (k, Param::Number(9)) if k == "revision"));
    assert_eq!(ws.feed.selected, vec!["q".to_string()]);
    let (method, params) = mutation(ws.cloud_submit("delete-folder", &form(&[("cloud-check-contents", "1")]), plain()).unwrap());
    assert_eq!(method, "folder.delete");
    assert_eq!(params.len(), 3);
    let (method, params) = mutation(ws.cloud_submit("delete-bucket", &form(&[("cloud-check-contents", "1")]), plain()).unwrap());
    assert_eq!(method, "bucket.delete");
    assert_eq!(params.len(), 2);
    let (method, params) = mutation(ws.cloud_submit("move-items", &form(&[("cloud-folder", "f")]), plain()).unwrap());
    assert_eq!(method, "asset.move");
    assert!(matches!(&params[0], (k, Param::BucketItems(b)) if k == "items" && b == "p"));
    assert!(ws.form_target.is_none());
}

#[test]
fn buckets_keep_no_rule_for_an_empty_search() {
    let mut ws = Workspace::new(true);
    ws.query_scope = Scope::Bucket { id: "b".into() };
    let (method, params) = mutation(ws.cloud_submit("new-bucket", &form(&[("cloud-name", "Empty")]), plain()).unwrap());
    assert_eq!(method, "bucket.create");
    assert!(matches!(&params[1], (_, Param::Nil)));
    let (_, params) = mutation(
        ws.cloud_submit("new-bucket", &form(&[("cloud-name", "Sea"), ("cloud-query", "sea")]), plain()).unwrap(),
    );
    match &params[1].1 {
        Param::Rule { scope, text, .. } => {
            assert!(matches!(scope, Scope::Library), "a bucket's rule does not search a bucket");
            assert_eq!(text, "sea");
        }
        other => panic!("{other:?}"),
    }
    ws.form_target = Some(("b".into(), 2));
    ws.form_scope = Scope::Folder { id: "f".into() };
    let (method, params) = mutation(
        ws.cloud_submit("edit-bucket", &form(&[("cloud-name", "Sea"), ("cloud-rating", "2")]), plain()).unwrap(),
    );
    assert_eq!(method, "bucket.update");
    assert_eq!(params.len(), 4);
    assert!(matches!(&params[1].1, Param::Rule { scope: Scope::Folder { id }, .. } if id == "f"));
    assert!(ws.form_target.is_some(), "editing keeps the target");
}
