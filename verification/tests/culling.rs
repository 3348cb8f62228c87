use schist_workspace::assets::Asset;
use schist_workspace::culling::{
    badge, culling_filter, culling_patch, culling_value, set_culling_filter, shortcut, ColourLabel, CullEdit,
    CullFilter, CullFlag, Filters, PatchValue, PhotoCulling,
};

#[test]
fn culling_filter_reset_preserves_other_cloud_search_constraints() {
    let mut filters = Filters {
        person_id: Some("person".into()),
        tags: Some(vec!["holiday".into()]),
        captured_after: Some(100),
        edited: Some(true),
        ..Default::default()
    };
    let original = filters.clone();
    let selection = CullFilter { minimum_rating: 4, flag: Some(CullFlag::Pick), label: Some(ColourLabel::Blue) };
    set_culling_filter(&mut filters, selection);
    assert_eq!(culling_filter(&filters), selection);
    assert_eq!(filters.min_rating, Some(4));
    assert_eq!(filters.flag.as_deref(), Some("pick"));
    assert_eq!(filters.label.as_deref(), Some("blue"));
    set_culling_filter(&mut filters, CullFilter::default());
    assert_eq!(filters, original);
}

#[test]
fn culling_filter_distinguishes_no_label_or_flag_from_all_photos() {
    let selection = CullFilter { flag: Some(CullFlag::NoFlag), label: Some(ColourLabel::NoLabel), ..Default::default() };
    let mut filters = Filters::default();
    set_culling_filter(&mut filters, selection);
    assert_eq!(filters.flag.as_deref(), Some("none"));
    assert_eq!(filters.label.as_deref(), Some("none"));
    assert_eq!(culling_filter(&filters), selection);
    assert!(culling_filter(&filters).matches(PhotoCulling::default()));
    assert!(!culling_filter(&filters).matches(PhotoCulling { label: ColourLabel::Red, ..Default::default() }));
}

#[test]
fn culling_shared_shortcuts_produce_compatible_cloud_patches() {
    for (key, field, expected) in [
        ("0", "rating", PatchValue::Number(0)),
        ("5", "rating", PatchValue::Number(5)),
        ("p", "flag", PatchValue::Text("pick")),
        ("x", "flag", PatchValue::Text("reject")),
        ("u", "flag", PatchValue::Text("none")),
        ("6", "label", PatchValue::Text("red")),
        ("7", "label", PatchValue::Text("yellow")),
        ("8", "label", PatchValue::Text("green")),
        ("9", "label", PatchValue::Text("blue")),
        ("m", "label", PatchValue::Text("magenta")),
        ("l", "label", PatchValue::Text("none")),
    ] {
        assert_eq!(culling_patch(shortcut(key).unwrap()), (field, expected));
    }
    assert!(shortcut("a").is_none());
}

#[test]
fn culling_cloud_metadata_drives_the_shared_badge_and_selection() {
    let mut asset = Asset {
        id: "photo".into(),
        name: "photo.jpg".into(),
        revision: 1,
        thumbnail_url: None,
        rating: 0,
        flag: String::new(),
        label: String::new(),
        mime_type: "image/jpeg".to_string(),
        metadata_revision: 0,
    };
    assert_eq!(culling_value(&asset), PhotoCulling::default());
    assert!(badge(&asset).is_none());
    asset.label = "blue".into();
    assert_eq!(culling_value(&asset).label, ColourLabel::Blue);
    assert!(badge(&asset).is_some());
    asset.rating = 4;
    asset.flag = "pick".into();
    assert_eq!(culling_value(&asset), PhotoCulling { rating: 4, flag: CullFlag::Pick, label: ColourLabel::Blue });
}

#[test]
fn culling_shortcuts_distinguish_ratings_flags_and_labels() {
    assert_eq!(shortcut("5"), Some(CullEdit::Rating(5)));
    assert_eq!(shortcut("x"), Some(CullEdit::Flag(CullFlag::Reject)));
    assert_eq!(shortcut("u"), Some(CullEdit::Flag(CullFlag::NoFlag)));
    assert_eq!(shortcut("9"), Some(CullEdit::Label(ColourLabel::Blue)));
    assert_eq!(shortcut("l"), Some(CullEdit::Label(ColourLabel::NoLabel)));
    assert_eq!(shortcut("50"), None);
}

#[test]
fn culling_ratings_above_five_count_as_five_and_unknown_keys_as_none() {
    let asset = Asset {
        id: "p".into(),
        name: "p".into(),
        revision: 1,
        thumbnail_url: None,
        rating: 9,
        flag: "maybe".into(),
        label: "purple".into(),
        mime_type: "image/jpeg".into(),
        metadata_revision: 0,
    };
    assert_eq!(
        culling_value(&asset),
        PhotoCulling { rating: 5, flag: CullFlag::NoFlag, label: ColourLabel::NoLabel }
    );
}

#[test]
fn a_rating_or_flag_alone_shows_the_badge() {
    let mut asset = Asset {
        id: "photo".into(),
        name: "photo.jpg".into(),
        revision: 1,
        thumbnail_url: None,
        rating: 9,
        flag: String::new(),
        label: String::new(),
        mime_type: "image/jpeg".to_string(),
        metadata_revision: 0,
    };
    assert_eq!(badge(&asset), Some(PhotoCulling { rating: 5, flag: CullFlag::NoFlag, label: ColourLabel::NoLabel }));
    asset.rating = 0;
    asset.flag = "reject".into();
    assert_eq!(badge(&asset), Some(PhotoCulling { rating: 0, flag: CullFlag::Reject, label: ColourLabel::NoLabel }));
}
