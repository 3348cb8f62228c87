use schist_workspace::download_names::{archive_entry_names, decimal_chars, entry_name};

fn names(v: &[&str]) -> Vec<String> {
    v.iter().map(|s| s.to_string()).collect()
}

#[test]
fn download_archive_numbers_repeated_names_by_position() {
    let r = archive_entry_names(&names(&["a.jpg", "b.jpg", "a.jpg", "a.jpg"]));
    assert_eq!(r, ["a.jpg", "b.jpg", "3-a.jpg", "4-a.jpg"]);
    assert!(archive_entry_names(&Vec::new()).is_empty());
}

#[test]
fn download_names_number_taken_or_existing_files() {
    assert_eq!(entry_name(&names(&["x.png"]), 11, "x.png", false), "12-x.png");
    assert_eq!(entry_name(&names(&["y.png"]), 0, "x.png", false), "x.png");
    assert_eq!(entry_name(&Vec::new(), 0, "x.png", true), "1-x.png");
}

#[test]
fn download_positions_are_written_in_decimal() {
    let s: String = decimal_chars(0).into_iter().collect();
    assert_eq!(s, "0");
    let s: String = decimal_chars(1203).into_iter().collect();
    assert_eq!(s, "1203");
    let s: String = decimal_chars(u64::MAX).into_iter().collect();
    assert_eq!(s, u64::MAX.to_string());
}
