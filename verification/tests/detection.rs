use dupe_finder::extract::Matcher;
use dupe_finder::scan::ScanEntry;
use dupe_finder::scan::StringSet;
use dupe_finder::scan::build_master_index;
use dupe_finder::scan::detect_duplicates;
use dupe_finder::scan::run_detection;

fn file(path: &str, filename: &str) -> ScanEntry {
    ScanEntry { path: String::from(path), filename: String::from(filename), is_file: true }
}

fn directory(path: &str, filename: &str) -> ScanEntry {
    ScanEntry { path: String::from(path), filename: String::from(filename), is_file: false }
}

fn sorted_paths(s: &StringSet) -> Vec<String> {
    let mut v = s.to_vec();
    v.sort();
    v
}

#[test]
fn shared_identifier_collapses_to_one_index_entry() {
    let m = Matcher::new();
    let master = vec![
        file("/master/shutterstock_7.jpg", "shutterstock_7.jpg"),
        file("/master/shutterstock_7.png", "shutterstock_7.png"),
    ];
    let index = build_master_index(&m, &master);
    assert_eq!(index.len(), 1);
    assert!(index.contains(&String::from("7")));
}

#[test]
fn non_files_are_skipped_in_both_passes() {
    let m = Matcher::new();
    let master = vec![directory("/master/shutterstock_3", "shutterstock_3")];
    let index = build_master_index(&m, &master);
    assert_eq!(index.len(), 0);

    let master2 = vec![file("/master/shutterstock_3.jpg", "shutterstock_3.jpg")];
    let index2 = build_master_index(&m, &master2);
    let input = vec![directory("/in/shutterstock_3", "shutterstock_3")];
    let dups = detect_duplicates(&m, &index2, &input);
    assert_eq!(dups.len(), 0);
}

#[test]
fn duplicate_needs_identifier_in_master() {
    let m = Matcher::new();
    let master = vec![file("/master/shutterstock_8.jpg", "shutterstock_8.jpg")];
    let index = build_master_index(&m, &master);
    let input = vec![
        file("/in/shutterstock_8.tiff", "shutterstock_8.tiff"),
        file("/in/shutterstock_9.tiff", "shutterstock_9.tiff"),
        file("/in/photo.jpg", "photo.jpg"),
    ];
    let dups = detect_duplicates(&m, &index, &input);
    assert_eq!(dups.len(), 1);
    assert!(dups.contains(&String::from("/in/shutterstock_8.tiff")));
    assert!(!dups.contains(&String::from("/in/shutterstock_9.tiff")));
    assert!(!dups.contains(&String::from("/in/photo.jpg")));
}

#[test]
fn empty_master_yields_no_duplicates() {
    let m = Matcher::new();
    let master: Vec<ScanEntry> = Vec::new();
    let index = build_master_index(&m, &master);
    assert_eq!(index.len(), 0);
    let input = vec![file("/in/shutterstock_5.jpg", "shutterstock_5.jpg")];
    let dups = detect_duplicates(&m, &index, &input);
    assert_eq!(dups.len(), 0);
}

#[test]
fn unmatched_filename_never_a_duplicate() {
    let m = Matcher::new();
    let master = vec![
        file("/master/shutterstock_1.jpg", "shutterstock_1.jpg"),
        file("/master/photo.jpg", "photo.jpg"),
    ];
    let index = build_master_index(&m, &master);
    assert!(!index.contains(&String::from("photo.jpg")));
    let input = vec![file("/in/photo.jpg", "photo.jpg")];
    let dups = detect_duplicates(&m, &index, &input);
    assert_eq!(dups.len(), 0);
}

#[test]
fn duplicate_records_dedup_by_path() {
    let m = Matcher::new();
    let master = vec![file("/master/shutterstock_4.jpg", "shutterstock_4.jpg")];
    let index = build_master_index(&m, &master);
    let input = vec![
        file("/in/shutterstock_4.jpg", "shutterstock_4.jpg"),
        file("/in/shutterstock_4.jpg", "shutterstock_4.jpg"),
    ];
    let dups = detect_duplicates(&m, &index, &input);
    assert_eq!(dups.len(), 1);
}

#[test]
fn quiet_mode_changes_only_announcements() {
    let m = Matcher::new();
    let master = vec![
        file("/master/shutterstock_10.jpg", "shutterstock_10.jpg"),
        file("/master/shutterstock_11.jpg", "shutterstock_11.jpg"),
    ];
    let index = build_master_index(&m, &master);
    let input = vec![
        file("/in/shutterstock_10.png", "shutterstock_10.png"),
        file("/in/other.png", "other.png"),
        file("/in/shutterstock_11.png", "shutterstock_11.png"),
    ];
    let loud = run_detection(&m, &index, &input, false);
    let quiet = run_detection(&m, &index, &input, true);
    assert_eq!(sorted_paths(&loud.duplicates), sorted_paths(&quiet.duplicates));
    assert_eq!(loud.duplicates.len(), 2);
    assert_eq!(quiet.duplicates.len(), 2);
    assert_eq!(
        loud.announcements,
        vec![String::from("/in/shutterstock_10.png"), String::from("/in/shutterstock_11.png")]
    );
    assert!(quiet.announcements.is_empty());
}

#[test]
fn announcements_repeat_while_records_dedup() {
    let m = Matcher::new();
    let master = vec![file("/master/shutterstock_6.jpg", "shutterstock_6.jpg")];
    let index = build_master_index(&m, &master);
    let input = vec![
        file("/in/shutterstock_6.jpg", "shutterstock_6.jpg"),
        file("/in/shutterstock_6.jpg", "shutterstock_6.jpg"),
    ];
    let d = run_detection(&m, &index, &input, false);
    assert_eq!(d.duplicates.len(), 1);
    assert_eq!(d.announcements.len(), 2);
}

#[test]
fn string_set_insert_and_membership() {
    let mut s = StringSet::new();
    assert_eq!(s.len(), 0);
    s.insert(String::from("007"));
    s.insert(String::from("7"));
    s.insert(String::from("007"));
    assert_eq!(s.len(), 2);
    assert!(s.contains(&String::from("007")));
    assert!(s.contains(&String::from("7")));
    assert!(!s.contains(&String::from("70")));
}
