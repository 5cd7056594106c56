use repomirror::metadata::{metadata_candidates, FetchLog};

#[test]
fn candidates_are_ordered_most_preferred_first() {
    let v = metadata_candidates();
    let names: Vec<&str> = v.iter().map(|s| s.as_str()).collect();
    assert_eq!(
        names,
        vec![
            "Packages",
            "Packages.xz",
            "Packages.gz",
            "Packages.bz2",
            "Packages.lzma"
        ]
    );
}

#[test]
fn last_success_wins() {
    // Only Packages.gz and Packages.bz2 succeed, in that attempt order:
    // the file selected for decoding is Packages.bz2.
    let mut log = FetchLog::new();
    log.record_success(String::from("Packages.gz"));
    log.record_success(String::from("Packages.bz2"));
    assert_eq!(log.selected().unwrap().as_str(), "Packages.bz2");
}

#[test]
fn single_success_is_selected() {
    let mut log = FetchLog::new();
    log.record_success(String::from("Packages.xz"));
    assert_eq!(log.selected().unwrap().as_str(), "Packages.xz");
}

#[test]
fn no_success_selects_nothing() {
    let log = FetchLog::new();
    assert!(log.selected().is_none());
}
