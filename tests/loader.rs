use img_dedup::{select_paths, LoadOutcome, LoadTally, NameFilter};

#[test]
fn filter_compiles_and_matches() {
    let f = NameFilter::new(r"\.png$").ok().unwrap();
    assert_eq!(f.as_str(), r"\.png$");
    assert!(f.is_match("dir/a.png"));
    assert!(!f.is_match("dir/a.jpg"));
    let any = NameFilter::new(".*").ok().unwrap();
    assert!(any.is_match(""));
}

#[test]
fn invalid_filter_is_rejected() {
    match NameFilter::new("(unclosed") {
        Err(e) => assert_eq!(e.pattern, "(unclosed"),
        Ok(_) => panic!("pattern should not compile"),
    }
}

#[test]
fn selection_keeps_matching_paths_in_order() {
    let f = NameFilter::new(r"\.(png|jpg)$").ok().unwrap();
    let paths = vec![
        "d/b.jpg".to_string(),
        "d/notes.txt".to_string(),
        "d/a.png".to_string(),
        "d/c.gif".to_string(),
    ];
    assert_eq!(select_paths(paths, &f), vec!["d/b.jpg".to_string(), "d/a.png".to_string()]);
    assert!(select_paths(vec![], &f).is_empty());
}

#[test]
fn tally_counts_published_and_skipped() {
    let mut t = LoadTally::new();
    let outcomes = [
        LoadOutcome::Published,
        LoadOutcome::DecodeFailed,
        LoadOutcome::Published,
        LoadOutcome::Published,
        LoadOutcome::DecodeFailed,
    ];
    for o in outcomes {
        assert!(t.record(o));
    }
    assert_eq!(t, LoadTally { published: 3, skipped: 2, stopped: false });
}

#[test]
fn tally_stops_on_disconnect() {
    let mut t = LoadTally::new();
    assert!(t.record(LoadOutcome::Published));
    assert!(!t.record(LoadOutcome::Disconnected));
    assert!(!t.record(LoadOutcome::Published));
    assert!(!t.record(LoadOutcome::DecodeFailed));
    assert_eq!(t, LoadTally { published: 1, skipped: 0, stopped: true });
}

#[test]
fn empty_directory_loads_nothing() {
    let f = NameFilter::new(".*").ok().unwrap();
    assert!(select_paths(vec![], &f).is_empty());
    let t = LoadTally::new();
    assert_eq!(t, LoadTally { published: 0, skipped: 0, stopped: false });
}
