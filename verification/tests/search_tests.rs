use oxide_explorer::search::{query_ready, result_location, results_text};
use oxide_explorer::search::{search_pattern, FileSearch, SearchNext, MAX_SEARCH_DEPTH};

#[test]
fn patterns_from_queries() {
    assert_eq!(search_pattern("*.txt", false, false), "(?i).*\\.txt");
    assert_eq!(search_pattern("a?c", false, true), "a.c");
    assert_eq!(search_pattern("^x$", true, true), "^x$");
    assert_eq!(search_pattern("a+b", false, true), "a\\+b");
}

#[test]
fn names_then_contents() {
    let mut s = FileSearch::new("*.rs", false, false, true).unwrap();
    assert!(!s.is_full());
    assert_eq!(s.offer_entry("/p/Main.RS", true), SearchNext::Recorded);
    assert_eq!(s.offer_entry("/p/notes.md", true), SearchNext::NeedContents);
    s.offer_contents("/p/notes.md", "see main.rs for details");
    assert_eq!(s.offer_entry("/p/dir", false), SearchNext::Skipped);
    s.offer_contents("/p/other.md", "nothing here");
    assert_eq!(s.into_results(), vec!["/p/Main.RS".to_string(), "/p/notes.md".to_string()]);
}

#[test]
fn without_contents_search_files_are_skipped() {
    let mut s = FileSearch::new("report", false, true, false).unwrap();
    assert_eq!(s.offer_entry("/x/Report.pdf", true), SearchNext::Skipped);
    assert_eq!(s.offer_entry("/x/report.pdf", true), SearchNext::Recorded);
}

#[test]
fn a_bad_regex_gives_no_search() {
    assert!(FileSearch::new("(", true, true, false).is_none());
    assert!(FileSearch::new("(", false, true, false).is_some());
}

#[test]
fn the_search_stops_at_five_hundred() {
    let mut s = FileSearch::new("x", false, true, false).unwrap();
    for i in 0..500 {
        assert!(!s.is_full());
        assert_eq!(s.offer_entry(&format!("/d/x{i}"), true), SearchNext::Recorded);
    }
    assert!(s.is_full());
}

#[test]
fn search_dialog_texts_and_targets() {
    assert!(!query_ready("a"));
    assert!(query_ready("ab"));
    // two bytes, one character
    assert!(query_ready("é"));
    assert_eq!(results_text(3), "3 result(s) found");
    assert_eq!(result_location("/d/f.txt", false).as_deref(), Some("/d"));
    assert_eq!(result_location("/d", true).as_deref(), Some("/d"));
    assert_eq!(result_location("/", false), None);
}

#[test]
fn search_holds_at_most_500_results() {
    let mut s = FileSearch::new("hit", false, true, true).unwrap();
    for i in 0..500 {
        assert_eq!(s.offer_entry(&format!("/d/hit{i}"), true), SearchNext::Recorded);
    }
    assert!(s.is_full());
    assert_eq!(s.offer_entry("/d/hit-more", true), SearchNext::Skipped);
    assert_eq!(s.offer_entry("/d/other", true), SearchNext::Skipped);
    s.offer_contents("/d/other", "hit");
    let results = s.into_results();
    assert_eq!(results.len(), 500);
    assert_eq!(results[499], "/d/hit499");
}

#[test]
fn search_looks_ten_levels_down() {
    assert_eq!(MAX_SEARCH_DEPTH, 10);
}
