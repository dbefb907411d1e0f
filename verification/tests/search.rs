use suisei_core::position::Position;
use suisei_core::search::SearchState;

fn lines(v: &[&str]) -> Vec<String> {
    v.iter().map(|s| s.to_string()).collect()
}

#[test]
fn collect_is_smart_case_and_overlapping() {
    let text = lines(&["Foo foo foo", "nothing", "fooFOO"]);
    let m = SearchState::collect(&text, "foo");
    assert_eq!(m.len(), 5, "Foo + foo + foo on row 0, foo + FOO-part on row 2");
    assert_eq!(m[0], Position::new(0, 0));
    let m = SearchState::collect(&text, "Foo");
    assert_eq!(m, vec![Position::new(0, 0)]);
    let m = SearchState::collect(&lines(&["aaa"]), "aa");
    assert_eq!(m, vec![Position::new(0, 0), Position::new(0, 1)]);
}

#[test]
fn step_wraps_and_reports_the_wrap() {
    let mut s = SearchState::default();
    s.matches = vec![Position::new(0, 0), Position::new(1, 0), Position::new(2, 0)];
    let (idx, wrapped) = s.step(Position::new(1, 0), true).unwrap();
    assert_eq!((idx, wrapped), (2, false));
    let (idx, wrapped) = s.step(Position::new(2, 0), true).unwrap();
    assert_eq!((idx, wrapped), (0, true));
    let (idx, wrapped) = s.step(Position::new(0, 0), false).unwrap();
    assert_eq!((idx, wrapped), (2, true));
}

#[test]
fn nearest_respects_direction_and_inclusivity() {
    let mut s = SearchState::default();
    s.matches = vec![Position::new(0, 5), Position::new(1, 3)];
    assert_eq!(s.nearest(Position::new(0, 5), true), Some(0));
    assert_eq!(s.nearest(Position::new(0, 6), true), Some(1));
    assert_eq!(s.nearest(Position::new(1, 3), false), Some(1));
    assert_eq!(s.nearest(Position::new(1, 2), false), Some(0));
    assert_eq!(s.nearest(Position::new(9, 0), true), Some(0));
    s.matches.clear();
    assert_eq!(s.nearest(Position::new(0, 0), true), None);
}

#[test]
fn cancel_restores_the_pre_search_pattern() {
    let mut s = SearchState::default();
    s.pattern = Some("old".into());
    s.begin(true, Position::new(3, 4), 42);
    s.pattern = Some("new".into());
    let (origin, scroll, restored) = s.cancel();
    assert_eq!(origin, Some(Position::new(3, 4)));
    assert_eq!(scroll, 42);
    assert_eq!(restored.as_deref(), Some("old"));
    assert_eq!(s.pattern.as_deref(), Some("old"));
    assert!(s.input.is_empty() && s.matches.is_empty() && s.current == 0);
}

#[test]
fn cycle_walks_the_live_matches() {
    let mut s = SearchState::default();
    assert_eq!(s.cycle(true), None, "no matches, no cycle");
    s.matches = vec![Position::new(0, 0), Position::new(1, 0)];
    s.current = 0;
    assert_eq!(s.cycle(true), Some(Position::new(1, 0)));
    assert_eq!(s.cycle(true), Some(Position::new(0, 0)), "wraps forward");
    assert_eq!(s.cycle(false), Some(Position::new(1, 0)), "wraps backward");
}

#[test]
fn exact_search_counts_overlapping_matches() {
    let m = SearchState::collect(&lines(&["AAAA", "xAAx"]), "AA");
    assert_eq!(
        m,
        vec![Position::new(0, 0), Position::new(0, 1), Position::new(0, 2), Position::new(1, 1)]
    );
    assert!(SearchState::collect(&lines(&["abc"]), "").is_empty());
    let m = SearchState::collect(&lines(&["한글 한글"]), "글");
    assert_eq!(m, vec![Position::new(0, 1), Position::new(0, 4)]);
}

#[test]
fn row_slice_finds_the_matches_of_one_row() {
    let mut s = SearchState::default();
    s.matches = vec![
        Position::new(0, 1),
        Position::new(2, 0),
        Position::new(2, 4),
        Position::new(5, 0),
    ];
    let (first, on_row) = s.row_slice(2);
    assert_eq!(first, 1);
    assert_eq!(on_row, &[Position::new(2, 0), Position::new(2, 4)]);
    let (first, on_row) = s.row_slice(3);
    assert_eq!(first, 3);
    assert!(on_row.is_empty());
    s.current = 2;
    assert!(s.is_current_match(2, 4));
    assert!(!s.is_current_match(2, 0));
}

#[test]
fn active_pattern_follows_the_mode() {
    let mut s = SearchState::default();
    s.pattern = Some("héllo".into());
    assert_eq!(s.active_pattern(false), Some("héllo"));
    assert_eq!(s.pattern_len_chars(false), 5);
    assert_eq!(s.active_pattern(true), None);
    assert_eq!(s.pattern_len_chars(true), 0);
    s.input = "ab".into();
    assert_eq!(s.active_pattern(true), Some("ab"));
    s.begin(false, Position::new(1, 1), 3);
    assert!(s.input.is_empty());
    s.finish();
    assert_eq!(s.origin, None);
    assert_eq!(s.pattern.as_deref(), Some("héllo"));
}

#[test]
fn exact_case_matches_overlap_too() {
    let text = lines(&["AAA"]);
    assert_eq!(
        SearchState::collect(&text, "AA"),
        vec![Position::new(0, 0), Position::new(0, 1)]
    );
}
