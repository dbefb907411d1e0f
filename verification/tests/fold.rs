use suisei_core::fold::{FoldRange, FoldState};

fn to_lines(v: &[&str]) -> Vec<String> {
    v.iter().map(|s| s.to_string()).collect()
}

#[test]
fn indent_fold_fn_body() {
    let lines = to_lines(&["fn main() {", "    let x = 1;", "    let y = 2;", "}"]);
    let mut f = FoldState::new();
    f.rebuild(&lines, 4);
    assert!(!f.ranges.is_empty());
    let r = f.fold_at(0).expect("fold on fn line");
    assert_eq!(r.start, 0);
    assert!(r.end >= 2);
    f.toggle(0);
    assert!(f.is_hidden(1));
    assert!(!f.is_hidden(0));
}

#[test]
fn close_all_open_all_updates_hidden_index() {
    let lines = to_lines(&["fn a() {", "    let x = 1;", "}", "fn b() {", "    let y = 2;", "}"]);
    let mut f = FoldState::new();
    f.rebuild(&lines, 4);
    f.close_all();
    assert!(f.is_hidden(1));
    assert!(f.is_hidden(4));
    assert!(!f.is_hidden(0));
    assert!(!f.is_hidden(3));
    f.open_all();
    assert!(!f.is_hidden(1));
    assert!(!f.is_hidden(4));
    f.close_at(0);
    assert!(f.is_hidden(1));
    f.open_at(0);
    assert!(!f.is_hidden(1));
}

#[test]
fn nested_folds_and_blank_lines() {
    let lines = to_lines(&[
        "impl A {",
        "    fn f() {",
        "",
        "\t\tx();",
        "    }",
        "}",
    ]);
    let mut f = FoldState::new();
    f.rebuild(&lines, 4);
    assert_eq!(f.ranges, vec![FoldRange { start: 0, end: 4 }, FoldRange { start: 1, end: 3 }]);
    assert_eq!(f.enclosing(3), vec![0, 1]);
    assert_eq!(f.enclosing(1), vec![0]);
    assert!(f.enclosing(5).is_empty());
    assert_eq!(f.toggle(2), Some("closed fold"));
    assert!(f.is_closed(1));
    assert_eq!(f.closed_count(1), 2);
    assert_eq!(f.next_visible(1), 4);
    assert_eq!(f.next_visible(0), 1);
    assert_eq!(f.toggle(1), Some("opened fold"));
    assert_eq!(f.toggle(5), None);
    assert!(!f.close_at(2));
    assert!(!f.open_at(2));
}

#[test]
fn rebuild_keeps_closed_headers_and_bumps_generation() {
    let mut f = FoldState::new();
    let g0 = f.generation();
    let lines = to_lines(&["a:", "  b", "c:", "  d"]);
    f.rebuild(&lines, 2);
    assert_ne!(f.generation(), g0);
    assert!(f.close_at(2));
    let g1 = f.generation();
    let lines = to_lines(&["x", "c:", "  d", "  e"]);
    f.rebuild(&lines, 2);
    assert_ne!(f.generation(), g1);
    assert!(!f.is_closed(2), "line 2 no longer heads a fold");
    let lines = to_lines(&["a:", "  b", "c:", "  d"]);
    f.rebuild(&lines, 2);
    assert!(f.close_at(2));
    f.rebuild(&lines, 2);
    assert!(f.is_closed(2));
    assert!(f.is_hidden(3));
    f.rebuild(&to_lines(&["only"]), 2);
    assert!(f.ranges.is_empty());
    assert!(!f.is_hidden(3));
    f.clear();
    assert!(f.fold_at(0).is_none());
}

#[test]
fn folds_lie_inside_the_text_under_non_blank_headers() {
    let lines = to_lines(&["def f():", "", "    a = 1", "", "    b = 2", "x = 3", "    y"]);
    let mut f = FoldState::new();
    f.rebuild(&lines, 4);
    assert!(!f.ranges.is_empty());
    for r in &f.ranges {
        assert!(r.start < r.end && r.end < lines.len());
        assert!(!lines[r.start].trim().is_empty());
    }
    assert_eq!(f.fold_at(0).map(|r| r.end), Some(4));
    let mut one = FoldState::new();
    one.rebuild(&to_lines(&["    only"]), 4);
    assert!(one.ranges.is_empty());
}
