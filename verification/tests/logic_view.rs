use suisei_core::logic::LogicRuntime;
use suisei_core::logic_view::{LogicMark, LogicSession, LogicViews, Parse};
use suisei_core::syntax::{SyntaxNode, SyntaxTree};

fn node(kind: &str, start: usize, end: usize, rows: (usize, usize), children: Vec<usize>, fields: Vec<(&str, usize)>) -> SyntaxNode {
    SyntaxNode {
        kind: kind.to_string(),
        named: true,
        is_error: false,
        start,
        end,
        start_row: rows.0,
        end_row: rows.1,
        children,
        fields: fields.into_iter().map(|(f, c)| (f.to_string(), c)).collect(),
        parent: None,
    }
}

fn linked(mut nodes: Vec<SyntaxNode>) -> SyntaxTree {
    for i in 0..nodes.len() {
        for k in 0..nodes[i].children.len() {
            let c = nodes[i].children[k];
            nodes[c].parent = Some(i);
        }
    }
    SyntaxTree { nodes }
}

const TEXT: &str = "fn f() {\n    let a = 1;\n    a\n}";

/// `fn f() {\n    let a = 1;\n    a\n}`
fn parsed() -> SyntaxTree {
    linked(vec![
        node("source_file", 0, 31, (0, 3), vec![1], vec![]),
        node("function_item", 0, 31, (0, 3), vec![2, 3], vec![("name", 2), ("body", 3)]),
        node("identifier", 3, 4, (0, 0), vec![], vec![]),
        node("block", 7, 31, (0, 3), vec![4, 5], vec![]),
        node("let_declaration", 13, 23, (1, 1), vec![], vec![]),
        node("identifier", 28, 29, (2, 2), vec![], vec![]),
    ])
}

#[test]
fn a_session_outlines_the_functions() {
    let t = parsed();
    assert!(t.check());
    let s = LogicSession::open("src/x.rs", TEXT, Parse::Tree(t));
    assert_eq!(s.note, None);
    assert_eq!(s.rows().len(), 1);
    assert_eq!(s.rows()[0].label, "f");
    assert!(s.is_current(TEXT));
    assert!(!s.is_current("fn g() {}"));
    assert_eq!(s.selected_line(), Some(0));
    assert_eq!(s.guide_col(0, 4), Some(0));
    assert_eq!(s.guide_col(5, 4), None);
}

#[test]
fn nothing_to_show_says_why() {
    let s = LogicSession::open("notes.unknownext", TEXT, Parse::Failed);
    assert_eq!(s.note.as_deref(), Some("No logic table for .unknownext"));
    let s = LogicSession::open("Makefile", TEXT, Parse::Failed);
    assert_eq!(s.note.as_deref(), Some("No logic table for ."));
    let s = LogicSession::open("a.json", TEXT, Parse::Failed);
    assert_eq!(s.note.as_deref(), Some("JSON has no control flow to read"));
    let s = LogicSession::open("a.rs", TEXT, Parse::NoGrammar);
    assert_eq!(s.note.as_deref(), Some("Grammar unavailable"));
    let s = LogicSession::open("a.rs", TEXT, Parse::Failed);
    assert_eq!(s.note.as_deref(), Some("This file did not parse"));
    let empty = linked(vec![node("source_file", 0, 0, (0, 0), vec![], vec![])]);
    let s = LogicSession::open("a.rs", "", Parse::Tree(empty));
    assert_eq!(s.note.as_deref(), Some("No functions in this file"));
    assert!(s.rows().is_empty());
}

#[test]
fn toggle_opens_and_closes_a_function() {
    let mut s = LogicSession::open("a.rs", TEXT, Parse::Tree(parsed()));
    assert!(s.toggle(0));
    assert!(s.rows().len() > 1, "its steps are under it");
    assert!(s.rows()[0].expanded);
    assert!(s.toggle(0));
    assert_eq!(s.rows().len(), 1);
    assert!(!s.toggle(7), "no such row");
}

#[test]
fn the_caret_opens_the_function_it_is_in() {
    let mut s = LogicSession::open("a.rs", TEXT, Parse::Tree(parsed()));
    assert!(s.follow_caret(1));
    assert!(s.rows()[0].expanded);
    assert!(s.rows().len() > 1);
    assert_ne!(s.selected, 0, "the step on line 1 is selected");
    assert_eq!(s.rows()[s.selected].start_row, 1);
    assert!(!s.follow_source(1), "already there");
    assert!(s.follow_source(0));
    assert_eq!(s.selected, 0);
}

#[test]
fn marks_follow_the_selection_and_the_stop() {
    let mut s = LogicSession::open("a.rs", TEXT, Parse::Tree(parsed()));
    let none = LogicRuntime { stopped: None, enclosing: vec![], callers: vec![] };
    assert_eq!(
        s.marks(&none, true, 4),
        vec![LogicMark { start_row: 0, end_row: 3, col: 0, selected: true, runtime: false }]
    );
    s.toggle(0);
    let rt = LogicRuntime { stopped: Some(1), enclosing: vec![0, 1], callers: vec![] };
    let m = s.marks(&rt, true, 4);
    assert_eq!(m.len(), 2, "the function's entry gets no guide");
    assert!(m[1].runtime && !m[1].selected);
    assert_eq!(s.marks(&rt, false, 4).len(), 1, "a closed debugger panel takes the runtime marks");
}

#[test]
fn a_refresh_keeps_what_was_open() {
    let mut s = LogicSession::open("a.rs", TEXT, Parse::Tree(parsed()));
    s.toggle(0);
    let open_rows = s.rows().len();
    s.refresh(TEXT, Parse::Failed);
    assert_eq!(s.rows().len(), open_rows, "the same text rebuilds nothing");
    let text2 = "fn f() {\n    let a = 1;\n    a\n} ";
    s.refresh(text2, Parse::Tree(parsed()));
    assert!(s.is_current(text2));
    assert!(s.rows()[0].expanded, "opened again by name");
    assert_eq!(s.rows().len(), open_rows);
}

#[test]
fn views_keep_one_session_per_path() {
    let mut v = LogicViews::new();
    let a = v.get("a.rs", TEXT, Parse::Tree(parsed()));
    let b = v.get("b.rs", TEXT, Parse::Tree(parsed()));
    assert_ne!(a, b);
    assert_eq!(v.get("a.rs", TEXT, Parse::Failed), a);
    assert_eq!(v.sessions.len(), 2);
    assert!(v.peek("b.rs").is_some());
    v.forget("b.rs");
    assert!(v.peek("b.rs").is_none());
    for i in 0..10 {
        v.get(&format!("f{i}.rs"), TEXT, Parse::Failed);
    }
    assert_eq!(v.sessions.len(), 8, "the oldest go first");
    assert!(v.peek("a.rs").is_none());
}
