use suisei_core::lang::Lang;
use suisei_core::logic::{
    call_target, collapse, contains_word, expand, grammar_for, graph_at, incoming, is_statement, outline, row_at,
    runtime, values_on, EdgeLabel, LogicKind, LogicRow, LogicTree,
};
use suisei_core::syntax::{SyntaxNode, SyntaxTree};

fn node(kind: &str, start: usize, end: usize, rows: (usize, usize), children: Vec<usize>, fields: Vec<(&str, usize)>) -> SyntaxNode {
    SyntaxNode {
        kind: kind.to_string(),
        named: true,
        is_error: false,
        start,
        end,
        start_row: rows.0,
        end_row: rows.1,
        children,
        fields: fields.into_iter().map(|(f, c)| (f.to_string(), c)).collect(),
        parent: None,
    }
}

/// Number the parents from the children lists.
fn linked(mut nodes: Vec<SyntaxNode>) -> SyntaxTree {
    for i in 0..nodes.len() {
        for k in 0..nodes[i].children.len() {
            let c = nodes[i].children[k];
            nodes[c].parent = Some(i);
        }
    }
    SyntaxTree { nodes }
}

/// `fn f() {\n    let a = 1;\n    a\n}`
fn small() -> (SyntaxTree, Vec<char>) {
    let src: Vec<char> = "fn f() {\n    let a = 1;\n    a\n}".chars().collect();
    let t = linked(vec![
            node("source_file", 0, 31, (0, 3), vec![1], vec![]),
            node("function_item", 0, 31, (0, 3), vec![2, 3], vec![("name", 2), ("body", 3)]),
            node("identifier", 3, 4, (0, 0), vec![], vec![]),
            node("block", 7, 31, (0, 3), vec![4, 5], vec![]),
            node("let_declaration", 13, 23, (1, 1), vec![], vec![]),
            node("identifier", 28, 29, (2, 2), vec![], vec![]),
        ]);
    (t, src)
}

fn row(label: &str, start: usize, end: usize, depth: usize) -> LogicRow {
    LogicRow {
        kind: LogicKind::Process,
        label: label.to_string(),
        start_row: start,
        end_row: end,
        depth,
        expandable: false,
        expanded: false,
        edge: EdgeLabel::Next,
        target_row: None,
    }
}

#[test]
fn whole_words_only() {
    assert!(contains_word("count += 1", "count"));
    assert!(!contains_word("account += 1", "count"));
    assert!(contains_word("x = account + count", "count"));
    assert!(!contains_word("counted", "count"));
    assert!(!contains_word("anything", ""));
    assert!(!contains_word("한count", "count"), "a non-ASCII neighbour is part of the word");
    let vals = [("count", "3"), ("acc", "1"), ("x", "9")];
    assert_eq!(values_on("let x = count;", &vals), vec![("count", "3"), ("x", "9")]);
}

#[test]
fn calls_resolve_by_unique_name() {
    let fns = vec![("helper".to_string(), 10), ("new".to_string(), 20), ("new".to_string(), 30)];
    assert_eq!(call_target("let a = helper(3);", &fns), Some(10));
    assert_eq!(call_target("self.helper()", &fns), Some(10));
    assert_eq!(call_target("Foo::new()", &fns), None, "ambiguous");
    assert_eq!(call_target("(a + b)", &fns), None);
    assert_eq!(call_target("no call here", &fns), None);
}

#[test]
fn statements_by_name() {
    assert!(is_statement("let_declaration"));
    assert!(is_statement("if_statement"));
    assert!(is_statement("function_item"));
    assert!(!is_statement("identifier"));
    assert!(grammar_for(Lang::Rust).unwrap().tail_is_return);
    assert!(!grammar_for(Lang::Python).unwrap().tail_is_return);
    assert!(grammar_for(Lang::Json).is_none());
}

#[test]
fn rows_nest_and_collapse() {
    let mut t = LogicTree { rows: vec![row("f", 0, 10, 0), row("if", 2, 6, 1), row("step", 3, 3, 2), row("g", 12, 20, 0)] };
    t.rows[0].expanded = true;
    assert_eq!(row_at(&t, 3), Some(2));
    assert_eq!(row_at(&t, 8), Some(0));
    assert_eq!(row_at(&t, 11), None);
    let rt = runtime(&t, Some(3), &[15, 4, 15]);
    assert_eq!(rt.stopped, Some(2));
    assert_eq!(rt.enclosing, vec![0, 1]);
    assert_eq!(rt.callers, vec![3, 1]);
    assert!(collapse(&mut t, 0));
    assert_eq!(t.rows.len(), 2);
    assert!(!t.rows[0].expanded);
    assert!(!collapse(&mut t, 0));
    assert!(!collapse(&mut t, 9));
}

#[test]
fn a_rust_tail_is_the_return() {
    let (t, src) = small();
    let g = graph_at(&t, &src, Lang::Rust, 1).expect("a function holds row 1");
    assert_eq!(g.name, "f");
    assert_eq!(g.nodes.len(), 3);
    assert_eq!(g.nodes[0].kind, LogicKind::Entry);
    assert_eq!(g.nodes[0].label, "Start");
    assert_eq!(g.nodes[1].kind, LogicKind::Process);
    assert_eq!(g.nodes[1].label, "let a = 1;");
    assert_eq!(g.nodes[2].kind, LogicKind::Exit);
    assert_eq!(g.nodes[2].label, "a");
    assert_eq!(g.edges.len(), 2);
    assert_eq!((g.edges[0].from, g.edges[0].to), (0, 1));
    assert_eq!((g.edges[1].from, g.edges[1].to), (1, 2));
    assert_eq!(incoming(&g, 2), EdgeLabel::Next);
    assert!(graph_at(&t, &src, Lang::Rust, 9).is_none());
    assert!(graph_at(&t, &src, Lang::Markdown, 1).is_none());
}

#[test]
fn the_outline_opens_one_function() {
    let (t, src) = small();
    let mut o = outline(&t, &src, Lang::Rust).expect("rust has a table");
    assert_eq!(o.rows.len(), 1);
    assert_eq!(o.rows[0].label, "f");
    assert!(o.rows[0].expandable && !o.rows[0].expanded);
    assert!(expand(&mut o, 0, &t, &src, Lang::Rust));
    assert_eq!(o.rows.len(), 3);
    assert!(o.rows[0].expanded);
    assert_eq!(o.rows[1].label, "let a = 1;");
    assert_eq!(o.rows[1].depth, 1);
    assert_eq!(o.rows[2].kind, LogicKind::Exit);
    assert!(!expand(&mut o, 0, &t, &src, Lang::Rust), "already open");
    assert!(collapse(&mut o, 0));
    assert_eq!(o.rows.len(), 1);
}
