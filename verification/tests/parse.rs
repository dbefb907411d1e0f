use suisei_core::lang::Lang;
use suisei_core::logic_view::{LogicSession, Parse};
use suisei_core::parse::{char_index, parse_text};

const TEXT: &str = "fn f() {\n    let a = 1;\n    a\n}";

#[test]
fn rust_text_parses_into_a_well_formed_tree() {
    match parse_text(Some(Lang::Rust), TEXT) {
        Parse::Tree(t) => {
            assert!(t.check());
            assert_eq!(t.nodes[0].kind, "source_file");
            assert_eq!((t.nodes[0].start, t.nodes[0].end), (0, 31));
            assert_eq!(t.nodes[0].parent, None);
            let f = t.nodes.iter().position(|n| n.kind == "function_item").unwrap();
            assert_eq!(t.nodes[f].parent, Some(0));
            assert!(t.nodes[f].fields.iter().any(|(name, c)| name == "name" && t.nodes[*c].kind == "identifier"));
            assert_eq!((t.nodes[f].start_row, t.nodes[f].end_row), (0, 3));
            for (i, n) in t.nodes.iter().enumerate() {
                for &c in &n.children {
                    assert!(c > i && t.nodes[c].parent == Some(i));
                }
            }
        }
        _ => panic!("expected a tree"),
    }
}

#[test]
fn ranges_count_characters() {
    assert_eq!(char_index("aé"), vec![0, 1, 1, 2]);
    assert_eq!(char_index(""), vec![0]);
    match parse_text(Some(Lang::Rust), "fn é() {}") {
        Parse::Tree(t) => assert_eq!(t.nodes[0].end, 9),
        _ => panic!("expected a tree"),
    }
}

#[test]
fn no_grammar_without_a_linked_language() {
    assert!(matches!(parse_text(None, "x"), Parse::NoGrammar));
    assert!(matches!(parse_text(Some(Lang::Scala), "object A"), Parse::NoGrammar));
    assert!(matches!(parse_text(Some(Lang::Python), "def f():\n    pass\n"), Parse::Tree(_)));
}

#[test]
fn a_session_parses_its_own_text() {
    let s = LogicSession::open_text("src/x.rs", TEXT);
    assert_eq!(s.note, None);
    assert_eq!(s.rows().len(), 1);
    assert_eq!(s.rows()[0].label, "f");
    let mut s = s;
    s.refresh_text("fn f() {}\nfn g() {}\n");
    assert_eq!(s.rows().len(), 2);
    assert_eq!(s.rows()[1].label, "g");
    let other = LogicSession::open_text("notes.unknownext", TEXT);
    assert!(other.note.is_some());
}
