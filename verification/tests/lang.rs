use suisei_core::config::Keybindings;
use suisei_core::lang::{query_layers, Lang, QueryLayer};
use suisei_core::scope::{ScopeLang, SymbolKind};

#[test]
fn languages_by_extension() {
    assert_eq!(Lang::from_ext("rs"), Some(Lang::Rust));
    assert_eq!(Lang::from_ext("py"), Some(Lang::Python));
    assert_eq!(Lang::from_ext("md"), Some(Lang::Markdown));
    assert_eq!(Lang::from_ext("wat"), None);
    assert_eq!(Lang::Rust.name(), "Rust");
    assert!(!Lang::Markdown.auto_indents());
    assert!(Lang::Python.auto_indents());
    assert_eq!(Lang::Rust.scope(), Some(ScopeLang::Rust));
    assert_eq!(Lang::Markdown.scope(), None);
    for l in Lang::all() {
        for e in l.extensions() {
            assert!(Lang::from_ext(e).is_some(), "{e} is claimed");
        }
    }
}

#[test]
fn scope_languages_and_kinds() {
    assert_eq!(ScopeLang::from_ext("rs"), Some(ScopeLang::Rust));
    assert_eq!(ScopeLang::from_ext("json"), None);
    assert!(ScopeLang::Rust.is_scope("block"));
    assert!(!ScopeLang::Rust.is_scope("identifier"));
    assert!(!ScopeLang::Rust.rules().is_empty());
    assert_eq!(SymbolKind::Function.detail(), "fn");
}

#[test]
fn keybindings_map() {
    let mut k = Keybindings::new();
    assert!(k.is_empty());
    k.insert("save".to_string(), "Ctrl+S".to_string());
    k.insert("save".to_string(), "Cmd+S".to_string());
    k.insert("quit".to_string(), "Ctrl+Q".to_string());
    assert_eq!(k.len(), 2);
    assert_eq!(k.get("save").map(|s| s.as_str()), Some("Cmd+S"));
    k.remove("save");
    assert_eq!(k.get("save"), None);
    assert_eq!(k.len(), 1);
    k.clear();
    assert!(k.is_empty());
}

#[test]
fn overlay_queries_come_after_their_base() {
    assert_eq!(query_layers(Lang::TypeScript), vec![QueryLayer::JavaScript, QueryLayer::TypeScript]);
    assert_eq!(
        query_layers(Lang::Tsx),
        vec![QueryLayer::JavaScript, QueryLayer::Jsx, QueryLayer::TypeScript]
    );
    assert_eq!(query_layers(Lang::Cpp), vec![QueryLayer::C, QueryLayer::Cpp]);
    assert_eq!(query_layers(Lang::ObjC), vec![QueryLayer::ObjC, QueryLayer::ObjCCommentsAndStrings]);
    assert_eq!(query_layers(Lang::Rust), vec![QueryLayer::Rust]);
}

#[test]
fn every_listed_extension_maps_back_to_its_language() {
    for l in Lang::all() {
        for e in l.extensions() {
            assert_eq!(Lang::from_ext(e), Some(l), "{e}");
            assert_eq!(e, e.to_lowercase());
            assert!(!e.starts_with('.'));
        }
    }
    assert_eq!(Lang::from_ext("rs"), Some(Lang::Rust));
    assert_eq!(Lang::from_ext("h"), Some(Lang::C));
    assert_eq!(Lang::from_ext("lhs"), None);
}

#[test]
fn composed_queries_put_the_overlay_last() {
    let (_, ts) = Lang::TypeScript.grammar().unwrap();
    let js = tree_sitter_javascript::HIGHLIGHT_QUERY;
    let tso = tree_sitter_typescript::HIGHLIGHTS_QUERY;
    assert_eq!(ts, format!("{js}\n{tso}"));
    let (_, objc) = Lang::ObjC.grammar().unwrap();
    assert!(objc.ends_with("(comment) @comment\n(string_literal) @string\n"));
    let (_, rust) = Lang::Rust.grammar().unwrap();
    assert_eq!(rust, tree_sitter_rust::HIGHLIGHTS_QUERY);
    assert!(Lang::Scala.grammar().is_none());
}

#[test]
fn every_linked_grammar_loads_with_its_query() {
    for l in Lang::all() {
        if let Some((language, query)) = l.grammar() {
            let mut p = tree_sitter::Parser::new();
            assert!(p.set_language(&language).is_ok(), "{l:?}");
            assert!(tree_sitter::Query::new(&language, &query).is_ok(), "{l:?}");
        }
    }
}

#[test]
fn extensions_are_bare_lowercase_and_map_back() {
    for l in Lang::all() {
        for e in l.extensions() {
            assert!(!e.is_empty() && !e.starts_with('.'));
            assert_eq!(e, e.to_lowercase());
            assert_eq!(Lang::from_ext(e), Some(l));
        }
    }
    assert_eq!(Lang::from_ext("rs"), Some(Lang::Rust));
    assert_eq!(Lang::from_ext("h"), Some(Lang::C));
    assert_eq!(Lang::from_ext("lhs"), None);
}
