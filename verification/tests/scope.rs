use suisei_core::scope::{
    collect_global_symbols, visible_at, visible_at_cached, GlobalScopeCache, ScopeLang, ScopeSymbol, SymbolKind,
};
use suisei_core::syntax::{SyntaxNode, SyntaxTree};

struct Builder {
    src: String,
    nodes: Vec<SyntaxNode>,
}

impl Builder {
    fn new(src: &str) -> Self {
        Builder { src: src.to_string(), nodes: Vec::new() }
    }

    /// A node spanning the `nth` occurrence of `text`.
    fn add(&mut self, kind: &str, text: &str, nth: usize) -> usize {
        let mut from = 0;
        let mut start = 0;
        for _ in 0..=nth {
            start = from + self.src[from..].find(text).expect("text in source");
            from = start + 1;
        }
        self.nodes.push(SyntaxNode {
            kind: kind.to_string(),
            named: true,
            is_error: false,
            start,
            end: start + text.len(),
            start_row: 0,
            end_row: 0,
            children: Vec::new(),
            fields: Vec::new(),
            parent: None,
        });
        self.nodes.len() - 1
    }

    fn child(&mut self, parent: usize, child: usize, field: Option<&str>) {
        self.nodes[parent].children.push(child);
        if let Some(f) = field {
            self.nodes[parent].fields.push((f.to_string(), child));
        }
        self.nodes[child].parent = Some(parent);
    }

    fn done(self) -> (SyntaxTree, Vec<char>) {
        (SyntaxTree { nodes: self.nodes }, self.src.chars().collect())
    }
}

const TWO_FNS: &str = "fn helper() {\n    let inner = 1;\n}\nfn main(x: i32) {\n    let y = 2;\n    \n}";

/// `helper` with a local `inner`; `main` with a parameter `x: i32` and a
/// local `y`.
fn two_functions() -> (SyntaxTree, Vec<char>) {
    let mut b = Builder::new(TWO_FNS);
    let root = b.add("source_file", TWO_FNS, 0);
    let f1 = b.add("function_item", "fn helper() {\n    let inner = 1;\n}", 0);
    b.child(root, f1, None);
    let n1 = b.add("identifier", "helper", 0);
    b.child(f1, n1, Some("name"));
    let p1 = b.add("parameters", "()", 0);
    b.child(f1, p1, Some("parameters"));
    let body1 = b.add("block", "{\n    let inner = 1;\n}", 0);
    b.child(f1, body1, Some("body"));
    let let1 = b.add("let_declaration", "let inner = 1;", 0);
    b.child(body1, let1, None);
    let pat1 = b.add("identifier", "inner", 0);
    b.child(let1, pat1, Some("pattern"));
    let f2 = b.add("function_item", "fn main(x: i32) {\n    let y = 2;\n    \n}", 0);
    b.child(root, f2, None);
    let n2 = b.add("identifier", "main", 0);
    b.child(f2, n2, Some("name"));
    let p2 = b.add("parameters", "(x: i32)", 0);
    b.child(f2, p2, Some("parameters"));
    let param = b.add("parameter", "x: i32", 0);
    b.child(p2, param, None);
    let px = b.add("identifier", "x", 0);
    b.child(param, px, Some("pattern"));
    let pty = b.add("primitive_type", "i32", 0);
    b.child(param, pty, Some("type"));
    let body2 = b.add("block", "{\n    let y = 2;\n    \n}", 0);
    b.child(f2, body2, Some("body"));
    let let2 = b.add("let_declaration", "let y = 2;", 0);
    b.child(body2, let2, None);
    let py = b.add("identifier", "y", 0);
    b.child(let2, py, Some("pattern"));
    b.done()
}

fn names(v: &[ScopeSymbol]) -> Vec<&str> {
    v.iter().map(|s| s.name.as_str()).collect()
}

#[test]
fn locals_of_another_function_are_not_offered() {
    let (t, src) = two_functions();
    let caret = TWO_FNS.find("\n    \n}").unwrap() + 5;
    let v = visible_at(&t, &src, caret, ScopeLang::Rust);
    assert_eq!(names(&v), vec!["y", "x", "helper", "main"]);
    assert_eq!(v[0].kind, SymbolKind::Variable);
    assert_eq!(v[0].depth, 0);
    assert!(!v[0].global);
    assert_eq!(v[1].kind, SymbolKind::Parameter);
    assert_eq!(v[1].ty.as_deref(), Some("i32"));
    assert_eq!(v[1].depth, 1);
    assert_eq!(v[2].kind, SymbolKind::Function);
    assert!(v[2].global && v[3].global);
    assert_eq!(v[2].depth, 2);
}

#[test]
fn file_level_items_are_offered_everywhere() {
    let (t, src) = two_functions();
    let caret = TWO_FNS.find("inner").unwrap() + 2;
    let v = visible_at(&t, &src, caret, ScopeLang::Rust);
    assert_eq!(names(&v), vec!["inner", "helper", "main"]);
    let at_start = visible_at(&t, &src, 0, ScopeLang::Rust);
    assert_eq!(names(&at_start), vec!["helper", "main"]);
    // Past the end the caret is clamped to it, and the character before it
    // is the brace that closes `main`: its body's bindings are offered.
    let past_end = visible_at(&t, &src, 10_000, ScopeLang::Rust);
    assert_eq!(names(&past_end), vec!["y", "x", "helper", "main"]);
}

#[test]
fn global_symbols_are_the_file_scope() {
    let (t, src) = two_functions();
    let g = collect_global_symbols(&t, &src, ScopeLang::Rust);
    assert_eq!(g.len(), 2);
    assert_eq!(g[0], ("helper".to_string(), SymbolKind::Function, None));
    assert_eq!(g[1], ("main".to_string(), SymbolKind::Function, None));
}

#[test]
fn nearer_binding_shadows_the_outer_one() {
    let src = "fn y() {}\nfn f() {\n    let y: u8 = 1;\n    \n}";
    let mut b = Builder::new(src);
    let root = b.add("source_file", src, 0);
    let f1 = b.add("function_item", "fn y() {}", 0);
    b.child(root, f1, None);
    let n1 = b.add("identifier", "y", 0);
    b.child(f1, n1, Some("name"));
    let f2 = b.add("function_item", "fn f() {\n    let y: u8 = 1;\n    \n}", 0);
    b.child(root, f2, None);
    let n2 = b.add("identifier", "f", 2);
    b.child(f2, n2, Some("name"));
    let body = b.add("block", "{\n    let y: u8 = 1;\n    \n}", 0);
    b.child(f2, body, Some("body"));
    let l = b.add("let_declaration", "let y: u8 = 1;", 0);
    b.child(body, l, None);
    let p = b.add("identifier", "y", 1);
    b.child(l, p, Some("pattern"));
    let ty = b.add("primitive_type", "u8", 0);
    b.child(l, ty, Some("type"));
    let (t, chars) = b.done();
    let caret = src.find("\n    \n}").unwrap() + 5;
    let v = visible_at(&t, &chars, caret, ScopeLang::Rust);
    assert_eq!(names(&v), vec!["y", "f"]);
    assert_eq!(v[0].kind, SymbolKind::Variable);
    assert_eq!(v[0].ty.as_deref(), Some("u8"));
    assert_eq!(v[0].detail(), "u8");
    assert_eq!(v[1].detail(), "fn");
}

#[test]
fn a_receiver_makes_a_method() {
    let src = "impl S {\n    fn get(&self) {}\n    fn new() {}\n}";
    let mut b = Builder::new(src);
    let root = b.add("source_file", src, 0);
    let imp = b.add("impl_item", src, 0);
    b.child(root, imp, None);
    let list = b.add("declaration_list", "{\n    fn get(&self) {}\n    fn new() {}\n}", 0);
    b.child(imp, list, Some("body"));
    let g = b.add("function_item", "fn get(&self) {}", 0);
    b.child(list, g, None);
    let gn = b.add("identifier", "get", 0);
    b.child(g, gn, Some("name"));
    let gp = b.add("parameters", "(&self)", 0);
    b.child(g, gp, Some("parameters"));
    let sp = b.add("self_parameter", "&self", 0);
    b.child(gp, sp, None);
    let n = b.add("function_item", "fn new() {}", 0);
    b.child(list, n, None);
    let nn = b.add("identifier", "new", 0);
    b.child(n, nn, Some("name"));
    let np = b.add("parameters", "()", 0);
    b.child(n, np, Some("parameters"));
    let (t, chars) = b.done();
    let caret = src.find("fn new").unwrap();
    let v = visible_at(&t, &chars, caret, ScopeLang::Rust);
    assert_eq!(names(&v), vec!["get", "new"]);
    assert_eq!(v[0].kind, SymbolKind::Method);
    assert_eq!(v[1].kind, SymbolKind::Function);
    assert_eq!(v[0].depth, 1);
}

#[test]
fn typescript_annotation_loses_its_colon() {
    let src = "function f(a: number) {\n  \n}";
    let mut b = Builder::new(src);
    let root = b.add("program", src, 0);
    let f = b.add("function_declaration", src, 0);
    b.child(root, f, None);
    let name = b.add("identifier", "f", 1);
    b.child(f, name, Some("name"));
    let params = b.add("formal_parameters", "(a: number)", 0);
    b.child(f, params, Some("parameters"));
    let req = b.add("required_parameter", "a: number", 0);
    b.child(params, req, None);
    let a = b.add("identifier", "a", 0);
    b.child(req, a, Some("pattern"));
    let ann = b.add("type_annotation", ": number", 0);
    b.child(req, ann, Some("type"));
    let body = b.add("statement_block", "{\n  \n}", 0);
    b.child(f, body, Some("body"));
    let (t, chars) = b.done();
    let caret = src.find("\n  \n").unwrap() + 3;
    let v = visible_at(&t, &chars, caret, ScopeLang::TypeScript);
    assert_eq!(names(&v), vec!["a", "f"]);
    assert_eq!(v[0].kind, SymbolKind::Parameter);
    assert_eq!(v[0].ty.as_deref(), Some("number"));
    assert_eq!(v[0].depth, 1);
}

#[test]
fn c_declarators_unwrap_to_the_name() {
    let src = "int *table[3], count;";
    let mut b = Builder::new(src);
    let root = b.add("translation_unit", src, 0);
    let decl = b.add("declaration", src, 0);
    b.child(root, decl, None);
    let ty = b.add("primitive_type", "int", 0);
    b.child(decl, ty, Some("type"));
    let ptr = b.add("pointer_declarator", "*table[3]", 0);
    b.child(decl, ptr, Some("declarator"));
    let arr = b.add("array_declarator", "table[3]", 0);
    b.child(ptr, arr, Some("declarator"));
    let id = b.add("identifier", "table", 0);
    b.child(arr, id, Some("declarator"));
    let count = b.add("identifier", "count", 0);
    b.child(decl, count, Some("declarator"));
    let (t, chars) = b.done();
    let g = collect_global_symbols(&t, &chars, ScopeLang::C);
    assert_eq!(g.len(), 2);
    assert_eq!(g[0], ("table".to_string(), SymbolKind::Variable, Some("int".to_string())));
    assert_eq!(g[1], ("count".to_string(), SymbolKind::Variable, Some("int".to_string())));
}

#[test]
fn a_long_type_is_not_shown() {
    let long = "HashMap<String, Vec<(usize, usize, usize, usize)>>";
    let src = format!("fn f(m: {}) {{}}", long);
    let mut b = Builder::new(&src);
    let root = b.add("source_file", &src, 0);
    let f = b.add("function_item", &src, 0);
    b.child(root, f, None);
    let name = b.add("identifier", "f", 1);
    b.child(f, name, Some("name"));
    let params = b.add("parameters", &format!("(m: {})", long), 0);
    b.child(f, params, Some("parameters"));
    let p = b.add("parameter", &format!("m: {}", long), 0);
    b.child(params, p, None);
    let m = b.add("identifier", "m", 0);
    b.child(p, m, Some("pattern"));
    let ty = b.add("generic_type", long, 0);
    b.child(p, ty, Some("type"));
    let (t, chars) = b.done();
    let caret = src.find("m:").unwrap();
    let v = visible_at(&t, &chars, caret, ScopeLang::Rust);
    assert_eq!(names(&v), vec!["m", "f"]);
    assert_eq!(v[0].ty, None);
    assert_eq!(v[0].detail(), "param");
}

#[test]
fn the_cache_answers_as_the_walk() {
    let (t, src) = two_functions();
    let caret = TWO_FNS.find("\n    \n}").unwrap() + 5;
    let mut cache = GlobalScopeCache::default();
    let first = visible_at_cached(&t, &src, caret, ScopeLang::Rust, &mut cache, 7);
    let second = visible_at_cached(&t, &src, caret, ScopeLang::Rust, &mut cache, 7);
    let plain = visible_at(&t, &src, caret, ScopeLang::Rust);
    assert_eq!(names(&first), names(&plain));
    assert_eq!(names(&second), names(&plain));
    cache.adopt(vec![("stale".to_string(), SymbolKind::Constant, None)], 8);
    let adopted = visible_at_cached(&t, &src, caret, ScopeLang::Rust, &mut cache, 8);
    assert_eq!(names(&adopted), vec!["y", "x", "stale"]);
    assert_eq!(adopted[2].kind, SymbolKind::Constant);
    let fresh = visible_at_cached(&t, &src, caret, ScopeLang::Rust, &mut cache, 9);
    assert_eq!(names(&fresh), names(&plain));
    cache.invalidate();
    let again = visible_at_cached(&t, &src, caret, ScopeLang::Rust, &mut cache, 9);
    assert_eq!(names(&again), names(&plain));
}

#[test]
fn detail_labels() {
    assert_eq!(SymbolKind::Function.detail(), "fn");
    assert_eq!(SymbolKind::Method.detail(), "method");
    assert_eq!(SymbolKind::Variable.detail(), "let");
    assert_eq!(SymbolKind::Parameter.detail(), "param");
    assert_eq!(SymbolKind::Type.detail(), "type");
    assert_eq!(SymbolKind::Constant.detail(), "const");
    assert_eq!(SymbolKind::Module.detail(), "mod");
    let s = ScopeSymbol { name: "n".to_string(), kind: SymbolKind::Module, ty: None, global: true, depth: 0 };
    assert_eq!(s.detail(), "mod");
}

#[test]
fn scope_languages_by_extension() {
    assert_eq!(ScopeLang::from_ext("rs"), Some(ScopeLang::Rust));
    assert_eq!(ScopeLang::from_ext("hpp"), Some(ScopeLang::Cpp));
    assert_eq!(ScopeLang::from_ext("pyi"), Some(ScopeLang::Python));
    assert_eq!(ScopeLang::from_ext("md"), None);
}
