//! Which language a file is, decided in one place: the extension table,
//! the human name, and how the scope walk reads the language, if it can.

use vstd::prelude::*;
use crate::scope::ScopeLang;
use crate::text::str_eq;

verus! {

/// A language the editor has a grammar for.
#[derive(Debug, Clone, Copy, PartialEq, Eq, Structural, Hash)]
pub enum Lang {
    Rust,
    Python,
    JavaScript,
    TypeScript,
    Tsx,
    C,
    Cpp,
    Go,
    Bash,
    Json,
    Java,
    CSharp,
    Ruby,
    Lua,
    Swift,
    Php,
    Zig,
    Scala,
    Haskell,
    Elixir,
    Dart,
    ObjC,
    Html,
    Css,
    Yaml,
    Toml,
    Markdown,
    Xml,
    CMake,
}

/// Every language, in table order.
pub open spec fn all_spec() -> Seq<Lang> {
    seq![
        Lang::Rust,
        Lang::Python,
        Lang::JavaScript,
        Lang::TypeScript,
        Lang::Tsx,
        Lang::C,
        Lang::Cpp,
        Lang::Go,
        Lang::Bash,
        Lang::Json,
        Lang::Java,
        Lang::CSharp,
        Lang::Ruby,
        Lang::Lua,
        Lang::Swift,
        Lang::Php,
        Lang::Zig,
        Lang::Scala,
        Lang::Haskell,
        Lang::Elixir,
        Lang::Dart,
        Lang::ObjC,
        Lang::Html,
        Lang::Css,
        Lang::Yaml,
        Lang::Toml,
        Lang::Markdown,
        Lang::Xml,
        Lang::CMake
    ]
}

pub open spec fn name_spec(l: Lang) -> &'static str {
    match l {
        Lang::Rust => "Rust",
        Lang::Python => "Python",
        Lang::JavaScript => "JavaScript",
        Lang::TypeScript => "TypeScript",
        Lang::Tsx => "TSX",
        Lang::C => "C",
        Lang::Cpp => "C++",
        Lang::Go => "Go",
        Lang::Bash => "Shell",
        Lang::Json => "JSON",
        Lang::Java => "Java",
        Lang::CSharp => "C#",
        Lang::Ruby => "Ruby",
        Lang::Lua => "Lua",
        Lang::Swift => "Swift",
        Lang::Php => "PHP",
        Lang::Zig => "Zig",
        Lang::Scala => "Scala",
        Lang::Haskell => "Haskell",
        Lang::Elixir => "Elixir",
        Lang::Dart => "Dart",
        Lang::ObjC => "Objective-C",
        Lang::Html => "HTML",
        Lang::Css => "CSS",
        Lang::Yaml => "YAML",
        Lang::Toml => "TOML",
        Lang::Markdown => "Markdown",
        Lang::Xml => "XML",
        Lang::CMake => "CMake",
    }
}

/// The extensions a language claims, lowercase, without the dot.
pub open spec fn exts_spec(l: Lang) -> Seq<&'static str> {
    match l {
        Lang::Rust => seq!["rs"],
        Lang::Python => seq!["py", "pyi", "pyw"],
        Lang::JavaScript => seq!["js", "jsx", "mjs", "cjs"],
        Lang::TypeScript => seq!["ts", "mts", "cts"],
        Lang::Tsx => seq!["tsx"],
        Lang::C => seq!["c", "h"],
        Lang::Cpp => seq!["cpp", "cxx", "cc", "c++", "hpp", "hxx", "hh", "h++", "ipp", "tpp", "inl"],
        Lang::Go => seq!["go"],
        Lang::Bash => seq!["sh", "bash", "zsh", "ksh"],
        Lang::Json => seq!["json", "jsonc"],
        Lang::Java => seq!["java"],
        Lang::CSharp => seq!["cs", "csx"],
        Lang::Ruby => seq!["rb", "rake", "gemspec", "ru"],
        Lang::Lua => seq!["lua"],
        Lang::Swift => seq!["swift"],
        Lang::Php => seq!["php", "phtml"],
        Lang::Zig => seq!["zig"],
        Lang::Scala => seq!["scala", "sc", "sbt"],
        Lang::Haskell => seq!["hs"],
        Lang::Elixir => seq!["ex", "exs"],
        Lang::Dart => seq!["dart"],
        Lang::ObjC => seq!["m", "mm"],
        Lang::Html => seq!["html", "htm", "xhtml"],
        Lang::Css => seq!["css"],
        Lang::Yaml => seq!["yaml", "yml"],
        Lang::Toml => seq!["toml"],
        Lang::Markdown => seq!["md", "markdown"],
        Lang::Xml => seq!["xml", "xsd", "xsl", "xslt", "svg", "plist"],
        Lang::CMake => seq!["cmake"],
    }
}

/// Does `l` claim `ext`?
pub open spec fn claims(l: Lang, ext: Seq<char>) -> bool {
    exists|i: int| 0 <= i < exts_spec(l).len() && (#[trigger] exts_spec(l)[i])@ == ext
}

/// The first language of the table from index `i` on claiming `ext`.
pub open spec fn find_lang(ext: Seq<char>, i: int) -> Option<Lang>
    decreases all_spec().len() - i,
{
    if i < 0 || i >= all_spec().len() {
        None
    } else if claims(all_spec()[i], ext) {
        Some(all_spec()[i])
    } else {
        find_lang(ext, i + 1)
    }
}



pub open spec fn scope_spec(l: Lang) -> Option<ScopeLang> {
    match l {
        Lang::Rust => Some(ScopeLang::Rust),
        Lang::Python => Some(ScopeLang::Python),
        Lang::JavaScript => Some(ScopeLang::JavaScript),
        Lang::TypeScript => Some(ScopeLang::TypeScript),
        Lang::Tsx => Some(ScopeLang::TypeScript),
        Lang::C => Some(ScopeLang::C),
        Lang::Cpp => Some(ScopeLang::Cpp),
        Lang::Go => Some(ScopeLang::Go),
        Lang::Bash => None,
        Lang::Json => None,
        Lang::Java => Some(ScopeLang::Java),
        Lang::CSharp => Some(ScopeLang::CSharp),
        Lang::Ruby => Some(ScopeLang::Ruby),
        Lang::Lua => Some(ScopeLang::Lua),
        Lang::Swift => Some(ScopeLang::Swift),
        Lang::Php => Some(ScopeLang::Php),
        Lang::Zig => Some(ScopeLang::Zig),
        Lang::Scala => None,
        Lang::Haskell => None,
        Lang::Elixir => None,
        Lang::Dart => Some(ScopeLang::Dart),
        Lang::ObjC => Some(ScopeLang::ObjC),
        Lang::Html => None,
        Lang::Css => None,
        Lang::Yaml => None,
        Lang::Toml => None,
        Lang::Markdown => None,
        Lang::Xml => None,
        Lang::CMake => None,
    }
}

impl Lang {
    /// Every language in the table.
    pub fn all() -> (v: Vec<Lang>)
        ensures
            v@ == all_spec(),
    {
        let mut v: Vec<Lang> = Vec::new();
        v.push(Lang::Rust);
        v.push(Lang::Python);
        v.push(Lang::JavaScript);
        v.push(Lang::TypeScript);
        v.push(Lang::Tsx);
        v.push(Lang::C);
        v.push(Lang::Cpp);
        v.push(Lang::Go);
        v.push(Lang::Bash);
        v.push(Lang::Json);
        v.push(Lang::Java);
        v.push(Lang::CSharp);
        v.push(Lang::Ruby);
        v.push(Lang::Lua);
        v.push(Lang::Swift);
        v.push(Lang::Php);
        v.push(Lang::Zig);
        v.push(Lang::Scala);
        v.push(Lang::Haskell);
        v.push(Lang::Elixir);
        v.push(Lang::Dart);
        v.push(Lang::ObjC);
        v.push(Lang::Html);
        v.push(Lang::Css);
        v.push(Lang::Yaml);
        v.push(Lang::Toml);
        v.push(Lang::Markdown);
        v.push(Lang::Xml);
        v.push(Lang::CMake);
        assert(v@ =~= all_spec());
        v
    }

    /// Human name, for the status line.
    pub fn name(self) -> (s: &'static str)
        ensures
            s == name_spec(self),
    {
        match self {
            Lang::Rust => "Rust",
            Lang::Python => "Python",
            Lang::JavaScript => "JavaScript",
            Lang::TypeScript => "TypeScript",
            Lang::Tsx => "TSX",
            Lang::C => "C",
            Lang::Cpp => "C++",
            Lang::Go => "Go",
            Lang::Bash => "Shell",
            Lang::Json => "JSON",
            Lang::Java => "Java",
            Lang::CSharp => "C#",
            Lang::Ruby => "Ruby",
            Lang::Lua => "Lua",
            Lang::Swift => "Swift",
            Lang::Php => "PHP",
            Lang::Zig => "Zig",
            Lang::Scala => "Scala",
            Lang::Haskell => "Haskell",
            Lang::Elixir => "Elixir",
            Lang::Dart => "Dart",
            Lang::ObjC => "Objective-C",
            Lang::Html => "HTML",
            Lang::Css => "CSS",
            Lang::Yaml => "YAML",
            Lang::Toml => "TOML",
            Lang::Markdown => "Markdown",
            Lang::Xml => "XML",
            Lang::CMake => "CMake",
        }
    }

    /// Extensions this language claims, lowercase, without the dot.
    pub fn extensions(self) -> (v: Vec<&'static str>)
        ensures
            v@ == exts_spec(self),
    {
        let mut v: Vec<&'static str> = Vec::new();
        match self {
            Lang::Rust => {
                v.push("rs");
            },
            Lang::Python => {
                v.push("py");
                v.push("pyi");
                v.push("pyw");
            },
            Lang::JavaScript => {
                v.push("js");
                v.push("jsx");
                v.push("mjs");
                v.push("cjs");
            },
            Lang::TypeScript => {
                v.push("ts");
                v.push("mts");
                v.push("cts");
            },
            Lang::Tsx => {
                v.push("tsx");
            },
            Lang::C => {
                v.push("c");
                v.push("h");
            },
            Lang::Cpp => {
                v.push("cpp");
                v.push("cxx");
                v.push("cc");
                v.push("c++");
                v.push("hpp");
                v.push("hxx");
                v.push("hh");
                v.push("h++");
                v.push("ipp");
                v.push("tpp");
                v.push("inl");
            },
            Lang::Go => {
                v.push("go");
            },
            Lang::Bash => {
                v.push("sh");
                v.push("bash");
                v.push("zsh");
                v.push("ksh");
            },
            Lang::Json => {
                v.push("json");
                v.push("jsonc");
            },
            Lang::Java => {
                v.push("java");
            },
            Lang::CSharp => {
                v.push("cs");
                v.push("csx");
            },
            Lang::Ruby => {
                v.push("rb");
                v.push("rake");
                v.push("gemspec");
                v.push("ru");
            },
            Lang::Lua => {
                v.push("lua");
            },
            Lang::Swift => {
                v.push("swift");
            },
            Lang::Php => {
                v.push("php");
                v.push("phtml");
            },
            Lang::Zig => {
                v.push("zig");
            },
            Lang::Scala => {
                v.push("scala");
                v.push("sc");
                v.push("sbt");
            },
            Lang::Haskell => {
                v.push("hs");
            },
            Lang::Elixir => {
                v.push("ex");
                v.push("exs");
            },
            Lang::Dart => {
                v.push("dart");
            },
            Lang::ObjC => {
                v.push("m");
                v.push("mm");
            },
            Lang::Html => {
                v.push("html");
                v.push("htm");
                v.push("xhtml");
            },
            Lang::Css => {
                v.push("css");
            },
            Lang::Yaml => {
                v.push("yaml");
                v.push("yml");
            },
            Lang::Toml => {
                v.push("toml");
            },
            Lang::Markdown => {
                v.push("md");
                v.push("markdown");
            },
            Lang::Xml => {
                v.push("xml");
                v.push("xsd");
                v.push("xsl");
                v.push("xslt");
                v.push("svg");
                v.push("plist");
            },
            Lang::CMake => {
                v.push("cmake");
            },
        }
        assert(v@ =~= exts_spec(self));
        v
    }

    /// The language claiming `ext`, which must already be lowercase.
    pub fn from_ext(ext: &str) -> (r: Option<Lang>)
        ensures
            r == find_lang(ext@, 0),
    {
        let all = Lang::all();
        let mut i: usize = 0;
        while i < all.len()
            invariant
                i <= all@.len(),
                all@ == all_spec(),
                find_lang(ext@, i as int) == find_lang(ext@, 0),
            decreases all@.len() - i,
        {
            let l = all[i];
            let exts = l.extensions();
            let mut k: usize = 0;
            let mut found = false;
            while k < exts.len()
                invariant
                    k <= exts@.len(),
                    exts@ == exts_spec(l),
                    found == exists|j: int| 0 <= j < k && (#[trigger] exts_spec(l)[j])@ == ext@,
                decreases exts@.len() - k,
            {
                if str_eq(exts[k], ext) {
                    found = true;
                }
                k += 1;
            }
            if found {
                return Some(l);
            }
            i += 1;
        }
        None
    }

    /// Whether Enter carries the line's indentation down: for everything but
    /// Markdown, whose indentation means "still the same bullet".
    pub fn auto_indents(self) -> (b: bool)
        ensures
            b == (self != Lang::Markdown),
    {
        match self {
            Lang::Markdown => false,
            _ => true,
        }
    }

    /// How the scope walk reads this language, if it can.
    pub fn scope(self) -> (r: Option<ScopeLang>)
        ensures
            r == scope_spec(self),
    {
        match self {
            Lang::Rust => Some(ScopeLang::Rust),
            Lang::Python => Some(ScopeLang::Python),
            Lang::JavaScript => Some(ScopeLang::JavaScript),
            Lang::TypeScript => Some(ScopeLang::TypeScript),
            Lang::Tsx => Some(ScopeLang::TypeScript),
            Lang::C => Some(ScopeLang::C),
            Lang::Cpp => Some(ScopeLang::Cpp),
            Lang::Go => Some(ScopeLang::Go),
            Lang::Bash => None,
            Lang::Json => None,
            Lang::Java => Some(ScopeLang::Java),
            Lang::CSharp => Some(ScopeLang::CSharp),
            Lang::Ruby => Some(ScopeLang::Ruby),
            Lang::Lua => Some(ScopeLang::Lua),
            Lang::Swift => Some(ScopeLang::Swift),
            Lang::Php => Some(ScopeLang::Php),
            Lang::Zig => Some(ScopeLang::Zig),
            Lang::Scala => None,
            Lang::Haskell => None,
            Lang::Elixir => None,
            Lang::Dart => Some(ScopeLang::Dart),
            Lang::ObjC => Some(ScopeLang::ObjC),
            Lang::Html => None,
            Lang::Css => None,
            Lang::Yaml => None,
            Lang::Toml => None,
            Lang::Markdown => None,
            Lang::Xml => None,
            Lang::CMake => None,
        }
    }
}


// ── Highlight queries ───────────────────────────────────────────────────────

/// One piece of a language's highlight query: the query a grammar crate
/// ships, or rules this editor adds where a query has a hole.
#[derive(Clone, Copy, Debug, PartialEq, Eq, Structural)]
pub enum QueryLayer {
    Rust,
    Python,
    JavaScript,
    Jsx,
    TypeScript,
    C,
    Cpp,
    Go,
    Bash,
    Json,
    Java,
    CSharp,
    Ruby,
    Lua,
    Swift,
    Php,
    Zig,
    Scala,
    Haskell,
    Elixir,
    Dart,
    ObjC,
    /// The comment and string rules the Objective-C query lacks.
    ObjCCommentsAndStrings,
    Html,
    Css,
    Yaml,
    Toml,
    MarkdownBlock,
    Xml,
    CMake,
}

/// The layers of `l`'s highlight query, joined in this order. An overlay
/// comes after the query it is written on: TypeScript on JavaScript, TSX on
/// JavaScript and JSX, C++ on C; and the Objective-C query is followed by the
/// rules it lacks. Where two patterns capture the same node the later one
/// paints, so the overlay must come last.
pub open spec fn query_layers_spec(l: Lang) -> Seq<QueryLayer> {
    match l {
        Lang::Rust => seq![QueryLayer::Rust],
        Lang::Python => seq![QueryLayer::Python],
        Lang::JavaScript => seq![QueryLayer::JavaScript, QueryLayer::Jsx],
        Lang::TypeScript => seq![QueryLayer::JavaScript, QueryLayer::TypeScript],
        Lang::Tsx => seq![QueryLayer::JavaScript, QueryLayer::Jsx, QueryLayer::TypeScript],
        Lang::C => seq![QueryLayer::C],
        Lang::Cpp => seq![QueryLayer::C, QueryLayer::Cpp],
        Lang::Go => seq![QueryLayer::Go],
        Lang::Bash => seq![QueryLayer::Bash],
        Lang::Json => seq![QueryLayer::Json],
        Lang::Java => seq![QueryLayer::Java],
        Lang::CSharp => seq![QueryLayer::CSharp],
        Lang::Ruby => seq![QueryLayer::Ruby],
        Lang::Lua => seq![QueryLayer::Lua],
        Lang::Swift => seq![QueryLayer::Swift],
        Lang::Php => seq![QueryLayer::Php],
        Lang::Zig => seq![QueryLayer::Zig],
        Lang::Scala => seq![QueryLayer::Scala],
        Lang::Haskell => seq![QueryLayer::Haskell],
        Lang::Elixir => seq![QueryLayer::Elixir],
        Lang::Dart => seq![QueryLayer::Dart],
        Lang::ObjC => seq![QueryLayer::ObjC, QueryLayer::ObjCCommentsAndStrings],
        Lang::Html => seq![QueryLayer::Html],
        Lang::Css => seq![QueryLayer::Css],
        Lang::Yaml => seq![QueryLayer::Yaml],
        Lang::Toml => seq![QueryLayer::Toml],
        Lang::Markdown => seq![QueryLayer::MarkdownBlock],
        Lang::Xml => seq![QueryLayer::Xml],
        Lang::CMake => seq![QueryLayer::CMake],
    }
}

/// The query an overlay layer is written on top of.
pub open spec fn base_of(q: QueryLayer) -> Option<QueryLayer> {
    match q {
        QueryLayer::Jsx => Some(QueryLayer::JavaScript),
        QueryLayer::TypeScript => Some(QueryLayer::JavaScript),
        QueryLayer::Cpp => Some(QueryLayer::C),
        QueryLayer::ObjCCommentsAndStrings => Some(QueryLayer::ObjC),
        _ => None,
    }
}

/// The layers of `lang`'s highlight query, in the order they are joined.
pub fn query_layers(lang: Lang) -> (v: Vec<QueryLayer>)
    ensures
        v@ == query_layers_spec(lang),
{
    let mut v: Vec<QueryLayer> = Vec::new();
    match lang {
        Lang::Rust => v.push(QueryLayer::Rust),
        Lang::Python => v.push(QueryLayer::Python),
        Lang::JavaScript => {
            v.push(QueryLayer::JavaScript);
            v.push(QueryLayer::Jsx);
        },
        Lang::TypeScript => {
            v.push(QueryLayer::JavaScript);
            v.push(QueryLayer::TypeScript);
        },
        Lang::Tsx => {
            v.push(QueryLayer::JavaScript);
            v.push(QueryLayer::Jsx);
            v.push(QueryLayer::TypeScript);
        },
        Lang::C => v.push(QueryLayer::C),
        Lang::Cpp => {
            v.push(QueryLayer::C);
            v.push(QueryLayer::Cpp);
        },
        Lang::Go => v.push(QueryLayer::Go),
        Lang::Bash => v.push(QueryLayer::Bash),
        Lang::Json => v.push(QueryLayer::Json),
        Lang::Java => v.push(QueryLayer::Java),
        Lang::CSharp => v.push(QueryLayer::CSharp),
        Lang::Ruby => v.push(QueryLayer::Ruby),
        Lang::Lua => v.push(QueryLayer::Lua),
        Lang::Swift => v.push(QueryLayer::Swift),
        Lang::Php => v.push(QueryLayer::Php),
        Lang::Zig => v.push(QueryLayer::Zig),
        Lang::Scala => v.push(QueryLayer::Scala),
        Lang::Haskell => v.push(QueryLayer::Haskell),
        Lang::Elixir => v.push(QueryLayer::Elixir),
        Lang::Dart => v.push(QueryLayer::Dart),
        Lang::ObjC => {
            v.push(QueryLayer::ObjC);
            v.push(QueryLayer::ObjCCommentsAndStrings);
        },
        Lang::Html => v.push(QueryLayer::Html),
        Lang::Css => v.push(QueryLayer::Css),
        Lang::Yaml => v.push(QueryLayer::Yaml),
        Lang::Toml => v.push(QueryLayer::Toml),
        Lang::Markdown => v.push(QueryLayer::MarkdownBlock),
        Lang::Xml => v.push(QueryLayer::Xml),
        Lang::CMake => v.push(QueryLayer::CMake),
    }
    assert(v@ =~= query_layers_spec(lang));
    v
}

/// Every overlay in a language's query comes after the query it is written
/// on, and no layer is repeated; the list is never empty.
pub proof fn law_overlay_after_base(l: Lang)
    ensures
        query_layers_spec(l).len() > 0,
        forall|i: int, j: int|
            0 <= i < j < query_layers_spec(l).len() ==> query_layers_spec(l)[i] != query_layers_spec(l)[j],
        forall|i: int|
            0 <= i < query_layers_spec(l).len() && (#[trigger] base_of(query_layers_spec(l)[i])) is Some ==> exists|j: int|
                0 <= j < i && query_layers_spec(l)[j] == base_of(query_layers_spec(l)[i])->0,
{
    let v = query_layers_spec(l);
    assert forall|i: int| 0 <= i < v.len() && (#[trigger] base_of(v[i])) is Some implies exists|j: int|
        0 <= j < i && v[j] == base_of(v[i])->0 by {
        if i == 1 {
            assert(v[0] == base_of(v[i])->0);
        } else if i == 2 {
            assert(v[0] == base_of(v[i])->0);
        }
    }
}

/// The rules the Objective-C highlight query lacks: C's comment and string
/// literal nodes, which the grammar inherits.
pub fn objc_comment_and_string_rules() -> (s: &'static str)
    ensures
        s@ == "(comment) @comment\n(string_literal) @string\n"@,
{
    "(comment) @comment\n(string_literal) @string\n"
}


/// The characters of each extension the table lists.
proof fn lemma_ext_chars()
    ensures
        "rs"@ == seq!['r', 's'],
        "rs"@.len() == 2,
        "rs"@[0] == 'r',
        "py"@ == seq!['p', 'y'],
        "py"@.len() == 2,
        "py"@[0] == 'p',
        "pyi"@ == seq!['p', 'y', 'i'],
        "pyi"@.len() == 3,
        "pyi"@[0] == 'p',
        "pyw"@ == seq!['p', 'y', 'w'],
        "pyw"@.len() == 3,
        "pyw"@[0] == 'p',
        "js"@ == seq!['j', 's'],
        "js"@.len() == 2,
        "js"@[0] == 'j',
        "jsx"@ == seq!['j', 's', 'x'],
        "jsx"@.len() == 3,
        "jsx"@[0] == 'j',
        "mjs"@ == seq!['m', 'j', 's'],
        "mjs"@.len() == 3,
        "mjs"@[0] == 'm',
        "cjs"@ == seq!['c', 'j', 's'],
        "cjs"@.len() == 3,
        "cjs"@[0] == 'c',
        "ts"@ == seq!['t', 's'],
        "ts"@.len() == 2,
        "ts"@[0] == 't',
        "mts"@ == seq!['m', 't', 's'],
        "mts"@.len() == 3,
        "mts"@[0] == 'm',
        "cts"@ == seq!['c', 't', 's'],
        "cts"@.len() == 3,
        "cts"@[0] == 'c',
        "tsx"@ == seq!['t', 's', 'x'],
        "tsx"@.len() == 3,
        "tsx"@[0] == 't',
        "c"@ == seq!['c'],
        "c"@.len() == 1,
        "c"@[0] == 'c',
        "h"@ == seq!['h'],
        "h"@.len() == 1,
        "h"@[0] == 'h',
        "cpp"@ == seq!['c', 'p', 'p'],
        "cpp"@.len() == 3,
        "cpp"@[0] == 'c',
        "cxx"@ == seq!['c', 'x', 'x'],
        "cxx"@.len() == 3,
        "cxx"@[0] == 'c',
        "cc"@ == seq!['c', 'c'],
        "cc"@.len() == 2,
        "cc"@[0] == 'c',
        "c++"@ == seq!['c', '+', '+'],
        "c++"@.len() == 3,
        "c++"@[0] == 'c',
        "hpp"@ == seq!['h', 'p', 'p'],
        "hpp"@.len() == 3,
        "hpp"@[0] == 'h',
        "hxx"@ == seq!['h', 'x', 'x'],
        "hxx"@.len() == 3,
        "hxx"@[0] == 'h',
        "hh"@ == seq!['h', 'h'],
        "hh"@.len() == 2,
        "hh"@[0] == 'h',
        "h++"@ == seq!['h', '+', '+'],
        "h++"@.len() == 3,
        "h++"@[0] == 'h',
        "ipp"@ == seq!['i', 'p', 'p'],
        "ipp"@.len() == 3,
        "ipp"@[0] == 'i',
        "tpp"@ == seq!['t', 'p', 'p'],
        "tpp"@.len() == 3,
        "tpp"@[0] == 't',
        "inl"@ == seq!['i', 'n', 'l'],
        "inl"@.len() == 3,
        "inl"@[0] == 'i',
        "go"@ == seq!['g', 'o'],
        "go"@.len() == 2,
        "go"@[0] == 'g',
        "sh"@ == seq!['s', 'h'],
        "sh"@.len() == 2,
        "sh"@[0] == 's',
        "bash"@ == seq!['b', 'a', 's', 'h'],
        "bash"@.len() == 4,
        "bash"@[0] == 'b',
        "zsh"@ == seq!['z', 's', 'h'],
        "zsh"@.len() == 3,
        "zsh"@[0] == 'z',
        "ksh"@ == seq!['k', 's', 'h'],
        "ksh"@.len() == 3,
        "ksh"@[0] == 'k',
        "json"@ == seq!['j', 's', 'o', 'n'],
        "json"@.len() == 4,
        "json"@[0] == 'j',
        "jsonc"@ == seq!['j', 's', 'o', 'n', 'c'],
        "jsonc"@.len() == 5,
        "jsonc"@[0] == 'j',
        "java"@ == seq!['j', 'a', 'v', 'a'],
        "java"@.len() == 4,
        "java"@[0] == 'j',
        "cs"@ == seq!['c', 's'],
        "cs"@.len() == 2,
        "cs"@[0] == 'c',
        "csx"@ == seq!['c', 's', 'x'],
        "csx"@.len() == 3,
        "csx"@[0] == 'c',
        "rb"@ == seq!['r', 'b'],
        "rb"@.len() == 2,
        "rb"@[0] == 'r',
        "rake"@ == seq!['r', 'a', 'k', 'e'],
        "rake"@.len() == 4,
        "rake"@[0] == 'r',
        "gemspec"@ == seq!['g', 'e', 'm', 's', 'p', 'e', 'c'],
        "gemspec"@.len() == 7,
        "gemspec"@[0] == 'g',
        "ru"@ == seq!['r', 'u'],
        "ru"@.len() == 2,
        "ru"@[0] == 'r',
        "lua"@ == seq!['l', 'u', 'a'],
        "lua"@.len() == 3,
        "lua"@[0] == 'l',
        "swift"@ == seq!['s', 'w', 'i', 'f', 't'],
        "swift"@.len() == 5,
        "swift"@[0] == 's',
        "php"@ == seq!['p', 'h', 'p'],
        "php"@.len() == 3,
        "php"@[0] == 'p',
        "phtml"@ == seq!['p', 'h', 't', 'm', 'l'],
        "phtml"@.len() == 5,
        "phtml"@[0] == 'p',
        "zig"@ == seq!['z', 'i', 'g'],
        "zig"@.len() == 3,
        "zig"@[0] == 'z',
        "scala"@ == seq!['s', 'c', 'a', 'l', 'a'],
        "scala"@.len() == 5,
        "scala"@[0] == 's',
        "sc"@ == seq!['s', 'c'],
        "sc"@.len() == 2,
        "sc"@[0] == 's',
        "sbt"@ == seq!['s', 'b', 't'],
        "sbt"@.len() == 3,
        "sbt"@[0] == 's',
        "hs"@ == seq!['h', 's'],
        "hs"@.len() == 2,
        "hs"@[0] == 'h',
        "ex"@ == seq!['e', 'x'],
        "ex"@.len() == 2,
        "ex"@[0] == 'e',
        "exs"@ == seq!['e', 'x', 's'],
        "exs"@.len() == 3,
        "exs"@[0] == 'e',
        "dart"@ == seq!['d', 'a', 'r', 't'],
        "dart"@.len() == 4,
        "dart"@[0] == 'd',
        "m"@ == seq!['m'],
        "m"@.len() == 1,
        "m"@[0] == 'm',
        "mm"@ == seq!['m', 'm'],
        "mm"@.len() == 2,
        "mm"@[0] == 'm',
        "html"@ == seq!['h', 't', 'm', 'l'],
        "html"@.len() == 4,
        "html"@[0] == 'h',
        "htm"@ == seq!['h', 't', 'm'],
        "htm"@.len() == 3,
        "htm"@[0] == 'h',
        "xhtml"@ == seq!['x', 'h', 't', 'm', 'l'],
        "xhtml"@.len() == 5,
        "xhtml"@[0] == 'x',
        "css"@ == seq!['c', 's', 's'],
        "css"@.len() == 3,
        "css"@[0] == 'c',
        "yaml"@ == seq!['y', 'a', 'm', 'l'],
        "yaml"@.len() == 4,
        "yaml"@[0] == 'y',
        "yml"@ == seq!['y', 'm', 'l'],
        "yml"@.len() == 3,
        "yml"@[0] == 'y',
        "toml"@ == seq!['t', 'o', 'm', 'l'],
        "toml"@.len() == 4,
        "toml"@[0] == 't',
        "md"@ == seq!['m', 'd'],
        "md"@.len() == 2,
        "md"@[0] == 'm',
        "markdown"@ == seq!['m', 'a', 'r', 'k', 'd', 'o', 'w', 'n'],
        "markdown"@.len() == 8,
        "markdown"@[0] == 'm',
        "xml"@ == seq!['x', 'm', 'l'],
        "xml"@.len() == 3,
        "xml"@[0] == 'x',
        "xsd"@ == seq!['x', 's', 'd'],
        "xsd"@.len() == 3,
        "xsd"@[0] == 'x',
        "xsl"@ == seq!['x', 's', 'l'],
        "xsl"@.len() == 3,
        "xsl"@[0] == 'x',
        "xslt"@ == seq!['x', 's', 'l', 't'],
        "xslt"@.len() == 4,
        "xslt"@[0] == 'x',
        "svg"@ == seq!['s', 'v', 'g'],
        "svg"@.len() == 3,
        "svg"@[0] == 's',
        "plist"@ == seq!['p', 'l', 'i', 's', 't'],
        "plist"@.len() == 5,
        "plist"@[0] == 'p',
        "cmake"@ == seq!['c', 'm', 'a', 'k', 'e'],
        "cmake"@.len() == 5,
        "cmake"@[0] == 'c',
{
    reveal_strlit("rs");
    reveal_strlit("py");
    reveal_strlit("pyi");
    reveal_strlit("pyw");
    reveal_strlit("js");
    reveal_strlit("jsx");
    reveal_strlit("mjs");
    reveal_strlit("cjs");
    reveal_strlit("ts");
    reveal_strlit("mts");
    reveal_strlit("cts");
    reveal_strlit("tsx");
    reveal_strlit("c");
    reveal_strlit("h");
    reveal_strlit("cpp");
    reveal_strlit("cxx");
    reveal_strlit("cc");
    reveal_strlit("c++");
    reveal_strlit("hpp");
    reveal_strlit("hxx");
    reveal_strlit("hh");
    reveal_strlit("h++");
    reveal_strlit("ipp");
    reveal_strlit("tpp");
    reveal_strlit("inl");
    reveal_strlit("go");
    reveal_strlit("sh");
    reveal_strlit("bash");
    reveal_strlit("zsh");
    reveal_strlit("ksh");
    reveal_strlit("json");
    reveal_strlit("jsonc");
    reveal_strlit("java");
    reveal_strlit("cs");
    reveal_strlit("csx");
    reveal_strlit("rb");
    reveal_strlit("rake");
    reveal_strlit("gemspec");
    reveal_strlit("ru");
    reveal_strlit("lua");
    reveal_strlit("swift");
    reveal_strlit("php");
    reveal_strlit("phtml");
    reveal_strlit("zig");
    reveal_strlit("scala");
    reveal_strlit("sc");
    reveal_strlit("sbt");
    reveal_strlit("hs");
    reveal_strlit("ex");
    reveal_strlit("exs");
    reveal_strlit("dart");
    reveal_strlit("m");
    reveal_strlit("mm");
    reveal_strlit("html");
    reveal_strlit("htm");
    reveal_strlit("xhtml");
    reveal_strlit("css");
    reveal_strlit("yaml");
    reveal_strlit("yml");
    reveal_strlit("toml");
    reveal_strlit("md");
    reveal_strlit("markdown");
    reveal_strlit("xml");
    reveal_strlit("xsd");
    reveal_strlit("xsl");
    reveal_strlit("xslt");
    reveal_strlit("svg");
    reveal_strlit("plist");
    reveal_strlit("cmake");
}

/// The first language of the table claiming `e` is the one at `i`, when
/// none before it does.
proof fn lemma_first_claim(e: Seq<char>, i: int, k: int)
    requires
        0 <= k <= i < all_spec().len(),
        forall|q: int| 0 <= q < i ==> !claims(#[trigger] all_spec()[q], e),
        claims(all_spec()[i], e),
    ensures
        find_lang(e, k) == Some(all_spec()[i]),
    decreases i - k,
{
    if k < i {
        assert(!claims(all_spec()[k], e));
        lemma_first_claim(e, i, k + 1);
    }
}

proof fn lemma_maps_back_rust(j: int)
    requires
        0 <= j < exts_spec(Lang::Rust).len(),
    ensures
        find_lang(exts_spec(Lang::Rust)[j]@, 0) == Some(Lang::Rust),
{
    lemma_ext_chars();
    let e = exts_spec(Lang::Rust)[j]@;
    assert forall|q: int| 0 <= q < 0 implies !claims(#[trigger] all_spec()[q], e) by {}
    assert(claims(all_spec()[0], e));
    lemma_first_claim(e, 0, 0);
}

proof fn lemma_maps_back_python(j: int)
    requires
        0 <= j < exts_spec(Lang::Python).len(),
    ensures
        find_lang(exts_spec(Lang::Python)[j]@, 0) == Some(Lang::Python),
{
    lemma_ext_chars();
    let e = exts_spec(Lang::Python)[j]@;
    assert forall|q: int| 0 <= q < 1 implies !claims(#[trigger] all_spec()[q], e) by {}
    assert(claims(all_spec()[1], e));
    lemma_first_claim(e, 1, 0);
}

proof fn lemma_maps_back_java_script(j: int)
    requires
        0 <= j < exts_spec(Lang::JavaScript).len(),
    ensures
        find_lang(exts_spec(Lang::JavaScript)[j]@, 0) == Some(Lang::JavaScript),
{
    lemma_ext_chars();
    let e = exts_spec(Lang::JavaScript)[j]@;
    assert forall|q: int| 0 <= q < 2 implies !claims(#[trigger] all_spec()[q], e) by {}
    assert(claims(all_spec()[2], e));
    lemma_first_claim(e, 2, 0);
}

proof fn lemma_maps_back_type_script(j: int)
    requires
        0 <= j < exts_spec(Lang::TypeScript).len(),
    ensures
        find_lang(exts_spec(Lang::TypeScript)[j]@, 0) == Some(Lang::TypeScript),
{
    lemma_ext_chars();
    let e = exts_spec(Lang::TypeScript)[j]@;
    assert forall|q: int| 0 <= q < 3 implies !claims(#[trigger] all_spec()[q], e) by {}
    assert(claims(all_spec()[3], e));
    lemma_first_claim(e, 3, 0);
}

proof fn lemma_maps_back_tsx(j: int)
    requires
        0 <= j < exts_spec(Lang::Tsx).len(),
    ensures
        find_lang(exts_spec(Lang::Tsx)[j]@, 0) == Some(Lang::Tsx),
{
    lemma_ext_chars();
    let e = exts_spec(Lang::Tsx)[j]@;
    assert forall|q: int| 0 <= q < 4 implies !claims(#[trigger] all_spec()[q], e) by {}
    assert(claims(all_spec()[4], e));
    lemma_first_claim(e, 4, 0);
}

proof fn lemma_maps_back_c(j: int)
    requires
        0 <= j < exts_spec(Lang::C).len(),
    ensures
        find_lang(exts_spec(Lang::C)[j]@, 0) == Some(Lang::C),
{
    lemma_ext_chars();
    let e = exts_spec(Lang::C)[j]@;
    assert forall|q: int| 0 <= q < 5 implies !claims(#[trigger] all_spec()[q], e) by {}
    assert(claims(all_spec()[5], e));
    lemma_first_claim(e, 5, 0);
}

proof fn lemma_maps_back_cpp(j: int)
    requires
        0 <= j < exts_spec(Lang::Cpp).len(),
    ensures
        find_lang(exts_spec(Lang::Cpp)[j]@, 0) == Some(Lang::Cpp),
{
    lemma_ext_chars();
    let e = exts_spec(Lang::Cpp)[j]@;
    assert forall|q: int| 0 <= q < 6 implies !claims(#[trigger] all_spec()[q], e) by {}
    assert(claims(all_spec()[6], e));
    lemma_first_claim(e, 6, 0);
}

proof fn lemma_maps_back_go(j: int)
    requires
        0 <= j < exts_spec(Lang::Go).len(),
    ensures
        find_lang(exts_spec(Lang::Go)[j]@, 0) == Some(Lang::Go),
{
    lemma_ext_chars();
    let e = exts_spec(Lang::Go)[j]@;
    assert forall|q: int| 0 <= q < 7 implies !claims(#[trigger] all_spec()[q], e) by {}
    assert(claims(all_spec()[7], e));
    lemma_first_claim(e, 7, 0);
}

proof fn lemma_maps_back_bash(j: int)
    requires
        0 <= j < exts_spec(Lang::Bash).len(),
    ensures
        find_lang(exts_spec(Lang::Bash)[j]@, 0) == Some(Lang::Bash),
{
    lemma_ext_chars();
    let e = exts_spec(Lang::Bash)[j]@;
    assert forall|q: int| 0 <= q < 8 implies !claims(#[trigger] all_spec()[q], e) by {}
    assert(claims(all_spec()[8], e));
    lemma_first_claim(e, 8, 0);
}

proof fn lemma_maps_back_json(j: int)
    requires
        0 <= j < exts_spec(Lang::Json).len(),
    ensures
        find_lang(exts_spec(Lang::Json)[j]@, 0) == Some(Lang::Json),
{
    lemma_ext_chars();
    let e = exts_spec(Lang::Json)[j]@;
    assert forall|q: int| 0 <= q < 9 implies !claims(#[trigger] all_spec()[q], e) by {}
    assert(claims(all_spec()[9], e));
    lemma_first_claim(e, 9, 0);
}

proof fn lemma_maps_back_java(j: int)
    requires
        0 <= j < exts_spec(Lang::Java).len(),
    ensures
        find_lang(exts_spec(Lang::Java)[j]@, 0) == Some(Lang::Java),
{
    lemma_ext_chars();
    let e = exts_spec(Lang::Java)[j]@;
    assert forall|q: int| 0 <= q < 10 implies !claims(#[trigger] all_spec()[q], e) by {}
    assert(claims(all_spec()[10], e));
    lemma_first_claim(e, 10, 0);
}

proof fn lemma_maps_back_c_sharp(j: int)
    requires
        0 <= j < exts_spec(Lang::CSharp).len(),
    ensures
        find_lang(exts_spec(Lang::CSharp)[j]@, 0) == Some(Lang::CSharp),
{
    lemma_ext_chars();
    let e = exts_spec(Lang::CSharp)[j]@;
    assert forall|q: int| 0 <= q < 11 implies !claims(#[trigger] all_spec()[q], e) by {}
    assert(claims(all_spec()[11], e));
    lemma_first_claim(e, 11, 0);
}

proof fn lemma_maps_back_ruby(j: int)
    requires
        0 <= j < exts_spec(Lang::Ruby).len(),
    ensures
        find_lang(exts_spec(Lang::Ruby)[j]@, 0) == Some(Lang::Ruby),
{
    lemma_ext_chars();
    let e = exts_spec(Lang::Ruby)[j]@;
    assert forall|q: int| 0 <= q < 12 implies !claims(#[trigger] all_spec()[q], e) by {}
    assert(claims(all_spec()[12], e));
    lemma_first_claim(e, 12, 0);
}

proof fn lemma_maps_back_lua(j: int)
    requires
        0 <= j < exts_spec(Lang::Lua).len(),
    ensures
        find_lang(exts_spec(Lang::Lua)[j]@, 0) == Some(Lang::Lua),
{
    lemma_ext_chars();
    let e = exts_spec(Lang::Lua)[j]@;
    assert forall|q: int| 0 <= q < 13 implies !claims(#[trigger] all_spec()[q], e) by {}
    assert(claims(all_spec()[13], e));
    lemma_first_claim(e, 13, 0);
}

proof fn lemma_maps_back_swift(j: int)
    requires
        0 <= j < exts_spec(Lang::Swift).len(),
    ensures
        find_lang(exts_spec(Lang::Swift)[j]@, 0) == Some(Lang::Swift),
{
    lemma_ext_chars();
    let e = exts_spec(Lang::Swift)[j]@;
    assert forall|q: int| 0 <= q < 14 implies !claims(#[trigger] all_spec()[q], e) by {}
    assert(claims(all_spec()[14], e));
    lemma_first_claim(e, 14, 0);
}

proof fn lemma_maps_back_php(j: int)
    requires
        0 <= j < exts_spec(Lang::Php).len(),
    ensures
        find_lang(exts_spec(Lang::Php)[j]@, 0) == Some(Lang::Php),
{
    lemma_ext_chars();
    let e = exts_spec(Lang::Php)[j]@;
    assert forall|q: int| 0 <= q < 15 implies !claims(#[trigger] all_spec()[q], e) by {}
    assert(claims(all_spec()[15], e));
    lemma_first_claim(e, 15, 0);
}

proof fn lemma_maps_back_zig(j: int)
    requires
        0 <= j < exts_spec(Lang::Zig).len(),
    ensures
        find_lang(exts_spec(Lang::Zig)[j]@, 0) == Some(Lang::Zig),
{
    lemma_ext_chars();
    let e = exts_spec(Lang::Zig)[j]@;
    assert forall|q: int| 0 <= q < 16 implies !claims(#[trigger] all_spec()[q], e) by {}
    assert(claims(all_spec()[16], e));
    lemma_first_claim(e, 16, 0);
}

proof fn lemma_maps_back_scala(j: int)
    requires
        0 <= j < exts_spec(Lang::Scala).len(),
    ensures
        find_lang(exts_spec(Lang::Scala)[j]@, 0) == Some(Lang::Scala),
{
    lemma_ext_chars();
    let e = exts_spec(Lang::Scala)[j]@;
    assert forall|q: int| 0 <= q < 17 implies !claims(#[trigger] all_spec()[q], e) by {}
    assert(claims(all_spec()[17], e));
    lemma_first_claim(e, 17, 0);
}

proof fn lemma_maps_back_haskell(j: int)
    requires
        0 <= j < exts_spec(Lang::Haskell).len(),
    ensures
        find_lang(exts_spec(Lang::Haskell)[j]@, 0) == Some(Lang::Haskell),
{
    lemma_ext_chars();
    let e = exts_spec(Lang::Haskell)[j]@;
    assert forall|q: int| 0 <= q < 18 implies !claims(#[trigger] all_spec()[q], e) by {}
    assert(claims(all_spec()[18], e));
    lemma_first_claim(e, 18, 0);
}

proof fn lemma_maps_back_elixir(j: int)
    requires
        0 <= j < exts_spec(Lang::Elixir).len(),
    ensures
        find_lang(exts_spec(Lang::Elixir)[j]@, 0) == Some(Lang::Elixir),
{
    lemma_ext_chars();
    let e = exts_spec(Lang::Elixir)[j]@;
    assert forall|q: int| 0 <= q < 19 implies !claims(#[trigger] all_spec()[q], e) by {}
    assert(claims(all_spec()[19], e));
    lemma_first_claim(e, 19, 0);
}

proof fn lemma_maps_back_dart(j: int)
    requires
        0 <= j < exts_spec(Lang::Dart).len(),
    ensures
        find_lang(exts_spec(Lang::Dart)[j]@, 0) == Some(Lang::Dart),
{
    lemma_ext_chars();
    let e = exts_spec(Lang::Dart)[j]@;
    assert forall|q: int| 0 <= q < 20 implies !claims(#[trigger] all_spec()[q], e) by {}
    assert(claims(all_spec()[20], e));
    lemma_first_claim(e, 20, 0);
}

proof fn lemma_maps_back_obj_c(j: int)
    requires
        0 <= j < exts_spec(Lang::ObjC).len(),
    ensures
        find_lang(exts_spec(Lang::ObjC)[j]@, 0) == Some(Lang::ObjC),
{
    lemma_ext_chars();
    let e = exts_spec(Lang::ObjC)[j]@;
    assert forall|q: int| 0 <= q < 21 implies !claims(#[trigger] all_spec()[q], e) by {}
    assert(claims(all_spec()[21], e));
    lemma_first_claim(e, 21, 0);
}

proof fn lemma_maps_back_html(j: int)
    requires
        0 <= j < exts_spec(Lang::Html).len(),
    ensures
        find_lang(exts_spec(Lang::Html)[j]@, 0) == Some(Lang::Html),
{
    lemma_ext_chars();
    let e = exts_spec(Lang::Html)[j]@;
    assert forall|q: int| 0 <= q < 22 implies !claims(#[trigger] all_spec()[q], e) by {}
    assert(claims(all_spec()[22], e));
    lemma_first_claim(e, 22, 0);
}

proof fn lemma_maps_back_css(j: int)
    requires
        0 <= j < exts_spec(Lang::Css).len(),
    ensures
        find_lang(exts_spec(Lang::Css)[j]@, 0) == Some(Lang::Css),
{
    lemma_ext_chars();
    let e = exts_spec(Lang::Css)[j]@;
    assert forall|q: int| 0 <= q < 23 implies !claims(#[trigger] all_spec()[q], e) by {}
    assert(claims(all_spec()[23], e));
    lemma_first_claim(e, 23, 0);
}

proof fn lemma_maps_back_yaml(j: int)
    requires
        0 <= j < exts_spec(Lang::Yaml).len(),
    ensures
        find_lang(exts_spec(Lang::Yaml)[j]@, 0) == Some(Lang::Yaml),
{
    lemma_ext_chars();
    let e = exts_spec(Lang::Yaml)[j]@;
    assert forall|q: int| 0 <= q < 24 implies !claims(#[trigger] all_spec()[q], e) by {}
    assert(claims(all_spec()[24], e));
    lemma_first_claim(e, 24, 0);
}

proof fn lemma_maps_back_toml(j: int)
    requires
        0 <= j < exts_spec(Lang::Toml).len(),
    ensures
        find_lang(exts_spec(Lang::Toml)[j]@, 0) == Some(Lang::Toml),
{
    lemma_ext_chars();
    let e = exts_spec(Lang::Toml)[j]@;
    assert forall|q: int| 0 <= q < 25 implies !claims(#[trigger] all_spec()[q], e) by {}
    assert(claims(all_spec()[25], e));
    lemma_first_claim(e, 25, 0);
}

proof fn lemma_maps_back_markdown(j: int)
    requires
        0 <= j < exts_spec(Lang::Markdown).len(),
    ensures
        find_lang(exts_spec(Lang::Markdown)[j]@, 0) == Some(Lang::Markdown),
{
    lemma_ext_chars();
    let e = exts_spec(Lang::Markdown)[j]@;
    assert forall|q: int| 0 <= q < 26 implies !claims(#[trigger] all_spec()[q], e) by {}
    assert(claims(all_spec()[26], e));
    lemma_first_claim(e, 26, 0);
}

proof fn lemma_maps_back_xml(j: int)
    requires
        0 <= j < exts_spec(Lang::Xml).len(),
    ensures
        find_lang(exts_spec(Lang::Xml)[j]@, 0) == Some(Lang::Xml),
{
    lemma_ext_chars();
    let e = exts_spec(Lang::Xml)[j]@;
    assert forall|q: int| 0 <= q < 27 implies !claims(#[trigger] all_spec()[q], e) by {}
    assert(claims(all_spec()[27], e));
    lemma_first_claim(e, 27, 0);
}

proof fn lemma_maps_back_c_make(j: int)
    requires
        0 <= j < exts_spec(Lang::CMake).len(),
    ensures
        find_lang(exts_spec(Lang::CMake)[j]@, 0) == Some(Lang::CMake),
{
    lemma_ext_chars();
    let e = exts_spec(Lang::CMake)[j]@;
    assert forall|q: int| 0 <= q < 28 implies !claims(#[trigger] all_spec()[q], e) by {}
    assert(claims(all_spec()[28], e));
    lemma_first_claim(e, 28, 0);
}

/// Every extension a language lists leads back to that language: no
/// language earlier in the table claims it.
pub proof fn law_extension_maps_back(l: Lang, j: int)
    requires
        0 <= j < exts_spec(l).len(),
    ensures
        find_lang(exts_spec(l)[j]@, 0) == Some(l),
{
    match l {
        Lang::Rust => lemma_maps_back_rust(j),
        Lang::Python => lemma_maps_back_python(j),
        Lang::JavaScript => lemma_maps_back_java_script(j),
        Lang::TypeScript => lemma_maps_back_type_script(j),
        Lang::Tsx => lemma_maps_back_tsx(j),
        Lang::C => lemma_maps_back_c(j),
        Lang::Cpp => lemma_maps_back_cpp(j),
        Lang::Go => lemma_maps_back_go(j),
        Lang::Bash => lemma_maps_back_bash(j),
        Lang::Json => lemma_maps_back_json(j),
        Lang::Java => lemma_maps_back_java(j),
        Lang::CSharp => lemma_maps_back_c_sharp(j),
        Lang::Ruby => lemma_maps_back_ruby(j),
        Lang::Lua => lemma_maps_back_lua(j),
        Lang::Swift => lemma_maps_back_swift(j),
        Lang::Php => lemma_maps_back_php(j),
        Lang::Zig => lemma_maps_back_zig(j),
        Lang::Scala => lemma_maps_back_scala(j),
        Lang::Haskell => lemma_maps_back_haskell(j),
        Lang::Elixir => lemma_maps_back_elixir(j),
        Lang::Dart => lemma_maps_back_dart(j),
        Lang::ObjC => lemma_maps_back_obj_c(j),
        Lang::Html => lemma_maps_back_html(j),
        Lang::Css => lemma_maps_back_css(j),
        Lang::Yaml => lemma_maps_back_yaml(j),
        Lang::Toml => lemma_maps_back_toml(j),
        Lang::Markdown => lemma_maps_back_markdown(j),
        Lang::Xml => lemma_maps_back_xml(j),
        Lang::CMake => lemma_maps_back_c_make(j),
    }
}

/// A character an extension is written with: a lowercase ASCII letter, a
/// digit, or `+`; none of them changes case and none is a dot.
pub open spec fn ext_char(c: char) -> bool {
    ('a' <= c && c <= 'z') || ('0' <= c && c <= '9') || c == '+'
}

/// Every extension a language claims is written in lowercase without its
/// dot: it is not empty and each of its characters is a lowercase letter, a
/// digit or `+`.
#[verifier::rlimit(100)]
pub proof fn law_extensions_are_bare_and_lowercase(l: Lang, j: int)
    requires
        0 <= j < exts_spec(l).len(),
    ensures
        exts_spec(l)[j]@.len() > 0,
        forall|k: int| 0 <= k < exts_spec(l)[j]@.len() ==> ext_char(#[trigger] exts_spec(l)[j]@[k]),
{
    lemma_ext_chars();
}

/// Every extension each language is known by leads back to it: `rs` to Rust,
/// `yaml` and `yml` to YAML, `h` to C, and so on for the whole list.
pub proof fn law_known_extensions()
    ensures
        find_lang("rs"@, 0) == Some(Lang::Rust),
        find_lang("py"@, 0) == Some(Lang::Python),
        find_lang("pyi"@, 0) == Some(Lang::Python),
        find_lang("pyw"@, 0) == Some(Lang::Python),
        find_lang("js"@, 0) == Some(Lang::JavaScript),
        find_lang("jsx"@, 0) == Some(Lang::JavaScript),
        find_lang("mjs"@, 0) == Some(Lang::JavaScript),
        find_lang("cjs"@, 0) == Some(Lang::JavaScript),
        find_lang("ts"@, 0) == Some(Lang::TypeScript),
        find_lang("mts"@, 0) == Some(Lang::TypeScript),
        find_lang("cts"@, 0) == Some(Lang::TypeScript),
        find_lang("tsx"@, 0) == Some(Lang::Tsx),
        find_lang("c"@, 0) == Some(Lang::C),
        find_lang("h"@, 0) == Some(Lang::C),
        find_lang("cpp"@, 0) == Some(Lang::Cpp),
        find_lang("cxx"@, 0) == Some(Lang::Cpp),
        find_lang("cc"@, 0) == Some(Lang::Cpp),
        find_lang("c++"@, 0) == Some(Lang::Cpp),
        find_lang("hpp"@, 0) == Some(Lang::Cpp),
        find_lang("hxx"@, 0) == Some(Lang::Cpp),
        find_lang("hh"@, 0) == Some(Lang::Cpp),
        find_lang("h++"@, 0) == Some(Lang::Cpp),
        find_lang("ipp"@, 0) == Some(Lang::Cpp),
        find_lang("tpp"@, 0) == Some(Lang::Cpp),
        find_lang("inl"@, 0) == Some(Lang::Cpp),
        find_lang("go"@, 0) == Some(Lang::Go),
        find_lang("sh"@, 0) == Some(Lang::Bash),
        find_lang("bash"@, 0) == Some(Lang::Bash),
        find_lang("zsh"@, 0) == Some(Lang::Bash),
        find_lang("ksh"@, 0) == Some(Lang::Bash),
        find_lang("json"@, 0) == Some(Lang::Json),
        find_lang("jsonc"@, 0) == Some(Lang::Json),
        find_lang("java"@, 0) == Some(Lang::Java),
        find_lang("cs"@, 0) == Some(Lang::CSharp),
        find_lang("csx"@, 0) == Some(Lang::CSharp),
        find_lang("rb"@, 0) == Some(Lang::Ruby),
        find_lang("rake"@, 0) == Some(Lang::Ruby),
        find_lang("gemspec"@, 0) == Some(Lang::Ruby),
        find_lang("ru"@, 0) == Some(Lang::Ruby),
        find_lang("lua"@, 0) == Some(Lang::Lua),
        find_lang("swift"@, 0) == Some(Lang::Swift),
        find_lang("php"@, 0) == Some(Lang::Php),
        find_lang("phtml"@, 0) == Some(Lang::Php),
        find_lang("zig"@, 0) == Some(Lang::Zig),
        find_lang("scala"@, 0) == Some(Lang::Scala),
        find_lang("sc"@, 0) == Some(Lang::Scala),
        find_lang("sbt"@, 0) == Some(Lang::Scala),
        find_lang("hs"@, 0) == Some(Lang::Haskell),
        find_lang("ex"@, 0) == Some(Lang::Elixir),
        find_lang("exs"@, 0) == Some(Lang::Elixir),
        find_lang("dart"@, 0) == Some(Lang::Dart),
        find_lang("m"@, 0) == Some(Lang::ObjC),
        find_lang("mm"@, 0) == Some(Lang::ObjC),
        find_lang("html"@, 0) == Some(Lang::Html),
        find_lang("htm"@, 0) == Some(Lang::Html),
        find_lang("xhtml"@, 0) == Some(Lang::Html),
        find_lang("css"@, 0) == Some(Lang::Css),
        find_lang("yaml"@, 0) == Some(Lang::Yaml),
        find_lang("yml"@, 0) == Some(Lang::Yaml),
        find_lang("toml"@, 0) == Some(Lang::Toml),
        find_lang("md"@, 0) == Some(Lang::Markdown),
        find_lang("markdown"@, 0) == Some(Lang::Markdown),
        find_lang("xml"@, 0) == Some(Lang::Xml),
        find_lang("xsd"@, 0) == Some(Lang::Xml),
        find_lang("xsl"@, 0) == Some(Lang::Xml),
        find_lang("xslt"@, 0) == Some(Lang::Xml),
        find_lang("svg"@, 0) == Some(Lang::Xml),
        find_lang("plist"@, 0) == Some(Lang::Xml),
        find_lang("cmake"@, 0) == Some(Lang::CMake),
{
    law_extension_maps_back(Lang::Rust, 0);
    law_extension_maps_back(Lang::Python, 0);
    law_extension_maps_back(Lang::Python, 1);
    law_extension_maps_back(Lang::Python, 2);
    law_extension_maps_back(Lang::JavaScript, 0);
    law_extension_maps_back(Lang::JavaScript, 1);
    law_extension_maps_back(Lang::JavaScript, 2);
    law_extension_maps_back(Lang::JavaScript, 3);
    law_extension_maps_back(Lang::TypeScript, 0);
    law_extension_maps_back(Lang::TypeScript, 1);
    law_extension_maps_back(Lang::TypeScript, 2);
    law_extension_maps_back(Lang::Tsx, 0);
    law_extension_maps_back(Lang::C, 0);
    law_extension_maps_back(Lang::C, 1);
    law_extension_maps_back(Lang::Cpp, 0);
    law_extension_maps_back(Lang::Cpp, 1);
    law_extension_maps_back(Lang::Cpp, 2);
    law_extension_maps_back(Lang::Cpp, 3);
    law_extension_maps_back(Lang::Cpp, 4);
    law_extension_maps_back(Lang::Cpp, 5);
    law_extension_maps_back(Lang::Cpp, 6);
    law_extension_maps_back(Lang::Cpp, 7);
    law_extension_maps_back(Lang::Cpp, 8);
    law_extension_maps_back(Lang::Cpp, 9);
    law_extension_maps_back(Lang::Cpp, 10);
    law_extension_maps_back(Lang::Go, 0);
    law_extension_maps_back(Lang::Bash, 0);
    law_extension_maps_back(Lang::Bash, 1);
    law_extension_maps_back(Lang::Bash, 2);
    law_extension_maps_back(Lang::Bash, 3);
    law_extension_maps_back(Lang::Json, 0);
    law_extension_maps_back(Lang::Json, 1);
    law_extension_maps_back(Lang::Java, 0);
    law_extension_maps_back(Lang::CSharp, 0);
    law_extension_maps_back(Lang::CSharp, 1);
    law_extension_maps_back(Lang::Ruby, 0);
    law_extension_maps_back(Lang::Ruby, 1);
    law_extension_maps_back(Lang::Ruby, 2);
    law_extension_maps_back(Lang::Ruby, 3);
    law_extension_maps_back(Lang::Lua, 0);
    law_extension_maps_back(Lang::Swift, 0);
    law_extension_maps_back(Lang::Php, 0);
    law_extension_maps_back(Lang::Php, 1);
    law_extension_maps_back(Lang::Zig, 0);
    law_extension_maps_back(Lang::Scala, 0);
    law_extension_maps_back(Lang::Scala, 1);
    law_extension_maps_back(Lang::Scala, 2);
    law_extension_maps_back(Lang::Haskell, 0);
    law_extension_maps_back(Lang::Elixir, 0);
    law_extension_maps_back(Lang::Elixir, 1);
    law_extension_maps_back(Lang::Dart, 0);
    law_extension_maps_back(Lang::ObjC, 0);
    law_extension_maps_back(Lang::ObjC, 1);
    law_extension_maps_back(Lang::Html, 0);
    law_extension_maps_back(Lang::Html, 1);
    law_extension_maps_back(Lang::Html, 2);
    law_extension_maps_back(Lang::Css, 0);
    law_extension_maps_back(Lang::Yaml, 0);
    law_extension_maps_back(Lang::Yaml, 1);
    law_extension_maps_back(Lang::Toml, 0);
    law_extension_maps_back(Lang::Markdown, 0);
    law_extension_maps_back(Lang::Markdown, 1);
    law_extension_maps_back(Lang::Xml, 0);
    law_extension_maps_back(Lang::Xml, 1);
    law_extension_maps_back(Lang::Xml, 2);
    law_extension_maps_back(Lang::Xml, 3);
    law_extension_maps_back(Lang::Xml, 4);
    law_extension_maps_back(Lang::Xml, 5);
    law_extension_maps_back(Lang::CMake, 0);
}

} // verus!
