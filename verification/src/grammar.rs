//! Each language's tree-sitter grammar and its highlight query, from the
//! grammar crates: the query is the language's layers joined in order.

use vstd::prelude::*;
use crate::lang::{Lang, QueryLayer, query_layers, query_layers_spec, objc_comment_and_string_rules};
use crate::text::push_str;

verus! {

/// A tree-sitter grammar, as the crates hand it over.
#[verifier::external_type_specification]
#[verifier::external_body]
pub struct ExLanguage(tree_sitter::Language);

/// The highlight query a grammar crate ships for `layer`.
pub uninterp spec fn layer_query(layer: QueryLayer) -> Seq<char>;

/// The text of one layer: the crate's query, or for the Objective-C
/// supplement the rules this editor adds.
pub open spec fn layer_text_spec(layer: QueryLayer) -> Seq<char> {
    if layer == QueryLayer::ObjCCommentsAndStrings {
        "(comment) @comment\n(string_literal) @string\n"@
    } else {
        layer_query(layer)
    }
}

/// Layers joined by newlines, in order.
pub open spec fn joined_query(ls: Seq<QueryLayer>) -> Seq<char>
    decreases ls.len(),
{
    if ls.len() == 0 {
        seq![]
    } else if ls.len() == 1 {
        layer_text_spec(ls[0])
    } else {
        joined_query(ls.drop_last()) + seq!['\n'] + layer_text_spec(ls.last())
    }
}

/// The languages whose grammar crates this build links: all but Scala and
/// Haskell.
pub open spec fn linked(l: Lang) -> bool {
    l != Lang::Scala && l != Lang::Haskell
}

/// `tree_sitter_rust::HIGHLIGHTS_QUERY`.
#[verifier::external_body]
fn rust_query() -> (s: &'static str)
    ensures
        s@ == layer_query(QueryLayer::Rust),
{
    tree_sitter_rust::HIGHLIGHTS_QUERY
}

/// `tree_sitter_python::HIGHLIGHTS_QUERY`.
#[verifier::external_body]
fn python_query() -> (s: &'static str)
    ensures
        s@ == layer_query(QueryLayer::Python),
{
    tree_sitter_python::HIGHLIGHTS_QUERY
}

/// `tree_sitter_javascript::HIGHLIGHT_QUERY`.
#[verifier::external_body]
fn java_script_query() -> (s: &'static str)
    ensures
        s@ == layer_query(QueryLayer::JavaScript),
{
    tree_sitter_javascript::HIGHLIGHT_QUERY
}

/// `tree_sitter_javascript::JSX_HIGHLIGHT_QUERY`.
#[verifier::external_body]
fn jsx_query() -> (s: &'static str)
    ensures
        s@ == layer_query(QueryLayer::Jsx),
{
    tree_sitter_javascript::JSX_HIGHLIGHT_QUERY
}

/// `tree_sitter_typescript::HIGHLIGHTS_QUERY`.
#[verifier::external_body]
fn type_script_query() -> (s: &'static str)
    ensures
        s@ == layer_query(QueryLayer::TypeScript),
{
    tree_sitter_typescript::HIGHLIGHTS_QUERY
}

/// `tree_sitter_c::HIGHLIGHT_QUERY`.
#[verifier::external_body]
fn c_query() -> (s: &'static str)
    ensures
        s@ == layer_query(QueryLayer::C),
{
    tree_sitter_c::HIGHLIGHT_QUERY
}

/// `tree_sitter_cpp::HIGHLIGHT_QUERY`.
#[verifier::external_body]
fn cpp_query() -> (s: &'static str)
    ensures
        s@ == layer_query(QueryLayer::Cpp),
{
    tree_sitter_cpp::HIGHLIGHT_QUERY
}

/// `tree_sitter_go::HIGHLIGHTS_QUERY`.
#[verifier::external_body]
fn go_query() -> (s: &'static str)
    ensures
        s@ == layer_query(QueryLayer::Go),
{
    tree_sitter_go::HIGHLIGHTS_QUERY
}

/// `tree_sitter_bash::HIGHLIGHT_QUERY`.
#[verifier::external_body]
fn bash_query() -> (s: &'static str)
    ensures
        s@ == layer_query(QueryLayer::Bash),
{
    tree_sitter_bash::HIGHLIGHT_QUERY
}

/// `tree_sitter_json::HIGHLIGHTS_QUERY`.
#[verifier::external_body]
fn json_query() -> (s: &'static str)
    ensures
        s@ == layer_query(QueryLayer::Json),
{
    tree_sitter_json::HIGHLIGHTS_QUERY
}

/// `tree_sitter_java::HIGHLIGHTS_QUERY`.
#[verifier::external_body]
fn java_query() -> (s: &'static str)
    ensures
        s@ == layer_query(QueryLayer::Java),
{
    tree_sitter_java::HIGHLIGHTS_QUERY
}

/// `tree_sitter_c_sharp::HIGHLIGHTS_QUERY`.
#[verifier::external_body]
fn c_sharp_query() -> (s: &'static str)
    ensures
        s@ == layer_query(QueryLayer::CSharp),
{
    tree_sitter_c_sharp::HIGHLIGHTS_QUERY
}

/// `tree_sitter_ruby::HIGHLIGHTS_QUERY`.
#[verifier::external_body]
fn ruby_query() -> (s: &'static str)
    ensures
        s@ == layer_query(QueryLayer::Ruby),
{
    tree_sitter_ruby::HIGHLIGHTS_QUERY
}

/// `tree_sitter_lua::HIGHLIGHTS_QUERY`.
#[verifier::external_body]
fn lua_query() -> (s: &'static str)
    ensures
        s@ == layer_query(QueryLayer::Lua),
{
    tree_sitter_lua::HIGHLIGHTS_QUERY
}

/// `tree_sitter_swift::HIGHLIGHTS_QUERY`.
#[verifier::external_body]
fn swift_query() -> (s: &'static str)
    ensures
        s@ == layer_query(QueryLayer::Swift),
{
    tree_sitter_swift::HIGHLIGHTS_QUERY
}

/// `tree_sitter_php::HIGHLIGHTS_QUERY`.
#[verifier::external_body]
fn php_query() -> (s: &'static str)
    ensures
        s@ == layer_query(QueryLayer::Php),
{
    tree_sitter_php::HIGHLIGHTS_QUERY
}

/// `tree_sitter_zig::HIGHLIGHTS_QUERY`.
#[verifier::external_body]
fn zig_query() -> (s: &'static str)
    ensures
        s@ == layer_query(QueryLayer::Zig),
{
    tree_sitter_zig::HIGHLIGHTS_QUERY
}

/// `tree_sitter_elixir::HIGHLIGHTS_QUERY`.
#[verifier::external_body]
fn elixir_query() -> (s: &'static str)
    ensures
        s@ == layer_query(QueryLayer::Elixir),
{
    tree_sitter_elixir::HIGHLIGHTS_QUERY
}

/// `tree_sitter_dart::HIGHLIGHTS_QUERY`.
#[verifier::external_body]
fn dart_query() -> (s: &'static str)
    ensures
        s@ == layer_query(QueryLayer::Dart),
{
    tree_sitter_dart::HIGHLIGHTS_QUERY
}

/// `tree_sitter_objc::HIGHLIGHTS_QUERY`.
#[verifier::external_body]
fn obj_c_query() -> (s: &'static str)
    ensures
        s@ == layer_query(QueryLayer::ObjC),
{
    tree_sitter_objc::HIGHLIGHTS_QUERY
}

/// `tree_sitter_html::HIGHLIGHTS_QUERY`.
#[verifier::external_body]
fn html_query() -> (s: &'static str)
    ensures
        s@ == layer_query(QueryLayer::Html),
{
    tree_sitter_html::HIGHLIGHTS_QUERY
}

/// `tree_sitter_css::HIGHLIGHTS_QUERY`.
#[verifier::external_body]
fn css_query() -> (s: &'static str)
    ensures
        s@ == layer_query(QueryLayer::Css),
{
    tree_sitter_css::HIGHLIGHTS_QUERY
}

/// `tree_sitter_yaml::HIGHLIGHTS_QUERY`.
#[verifier::external_body]
fn yaml_query() -> (s: &'static str)
    ensures
        s@ == layer_query(QueryLayer::Yaml),
{
    tree_sitter_yaml::HIGHLIGHTS_QUERY
}

/// `tree_sitter_toml_ng::HIGHLIGHTS_QUERY`.
#[verifier::external_body]
fn toml_query() -> (s: &'static str)
    ensures
        s@ == layer_query(QueryLayer::Toml),
{
    tree_sitter_toml_ng::HIGHLIGHTS_QUERY
}

/// `tree_sitter_md::HIGHLIGHT_QUERY_BLOCK`.
#[verifier::external_body]
fn markdown_block_query() -> (s: &'static str)
    ensures
        s@ == layer_query(QueryLayer::MarkdownBlock),
{
    tree_sitter_md::HIGHLIGHT_QUERY_BLOCK
}

/// `tree_sitter_xml::XML_HIGHLIGHT_QUERY`.
#[verifier::external_body]
fn xml_query() -> (s: &'static str)
    ensures
        s@ == layer_query(QueryLayer::Xml),
{
    tree_sitter_xml::XML_HIGHLIGHT_QUERY
}

/// `tree_sitter_cmake::HIGHLIGHTS_QUERY`.
#[verifier::external_body]
fn c_make_query() -> (s: &'static str)
    ensures
        s@ == layer_query(QueryLayer::CMake),
{
    tree_sitter_cmake::HIGHLIGHTS_QUERY
}

/// `tree_sitter_rust::LANGUAGE` as a `Language`.
#[verifier::external_body]
fn rust_language() -> tree_sitter::Language {
    tree_sitter_rust::LANGUAGE.into()
}

/// `tree_sitter_python::LANGUAGE` as a `Language`.
#[verifier::external_body]
fn python_language() -> tree_sitter::Language {
    tree_sitter_python::LANGUAGE.into()
}

/// `tree_sitter_javascript::LANGUAGE` as a `Language`.
#[verifier::external_body]
fn java_script_language() -> tree_sitter::Language {
    tree_sitter_javascript::LANGUAGE.into()
}

/// `tree_sitter_typescript::LANGUAGE_TYPESCRIPT` as a `Language`.
#[verifier::external_body]
fn type_script_language() -> tree_sitter::Language {
    tree_sitter_typescript::LANGUAGE_TYPESCRIPT.into()
}

/// `tree_sitter_typescript::LANGUAGE_TSX` as a `Language`.
#[verifier::external_body]
fn tsx_language() -> tree_sitter::Language {
    tree_sitter_typescript::LANGUAGE_TSX.into()
}

/// `tree_sitter_c::LANGUAGE` as a `Language`.
#[verifier::external_body]
fn c_language() -> tree_sitter::Language {
    tree_sitter_c::LANGUAGE.into()
}

/// `tree_sitter_cpp::LANGUAGE` as a `Language`.
#[verifier::external_body]
fn cpp_language() -> tree_sitter::Language {
    tree_sitter_cpp::LANGUAGE.into()
}

/// `tree_sitter_go::LANGUAGE` as a `Language`.
#[verifier::external_body]
fn go_language() -> tree_sitter::Language {
    tree_sitter_go::LANGUAGE.into()
}

/// `tree_sitter_bash::LANGUAGE` as a `Language`.
#[verifier::external_body]
fn bash_language() -> tree_sitter::Language {
    tree_sitter_bash::LANGUAGE.into()
}

/// `tree_sitter_json::LANGUAGE` as a `Language`.
#[verifier::external_body]
fn json_language() -> tree_sitter::Language {
    tree_sitter_json::LANGUAGE.into()
}

/// `tree_sitter_java::LANGUAGE` as a `Language`.
#[verifier::external_body]
fn java_language() -> tree_sitter::Language {
    tree_sitter_java::LANGUAGE.into()
}

/// `tree_sitter_c_sharp::LANGUAGE` as a `Language`.
#[verifier::external_body]
fn c_sharp_language() -> tree_sitter::Language {
    tree_sitter_c_sharp::LANGUAGE.into()
}

/// `tree_sitter_ruby::LANGUAGE` as a `Language`.
#[verifier::external_body]
fn ruby_language() -> tree_sitter::Language {
    tree_sitter_ruby::LANGUAGE.into()
}

/// `tree_sitter_lua::LANGUAGE` as a `Language`.
#[verifier::external_body]
fn lua_language() -> tree_sitter::Language {
    tree_sitter_lua::LANGUAGE.into()
}

/// `tree_sitter_swift::LANGUAGE` as a `Language`.
#[verifier::external_body]
fn swift_language() -> tree_sitter::Language {
    tree_sitter_swift::LANGUAGE.into()
}

/// `tree_sitter_php::LANGUAGE_PHP` as a `Language`.
#[verifier::external_body]
fn php_language() -> tree_sitter::Language {
    tree_sitter_php::LANGUAGE_PHP.into()
}

/// `tree_sitter_zig::LANGUAGE` as a `Language`.
#[verifier::external_body]
fn zig_language() -> tree_sitter::Language {
    tree_sitter_zig::LANGUAGE.into()
}

/// `tree_sitter_elixir::LANGUAGE` as a `Language`.
#[verifier::external_body]
fn elixir_language() -> tree_sitter::Language {
    tree_sitter_elixir::LANGUAGE.into()
}

/// `tree_sitter_dart::LANGUAGE` as a `Language`.
#[verifier::external_body]
fn dart_language() -> tree_sitter::Language {
    tree_sitter_dart::LANGUAGE.into()
}

/// `tree_sitter_objc::LANGUAGE` as a `Language`.
#[verifier::external_body]
fn obj_c_language() -> tree_sitter::Language {
    tree_sitter_objc::LANGUAGE.into()
}

/// `tree_sitter_html::LANGUAGE` as a `Language`.
#[verifier::external_body]
fn html_language() -> tree_sitter::Language {
    tree_sitter_html::LANGUAGE.into()
}

/// `tree_sitter_css::LANGUAGE` as a `Language`.
#[verifier::external_body]
fn css_language() -> tree_sitter::Language {
    tree_sitter_css::LANGUAGE.into()
}

/// `tree_sitter_yaml::LANGUAGE` as a `Language`.
#[verifier::external_body]
fn yaml_language() -> tree_sitter::Language {
    tree_sitter_yaml::LANGUAGE.into()
}

/// `tree_sitter_toml_ng::LANGUAGE` as a `Language`.
#[verifier::external_body]
fn toml_language() -> tree_sitter::Language {
    tree_sitter_toml_ng::LANGUAGE.into()
}

/// `tree_sitter_md::LANGUAGE` as a `Language`.
#[verifier::external_body]
fn markdown_language() -> tree_sitter::Language {
    tree_sitter_md::LANGUAGE.into()
}

/// `tree_sitter_xml::LANGUAGE_XML` as a `Language`.
#[verifier::external_body]
fn xml_language() -> tree_sitter::Language {
    tree_sitter_xml::LANGUAGE_XML.into()
}

/// `tree_sitter_cmake::LANGUAGE` as a `Language`.
#[verifier::external_body]
fn c_make_language() -> tree_sitter::Language {
    tree_sitter_cmake::LANGUAGE.into()
}

/// The text of one layer; nothing for a layer whose crate is not linked.
fn layer_text(layer: QueryLayer) -> (r: Option<&'static str>)
    ensures
        r is Some <==> (layer != QueryLayer::Scala && layer != QueryLayer::Haskell),
        r matches Some(s) ==> s@ == layer_text_spec(layer),
{
    match layer {
        QueryLayer::Rust => Some(rust_query()),
        QueryLayer::Python => Some(python_query()),
        QueryLayer::JavaScript => Some(java_script_query()),
        QueryLayer::Jsx => Some(jsx_query()),
        QueryLayer::TypeScript => Some(type_script_query()),
        QueryLayer::C => Some(c_query()),
        QueryLayer::Cpp => Some(cpp_query()),
        QueryLayer::Go => Some(go_query()),
        QueryLayer::Bash => Some(bash_query()),
        QueryLayer::Json => Some(json_query()),
        QueryLayer::Java => Some(java_query()),
        QueryLayer::CSharp => Some(c_sharp_query()),
        QueryLayer::Ruby => Some(ruby_query()),
        QueryLayer::Lua => Some(lua_query()),
        QueryLayer::Swift => Some(swift_query()),
        QueryLayer::Php => Some(php_query()),
        QueryLayer::Zig => Some(zig_query()),
        QueryLayer::Elixir => Some(elixir_query()),
        QueryLayer::Dart => Some(dart_query()),
        QueryLayer::ObjC => Some(obj_c_query()),
        QueryLayer::Html => Some(html_query()),
        QueryLayer::Css => Some(css_query()),
        QueryLayer::Yaml => Some(yaml_query()),
        QueryLayer::Toml => Some(toml_query()),
        QueryLayer::MarkdownBlock => Some(markdown_block_query()),
        QueryLayer::Xml => Some(xml_query()),
        QueryLayer::CMake => Some(c_make_query()),
        QueryLayer::ObjCCommentsAndStrings => Some(objc_comment_and_string_rules()),
        QueryLayer::Scala | QueryLayer::Haskell => None,
    }
}

pub(crate) fn language_of(lang: Lang) -> (r: Option<tree_sitter::Language>)
    ensures
        r is Some <==> linked(lang),
{
    match lang {
        Lang::Rust => Some(rust_language()),
        Lang::Python => Some(python_language()),
        Lang::JavaScript => Some(java_script_language()),
        Lang::TypeScript => Some(type_script_language()),
        Lang::Tsx => Some(tsx_language()),
        Lang::C => Some(c_language()),
        Lang::Cpp => Some(cpp_language()),
        Lang::Go => Some(go_language()),
        Lang::Bash => Some(bash_language()),
        Lang::Json => Some(json_language()),
        Lang::Java => Some(java_language()),
        Lang::CSharp => Some(c_sharp_language()),
        Lang::Ruby => Some(ruby_language()),
        Lang::Lua => Some(lua_language()),
        Lang::Swift => Some(swift_language()),
        Lang::Php => Some(php_language()),
        Lang::Zig => Some(zig_language()),
        Lang::Elixir => Some(elixir_language()),
        Lang::Dart => Some(dart_language()),
        Lang::ObjC => Some(obj_c_language()),
        Lang::Html => Some(html_language()),
        Lang::Css => Some(css_language()),
        Lang::Yaml => Some(yaml_language()),
        Lang::Toml => Some(toml_language()),
        Lang::Markdown => Some(markdown_language()),
        Lang::Xml => Some(xml_language()),
        Lang::CMake => Some(c_make_language()),
        Lang::Scala | Lang::Haskell => None,
    }
}

impl Lang {
    /// The grammar and its highlight query: the language's query layers,
    /// overlays last, joined by newlines. Nothing for a language whose
    /// grammar crate is not linked.
    pub fn grammar(self) -> (r: Option<(tree_sitter::Language, String)>)
        ensures
            r is Some <==> linked(self),
            r matches Some((_, q)) ==> q@ == joined_query(query_layers_spec(self)),
    {
        let language = match language_of(self) {
            Some(l) => l,
            None => return None,
        };
        let layers = query_layers(self);
        proof {
            crate::lang::law_overlay_after_base(self);
            assert(layers@.len() > 0);
        }
        let mut query = String::new();
        let mut k: usize = 0;
        while k < layers.len()
            invariant
                k <= layers@.len(),
                layers@ == query_layers_spec(self),
                linked(self),
                forall|i: int| 0 <= i < layers@.len() ==> #[trigger] layers@[i] != QueryLayer::Scala && layers@[i] != QueryLayer::Haskell,
                query@ == joined_query(layers@.take(k as int)),
            decreases layers@.len() - k,
        {
            assert(layers@.take(k + 1).drop_last() =~= layers@.take(k as int));
            let text = match layer_text(layers[k]) {
                Some(t) => t,
                None => return None,
            };
            if k > 0 {
                push_str(&mut query, "\n");
                proof {
                    reveal_strlit("\n");
                }
            } else {
                assert(query@ =~= Seq::<char>::empty());
            }
            push_str(&mut query, text);
            assert(query@ =~= joined_query(layers@.take(k + 1)));
            k += 1;
        }
        assert(layers@.take(layers@.len() as int) =~= layers@);
        Some((language, query))
    }
}

} // verus!
