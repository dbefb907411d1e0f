//! Lexical scope: the languages the scope walk knows, the node kinds that
//! open a scope in each, and the rules by which a node declares names.
//!
//! Each language is data: a list of scope node kinds and a table of
//! declaration rules, each rule naming a node kind, where its name is found,
//! what kind of symbol it declares and where its type is written.

use vstd::prelude::*;
use crate::text::{
    str_eq, own, chars_are, starts_with, slice_vec, has_prefix, trimmed, trim_chars, lead_spaces,
    trim_start_chars, utf8_len, utf8_at_least,
};
use crate::syntax::{SyntaxTree, text_at, node_text, names, names_kind};

verus! {

#[derive(Debug, Clone, Copy, PartialEq, Eq, Structural)]
pub enum SymbolKind {
    Function,
    /// A function with a receiver, or one declared in a type's body.
    Method,
    Variable,
    Parameter,
    Type,
    Constant,
    Module,
}

pub open spec fn kind_detail(k: SymbolKind) -> &'static str {
    match k {
        SymbolKind::Function => "fn",
        SymbolKind::Method => "method",
        SymbolKind::Variable => "let",
        SymbolKind::Parameter => "param",
        SymbolKind::Type => "type",
        SymbolKind::Constant => "const",
        SymbolKind::Module => "mod",
    }
}

impl SymbolKind {
    /// Short label for the completion popup's detail column.
    pub fn detail(self) -> (s: &'static str)
        ensures
            s == kind_detail(self),
    {
        match self {
            SymbolKind::Function => "fn",
            SymbolKind::Method => "method",
            SymbolKind::Variable => "let",
            SymbolKind::Parameter => "param",
            SymbolKind::Type => "type",
            SymbolKind::Constant => "const",
            SymbolKind::Module => "mod",
        }
    }
}

/// A name visible at the caret.
#[derive(Debug, Clone)]
pub struct ScopeSymbol {
    pub name: String,
    pub kind: SymbolKind,
    /// The declared type, verbatim, when the grammar gives one.
    pub ty: Option<String>,
    /// Declared at file level.
    pub global: bool,
    /// How many scopes out from the caret it was found.
    pub depth: usize,
}

impl ScopeSymbol {
    /// The type when there is one, else what kind of thing this is.
    pub fn detail(&self) -> (s: String)
        ensures
            s@ == match self.ty {
                Some(t) => t@,
                None => kind_detail(self.kind)@,
            },
    {
        match &self.ty {
            Some(t) => own(t.as_str()),
            None => own(self.kind.detail()),
        }
    }
}

/// Languages the scope walk knows.
#[derive(Debug, Clone, Copy, PartialEq, Eq, Structural)]
pub enum ScopeLang {
    Rust,
    Python,
    JavaScript,
    TypeScript,
    C,
    Cpp,
    Go,
    Java,
    CSharp,
    Ruby,
    Lua,
    Swift,
    Php,
    Zig,
    Dart,
    ObjC,
}

/// The parameter lists whose bare identifiers are parameters.
#[derive(Debug, Clone, Copy, PartialEq, Eq, Structural)]
pub enum ParentKinds {
    /// `parameters`, `lambda_parameters`.
    PythonParameters,
    /// `formal_parameters`.
    FormalParameters,
    /// `method_parameters`, `block_parameters`, `lambda_parameters`.
    RubyParameters,
    /// `parameters`.
    Parameters,
}

pub open spec fn parent_kinds_spec(p: ParentKinds) -> Seq<&'static str> {
    match p {
        ParentKinds::PythonParameters => seq!["parameters", "lambda_parameters"],
        ParentKinds::FormalParameters => seq!["formal_parameters"],
        ParentKinds::RubyParameters => seq!["method_parameters", "block_parameters", "lambda_parameters"],
        ParentKinds::Parameters => seq!["parameters"],
    }
}

impl ParentKinds {
    pub fn kinds(self) -> (v: Vec<&'static str>)
        ensures
            v@ == parent_kinds_spec(self),
    {
        let mut v: Vec<&'static str> = Vec::new();
        match self {
            ParentKinds::PythonParameters => {
                v.push("parameters");
                v.push("lambda_parameters");
            },
            ParentKinds::FormalParameters => {
                v.push("formal_parameters");
            },
            ParentKinds::RubyParameters => {
                v.push("method_parameters");
                v.push("block_parameters");
                v.push("lambda_parameters");
            },
            ParentKinds::Parameters => {
                v.push("parameters");
            },
        }
        assert(v@ =~= parent_kinds_spec(self));
        v
    }
}

/// Where a rule finds the name or names a node declares.
#[derive(Debug, Clone, Copy, PartialEq, Eq)]
pub enum Bind {
    /// The child in this field is the identifier.
    Field(&'static str),
    /// The child in this field is a pattern: every identifier under it is
    /// bound (`__self__`: the node itself is the pattern).
    Pattern(&'static str),
    /// C-family: the child in this field is a declarator; the identifier is
    /// at its centre.
    Declarator(&'static str),
    /// C-family declarations: one or more declarators as direct children.
    DeclaratorChildren,
    /// The node is the identifier, and counts when its parent is one of
    /// these kinds.
    SelfWhenParent(ParentKinds),
    /// The first direct child that is a bare identifier.
    FirstIdentifierChild,
    /// The nearest `name` field above the body.
    BuriedName,
}

/// Where a rule finds the declared type.
#[derive(Debug, Clone, Copy, PartialEq, Eq)]
pub enum Ty {
    /// The grammar records no type here.
    Absent,
    /// A field of the declaring node.
    Own(&'static str),
    /// A field of its parent.
    Parent(&'static str),
}

/// A declaration rule: nodes of `kind` declare `sym`s, found by `bind`,
/// typed by `ty`.
#[derive(Debug, Clone, Copy, PartialEq, Eq)]
pub struct DeclRule {
    pub kind: &'static str,
    pub bind: Bind,
    pub sym: SymbolKind,
    pub ty: Ty,
}

/// The node kinds that open a scope in each language.
pub open spec fn scope_kinds_spec(l: ScopeLang) -> Seq<&'static str> {
    match l {
        ScopeLang::Rust => seq!["block", "function_item", "closure_expression", "mod_item", "impl_item", "trait_item"],
        ScopeLang::Python => seq!["function_definition", "class_definition", "lambda"],
        ScopeLang::JavaScript | ScopeLang::TypeScript => seq!["statement_block", "function_declaration", "function_expression", "arrow_function", "method_definition", "class_body"],
        ScopeLang::C => seq!["compound_statement", "function_definition"],
        ScopeLang::Cpp => seq!["compound_statement", "function_definition", "namespace_definition", "class_specifier", "struct_specifier", "lambda_expression", "template_declaration"],
        ScopeLang::Go => seq!["block", "function_declaration", "method_declaration", "func_literal"],
        ScopeLang::Java => seq!["block", "class_body", "interface_body", "enum_body", "method_declaration", "constructor_declaration", "lambda_expression"],
        ScopeLang::CSharp => seq!["block", "declaration_list", "method_declaration", "constructor_declaration", "local_function_statement", "lambda_expression"],
        ScopeLang::Ruby => seq!["method", "singleton_method", "class", "singleton_class", "module", "block", "do_block", "lambda"],
        ScopeLang::Lua => seq!["block", "function_declaration", "function_definition", "for_statement"],
        ScopeLang::Swift => seq!["function_body", "statements", "class_body", "protocol_body", "function_declaration", "lambda_literal"],
        ScopeLang::Php => seq!["compound_statement", "function_definition", "method_declaration", "declaration_list", "anonymous_function_creation_expression", "namespace_definition"],
        ScopeLang::Zig => seq!["block", "function_declaration"],
        ScopeLang::Dart => seq!["block", "function_body", "class_body", "function_declaration", "method_declaration"],
        ScopeLang::ObjC => seq!["compound_statement", "function_definition", "class_interface", "class_implementation"],
    }
}

/// Kinds whose direct functions are methods.
pub open spec fn method_owner_kinds_spec(l: ScopeLang) -> Seq<&'static str> {
    match l {
        ScopeLang::Swift => seq!["class_body", "protocol_body"],
        _ => seq![],
    }
}

/// The declaration rules of each language.
pub open spec fn rules_spec(l: ScopeLang) -> Seq<DeclRule> {
    match l {
        ScopeLang::Rust => seq![
            DeclRule { kind: "function_item", bind: Bind::Field("name"), sym: SymbolKind::Function, ty: Ty::Absent },
            DeclRule { kind: "let_declaration", bind: Bind::Pattern("pattern"), sym: SymbolKind::Variable, ty: Ty::Own("type") },
            DeclRule { kind: "parameter", bind: Bind::Pattern("pattern"), sym: SymbolKind::Parameter, ty: Ty::Own("type") },
            DeclRule { kind: "const_item", bind: Bind::Field("name"), sym: SymbolKind::Constant, ty: Ty::Own("type") },
            DeclRule { kind: "static_item", bind: Bind::Field("name"), sym: SymbolKind::Constant, ty: Ty::Own("type") },
            DeclRule { kind: "struct_item", bind: Bind::Field("name"), sym: SymbolKind::Type, ty: Ty::Absent },
            DeclRule { kind: "enum_item", bind: Bind::Field("name"), sym: SymbolKind::Type, ty: Ty::Absent },
            DeclRule { kind: "trait_item", bind: Bind::Field("name"), sym: SymbolKind::Type, ty: Ty::Absent },
            DeclRule { kind: "type_item", bind: Bind::Field("name"), sym: SymbolKind::Type, ty: Ty::Absent },
            DeclRule { kind: "union_item", bind: Bind::Field("name"), sym: SymbolKind::Type, ty: Ty::Absent },
            DeclRule { kind: "mod_item", bind: Bind::Field("name"), sym: SymbolKind::Module, ty: Ty::Absent },
        ],
        ScopeLang::Python => seq![
            DeclRule { kind: "function_definition", bind: Bind::Field("name"), sym: SymbolKind::Function, ty: Ty::Absent },
            DeclRule { kind: "class_definition", bind: Bind::Field("name"), sym: SymbolKind::Type, ty: Ty::Absent },
            DeclRule { kind: "assignment", bind: Bind::Pattern("left"), sym: SymbolKind::Variable, ty: Ty::Own("type") },
            DeclRule { kind: "identifier", bind: Bind::SelfWhenParent(ParentKinds::PythonParameters), sym: SymbolKind::Parameter, ty: Ty::Absent },
            DeclRule { kind: "typed_parameter", bind: Bind::Pattern("__self__"), sym: SymbolKind::Parameter, ty: Ty::Own("type") },
            DeclRule { kind: "default_parameter", bind: Bind::Field("name"), sym: SymbolKind::Parameter, ty: Ty::Absent },
        ],
        ScopeLang::JavaScript | ScopeLang::TypeScript => seq![
            DeclRule { kind: "function_declaration", bind: Bind::Field("name"), sym: SymbolKind::Function, ty: Ty::Absent },
            DeclRule { kind: "generator_function_declaration", bind: Bind::Field("name"), sym: SymbolKind::Function, ty: Ty::Absent },
            DeclRule { kind: "method_definition", bind: Bind::Field("name"), sym: SymbolKind::Method, ty: Ty::Absent },
            DeclRule { kind: "class_declaration", bind: Bind::Field("name"), sym: SymbolKind::Type, ty: Ty::Absent },
            DeclRule { kind: "interface_declaration", bind: Bind::Field("name"), sym: SymbolKind::Type, ty: Ty::Absent },
            DeclRule { kind: "type_alias_declaration", bind: Bind::Field("name"), sym: SymbolKind::Type, ty: Ty::Absent },
            DeclRule { kind: "enum_declaration", bind: Bind::Field("name"), sym: SymbolKind::Type, ty: Ty::Absent },
            DeclRule { kind: "variable_declarator", bind: Bind::Pattern("name"), sym: SymbolKind::Variable, ty: Ty::Own("type") },
            DeclRule { kind: "required_parameter", bind: Bind::Pattern("pattern"), sym: SymbolKind::Parameter, ty: Ty::Own("type") },
            DeclRule { kind: "optional_parameter", bind: Bind::Pattern("pattern"), sym: SymbolKind::Parameter, ty: Ty::Own("type") },
            DeclRule { kind: "identifier", bind: Bind::SelfWhenParent(ParentKinds::FormalParameters), sym: SymbolKind::Parameter, ty: Ty::Absent },
        ],
        ScopeLang::C => seq![
            DeclRule { kind: "function_definition", bind: Bind::Declarator("declarator"), sym: SymbolKind::Function, ty: Ty::Own("type") },
            DeclRule { kind: "declaration", bind: Bind::DeclaratorChildren, sym: SymbolKind::Variable, ty: Ty::Own("type") },
            DeclRule { kind: "parameter_declaration", bind: Bind::Declarator("declarator"), sym: SymbolKind::Parameter, ty: Ty::Own("type") },
            DeclRule { kind: "type_definition", bind: Bind::Field("name"), sym: SymbolKind::Type, ty: Ty::Absent },
            DeclRule { kind: "enum_specifier", bind: Bind::Field("name"), sym: SymbolKind::Type, ty: Ty::Absent },
            DeclRule { kind: "struct_specifier", bind: Bind::Field("name"), sym: SymbolKind::Type, ty: Ty::Absent },
            DeclRule { kind: "union_specifier", bind: Bind::Field("name"), sym: SymbolKind::Type, ty: Ty::Absent },
        ],
        ScopeLang::Cpp => seq![
            DeclRule { kind: "function_definition", bind: Bind::Declarator("declarator"), sym: SymbolKind::Function, ty: Ty::Own("type") },
            DeclRule { kind: "declaration", bind: Bind::DeclaratorChildren, sym: SymbolKind::Variable, ty: Ty::Own("type") },
            DeclRule { kind: "parameter_declaration", bind: Bind::Declarator("declarator"), sym: SymbolKind::Parameter, ty: Ty::Own("type") },
            DeclRule { kind: "optional_parameter_declaration", bind: Bind::Declarator("declarator"), sym: SymbolKind::Parameter, ty: Ty::Own("type") },
            DeclRule { kind: "field_declaration", bind: Bind::DeclaratorChildren, sym: SymbolKind::Variable, ty: Ty::Own("type") },
            DeclRule { kind: "class_specifier", bind: Bind::Field("name"), sym: SymbolKind::Type, ty: Ty::Absent },
            DeclRule { kind: "struct_specifier", bind: Bind::Field("name"), sym: SymbolKind::Type, ty: Ty::Absent },
            DeclRule { kind: "union_specifier", bind: Bind::Field("name"), sym: SymbolKind::Type, ty: Ty::Absent },
            DeclRule { kind: "enum_specifier", bind: Bind::Field("name"), sym: SymbolKind::Type, ty: Ty::Absent },
            DeclRule { kind: "type_definition", bind: Bind::Field("name"), sym: SymbolKind::Type, ty: Ty::Absent },
            DeclRule { kind: "alias_declaration", bind: Bind::Field("name"), sym: SymbolKind::Type, ty: Ty::Absent },
            DeclRule { kind: "namespace_definition", bind: Bind::Field("name"), sym: SymbolKind::Module, ty: Ty::Absent },
            DeclRule { kind: "type_parameter_declaration", bind: Bind::Pattern("__self__"), sym: SymbolKind::Type, ty: Ty::Absent },
        ],
        ScopeLang::Go => seq![
            DeclRule { kind: "function_declaration", bind: Bind::Field("name"), sym: SymbolKind::Function, ty: Ty::Absent },
            DeclRule { kind: "method_declaration", bind: Bind::Field("name"), sym: SymbolKind::Method, ty: Ty::Absent },
            DeclRule { kind: "type_spec", bind: Bind::Field("name"), sym: SymbolKind::Type, ty: Ty::Absent },
            DeclRule { kind: "short_var_declaration", bind: Bind::Pattern("left"), sym: SymbolKind::Variable, ty: Ty::Absent },
            DeclRule { kind: "var_spec", bind: Bind::Field("name"), sym: SymbolKind::Variable, ty: Ty::Own("type") },
            DeclRule { kind: "const_spec", bind: Bind::Field("name"), sym: SymbolKind::Constant, ty: Ty::Own("type") },
            DeclRule { kind: "parameter_declaration", bind: Bind::Field("name"), sym: SymbolKind::Parameter, ty: Ty::Own("type") },
        ],
        ScopeLang::Java => seq![
            DeclRule { kind: "method_declaration", bind: Bind::Field("name"), sym: SymbolKind::Method, ty: Ty::Own("type") },
            DeclRule { kind: "constructor_declaration", bind: Bind::Field("name"), sym: SymbolKind::Method, ty: Ty::Absent },
            DeclRule { kind: "class_declaration", bind: Bind::Field("name"), sym: SymbolKind::Type, ty: Ty::Absent },
            DeclRule { kind: "interface_declaration", bind: Bind::Field("name"), sym: SymbolKind::Type, ty: Ty::Absent },
            DeclRule { kind: "enum_declaration", bind: Bind::Field("name"), sym: SymbolKind::Type, ty: Ty::Absent },
            DeclRule { kind: "record_declaration", bind: Bind::Field("name"), sym: SymbolKind::Type, ty: Ty::Absent },
            DeclRule { kind: "annotation_type_declaration", bind: Bind::Field("name"), sym: SymbolKind::Type, ty: Ty::Absent },
            DeclRule { kind: "variable_declarator", bind: Bind::Field("name"), sym: SymbolKind::Variable, ty: Ty::Parent("type") },
            DeclRule { kind: "formal_parameter", bind: Bind::Field("name"), sym: SymbolKind::Parameter, ty: Ty::Own("type") },
            DeclRule { kind: "catch_formal_parameter", bind: Bind::Field("name"), sym: SymbolKind::Parameter, ty: Ty::Absent },
        ],
        ScopeLang::CSharp => seq![
            DeclRule { kind: "method_declaration", bind: Bind::Field("name"), sym: SymbolKind::Method, ty: Ty::Own("type") },
            DeclRule { kind: "constructor_declaration", bind: Bind::Field("name"), sym: SymbolKind::Method, ty: Ty::Absent },
            DeclRule { kind: "property_declaration", bind: Bind::Field("name"), sym: SymbolKind::Variable, ty: Ty::Own("type") },
            DeclRule { kind: "local_function_statement", bind: Bind::Field("name"), sym: SymbolKind::Function, ty: Ty::Absent },
            DeclRule { kind: "class_declaration", bind: Bind::Field("name"), sym: SymbolKind::Type, ty: Ty::Absent },
            DeclRule { kind: "struct_declaration", bind: Bind::Field("name"), sym: SymbolKind::Type, ty: Ty::Absent },
            DeclRule { kind: "interface_declaration", bind: Bind::Field("name"), sym: SymbolKind::Type, ty: Ty::Absent },
            DeclRule { kind: "record_declaration", bind: Bind::Field("name"), sym: SymbolKind::Type, ty: Ty::Absent },
            DeclRule { kind: "enum_declaration", bind: Bind::Field("name"), sym: SymbolKind::Type, ty: Ty::Absent },
            DeclRule { kind: "delegate_declaration", bind: Bind::Field("name"), sym: SymbolKind::Type, ty: Ty::Absent },
            DeclRule { kind: "namespace_declaration", bind: Bind::Field("name"), sym: SymbolKind::Module, ty: Ty::Absent },
            DeclRule { kind: "variable_declarator", bind: Bind::Field("name"), sym: SymbolKind::Variable, ty: Ty::Parent("type") },
            DeclRule { kind: "parameter", bind: Bind::Field("name"), sym: SymbolKind::Parameter, ty: Ty::Own("type") },
        ],
        ScopeLang::Ruby => seq![
            DeclRule { kind: "method", bind: Bind::Field("name"), sym: SymbolKind::Method, ty: Ty::Absent },
            DeclRule { kind: "singleton_method", bind: Bind::Field("name"), sym: SymbolKind::Method, ty: Ty::Absent },
            DeclRule { kind: "class", bind: Bind::Field("name"), sym: SymbolKind::Type, ty: Ty::Absent },
            DeclRule { kind: "module", bind: Bind::Field("name"), sym: SymbolKind::Module, ty: Ty::Absent },
            DeclRule { kind: "assignment", bind: Bind::Pattern("left"), sym: SymbolKind::Variable, ty: Ty::Absent },
            DeclRule { kind: "identifier", bind: Bind::SelfWhenParent(ParentKinds::RubyParameters), sym: SymbolKind::Parameter, ty: Ty::Absent },
            DeclRule { kind: "optional_parameter", bind: Bind::Field("name"), sym: SymbolKind::Parameter, ty: Ty::Absent },
            DeclRule { kind: "keyword_parameter", bind: Bind::Field("name"), sym: SymbolKind::Parameter, ty: Ty::Absent },
            DeclRule { kind: "splat_parameter", bind: Bind::Field("name"), sym: SymbolKind::Parameter, ty: Ty::Absent },
        ],
        ScopeLang::Lua => seq![
            DeclRule { kind: "function_declaration", bind: Bind::Field("name"), sym: SymbolKind::Function, ty: Ty::Absent },
            DeclRule { kind: "variable_declaration", bind: Bind::Pattern("__self__"), sym: SymbolKind::Variable, ty: Ty::Absent },
            DeclRule { kind: "identifier", bind: Bind::SelfWhenParent(ParentKinds::Parameters), sym: SymbolKind::Parameter, ty: Ty::Absent },
        ],
        ScopeLang::Swift => seq![
            DeclRule { kind: "function_declaration", bind: Bind::Field("name"), sym: SymbolKind::Function, ty: Ty::Absent },
            DeclRule { kind: "class_declaration", bind: Bind::Field("name"), sym: SymbolKind::Type, ty: Ty::Absent },
            DeclRule { kind: "protocol_declaration", bind: Bind::Field("name"), sym: SymbolKind::Type, ty: Ty::Absent },
            DeclRule { kind: "typealias_declaration", bind: Bind::Field("name"), sym: SymbolKind::Type, ty: Ty::Absent },
            DeclRule { kind: "property_declaration", bind: Bind::Pattern("name"), sym: SymbolKind::Variable, ty: Ty::Absent },
            DeclRule { kind: "parameter", bind: Bind::Field("name"), sym: SymbolKind::Parameter, ty: Ty::Own("type") },
        ],
        ScopeLang::Php => seq![
            DeclRule { kind: "function_definition", bind: Bind::Field("name"), sym: SymbolKind::Function, ty: Ty::Absent },
            DeclRule { kind: "method_declaration", bind: Bind::Field("name"), sym: SymbolKind::Method, ty: Ty::Absent },
            DeclRule { kind: "class_declaration", bind: Bind::Field("name"), sym: SymbolKind::Type, ty: Ty::Absent },
            DeclRule { kind: "interface_declaration", bind: Bind::Field("name"), sym: SymbolKind::Type, ty: Ty::Absent },
            DeclRule { kind: "trait_declaration", bind: Bind::Field("name"), sym: SymbolKind::Type, ty: Ty::Absent },
            DeclRule { kind: "enum_declaration", bind: Bind::Field("name"), sym: SymbolKind::Type, ty: Ty::Absent },
            DeclRule { kind: "namespace_definition", bind: Bind::Field("name"), sym: SymbolKind::Module, ty: Ty::Absent },
            DeclRule { kind: "simple_parameter", bind: Bind::Field("name"), sym: SymbolKind::Parameter, ty: Ty::Own("type") },
            DeclRule { kind: "property_promotion_parameter", bind: Bind::Field("name"), sym: SymbolKind::Parameter, ty: Ty::Own("type") },
            DeclRule { kind: "assignment_expression", bind: Bind::Pattern("left"), sym: SymbolKind::Variable, ty: Ty::Absent },
        ],
        ScopeLang::Zig => seq![
            DeclRule { kind: "function_declaration", bind: Bind::Field("name"), sym: SymbolKind::Function, ty: Ty::Own("type") },
            DeclRule { kind: "variable_declaration", bind: Bind::FirstIdentifierChild, sym: SymbolKind::Variable, ty: Ty::Own("type") },
            DeclRule { kind: "parameter", bind: Bind::Field("name"), sym: SymbolKind::Parameter, ty: Ty::Own("type") },
        ],
        ScopeLang::Dart => seq![
            DeclRule { kind: "function_declaration", bind: Bind::BuriedName, sym: SymbolKind::Function, ty: Ty::Absent },
            DeclRule { kind: "method_declaration", bind: Bind::BuriedName, sym: SymbolKind::Method, ty: Ty::Absent },
            DeclRule { kind: "class_declaration", bind: Bind::Field("name"), sym: SymbolKind::Type, ty: Ty::Absent },
            DeclRule { kind: "mixin_declaration", bind: Bind::Field("name"), sym: SymbolKind::Type, ty: Ty::Absent },
            DeclRule { kind: "enum_declaration", bind: Bind::Field("name"), sym: SymbolKind::Type, ty: Ty::Absent },
            DeclRule { kind: "formal_parameter", bind: Bind::Field("name"), sym: SymbolKind::Parameter, ty: Ty::Own("type") },
            DeclRule { kind: "initialized_variable_definition", bind: Bind::Field("name"), sym: SymbolKind::Variable, ty: Ty::Absent },
            DeclRule { kind: "initialized_identifier", bind: Bind::Field("name"), sym: SymbolKind::Variable, ty: Ty::Absent },
        ],
        ScopeLang::ObjC => seq![
            DeclRule { kind: "function_definition", bind: Bind::Declarator("declarator"), sym: SymbolKind::Function, ty: Ty::Own("type") },
            DeclRule { kind: "declaration", bind: Bind::DeclaratorChildren, sym: SymbolKind::Variable, ty: Ty::Own("type") },
            DeclRule { kind: "parameter_declaration", bind: Bind::Declarator("declarator"), sym: SymbolKind::Parameter, ty: Ty::Own("type") },
            DeclRule { kind: "class_interface", bind: Bind::FirstIdentifierChild, sym: SymbolKind::Type, ty: Ty::Absent },
            DeclRule { kind: "class_implementation", bind: Bind::FirstIdentifierChild, sym: SymbolKind::Type, ty: Ty::Absent },
            DeclRule { kind: "method_declaration", bind: Bind::FirstIdentifierChild, sym: SymbolKind::Method, ty: Ty::Absent },
            DeclRule { kind: "type_definition", bind: Bind::Field("name"), sym: SymbolKind::Type, ty: Ty::Absent },
            DeclRule { kind: "struct_specifier", bind: Bind::Field("name"), sym: SymbolKind::Type, ty: Ty::Absent },
            DeclRule { kind: "enum_specifier", bind: Bind::Field("name"), sym: SymbolKind::Type, ty: Ty::Absent },
        ],
    }
}

pub open spec fn is_scope_spec(l: ScopeLang, kind: Seq<char>) -> bool {
    exists|i: int| 0 <= i < scope_kinds_spec(l).len() && (#[trigger] scope_kinds_spec(l)[i])@ == kind
}

impl ScopeLang {
    /// The scope language of a file extension, through the language table.
    pub fn from_ext(ext: &str) -> (r: Option<ScopeLang>)
        ensures
            r == match crate::lang::find_lang(ext@, 0) {
                Some(l) => crate::lang::scope_spec(l),
                None => None,
            },
    {
        match crate::lang::Lang::from_ext(ext) {
            Some(l) => l.scope(),
            None => None,
        }
    }

    /// Node kinds that introduce a new binding scope: a function's body, a
    /// type's body, a block.
    pub fn scope_kinds(self) -> (v: Vec<&'static str>)
        ensures
            v@ == scope_kinds_spec(self),
    {
        let mut v: Vec<&'static str> = Vec::new();
        match self {
            ScopeLang::Rust => {
                v.push("block");
                v.push("function_item");
                v.push("closure_expression");
                v.push("mod_item");
                v.push("impl_item");
                v.push("trait_item");
            },
            ScopeLang::Python => {
                v.push("function_definition");
                v.push("class_definition");
                v.push("lambda");
            },
            ScopeLang::JavaScript | ScopeLang::TypeScript => {
                v.push("statement_block");
                v.push("function_declaration");
                v.push("function_expression");
                v.push("arrow_function");
                v.push("method_definition");
                v.push("class_body");
            },
            ScopeLang::C => {
                v.push("compound_statement");
                v.push("function_definition");
            },
            ScopeLang::Cpp => {
                v.push("compound_statement");
                v.push("function_definition");
                v.push("namespace_definition");
                v.push("class_specifier");
                v.push("struct_specifier");
                v.push("lambda_expression");
                v.push("template_declaration");
            },
            ScopeLang::Go => {
                v.push("block");
                v.push("function_declaration");
                v.push("method_declaration");
                v.push("func_literal");
            },
            ScopeLang::Java => {
                v.push("block");
                v.push("class_body");
                v.push("interface_body");
                v.push("enum_body");
                v.push("method_declaration");
                v.push("constructor_declaration");
                v.push("lambda_expression");
            },
            ScopeLang::CSharp => {
                v.push("block");
                v.push("declaration_list");
                v.push("method_declaration");
                v.push("constructor_declaration");
                v.push("local_function_statement");
                v.push("lambda_expression");
            },
            ScopeLang::Ruby => {
                v.push("method");
                v.push("singleton_method");
                v.push("class");
                v.push("singleton_class");
                v.push("module");
                v.push("block");
                v.push("do_block");
                v.push("lambda");
            },
            ScopeLang::Lua => {
                v.push("block");
                v.push("function_declaration");
                v.push("function_definition");
                v.push("for_statement");
            },
            ScopeLang::Swift => {
                v.push("function_body");
                v.push("statements");
                v.push("class_body");
                v.push("protocol_body");
                v.push("function_declaration");
                v.push("lambda_literal");
            },
            ScopeLang::Php => {
                v.push("compound_statement");
                v.push("function_definition");
                v.push("method_declaration");
                v.push("declaration_list");
                v.push("anonymous_function_creation_expression");
                v.push("namespace_definition");
            },
            ScopeLang::Zig => {
                v.push("block");
                v.push("function_declaration");
            },
            ScopeLang::Dart => {
                v.push("block");
                v.push("function_body");
                v.push("class_body");
                v.push("function_declaration");
                v.push("method_declaration");
            },
            ScopeLang::ObjC => {
                v.push("compound_statement");
                v.push("function_definition");
                v.push("class_interface");
                v.push("class_implementation");
            },
        }
        assert(v@ =~= scope_kinds_spec(self));
        v
    }

    /// Node kinds whose direct functions are methods rather than free
    /// functions, where the grammar spells both alike.
    pub fn method_owner_kinds(self) -> (v: Vec<&'static str>)
        ensures
            v@ == method_owner_kinds_spec(self),
    {
        let mut v: Vec<&'static str> = Vec::new();
        match self {
            ScopeLang::Swift => {
                v.push("class_body");
                v.push("protocol_body");
            },
            _ => {},
        }
        assert(v@ =~= method_owner_kinds_spec(self));
        v
    }

    /// The declaration rules of this language.
    pub fn rules(self) -> (v: Vec<DeclRule>)
        ensures
            v@ == rules_spec(self),
    {
        let mut v: Vec<DeclRule> = Vec::new();
        match self {
            ScopeLang::Rust => {
                v.push(DeclRule { kind: "function_item", bind: Bind::Field("name"), sym: SymbolKind::Function, ty: Ty::Absent });
                v.push(DeclRule { kind: "let_declaration", bind: Bind::Pattern("pattern"), sym: SymbolKind::Variable, ty: Ty::Own("type") });
                v.push(DeclRule { kind: "parameter", bind: Bind::Pattern("pattern"), sym: SymbolKind::Parameter, ty: Ty::Own("type") });
                v.push(DeclRule { kind: "const_item", bind: Bind::Field("name"), sym: SymbolKind::Constant, ty: Ty::Own("type") });
                v.push(DeclRule { kind: "static_item", bind: Bind::Field("name"), sym: SymbolKind::Constant, ty: Ty::Own("type") });
                v.push(DeclRule { kind: "struct_item", bind: Bind::Field("name"), sym: SymbolKind::Type, ty: Ty::Absent });
                v.push(DeclRule { kind: "enum_item", bind: Bind::Field("name"), sym: SymbolKind::Type, ty: Ty::Absent });
                v.push(DeclRule { kind: "trait_item", bind: Bind::Field("name"), sym: SymbolKind::Type, ty: Ty::Absent });
                v.push(DeclRule { kind: "type_item", bind: Bind::Field("name"), sym: SymbolKind::Type, ty: Ty::Absent });
                v.push(DeclRule { kind: "union_item", bind: Bind::Field("name"), sym: SymbolKind::Type, ty: Ty::Absent });
                v.push(DeclRule { kind: "mod_item", bind: Bind::Field("name"), sym: SymbolKind::Module, ty: Ty::Absent });
            },
            ScopeLang::Python => {
                v.push(DeclRule { kind: "function_definition", bind: Bind::Field("name"), sym: SymbolKind::Function, ty: Ty::Absent });
                v.push(DeclRule { kind: "class_definition", bind: Bind::Field("name"), sym: SymbolKind::Type, ty: Ty::Absent });
                v.push(DeclRule { kind: "assignment", bind: Bind::Pattern("left"), sym: SymbolKind::Variable, ty: Ty::Own("type") });
                v.push(DeclRule { kind: "identifier", bind: Bind::SelfWhenParent(ParentKinds::PythonParameters), sym: SymbolKind::Parameter, ty: Ty::Absent });
                v.push(DeclRule { kind: "typed_parameter", bind: Bind::Pattern("__self__"), sym: SymbolKind::Parameter, ty: Ty::Own("type") });
                v.push(DeclRule { kind: "default_parameter", bind: Bind::Field("name"), sym: SymbolKind::Parameter, ty: Ty::Absent });
            },
            ScopeLang::JavaScript | ScopeLang::TypeScript => {
                v.push(DeclRule { kind: "function_declaration", bind: Bind::Field("name"), sym: SymbolKind::Function, ty: Ty::Absent });
                v.push(DeclRule { kind: "generator_function_declaration", bind: Bind::Field("name"), sym: SymbolKind::Function, ty: Ty::Absent });
                v.push(DeclRule { kind: "method_definition", bind: Bind::Field("name"), sym: SymbolKind::Method, ty: Ty::Absent });
                v.push(DeclRule { kind: "class_declaration", bind: Bind::Field("name"), sym: SymbolKind::Type, ty: Ty::Absent });
                v.push(DeclRule { kind: "interface_declaration", bind: Bind::Field("name"), sym: SymbolKind::Type, ty: Ty::Absent });
                v.push(DeclRule { kind: "type_alias_declaration", bind: Bind::Field("name"), sym: SymbolKind::Type, ty: Ty::Absent });
                v.push(DeclRule { kind: "enum_declaration", bind: Bind::Field("name"), sym: SymbolKind::Type, ty: Ty::Absent });
                v.push(DeclRule { kind: "variable_declarator", bind: Bind::Pattern("name"), sym: SymbolKind::Variable, ty: Ty::Own("type") });
                v.push(DeclRule { kind: "required_parameter", bind: Bind::Pattern("pattern"), sym: SymbolKind::Parameter, ty: Ty::Own("type") });
                v.push(DeclRule { kind: "optional_parameter", bind: Bind::Pattern("pattern"), sym: SymbolKind::Parameter, ty: Ty::Own("type") });
                v.push(DeclRule { kind: "identifier", bind: Bind::SelfWhenParent(ParentKinds::FormalParameters), sym: SymbolKind::Parameter, ty: Ty::Absent });
            },
            ScopeLang::C => {
                v.push(DeclRule { kind: "function_definition", bind: Bind::Declarator("declarator"), sym: SymbolKind::Function, ty: Ty::Own("type") });
                v.push(DeclRule { kind: "declaration", bind: Bind::DeclaratorChildren, sym: SymbolKind::Variable, ty: Ty::Own("type") });
                v.push(DeclRule { kind: "parameter_declaration", bind: Bind::Declarator("declarator"), sym: SymbolKind::Parameter, ty: Ty::Own("type") });
                v.push(DeclRule { kind: "type_definition", bind: Bind::Field("name"), sym: SymbolKind::Type, ty: Ty::Absent });
                v.push(DeclRule { kind: "enum_specifier", bind: Bind::Field("name"), sym: SymbolKind::Type, ty: Ty::Absent });
                v.push(DeclRule { kind: "struct_specifier", bind: Bind::Field("name"), sym: SymbolKind::Type, ty: Ty::Absent });
                v.push(DeclRule { kind: "union_specifier", bind: Bind::Field("name"), sym: SymbolKind::Type, ty: Ty::Absent });
            },
            ScopeLang::Cpp => {
                v.push(DeclRule { kind: "function_definition", bind: Bind::Declarator("declarator"), sym: SymbolKind::Function, ty: Ty::Own("type") });
                v.push(DeclRule { kind: "declaration", bind: Bind::DeclaratorChildren, sym: SymbolKind::Variable, ty: Ty::Own("type") });
                v.push(DeclRule { kind: "parameter_declaration", bind: Bind::Declarator("declarator"), sym: SymbolKind::Parameter, ty: Ty::Own("type") });
                v.push(DeclRule { kind: "optional_parameter_declaration", bind: Bind::Declarator("declarator"), sym: SymbolKind::Parameter, ty: Ty::Own("type") });
                v.push(DeclRule { kind: "field_declaration", bind: Bind::DeclaratorChildren, sym: SymbolKind::Variable, ty: Ty::Own("type") });
                v.push(DeclRule { kind: "class_specifier", bind: Bind::Field("name"), sym: SymbolKind::Type, ty: Ty::Absent });
                v.push(DeclRule { kind: "struct_specifier", bind: Bind::Field("name"), sym: SymbolKind::Type, ty: Ty::Absent });
                v.push(DeclRule { kind: "union_specifier", bind: Bind::Field("name"), sym: SymbolKind::Type, ty: Ty::Absent });
                v.push(DeclRule { kind: "enum_specifier", bind: Bind::Field("name"), sym: SymbolKind::Type, ty: Ty::Absent });
                v.push(DeclRule { kind: "type_definition", bind: Bind::Field("name"), sym: SymbolKind::Type, ty: Ty::Absent });
                v.push(DeclRule { kind: "alias_declaration", bind: Bind::Field("name"), sym: SymbolKind::Type, ty: Ty::Absent });
                v.push(DeclRule { kind: "namespace_definition", bind: Bind::Field("name"), sym: SymbolKind::Module, ty: Ty::Absent });
                v.push(DeclRule { kind: "type_parameter_declaration", bind: Bind::Pattern("__self__"), sym: SymbolKind::Type, ty: Ty::Absent });
            },
            ScopeLang::Go => {
                v.push(DeclRule { kind: "function_declaration", bind: Bind::Field("name"), sym: SymbolKind::Function, ty: Ty::Absent });
                v.push(DeclRule { kind: "method_declaration", bind: Bind::Field("name"), sym: SymbolKind::Method, ty: Ty::Absent });
                v.push(DeclRule { kind: "type_spec", bind: Bind::Field("name"), sym: SymbolKind::Type, ty: Ty::Absent });
                v.push(DeclRule { kind: "short_var_declaration", bind: Bind::Pattern("left"), sym: SymbolKind::Variable, ty: Ty::Absent });
                v.push(DeclRule { kind: "var_spec", bind: Bind::Field("name"), sym: SymbolKind::Variable, ty: Ty::Own("type") });
                v.push(DeclRule { kind: "const_spec", bind: Bind::Field("name"), sym: SymbolKind::Constant, ty: Ty::Own("type") });
                v.push(DeclRule { kind: "parameter_declaration", bind: Bind::Field("name"), sym: SymbolKind::Parameter, ty: Ty::Own("type") });
            },
            ScopeLang::Java => {
                v.push(DeclRule { kind: "method_declaration", bind: Bind::Field("name"), sym: SymbolKind::Method, ty: Ty::Own("type") });
                v.push(DeclRule { kind: "constructor_declaration", bind: Bind::Field("name"), sym: SymbolKind::Method, ty: Ty::Absent });
                v.push(DeclRule { kind: "class_declaration", bind: Bind::Field("name"), sym: SymbolKind::Type, ty: Ty::Absent });
                v.push(DeclRule { kind: "interface_declaration", bind: Bind::Field("name"), sym: SymbolKind::Type, ty: Ty::Absent });
                v.push(DeclRule { kind: "enum_declaration", bind: Bind::Field("name"), sym: SymbolKind::Type, ty: Ty::Absent });
                v.push(DeclRule { kind: "record_declaration", bind: Bind::Field("name"), sym: SymbolKind::Type, ty: Ty::Absent });
                v.push(DeclRule { kind: "annotation_type_declaration", bind: Bind::Field("name"), sym: SymbolKind::Type, ty: Ty::Absent });
                v.push(DeclRule { kind: "variable_declarator", bind: Bind::Field("name"), sym: SymbolKind::Variable, ty: Ty::Parent("type") });
                v.push(DeclRule { kind: "formal_parameter", bind: Bind::Field("name"), sym: SymbolKind::Parameter, ty: Ty::Own("type") });
                v.push(DeclRule { kind: "catch_formal_parameter", bind: Bind::Field("name"), sym: SymbolKind::Parameter, ty: Ty::Absent });
            },
            ScopeLang::CSharp => {
                v.push(DeclRule { kind: "method_declaration", bind: Bind::Field("name"), sym: SymbolKind::Method, ty: Ty::Own("type") });
                v.push(DeclRule { kind: "constructor_declaration", bind: Bind::Field("name"), sym: SymbolKind::Method, ty: Ty::Absent });
                v.push(DeclRule { kind: "property_declaration", bind: Bind::Field("name"), sym: SymbolKind::Variable, ty: Ty::Own("type") });
                v.push(DeclRule { kind: "local_function_statement", bind: Bind::Field("name"), sym: SymbolKind::Function, ty: Ty::Absent });
                v.push(DeclRule { kind: "class_declaration", bind: Bind::Field("name"), sym: SymbolKind::Type, ty: Ty::Absent });
                v.push(DeclRule { kind: "struct_declaration", bind: Bind::Field("name"), sym: SymbolKind::Type, ty: Ty::Absent });
                v.push(DeclRule { kind: "interface_declaration", bind: Bind::Field("name"), sym: SymbolKind::Type, ty: Ty::Absent });
                v.push(DeclRule { kind: "record_declaration", bind: Bind::Field("name"), sym: SymbolKind::Type, ty: Ty::Absent });
                v.push(DeclRule { kind: "enum_declaration", bind: Bind::Field("name"), sym: SymbolKind::Type, ty: Ty::Absent });
                v.push(DeclRule { kind: "delegate_declaration", bind: Bind::Field("name"), sym: SymbolKind::Type, ty: Ty::Absent });
                v.push(DeclRule { kind: "namespace_declaration", bind: Bind::Field("name"), sym: SymbolKind::Module, ty: Ty::Absent });
                v.push(DeclRule { kind: "variable_declarator", bind: Bind::Field("name"), sym: SymbolKind::Variable, ty: Ty::Parent("type") });
                v.push(DeclRule { kind: "parameter", bind: Bind::Field("name"), sym: SymbolKind::Parameter, ty: Ty::Own("type") });
            },
            ScopeLang::Ruby => {
                v.push(DeclRule { kind: "method", bind: Bind::Field("name"), sym: SymbolKind::Method, ty: Ty::Absent });
                v.push(DeclRule { kind: "singleton_method", bind: Bind::Field("name"), sym: SymbolKind::Method, ty: Ty::Absent });
                v.push(DeclRule { kind: "class", bind: Bind::Field("name"), sym: SymbolKind::Type, ty: Ty::Absent });
                v.push(DeclRule { kind: "module", bind: Bind::Field("name"), sym: SymbolKind::Module, ty: Ty::Absent });
                v.push(DeclRule { kind: "assignment", bind: Bind::Pattern("left"), sym: SymbolKind::Variable, ty: Ty::Absent });
                v.push(DeclRule { kind: "identifier", bind: Bind::SelfWhenParent(ParentKinds::RubyParameters), sym: SymbolKind::Parameter, ty: Ty::Absent });
                v.push(DeclRule { kind: "optional_parameter", bind: Bind::Field("name"), sym: SymbolKind::Parameter, ty: Ty::Absent });
                v.push(DeclRule { kind: "keyword_parameter", bind: Bind::Field("name"), sym: SymbolKind::Parameter, ty: Ty::Absent });
                v.push(DeclRule { kind: "splat_parameter", bind: Bind::Field("name"), sym: SymbolKind::Parameter, ty: Ty::Absent });
            },
            ScopeLang::Lua => {
                v.push(DeclRule { kind: "function_declaration", bind: Bind::Field("name"), sym: SymbolKind::Function, ty: Ty::Absent });
                v.push(DeclRule { kind: "variable_declaration", bind: Bind::Pattern("__self__"), sym: SymbolKind::Variable, ty: Ty::Absent });
                v.push(DeclRule { kind: "identifier", bind: Bind::SelfWhenParent(ParentKinds::Parameters), sym: SymbolKind::Parameter, ty: Ty::Absent });
            },
            ScopeLang::Swift => {
                v.push(DeclRule { kind: "function_declaration", bind: Bind::Field("name"), sym: SymbolKind::Function, ty: Ty::Absent });
                v.push(DeclRule { kind: "class_declaration", bind: Bind::Field("name"), sym: SymbolKind::Type, ty: Ty::Absent });
                v.push(DeclRule { kind: "protocol_declaration", bind: Bind::Field("name"), sym: SymbolKind::Type, ty: Ty::Absent });
                v.push(DeclRule { kind: "typealias_declaration", bind: Bind::Field("name"), sym: SymbolKind::Type, ty: Ty::Absent });
                v.push(DeclRule { kind: "property_declaration", bind: Bind::Pattern("name"), sym: SymbolKind::Variable, ty: Ty::Absent });
                v.push(DeclRule { kind: "parameter", bind: Bind::Field("name"), sym: SymbolKind::Parameter, ty: Ty::Own("type") });
            },
            ScopeLang::Php => {
                v.push(DeclRule { kind: "function_definition", bind: Bind::Field("name"), sym: SymbolKind::Function, ty: Ty::Absent });
                v.push(DeclRule { kind: "method_declaration", bind: Bind::Field("name"), sym: SymbolKind::Method, ty: Ty::Absent });
                v.push(DeclRule { kind: "class_declaration", bind: Bind::Field("name"), sym: SymbolKind::Type, ty: Ty::Absent });
                v.push(DeclRule { kind: "interface_declaration", bind: Bind::Field("name"), sym: SymbolKind::Type, ty: Ty::Absent });
                v.push(DeclRule { kind: "trait_declaration", bind: Bind::Field("name"), sym: SymbolKind::Type, ty: Ty::Absent });
                v.push(DeclRule { kind: "enum_declaration", bind: Bind::Field("name"), sym: SymbolKind::Type, ty: Ty::Absent });
                v.push(DeclRule { kind: "namespace_definition", bind: Bind::Field("name"), sym: SymbolKind::Module, ty: Ty::Absent });
                v.push(DeclRule { kind: "simple_parameter", bind: Bind::Field("name"), sym: SymbolKind::Parameter, ty: Ty::Own("type") });
                v.push(DeclRule { kind: "property_promotion_parameter", bind: Bind::Field("name"), sym: SymbolKind::Parameter, ty: Ty::Own("type") });
                v.push(DeclRule { kind: "assignment_expression", bind: Bind::Pattern("left"), sym: SymbolKind::Variable, ty: Ty::Absent });
            },
            ScopeLang::Zig => {
                v.push(DeclRule { kind: "function_declaration", bind: Bind::Field("name"), sym: SymbolKind::Function, ty: Ty::Own("type") });
                v.push(DeclRule { kind: "variable_declaration", bind: Bind::FirstIdentifierChild, sym: SymbolKind::Variable, ty: Ty::Own("type") });
                v.push(DeclRule { kind: "parameter", bind: Bind::Field("name"), sym: SymbolKind::Parameter, ty: Ty::Own("type") });
            },
            ScopeLang::Dart => {
                v.push(DeclRule { kind: "function_declaration", bind: Bind::BuriedName, sym: SymbolKind::Function, ty: Ty::Absent });
                v.push(DeclRule { kind: "method_declaration", bind: Bind::BuriedName, sym: SymbolKind::Method, ty: Ty::Absent });
                v.push(DeclRule { kind: "class_declaration", bind: Bind::Field("name"), sym: SymbolKind::Type, ty: Ty::Absent });
                v.push(DeclRule { kind: "mixin_declaration", bind: Bind::Field("name"), sym: SymbolKind::Type, ty: Ty::Absent });
                v.push(DeclRule { kind: "enum_declaration", bind: Bind::Field("name"), sym: SymbolKind::Type, ty: Ty::Absent });
                v.push(DeclRule { kind: "formal_parameter", bind: Bind::Field("name"), sym: SymbolKind::Parameter, ty: Ty::Own("type") });
                v.push(DeclRule { kind: "initialized_variable_definition", bind: Bind::Field("name"), sym: SymbolKind::Variable, ty: Ty::Absent });
                v.push(DeclRule { kind: "initialized_identifier", bind: Bind::Field("name"), sym: SymbolKind::Variable, ty: Ty::Absent });
            },
            ScopeLang::ObjC => {
                v.push(DeclRule { kind: "function_definition", bind: Bind::Declarator("declarator"), sym: SymbolKind::Function, ty: Ty::Own("type") });
                v.push(DeclRule { kind: "declaration", bind: Bind::DeclaratorChildren, sym: SymbolKind::Variable, ty: Ty::Own("type") });
                v.push(DeclRule { kind: "parameter_declaration", bind: Bind::Declarator("declarator"), sym: SymbolKind::Parameter, ty: Ty::Own("type") });
                v.push(DeclRule { kind: "class_interface", bind: Bind::FirstIdentifierChild, sym: SymbolKind::Type, ty: Ty::Absent });
                v.push(DeclRule { kind: "class_implementation", bind: Bind::FirstIdentifierChild, sym: SymbolKind::Type, ty: Ty::Absent });
                v.push(DeclRule { kind: "method_declaration", bind: Bind::FirstIdentifierChild, sym: SymbolKind::Method, ty: Ty::Absent });
                v.push(DeclRule { kind: "type_definition", bind: Bind::Field("name"), sym: SymbolKind::Type, ty: Ty::Absent });
                v.push(DeclRule { kind: "struct_specifier", bind: Bind::Field("name"), sym: SymbolKind::Type, ty: Ty::Absent });
                v.push(DeclRule { kind: "enum_specifier", bind: Bind::Field("name"), sym: SymbolKind::Type, ty: Ty::Absent });
            },
        }
        assert(v@ =~= rules_spec(self));
        v
    }

    /// Does a node of `kind` open a scope?
    pub fn is_scope(self, kind: &str) -> (b: bool)
        ensures
            b == is_scope_spec(self, kind@),
    {
        let kinds = self.scope_kinds();
        let mut i: usize = 0;
        while i < kinds.len()
            invariant
                i <= kinds@.len(),
                kinds@ == scope_kinds_spec(self),
                forall|j: int| 0 <= j < i ==> (#[trigger] scope_kinds_spec(self)[j])@ != kind@,
            decreases kinds@.len() - i,
        {
            if str_eq(kinds[i], kind) {
                return true;
            }
            i += 1;
        }
        false
    }
}

/// One declaration: identifier, what it is, and its written type.
pub type Found = (String, SymbolKind, Option<String>);

/// The file-level symbols, kept across calls while the tree they were read
/// from is current.
pub struct GlobalScopeCache {
    tree_gen: u64,
    /// `None` until computed.
    symbols: Option<Vec<Found>>,
}

impl GlobalScopeCache {
    /// The tree the held list belongs to.
    pub closed spec fn generation(&self) -> u64 {
        self.tree_gen
    }

    /// The held declarations, if a list is held.
    pub closed spec fn held(&self) -> Option<Seq<FoundView>> {
        match self.symbols {
            Some(v) => Some(found_views(v@)),
            None => None,
        }
    }

    pub fn new() -> (c: Self)
        ensures
            c.generation() == 0,
            c.held() is None,
    {
        GlobalScopeCache { tree_gen: 0, symbols: None }
    }

    /// Adopt the list collected alongside the parse of tree `tree_gen`.
    pub fn adopt(&mut self, symbols: Vec<Found>, tree_gen: u64)
        ensures
            final(self).generation() == tree_gen,
            final(self).held() == Some(found_views(symbols@)),
    {
        self.tree_gen = tree_gen;
        self.symbols = Some(symbols);
    }

    /// Drop the list, so the next use collects again.
    pub fn invalidate(&mut self)
        ensures
            final(self).held() is None,
            final(self).generation() == old(self).generation(),
    {
        self.symbols = None;
    }
}

impl Default for GlobalScopeCache {
    fn default() -> (c: Self)
        ensures
            c.generation() == 0,
            c.held() is None,
    {
        GlobalScopeCache::new()
    }
}

/// The declarations the file scope is taken from when `cache` is asked for
/// tree `tree_gen`: the held list when it belongs to that tree, else a
/// fresh collection.
pub open spec fn cached_global(
    cache: GlobalScopeCache,
    tree_gen: u64,
    t: SyntaxTree,
    src: Seq<char>,
    lang: ScopeLang,
) -> Seq<FoundView> {
    match cache.held() {
        Some(v) => if cache.generation() == tree_gen { v } else { collect_spec(t, src, lang, 0, 0, 0) },
        None => collect_spec(t, src, lang, 0, 0, 0),
    }
}


// ── Where the caret is ─────────────────────────────────────────────────────

/// The first child of node `n`, from the `k`-th on, that the range
/// `[from, to]` descends into: one that reaches `to`, passes `from` (or,
/// empty, touches it) and starts no later than `from`; `None` once a child
/// starts after `from`.
pub open spec fn desc_child(t: SyntaxTree, n: int, from: usize, to: usize, k: int) -> Option<usize>
    decreases t.nodes@[n].children@.len() - k,
{
    let kids = t.nodes@[n].children@;
    if k < 0 || k >= kids.len() {
        None
    } else {
        let c = kids[k];
        let cn = t.nodes@[c as int];
        if cn.end < to {
            desc_child(t, n, from, to, k + 1)
        } else if (if cn.start == cn.end { cn.end < from } else { cn.end <= from }) {
            desc_child(t, n, from, to, k + 1)
        } else if from < cn.start {
            None
        } else {
            Some(c)
        }
    }
}

/// The smallest node under `n` holding the range `[from, to]`.
pub open spec fn descend(t: SyntaxTree, n: int, from: usize, to: usize) -> int
    decreases t.size() - n,
{
    if !(0 <= n < t.size()) || !t.wf() {
        n
    } else {
        match desc_child(t, n, from, to, 0) {
            Some(c) => if n < c < t.size() { descend(t, c as int, from, to) } else { n },
            None => n,
        }
    }
}

/// The smallest node holding `[from, to]`; the root for a backwards range.
pub open spec fn descendant(t: SyntaxTree, from: usize, to: usize) -> int {
    if from > to { 0 } else { descend(t, 0, from, to) }
}

proof fn lemma_desc_child(t: SyntaxTree, n: int, from: usize, to: usize, k: int)
    requires
        t.wf(),
        0 <= n < t.size(),
    ensures
        desc_child(t, n, from, to, k) matches Some(c) ==> n < c < t.size(),
    decreases t.nodes@[n].children@.len() - k,
{
    let kids = t.nodes@[n].children@;
    if 0 <= k < kids.len() {
        assert(n < kids[k] < t.size());
        lemma_desc_child(t, n, from, to, k + 1);
    }
}

proof fn lemma_descend(t: SyntaxTree, n: int, from: usize, to: usize)
    requires
        t.wf(),
        0 <= n < t.size(),
    ensures
        n <= descend(t, n, from, to) < t.size(),
    decreases t.size() - n,
{
    lemma_desc_child(t, n, from, to, 0);
    match desc_child(t, n, from, to, 0) {
        Some(c) => {
            lemma_descend(t, c as int, from, to);
        },
        None => {},
    }
}

/// The node the range `[from, to]` lands on.
pub fn descendant_for(t: &SyntaxTree, from: usize, to: usize) -> (n: usize)
    requires
        t.wf(),
    ensures
        n == descendant(*t, from, to),
        n < t.nodes@.len(),
{
    if from > to {
        return 0;
    }
    let mut n: usize = 0;
    proof {
        lemma_descend(*t, 0, from, to);
    }
    loop
        invariant
            t.wf(),
            from <= to,
            n < t.nodes@.len(),
            descend(*t, n as int, from, to) == descend(*t, 0, from, to),
        decreases t.nodes@.len() - n,
    {
        let kids = &t.nodes[n].children;
        let mut k: usize = 0;
        let mut next: Option<usize> = None;
        let mut stop = false;
        while k < kids.len() && !stop
            invariant
                k <= kids@.len(),
                t.wf(),
                n < t.nodes@.len(),
                *kids == t.nodes@[n as int].children,
                !stop ==> next is None && desc_child(*t, n as int, from, to, k as int) == desc_child(*t, n as int, from, to, 0),
                stop ==> next == desc_child(*t, n as int, from, to, 0),
            decreases kids@.len() - k + (if stop { 0int } else { 1int }),
        {
            let c = kids[k];
            proof {
                assert(n < c < t.nodes@.len());
            }
            let cn = &t.nodes[c];
            let passes = if cn.start == cn.end { cn.end >= from } else { cn.end > from };
            if cn.end < to || !passes {
                k += 1;
            } else if from < cn.start {
                stop = true;
            } else {
                next = Some(c);
                stop = true;
            }
        }
        proof {
            lemma_desc_child(*t, n as int, from, to, 0);
        }
        match next {
            Some(c) => {
                assert(descend(*t, n as int, from, to) == descend(*t, c as int, from, to));
                n = c;
            },
            None => {
                assert(desc_child(*t, n as int, from, to, 0) is None);
                assert(descend(*t, n as int, from, to) == n as int);
                return n;
            },
        }
    }
}

/// Going up from node `n` to the root: the scopes passed, and the root,
/// innermost first.
pub open spec fn chain_up(t: SyntaxTree, lang: ScopeLang, n: int) -> Seq<usize>
    decreases n,
{
    if n < 0 || n >= t.size() {
        Seq::empty()
    } else {
        let rest = match t.nodes@[n].parent {
            Some(p) => if p < n { chain_up(t, lang, p as int) } else { Seq::empty() },
            None => Seq::empty(),
        };
        if is_scope_spec(lang, t.kind_of(n)) || n == 0 { seq![n as usize] + rest } else { rest }
    }
}

/// The scopes enclosing `[from, to]`, innermost first, always ending at the
/// root.
pub open spec fn scope_chain_spec(t: SyntaxTree, lang: ScopeLang, from: usize, to: usize) -> Seq<usize> {
    let c = chain_up(t, lang, descendant(t, from, to));
    if c.len() > 0 && c.last() == 0 { c } else { c.push(0) }
}

fn scope_chain(t: &SyntaxTree, lang: ScopeLang, from: usize, to: usize) -> (c: Vec<usize>)
    requires
        t.wf(),
    ensures
        c@ == scope_chain_spec(*t, lang, from, to),
        forall|k: int| 0 <= k < c@.len() ==> #[trigger] c@[k] < t.nodes@.len(),
        c@.len() > 0,
{
    let start = descendant_for(t, from, to);
    let mut out: Vec<usize> = Vec::new();
    let mut cur = start;
    let mut going = true;
    while going
        invariant
            t.wf(),
            cur < t.nodes@.len(),
            forall|k: int| 0 <= k < out@.len() ==> #[trigger] out@[k] < t.nodes@.len(),
            going ==> out@ + chain_up(*t, lang, cur as int) == chain_up(*t, lang, start as int),
            !going ==> out@ == chain_up(*t, lang, start as int),
        decreases cur + (if going { 1int } else { 0int }),
    {
        let ghost before = out@;
        if lang.is_scope(t.nodes[cur].kind.as_str()) || cur == 0 {
            out.push(cur);
        }
        match t.nodes[cur].parent {
            Some(p) => {
                if p < cur {
                    proof {
                        if is_scope_spec(lang, t.kind_of(cur as int)) || cur == 0 {
                            assert(out@ + chain_up(*t, lang, p as int) =~= before + (seq![cur] + chain_up(*t, lang, p as int)));
                        }
                    }
                    cur = p;
                } else {
                    going = false;
                }
            },
            None => {
                going = false;
            },
        }
    }
    let n = out.len();
    if n == 0 || out[n - 1] != 0 {
        out.push(0);
    }
    out
}

/// Going up from node `n`, some node is text the parser could not place.
pub open spec fn error_up(t: SyntaxTree, n: int) -> bool
    decreases n,
{
    if n < 0 || n >= t.size() {
        false
    } else if t.nodes@[n].is_error {
        true
    } else {
        match t.nodes@[n].parent {
            Some(p) => p < n && error_up(t, p as int),
            None => false,
        }
    }
}

/// The caret at `at` sits in text the parser could not place: the node of
/// the character before it, or any node around that, is an error.
pub open spec fn unparsed_at(t: SyntaxTree, at: usize) -> bool {
    let from = if at > 0 { (at - 1) as usize } else { at };
    error_up(t, descendant(t, from, at))
}

fn caret_is_in_unparsed_text(t: &SyntaxTree, at: usize) -> (b: bool)
    requires
        t.wf(),
    ensures
        b == unparsed_at(*t, at),
{
    let from = if at > 0 { at - 1 } else { at };
    let mut cur = descendant_for(t, from, at);
    let ghost start = cur;
    loop
        invariant
            t.wf(),
            cur < t.nodes@.len(),
            error_up(*t, cur as int) == error_up(*t, start as int),
            start == descendant(*t, from, at),
            from == (if at > 0 { (at - 1) as usize } else { at }),
        decreases cur,
    {
        if t.nodes[cur].is_error {
            assert(error_up(*t, cur as int));
            return true;
        }
        match t.nodes[cur].parent {
            Some(p) => {
                if p < cur {
                    assert(error_up(*t, cur as int) == error_up(*t, p as int));
                    cur = p;
                } else {
                    assert(!error_up(*t, cur as int));
                    return false;
                }
            },
            None => {
                assert(!error_up(*t, cur as int));
                return false;
            },
        }
    }
}

/// The last child of node `n`, from the `k`-th on, that is a scope ending by
/// `at`, after `best`.
pub open spec fn last_closed_scope(t: SyntaxTree, lang: ScopeLang, n: int, at: usize, k: int, best: Option<usize>) -> Option<usize>
    decreases t.nodes@[n].children@.len() - k,
{
    let kids = t.nodes@[n].children@;
    if k < 0 || k >= kids.len() {
        best
    } else {
        let c = kids[k];
        let b = if t.nodes@[c as int].end <= at && is_scope_spec(lang, t.kind_of(c as int)) { Some(c) } else { best };
        last_closed_scope(t, lang, n, at, k + 1, b)
    }
}

/// The chain with the caret re-attached to a body the parser gave up on:
/// when the caret is in unplaced text, the last scope child of the
/// innermost scope that closed before the caret goes in front.
pub open spec fn recovered(t: SyntaxTree, lang: ScopeLang, at: usize, chain: Seq<usize>) -> Seq<usize> {
    if chain.len() == 0 || !unparsed_at(t, at) {
        chain
    } else {
        match last_closed_scope(t, lang, chain[0] as int, at, 0, None) {
            Some(c) => seq![c] + chain,
            None => chain,
        }
    }
}

fn recover_through_error(t: &SyntaxTree, lang: ScopeLang, at: usize, chain: &mut Vec<usize>)
    requires
        t.wf(),
        forall|k: int| 0 <= k < old(chain)@.len() ==> #[trigger] old(chain)@[k] < t.nodes@.len(),
    ensures
        final(chain)@ == recovered(*t, lang, at, old(chain)@),
        forall|k: int| 0 <= k < final(chain)@.len() ==> #[trigger] final(chain)@[k] < t.nodes@.len(),
{
    if chain.len() == 0 {
        return;
    }
    if !caret_is_in_unparsed_text(t, at) {
        return;
    }
    let inner = chain[0];
    let kids = &t.nodes[inner].children;
    let mut best: Option<usize> = None;
    let mut k: usize = 0;
    while k < kids.len()
        invariant
            k <= kids@.len(),
            t.wf(),
            inner < t.nodes@.len(),
            *kids == t.nodes@[inner as int].children,
            best matches Some(c) ==> c < t.nodes@.len(),
            last_closed_scope(*t, lang, inner as int, at, k as int, best) == last_closed_scope(
                *t,
                lang,
                inner as int,
                at,
                0,
                None,
            ),
        decreases kids@.len() - k,
    {
        let c = kids[k];
        proof {
            assert(inner < c < t.nodes@.len());
        }
        if t.nodes[c].end <= at && lang.is_scope(t.nodes[c].kind.as_str()) {
            best = Some(c);
        }
        k += 1;
    }
    match best {
        Some(c) => {
            chain.insert(0, c);
            assert(chain@ =~= seq![c] + old(chain)@);
        },
        None => {},
    }
}

/// Going up from `scope`, node `node` is met: `scope` lies inside it.
pub open spec fn holds_scope(t: SyntaxTree, node: int, scope: int) -> bool
    decreases scope,
{
    if scope < 0 || scope >= t.size() {
        false
    } else if scope == node {
        true
    } else {
        match t.nodes@[scope].parent {
            Some(p) => p < scope && holds_scope(t, node, p as int),
            None => false,
        }
    }
}

fn contains_scope_boundary(t: &SyntaxTree, node: usize, scope: usize) -> (b: bool)
    requires
        t.wf(),
        scope < t.nodes@.len(),
    ensures
        b == holds_scope(*t, node as int, scope as int),
{
    let mut cur = scope;
    loop
        invariant
            t.wf(),
            cur < t.nodes@.len(),
            holds_scope(*t, node as int, cur as int) == holds_scope(*t, node as int, scope as int),
        decreases cur,
    {
        if cur == node {
            return true;
        }
        match t.nodes[cur].parent {
            Some(p) => {
                if p < cur {
                    cur = p;
                } else {
                    return false;
                }
            },
            None => {
                return false;
            },
        }
    }
}

// ── What a node declares ───────────────────────────────────────────────────

/// A declaration as plain values: name, kind, written type.
pub type FoundView = (Seq<char>, SymbolKind, Option<Seq<char>>);

pub open spec fn opt_view(o: Option<String>) -> Option<Seq<char>> {
    match o {
        Some(s) => Some(s@),
        None => None,
    }
}

pub open spec fn found_views(s: Seq<Found>) -> Seq<FoundView> {
    s.map_values(|f: Found| (f.0@, f.1, opt_view(f.2)))
}

/// Each name, declared as `sym` with type `ty`.
pub open spec fn tag(names: Seq<Seq<char>>, sym: SymbolKind, ty: Option<Seq<char>>) -> Seq<FoundView> {
    names.map_values(|s: Seq<char>| (s, sym, ty))
}

proof fn lemma_found_push(s: Seq<Found>, f: Found)
    ensures
        found_views(s.push(f)) == found_views(s).push((f.0@, f.1, opt_view(f.2))),
{
    assert(found_views(s.push(f)) =~= found_views(s).push((f.0@, f.1, opt_view(f.2))));
}

proof fn lemma_tag_concat(a: Seq<Seq<char>>, b: Seq<Seq<char>>, sym: SymbolKind, ty: Option<Seq<char>>)
    ensures
        tag(a + b, sym, ty) == tag(a, sym, ty) + tag(b, sym, ty),
{
    assert(tag(a + b, sym, ty) =~= tag(a, sym, ty) + tag(b, sym, ty));
}

fn clone_ty(t: &Option<String>) -> (r: Option<String>)
    ensures
        opt_view(r) == opt_view(*t),
{
    match t {
        Some(s) => Some(s.clone()),
        None => None,
    }
}

/// The node kinds that are a bound name inside a pattern.
pub open spec fn pattern_leaf_kinds() -> Seq<&'static str> {
    seq!["identifier", "shorthand_property_identifier_pattern", "simple_identifier", "variable_name", "constant"]
}

fn pattern_leaves() -> (v: Vec<&'static str>)
    ensures
        v@ == pattern_leaf_kinds(),
{
    let v: Vec<&'static str> = vec!["identifier", "shorthand_property_identifier_pattern", "simple_identifier", "variable_name", "constant"];
    assert(v@ =~= pattern_leaf_kinds());
    v
}

/// Every name a pattern binds, in order: the pattern itself when it is a
/// name, else the names under each of its children.
pub open spec fn pattern_names_spec(t: SyntaxTree, src: Seq<char>, n: int) -> Seq<Seq<char>>
    decreases t.size() - n, t.nodes@[n].children@.len() + 1,
{
    if !(0 <= n < t.size()) {
        Seq::empty()
    } else if names(pattern_leaf_kinds(), t.kind_of(n)) {
        match text_at(t, src, n) {
            Some(s) => seq![s],
            None => Seq::empty(),
        }
    } else {
        pattern_kids(t, src, n, 0)
    }
}

/// The names bound under the children of `n` from the `k`-th on.
pub open spec fn pattern_kids(t: SyntaxTree, src: Seq<char>, n: int, k: int) -> Seq<Seq<char>>
    decreases t.size() - n, t.nodes@[n].children@.len() - k,
{
    if !(0 <= n < t.size()) || k < 0 || k >= t.nodes@[n].children@.len() {
        Seq::empty()
    } else {
        let c = t.nodes@[n].children@[k] as int;
        let here = if n < c < t.size() { pattern_names_spec(t, src, c) } else { Seq::empty() };
        here + pattern_kids(t, src, n, k + 1)
    }
}

fn push_text(t: &SyntaxTree, src: &Vec<char>, c: usize, sym: SymbolKind, ty: Option<String>, out: &mut Vec<Found>)
    requires
        c < t.nodes@.len(),
    ensures
        found_views(final(out)@) == found_views(old(out)@) + match text_at(*t, src@, c as int) {
            Some(s) => seq![(s, sym, opt_view(ty))],
            None => Seq::<FoundView>::empty(),
        },
{
    match node_text(t, src, c) {
        Some(v) => {
            let name = crate::text::string_of(v.as_slice());
            let ghost before = out@;
            out.push((name, sym, ty));
            proof {
                lemma_found_push(before, (name, sym, ty));
                assert(seq![(name@, sym, opt_view(ty))] =~= seq![(v@, sym, opt_view(ty))]);
            }
        },
        None => {
            assert(found_views(out@) =~= found_views(out@) + Seq::<FoundView>::empty());
        },
    }
}

/// Every name the pattern at node `n` binds, declared as `sym` with type `ty`.
fn pattern_names(t: &SyntaxTree, src: &Vec<char>, n: usize, sym: SymbolKind, ty: &Option<String>, out: &mut Vec<Found>)
    requires
        t.wf(),
        n < t.nodes@.len(),
    ensures
        found_views(final(out)@) == found_views(old(out)@) + tag(pattern_names_spec(*t, src@, n as int), sym, opt_view(*ty)),
    decreases t.nodes@.len() - n,
{
    let leaves = pattern_leaves();
    if names_kind(&leaves, t.nodes[n].kind.as_str()) {
        push_text(t, src, n, sym, clone_ty(ty), out);
        proof {
            match text_at(*t, src@, n as int) {
                Some(s) => {
                    assert(tag(seq![s], sym, opt_view(*ty)) =~= seq![(s, sym, opt_view(*ty))]);
                },
                None => {
                    assert(tag(Seq::empty(), sym, opt_view(*ty)) =~= Seq::<FoundView>::empty());
                },
            }
        }
        return;
    }
    let kids = &t.nodes[n].children;
    let mut k: usize = 0;
    let ghost start = found_views(out@);
    while k < kids.len()
        invariant
            t.wf(),
            n < t.nodes@.len(),
            *kids == t.nodes@[n as int].children,
            k <= kids@.len(),
            !names(pattern_leaf_kinds(), t.kind_of(n as int)),
            found_views(out@) + tag(pattern_kids(*t, src@, n as int, k as int), sym, opt_view(*ty))
                == start + tag(pattern_kids(*t, src@, n as int, 0), sym, opt_view(*ty)),
        decreases kids@.len() - k,
    {
        let c = kids[k];
        proof {
            assert(n < c < t.nodes@.len());
        }
        let ghost before = found_views(out@);
        pattern_names(t, src, c, sym, ty, out);
        proof {
            let here = pattern_names_spec(*t, src@, c as int);
            let rest = pattern_kids(*t, src@, n as int, k + 1);
            assert(pattern_kids(*t, src@, n as int, k as int) == here + rest);
            lemma_tag_concat(here, rest, sym, opt_view(*ty));
            assert(found_views(out@) + tag(rest, sym, opt_view(*ty)) =~= before + tag(here + rest, sym, opt_view(*ty)));
        }
        k += 1;
    }
    proof {
        assert(tag(pattern_kids(*t, src@, n as int, k as int), sym, opt_view(*ty)) =~= Seq::<FoundView>::empty());
        assert(found_views(out@) =~= found_views(out@) + Seq::<FoundView>::empty());
    }
}


/// The node kinds that are the name at the centre of a C declarator.
pub open spec fn declarator_leaf_kinds() -> Seq<&'static str> {
    seq!["identifier", "field_identifier", "type_identifier"]
}

/// The identifier at the centre of a C declarator (`*foo[3]` gives `foo`):
/// the node itself when it is a name; else through its `declarator` field;
/// else the first child that has one.
pub open spec fn declarator_name_spec(t: SyntaxTree, src: Seq<char>, n: int) -> Option<Seq<char>>
    decreases t.size() - n, t.nodes@[n].children@.len() + 1,
{
    if !(0 <= n < t.size()) {
        None
    } else if names(declarator_leaf_kinds(), t.kind_of(n)) {
        text_at(t, src, n)
    } else {
        match t.field_child(n, "declarator"@) {
            Some(d) => if n < d < t.size() { declarator_name_spec(t, src, d as int) } else { None },
            None => declarator_kids(t, src, n, 0),
        }
    }
}

/// The first name found under the children of `n` from the `k`-th on.
pub open spec fn declarator_kids(t: SyntaxTree, src: Seq<char>, n: int, k: int) -> Option<Seq<char>>
    decreases t.size() - n, t.nodes@[n].children@.len() - k,
{
    if !(0 <= n < t.size()) || k < 0 || k >= t.nodes@[n].children@.len() {
        None
    } else {
        let c = t.nodes@[n].children@[k] as int;
        let here = if n < c < t.size() { declarator_name_spec(t, src, c) } else { None };
        if here is Some { here } else { declarator_kids(t, src, n, k + 1) }
    }
}

fn innermost_declarator_name(t: &SyntaxTree, src: &Vec<char>, n: usize) -> (r: Option<Vec<char>>)
    requires
        t.wf(),
        n < t.nodes@.len(),
    ensures
        match r {
            Some(v) => declarator_name_spec(*t, src@, n as int) == Some(v@),
            None => declarator_name_spec(*t, src@, n as int) is None,
        },
    decreases t.nodes@.len() - n,
{
    let leaves: Vec<&'static str> = vec!["identifier", "field_identifier", "type_identifier"];
    assert(leaves@ =~= declarator_leaf_kinds());
    if names_kind(&leaves, t.nodes[n].kind.as_str()) {
        return node_text(t, src, n);
    }
    match t.child_by_field(n, "declarator") {
        Some(d) => {
            return innermost_declarator_name(t, src, d);
        },
        None => {},
    }
    let kids = &t.nodes[n].children;
    let mut k: usize = 0;
    while k < kids.len()
        invariant
            t.wf(),
            n < t.nodes@.len(),
            *kids == t.nodes@[n as int].children,
            k <= kids@.len(),
            declarator_name_spec(*t, src@, n as int) == declarator_kids(*t, src@, n as int, k as int),
        decreases kids@.len() - k,
    {
        let c = kids[k];
        proof {
            assert(n < c < t.nodes@.len());
        }
        let r = innermost_declarator_name(t, src, c);
        if r.is_some() {
            return r;
        }
        k += 1;
    }
    None
}

/// The nearest `name` field at or under `n`, through named children that
/// are not scopes, in order.
pub open spec fn buried_name_spec(t: SyntaxTree, lang: ScopeLang, n: int) -> Option<usize>
    decreases t.size() - n, t.named_kids(n).len() + 1,
{
    if !(0 <= n < t.size()) {
        None
    } else {
        match t.field_child(n, "name"@) {
            Some(c) => Some(c),
            None => buried_kids(t, lang, n, 0),
        }
    }
}

/// The first buried name under the named children of `n` from the `k`-th on.
pub open spec fn buried_kids(t: SyntaxTree, lang: ScopeLang, n: int, k: int) -> Option<usize>
    decreases t.size() - n, t.named_kids(n).len() - k,
{
    if !(0 <= n < t.size()) || k < 0 || k >= t.named_kids(n).len() {
        None
    } else {
        let c = t.named_kids(n)[k] as int;
        if is_scope_spec(lang, t.kind_of(c)) {
            buried_kids(t, lang, n, k + 1)
        } else {
            let here = if n < c < t.size() { buried_name_spec(t, lang, c) } else { None };
            if here is Some { here } else { buried_kids(t, lang, n, k + 1) }
        }
    }
}

proof fn lemma_field_child_bound(t: SyntaxTree, i: int, name: Seq<char>, k: int)
    requires
        t.wf(),
        0 <= i < t.size(),
    ensures
        crate::syntax::first_field(t.nodes@[i].fields@, name, k) matches Some(c) ==> i < c < t.size(),
    decreases t.nodes@[i].fields@.len() - k,
{
    let f = t.nodes@[i].fields@;
    if 0 <= k < f.len() {
        assert(i < f[k].1 < t.size());
        lemma_field_child_bound(t, i, name, k + 1);
    }
}

proof fn lemma_buried_bound(t: SyntaxTree, lang: ScopeLang, n: int)
    requires
        t.wf(),
        0 <= n < t.size(),
    ensures
        buried_name_spec(t, lang, n) matches Some(c) ==> c < t.size(),
    decreases t.size() - n, t.named_kids(n).len() + 1,
{
    lemma_field_child_bound(t, n, "name"@, 0);
    lemma_buried_kids_bound(t, lang, n, 0);
}

proof fn lemma_buried_kids_bound(t: SyntaxTree, lang: ScopeLang, n: int, k: int)
    requires
        t.wf(),
        0 <= n < t.size(),
    ensures
        buried_kids(t, lang, n, k) matches Some(c) ==> c < t.size(),
    decreases t.size() - n, t.named_kids(n).len() - k,
{
    if 0 <= k < t.named_kids(n).len() {
        let c = t.named_kids(n)[k] as int;
        if !is_scope_spec(lang, t.kind_of(c)) && n < c < t.size() {
            lemma_buried_bound(t, lang, c);
        }
        lemma_buried_kids_bound(t, lang, n, k + 1);
    }
}

fn buried_name(t: &SyntaxTree, lang: ScopeLang, n: usize) -> (r: Option<usize>)
    requires
        t.wf(),
        n < t.nodes@.len(),
    ensures
        r == buried_name_spec(*t, lang, n as int),
        r matches Some(c) ==> c < t.nodes@.len(),
    decreases t.nodes@.len() - n,
{
    proof {
        lemma_buried_bound(*t, lang, n as int);
    }
    match t.child_by_field(n, "name") {
        Some(c) => {
            return Some(c);
        },
        None => {},
    }
    let kids = t.named_children(n);
    let mut k: usize = 0;
    while k < kids.len()
        invariant
            t.wf(),
            n < t.nodes@.len(),
            kids@ == t.named_kids(n as int),
            forall|j: int| 0 <= j < kids@.len() ==> n < #[trigger] kids@[j] < t.nodes@.len(),
            k <= kids@.len(),
            buried_name_spec(*t, lang, n as int) == buried_kids(*t, lang, n as int, k as int),
        decreases kids@.len() - k,
    {
        let c = kids[k];
        if !lang.is_scope(t.nodes[c].kind.as_str()) {
            let r = buried_name(t, lang, c);
            if r.is_some() {
                return r;
            }
        }
        k += 1;
    }
    None
}

/// The parameter list of a function node: its `parameters`,
/// `parameter_list` or `formal_parameters` field, else its first child of
/// kind `parameters` or `parameter_list`.
pub open spec fn params_of(t: SyntaxTree, n: int) -> Option<usize> {
    match t.field_child(n, "parameters"@) {
        Some(p) => Some(p),
        None => match t.field_child(n, "parameter_list"@) {
            Some(p) => Some(p),
            None => match t.field_child(n, "formal_parameters"@) {
                Some(p) => Some(p),
                None => param_child(t, n, 0),
            },
        },
    }
}

/// The first child of `n` from the `k`-th on of kind `parameters` or
/// `parameter_list`.
pub open spec fn param_child(t: SyntaxTree, n: int, k: int) -> Option<usize>
    decreases t.nodes@[n].children@.len() - k,
{
    if k < 0 || k >= t.nodes@[n].children@.len() {
        None
    } else {
        let c = t.nodes@[n].children@[k];
        if t.kind_of(c as int) == "parameters"@ || t.kind_of(c as int) == "parameter_list"@ {
            Some(c)
        } else {
            param_child(t, n, k + 1)
        }
    }
}

/// How a receiver is written as an ordinary first parameter.
pub open spec fn receiver_texts() -> Seq<&'static str> {
    seq!["self", "&self", "&mut self", "$this"]
}

/// The function at `n` declares a receiver: the first named child of its
/// parameter list is a `self_parameter`, or reads as one of the receiver
/// spellings.
pub open spec fn has_receiver_spec(t: SyntaxTree, src: Seq<char>, n: int) -> bool {
    match params_of(t, n) {
        None => false,
        Some(p) => {
            let first = t.named_kids(p as int);
            first.len() > 0 && (t.kind_of(first[0] as int) == "self_parameter"@ || names(
                receiver_texts(),
                match text_at(t, src, first[0] as int) {
                    Some(s) => s,
                    None => Seq::empty(),
                },
            ))
        }
    }
}

fn is_receiver_text(text: &[char]) -> (b: bool)
    ensures
        b == names(receiver_texts(), text@),
{
    let recv: Vec<&'static str> = vec!["self", "&self", "&mut self", "$this"];
    assert(recv@ =~= receiver_texts());
    let mut k: usize = 0;
    while k < recv.len()
        invariant
            k <= recv@.len(),
            recv@ == receiver_texts(),
            forall|j: int| 0 <= j < k ==> (#[trigger] recv@[j])@ != text@,
        decreases recv@.len() - k,
    {
        if chars_are(text, recv[k]) {
            assert((#[trigger] recv@[k as int])@ == text@);
            return true;
        }
        k += 1;
    }
    false
}

fn has_receiver(t: &SyntaxTree, src: &Vec<char>, n: usize) -> (b: bool)
    requires
        t.wf(),
        n < t.nodes@.len(),
    ensures
        b == has_receiver_spec(*t, src@, n as int),
{
    let mut params = t.child_by_field(n, "parameters");
    if params.is_none() {
        params = t.child_by_field(n, "parameter_list");
    }
    if params.is_none() {
        params = t.child_by_field(n, "formal_parameters");
    }
    if params.is_none() {
        let kids = &t.nodes[n].children;
        let mut k: usize = 0;
        while k < kids.len() && params.is_none()
            invariant
                t.wf(),
                n < t.nodes@.len(),
                *kids == t.nodes@[n as int].children,
                k <= kids@.len(),
                params is None ==> param_child(*t, n as int, k as int) == param_child(*t, n as int, 0),
                params matches Some(p) ==> params == param_child(*t, n as int, 0) && n < p < t.nodes@.len(),
            decreases kids@.len() - k + (if params is None { 1int } else { 0int }),
        {
            let c = kids[k];
            proof {
                assert(n < c < t.nodes@.len());
            }
            let kind = t.nodes[c].kind.as_str();
            if str_eq(kind, "parameters") || str_eq(kind, "parameter_list") {
                params = Some(c);
            } else {
                k += 1;
            }
        }
    }
    assert(params == params_of(*t, n as int));
    let p = match params {
        Some(p) => p,
        None => {
            return false;
        },
    };
    let first = t.named_children(p);
    if first.len() == 0 {
        return false;
    }
    let f = first[0];
    if str_eq(t.nodes[f].kind.as_str(), "self_parameter") {
        return true;
    }
    let text = match node_text(t, src, f) {
        Some(v) => v,
        None => Vec::new(),
    };
    let ghost shown = match text_at(*t, src@, f as int) {
        Some(s) => s,
        None => Seq::<char>::empty(),
    };
    assert(text@ == shown);
    is_receiver_text(text.as_slice())
}


/// The node a rule's type is written on.
pub open spec fn ty_node(t: SyntaxTree, n: int, ty: Ty) -> Option<usize> {
    match ty {
        Ty::Absent => None,
        Ty::Own(f) => t.field_child(n, f@),
        Ty::Parent(f) => match t.nodes@[n].parent {
            Some(p) => t.field_child(p as int, f@),
            None => None,
        },
    }
}

/// `s` without `lead` in front and the `White_Space` after it, when it
/// starts with `lead`.
pub open spec fn strip_lead(s: Seq<char>, lead: Seq<char>) -> Seq<char> {
    if has_prefix(s, lead) {
        let rest = s.skip(lead.len() as int);
        rest.skip(lead_spaces(rest) as int)
    } else {
        s
    }
}

/// The type text as shown: trimmed, with a leading `:`, then `->`, then `::`
/// taken off in turn.
pub open spec fn shown_type(raw: Seq<char>) -> Seq<char> {
    strip_lead(strip_lead(strip_lead(trimmed(raw), ":"@), "->"@), "::"@)
}

/// The written type of a declaration at `n`: nothing when the rule names
/// none, the node is missing or its text is empty, longer than 40 bytes or
/// more than one line.
pub open spec fn type_text_spec(t: SyntaxTree, src: Seq<char>, n: int, ty: Ty) -> Option<Seq<char>> {
    match ty_node(t, n, ty) {
        None => None,
        Some(f) => match text_at(t, src, f as int) {
            None => None,
            Some(raw) => {
                let s = shown_type(raw);
                if s.len() == 0 || utf8_len(s) > 40 || s.contains('\n') {
                    None
                } else {
                    Some(s)
                }
            },
        },
    }
}

fn strip_lead_of(s: Vec<char>, lead: &str) -> (r: Vec<char>)
    ensures
        r@ == strip_lead(s@, lead@),
{
    let l = crate::text::chars_of(lead);
    if starts_with(s.as_slice(), l.as_slice()) {
        let rest = slice_vec(s.as_slice(), l.len(), s.len());
        assert(rest@ =~= s@.skip(lead@.len() as int));
        trim_start_chars(rest.as_slice())
    } else {
        s
    }
}

fn has_newline(s: &[char]) -> (b: bool)
    ensures
        b == s@.contains('\n'),
{
    let mut k: usize = 0;
    while k < s.len()
        invariant
            k <= s@.len(),
            forall|j: int| 0 <= j < k ==> s@[j] != '\n',
        decreases s@.len() - k,
    {
        if s[k] == '\n' {
            assert(s@[k as int] == '\n');
            return true;
        }
        k += 1;
    }
    false
}

fn type_text(t: &SyntaxTree, src: &Vec<char>, n: usize, ty: Ty) -> (r: Option<String>)
    requires
        t.wf(),
        n < t.nodes@.len(),
    ensures
        opt_view(r) == type_text_spec(*t, src@, n as int, ty),
{
    let field = match ty {
        Ty::Absent => None,
        Ty::Own(f) => t.child_by_field(n, f),
        Ty::Parent(f) => match t.nodes[n].parent {
            Some(p) => {
                assert(p < n);
                t.child_by_field(p, f)
            },
            None => None,
        },
    };
    let f = match field {
        Some(f) => f,
        None => {
            return None;
        },
    };
    let raw = match node_text(t, src, f) {
        Some(v) => v,
        None => {
            return None;
        },
    };
    let s0 = trim_chars(raw.as_slice());
    let s1 = strip_lead_of(s0, ":");
    let s2 = strip_lead_of(s1, "->");
    let s3 = strip_lead_of(s2, "::");
    if s3.len() == 0 || utf8_at_least(s3.as_slice(), 41) || has_newline(s3.as_slice()) {
        return None;
    }
    Some(crate::text::string_of(s3.as_slice()))
}


/// The text of node `c` as one declaration, when its range lies in `src`.
pub open spec fn one_decl(t: SyntaxTree, src: Seq<char>, c: int, sym: SymbolKind, ty: Option<Seq<char>>) -> Seq<FoundView> {
    match text_at(t, src, c) {
        Some(s) => seq![(s, sym, ty)],
        None => Seq::empty(),
    }
}

/// The names the declarators among the children of `n`, from the `k`-th
/// on, declare: children whose kind ends in `declarator` or is `identifier`.
pub open spec fn declarator_children(t: SyntaxTree, src: Seq<char>, n: int, k: int, sym: SymbolKind, ty: Option<Seq<char>>) -> Seq<FoundView>
    decreases t.nodes@[n].children@.len() - k,
{
    if k < 0 || k >= t.nodes@[n].children@.len() {
        Seq::empty()
    } else {
        let c = t.nodes@[n].children@[k] as int;
        let here = if crate::logic::has_suffix(t.kind_of(c), "declarator"@) || t.kind_of(c) == "identifier"@ {
            match declarator_name_spec(t, src, c) {
                Some(s) => seq![(s, sym, ty)],
                None => Seq::empty(),
            }
        } else {
            Seq::empty()
        };
        here + declarator_children(t, src, n, k + 1, sym, ty)
    }
}

/// The first named child of `n`, from the `k`-th on, of kind `identifier`.
pub open spec fn first_identifier(t: SyntaxTree, n: int, k: int) -> Option<usize>
    decreases t.named_kids(n).len() - k,
{
    if k < 0 || k >= t.named_kids(n).len() {
        None
    } else if t.kind_of(t.named_kids(n)[k] as int) == "identifier"@ {
        Some(t.named_kids(n)[k])
    } else {
        first_identifier(t, n, k + 1)
    }
}

/// The kind a rule declares at `n`: a function with a receiver is a method.
pub open spec fn rule_sym(t: SyntaxTree, src: Seq<char>, n: int, r: DeclRule) -> SymbolKind {
    if r.sym == SymbolKind::Function && has_receiver_spec(t, src, n) {
        SymbolKind::Method
    } else {
        r.sym
    }
}

/// What rule `r` finds declared at node `n`.
pub open spec fn rule_decls(t: SyntaxTree, src: Seq<char>, lang: ScopeLang, n: int, r: DeclRule) -> Seq<FoundView> {
    let ty = type_text_spec(t, src, n, r.ty);
    let sym = rule_sym(t, src, n, r);
    match r.bind {
        Bind::Field(f) => match t.field_child(n, f@) {
            Some(c) => one_decl(t, src, c as int, sym, ty),
            None => Seq::empty(),
        },
        Bind::Pattern(f) => if f@ == "__self__"@ {
            tag(pattern_names_spec(t, src, n), sym, ty)
        } else {
            match t.field_child(n, f@) {
                Some(p) => tag(pattern_names_spec(t, src, p as int), sym, ty),
                None => Seq::empty(),
            }
        },
        Bind::Declarator(f) => match t.field_child(n, f@) {
            Some(d) => match declarator_name_spec(t, src, d as int) {
                Some(s) => seq![(s, sym, ty)],
                None => Seq::empty(),
            },
            None => Seq::empty(),
        },
        Bind::DeclaratorChildren => declarator_children(t, src, n, 0, sym, ty),
        Bind::SelfWhenParent(ps) => match t.nodes@[n].parent {
            Some(p) => if names(parent_kinds_spec(ps), t.kind_of(p as int)) {
                one_decl(t, src, n, sym, ty)
            } else {
                Seq::empty()
            },
            None => Seq::empty(),
        },
        Bind::FirstIdentifierChild => match first_identifier(t, n, 0) {
            Some(c) => one_decl(t, src, c as int, sym, ty),
            None => Seq::empty(),
        },
        Bind::BuriedName => match buried_name_spec(t, lang, n) {
            Some(c) => one_decl(t, src, c as int, sym, ty),
            None => Seq::empty(),
        },
    }
}

/// What the rules of `lang` from the `k`-th on find declared at node `n`,
/// rule by rule, each rule applying to nodes of its kind.
pub open spec fn rules_from(t: SyntaxTree, src: Seq<char>, lang: ScopeLang, n: int, k: int) -> Seq<FoundView>
    decreases rules_spec(lang).len() - k,
{
    let rs = rules_spec(lang);
    if k < 0 || k >= rs.len() {
        Seq::empty()
    } else {
        let here = if rs[k].kind@ == t.kind_of(n) { rule_decls(t, src, lang, n, rs[k]) } else { Seq::empty() };
        here + rules_from(t, src, lang, n, k + 1)
    }
}

/// Every name node `n` declares, in the order of the language's rules.
pub open spec fn decls_spec(t: SyntaxTree, src: Seq<char>, lang: ScopeLang, n: int) -> Seq<FoundView> {
    rules_from(t, src, lang, n, 0)
}

fn declarator_children_of(
    t: &SyntaxTree,
    src: &Vec<char>,
    n: usize,
    sym: SymbolKind,
    ty: &Option<String>,
    out: &mut Vec<Found>,
)
    requires
        t.wf(),
        n < t.nodes@.len(),
    ensures
        found_views(final(out)@) == found_views(old(out)@) + declarator_children(*t, src@, n as int, 0, sym, opt_view(*ty)),
{
    let kids = &t.nodes[n].children;
    let mut k: usize = 0;
    let ghost start = found_views(out@);
    while k < kids.len()
        invariant
            t.wf(),
            n < t.nodes@.len(),
            *kids == t.nodes@[n as int].children,
            k <= kids@.len(),
            found_views(out@) + declarator_children(*t, src@, n as int, k as int, sym, opt_view(*ty))
                == start + declarator_children(*t, src@, n as int, 0, sym, opt_view(*ty)),
        decreases kids@.len() - k,
    {
        let c = kids[k];
        proof {
            assert(n < c < t.nodes@.len());
        }
        let ghost before = found_views(out@);
        let kind = t.nodes[c].kind.as_str();
        if crate::logic::ends_with(crate::text::chars_of(kind).as_slice(), "declarator") || str_eq(kind, "identifier") {
            match innermost_declarator_name(t, src, c) {
                Some(v) => {
                    let f = (crate::text::string_of(v.as_slice()), sym, clone_ty(ty));
                    out.push(f);
                    proof {
                        lemma_found_push(old(out)@, f);
                    }
                },
                None => {},
            }
        }
        proof {
            let rest = declarator_children(*t, src@, n as int, k + 1, sym, opt_view(*ty));
            assert(found_views(out@) + rest =~= before + declarator_children(*t, src@, n as int, k as int, sym, opt_view(*ty)));
        }
        k += 1;
    }
    assert(found_views(out@) =~= found_views(out@) + declarator_children(*t, src@, n as int, k as int, sym, opt_view(*ty)));
}


/// The names node `n` declares, by the rules of `lang`.
fn declarations(t: &SyntaxTree, src: &Vec<char>, lang: ScopeLang, n: usize, out: &mut Vec<Found>)
    requires
        t.wf(),
        n < t.nodes@.len(),
    ensures
        found_views(final(out)@) == found_views(old(out)@) + decls_spec(*t, src@, lang, n as int),
{
    let rules = lang.rules();
    let kind = t.nodes[n].kind.as_str();
    let mut k: usize = 0;
    let ghost start = found_views(out@);
    while k < rules.len()
        invariant
            t.wf(),
            n < t.nodes@.len(),
            rules@ == rules_spec(lang),
            kind@ == t.kind_of(n as int),
            k <= rules@.len(),
            found_views(out@) + rules_from(*t, src@, lang, n as int, k as int)
                == start + rules_from(*t, src@, lang, n as int, 0),
        decreases rules@.len() - k,
    {
        let rule = rules[k];
        let ghost before = found_views(out@);
        if str_eq(rule.kind, kind) {
            declare_by(t, src, lang, n, rule, out);
        }
        proof {
            let rest = rules_from(*t, src@, lang, n as int, k + 1);
            assert(found_views(out@) + rest =~= before + rules_from(*t, src@, lang, n as int, k as int));
        }
        k += 1;
    }
    assert(found_views(out@) =~= found_views(out@) + rules_from(*t, src@, lang, n as int, k as int));
}

/// What `rule` finds declared at node `n`.
fn declare_by(t: &SyntaxTree, src: &Vec<char>, lang: ScopeLang, n: usize, rule: DeclRule, out: &mut Vec<Found>)
    requires
        t.wf(),
        n < t.nodes@.len(),
    ensures
        found_views(final(out)@) == found_views(old(out)@) + rule_decls(*t, src@, lang, n as int, rule),
{
    let ty = type_text(t, src, n, rule.ty);
    let sym = if rule.sym == SymbolKind::Function && has_receiver(t, src, n) {
        SymbolKind::Method
    } else {
        rule.sym
    };
    assert(sym == rule_sym(*t, src@, n as int, rule));
    let ghost tyv = opt_view(ty);
    let ghost before = found_views(out@);
    match rule.bind {
        Bind::Field(f) => {
            match t.child_by_field(n, f) {
                Some(c) => push_text(t, src, c, sym, ty, out),
                None => {
                    assert(found_views(out@) =~= found_views(out@) + Seq::<FoundView>::empty());
                },
            }
        },
        Bind::Pattern(f) => {
            if str_eq(f, "__self__") {
                pattern_names(t, src, n, sym, &ty, out);
            } else {
                match t.child_by_field(n, f) {
                    Some(p) => pattern_names(t, src, p, sym, &ty, out),
                    None => {
                        assert(found_views(out@) =~= found_views(out@) + Seq::<FoundView>::empty());
                    },
                }
            }
        },
        Bind::Declarator(f) => {
            match t.child_by_field(n, f) {
                Some(d) => {
                    match innermost_declarator_name(t, src, d) {
                        Some(v) => {
                            let e = (crate::text::string_of(v.as_slice()), sym, ty);
                            out.push(e);
                            proof {
                                lemma_found_push(old(out)@, e);
                                assert(found_views(out@) =~= before + seq![(v@, sym, tyv)]);
                            }
                        },
                        None => {
                            assert(found_views(out@) =~= found_views(out@) + Seq::<FoundView>::empty());
                        },
                    }
                },
                None => {
                    assert(found_views(out@) =~= found_views(out@) + Seq::<FoundView>::empty());
                },
            }
        },
        Bind::DeclaratorChildren => {
            declarator_children_of(t, src, n, sym, &ty, out);
        },
        Bind::SelfWhenParent(ps) => {
            let mut hit = false;
            match t.nodes[n].parent {
                Some(p) => {
                    assert(p < n);
                    let kinds = ps.kinds();
                    if names_kind(&kinds, t.nodes[p].kind.as_str()) {
                        hit = true;
                    }
                },
                None => {},
            }
            if hit {
                push_text(t, src, n, sym, ty, out);
            } else {
                assert(found_views(out@) =~= found_views(out@) + Seq::<FoundView>::empty());
            }
        },
        Bind::FirstIdentifierChild => {
            let kids = t.named_children(n);
            let mut k: usize = 0;
            let mut found: Option<usize> = None;
            while k < kids.len() && found.is_none()
                invariant
                    t.wf(),
                    n < t.nodes@.len(),
                    kids@ == t.named_kids(n as int),
                    forall|j: int| 0 <= j < kids@.len() ==> n < #[trigger] kids@[j] < t.nodes@.len(),
                    k <= kids@.len(),
                    found is None ==> first_identifier(*t, n as int, k as int) == first_identifier(*t, n as int, 0),
                    found matches Some(c) ==> found == first_identifier(*t, n as int, 0) && c < t.nodes@.len(),
                decreases kids@.len() - k + (if found is None { 1int } else { 0int }),
            {
                let c = kids[k];
                if str_eq(t.nodes[c].kind.as_str(), "identifier") {
                    found = Some(c);
                } else {
                    k += 1;
                }
            }
            match found {
                Some(c) => push_text(t, src, c, sym, ty, out),
                None => {
                    assert(found_views(out@) =~= found_views(out@) + Seq::<FoundView>::empty());
                },
            }
        },
        Bind::BuriedName => {
            match buried_name(t, lang, n) {
                Some(c) => push_text(t, src, c, sym, ty, out),
                None => {
                    assert(found_views(out@) =~= found_views(out@) + Seq::<FoundView>::empty());
                },
            }
        },
    }
}


// ── The declarations of a scope ────────────────────────────────────────────

/// The declarations made directly in `scope`, walking down from node `node`
/// through its children from the `k`-th on: each child's own declarations,
/// then what lies under it, except under a nested scope that does not hold
/// `scope`.
pub open spec fn collect_spec(t: SyntaxTree, src: Seq<char>, lang: ScopeLang, node: int, scope: int, k: int) -> Seq<FoundView>
    decreases t.size() - node, t.nodes@[node].children@.len() - k,
{
    if !(0 <= node < t.size()) || k < 0 || k >= t.nodes@[node].children@.len() {
        Seq::empty()
    } else {
        let c = t.nodes@[node].children@[k] as int;
        let nested = is_scope_spec(lang, t.kind_of(c)) && c != scope;
        let inner = if nested && !holds_scope(t, c, scope) {
            Seq::empty()
        } else if node < c < t.size() {
            collect_spec(t, src, lang, c, scope, 0)
        } else {
            Seq::empty()
        };
        decls_spec(t, src, lang, c) + inner + collect_spec(t, src, lang, node, scope, k + 1)
    }
}

/// The declarations made directly inside `scope`, from node `node` down.
fn collect_in_scope(t: &SyntaxTree, src: &Vec<char>, lang: ScopeLang, node: usize, scope: usize, out: &mut Vec<Found>)
    requires
        t.wf(),
        node < t.nodes@.len(),
        scope < t.nodes@.len(),
    ensures
        found_views(final(out)@) == found_views(old(out)@) + collect_spec(*t, src@, lang, node as int, scope as int, 0),
    decreases t.nodes@.len() - node,
{
    let kids = &t.nodes[node].children;
    let mut k: usize = 0;
    let ghost start = found_views(out@);
    while k < kids.len()
        invariant
            t.wf(),
            node < t.nodes@.len(),
            scope < t.nodes@.len(),
            *kids == t.nodes@[node as int].children,
            k <= kids@.len(),
            found_views(out@) + collect_spec(*t, src@, lang, node as int, scope as int, k as int)
                == start + collect_spec(*t, src@, lang, node as int, scope as int, 0),
        decreases kids@.len() - k,
    {
        let c = kids[k];
        proof {
            assert(node < c < t.nodes@.len());
        }
        let ghost before = found_views(out@);
        declarations(t, src, lang, c, out);
        let ghost mid = found_views(out@);
        let nested = lang.is_scope(t.nodes[c].kind.as_str()) && c != scope;
        if nested && !contains_scope_boundary(t, c, scope) {
            assert(found_views(out@) =~= found_views(out@) + Seq::<FoundView>::empty());
        } else {
            collect_in_scope(t, src, lang, c, scope, out);
        }
        proof {
            let rest = collect_spec(*t, src@, lang, node as int, scope as int, k + 1);
            assert(found_views(out@) + rest =~= before + collect_spec(*t, src@, lang, node as int, scope as int, k as int));
        }
        k += 1;
    }
    assert(found_views(out@) =~= found_views(out@) + collect_spec(*t, src@, lang, node as int, scope as int, k as int));
}

/// The file's top-level declarations, as the scope walk reads them.
pub fn collect_global_symbols(t: &SyntaxTree, src: &Vec<char>, lang: ScopeLang) -> (v: Vec<Found>)
    requires
        t.wf(),
    ensures
        found_views(v@) == collect_spec(*t, src@, lang, 0, 0, 0),
{
    let mut out: Vec<Found> = Vec::new();
    assert(found_views(out@) =~= Seq::<FoundView>::empty());
    collect_in_scope(t, src, lang, 0, 0, &mut out);
    assert(found_views(out@) =~= collect_spec(*t, src@, lang, 0, 0, 0));
    out
}


// ── What is visible at the caret ───────────────────────────────────────────

/// A visible symbol as plain values: name, kind, type, global, depth.
pub type SymView = (Seq<char>, SymbolKind, Option<Seq<char>>, bool, nat);

pub open spec fn sym_view(s: ScopeSymbol) -> SymView {
    (s.name@, s.kind, opt_view(s.ty), s.global, s.depth as nat)
}

pub open spec fn syms_view(v: Seq<ScopeSymbol>) -> Seq<SymView> {
    v.map_values(|s: ScopeSymbol| sym_view(s))
}

/// The scopes around the caret at `at`, innermost first: the chain of the
/// empty range at the caret, or that of the character before it when that
/// one is longer, re-attached to a body the parser gave up on.
pub open spec fn caret_chain(t: SyntaxTree, lang: ScopeLang, at: usize) -> Seq<usize> {
    let first = scope_chain_spec(t, lang, at, at);
    let chosen = if at > 0 {
        let retry = scope_chain_spec(t, lang, (at - 1) as usize, at);
        if retry.len() > first.len() { retry } else { first }
    } else {
        first
    };
    recovered(t, lang, at, chosen)
}

/// The symbols scope `d` of `chain` offers, in order: its declarations (the
/// outermost scope's are `global`), a function made a method where the
/// scope's kind owns methods, marked global when outermost and with depth
/// `d`.
pub open spec fn scope_entries(
    t: SyntaxTree,
    src: Seq<char>,
    lang: ScopeLang,
    chain: Seq<usize>,
    global: Seq<FoundView>,
    d: int,
) -> Seq<SymView> {
    let last = chain.len() - 1;
    let found = if d == last { global } else { collect_spec(t, src, lang, chain[d] as int, chain[d] as int, 0) };
    let methods = names(method_owner_kinds_spec(lang), t.kind_of(chain[d] as int));
    found.map_values(
        |f: FoundView|
            (
                f.0,
                if methods && f.1 == SymbolKind::Function { SymbolKind::Method } else { f.1 },
                f.2,
                d == last,
                d as nat,
            ),
    )
}

/// The symbols of the first `d` scopes of `chain`, nearest first.
pub open spec fn entries_upto(
    t: SyntaxTree,
    src: Seq<char>,
    lang: ScopeLang,
    chain: Seq<usize>,
    global: Seq<FoundView>,
    d: int,
) -> Seq<SymView>
    decreases d,
{
    if d <= 0 {
        Seq::empty()
    } else {
        entries_upto(t, src, lang, chain, global, d - 1) + scope_entries(t, src, lang, chain, global, d - 1)
    }
}

/// Each name once, where it first occurs; empty names dropped.
pub open spec fn firsts(s: Seq<SymView>) -> Seq<SymView>
    decreases s.len(),
{
    if s.len() == 0 {
        Seq::empty()
    } else {
        let r = firsts(s.drop_last());
        let e = s.last();
        if e.0.len() == 0 || (exists|j: int| 0 <= j < s.len() - 1 && (#[trigger] s[j]).0 == e.0) {
            r
        } else {
            r.push(e)
        }
    }
}

/// The symbols visible at the caret `at`, nearest scope first, each name
/// once, where the outermost scope's declarations are `global`.
pub open spec fn visible_spec(t: SyntaxTree, src: Seq<char>, lang: ScopeLang, at: usize, global: Seq<FoundView>) -> Seq<SymView> {
    let chain = caret_chain(t, lang, at);
    firsts(entries_upto(t, src, lang, chain, global, chain.len() as int))
}

/// The caret, kept inside the source.
pub open spec fn clamp_caret(at: usize, len: nat) -> usize {
    if at <= len { at } else { len as usize }
}

/// A name occurs in `firsts(s)` exactly when it occurs in `s` (non-empty
/// names).
proof fn lemma_firsts_names(s: Seq<SymView>, nm: Seq<char>)
    requires
        nm.len() > 0,
    ensures
        (exists|j: int| 0 <= j < s.len() && (#[trigger] s[j]).0 == nm) <==> (exists|k: int|
            0 <= k < firsts(s).len() && (#[trigger] firsts(s)[k]).0 == nm),
    decreases s.len(),
{
    if s.len() > 0 {
        let p = s.drop_last();
        lemma_firsts_names(p, nm);
        let r = firsts(p);
        let e = s.last();
        if exists|j: int| 0 <= j < s.len() && (#[trigger] s[j]).0 == nm {
            let j = choose|j: int| 0 <= j < s.len() && (#[trigger] s[j]).0 == nm;
            if j < s.len() - 1 {
                assert(p[j].0 == nm);
                let k = choose|k: int| 0 <= k < r.len() && (#[trigger] r[k]).0 == nm;
                assert(firsts(s)[k] == r[k]);
            } else {
                assert(e.0 == nm);
                if exists|i: int| 0 <= i < s.len() - 1 && (#[trigger] s[i]).0 == e.0 {
                    let i = choose|i: int| 0 <= i < s.len() - 1 && (#[trigger] s[i]).0 == e.0;
                    assert(p[i].0 == nm);
                    let k = choose|k: int| 0 <= k < r.len() && (#[trigger] r[k]).0 == nm;
                    assert(firsts(s)[k] == r[k]);
                } else {
                    assert(firsts(s)[r.len() as int].0 == nm);
                }
            }
        }
        if exists|k: int| 0 <= k < firsts(s).len() && (#[trigger] firsts(s)[k]).0 == nm {
            let k = choose|k: int| 0 <= k < firsts(s).len() && (#[trigger] firsts(s)[k]).0 == nm;
            if k < r.len() {
                assert(r[k].0 == nm);
                let j = choose|j: int| 0 <= j < p.len() && (#[trigger] p[j]).0 == nm;
                assert(s[j].0 == nm);
            } else {
                assert(s[s.len() - 1].0 == nm);
            }
        }
    }
}

proof fn lemma_chain_ends_at_root(t: SyntaxTree, lang: ScopeLang, at: usize)
    ensures
        caret_chain(t, lang, at).len() > 0,
        caret_chain(t, lang, at).last() == 0,
{
    let first = scope_chain_spec(t, lang, at, at);
    let chosen = if at > 0 {
        let retry = scope_chain_spec(t, lang, (at - 1) as usize, at);
        if retry.len() > first.len() { retry } else { first }
    } else {
        first
    };
    assert(chosen.len() > 0 && chosen.last() == 0);
    let r = recovered(t, lang, at, chosen);
    if r != chosen {
        assert(r.last() == chosen.last());
    }
}


/// The symbols visible at `at`, with `global` as the file scope's
/// declarations.
fn visible_with(t: &SyntaxTree, src: &Vec<char>, at: usize, lang: ScopeLang, global: &Vec<Found>) -> (v: Vec<ScopeSymbol>)
    requires
        t.wf(),
    ensures
        syms_view(v@) == visible_spec(*t, src@, lang, at, found_views(global@)),
{
    let mut chain = scope_chain(t, lang, at, at);
    if at > 0 {
        let retry = scope_chain(t, lang, at - 1, at);
        if retry.len() > chain.len() {
            chain = retry;
        }
    }
    recover_through_error(t, lang, at, &mut chain);
    let ghost g = found_views(global@);
    let ghost ch = caret_chain(*t, lang, at);
    assert(chain@ == ch);
    proof {
        lemma_chain_ends_at_root(*t, lang, at);
    }
    let last = chain.len() - 1;
    let owners = lang.method_owner_kinds();
    let mut out: Vec<ScopeSymbol> = Vec::new();
    // The names already in `out`, for membership in constant time.
    let mut seen = vstd::hash_set::StringHashSet::new();
    let mut d: usize = 0;
    assert(syms_view(out@) =~= firsts(entries_upto(*t, src@, lang, ch, g, 0)));
    while d < chain.len()
        invariant
            t.wf(),
            chain@ == ch,
            ch.len() > 0,
            last == ch.len() - 1,
            owners@ == method_owner_kinds_spec(lang),
            g == found_views(global@),
            forall|k: int| 0 <= k < chain@.len() ==> #[trigger] chain@[k] < t.nodes@.len(),
            d <= chain@.len(),
            syms_view(out@) == firsts(entries_upto(*t, src@, lang, ch, g, d as int)),
            forall|n: Seq<char>| #[trigger] seen@.contains(n) <==> exists|k: int| 0 <= k < out@.len() && (#[trigger] out@[k]).name@ == n,
        decreases chain@.len() - d,
    {
        let scope = chain[d];
        let is_global = d == last;
        let mut local: Vec<Found> = Vec::new();
        if !is_global {
            collect_in_scope(t, src, lang, scope, scope, &mut local);
            assert(found_views(local@) =~= collect_spec(*t, src@, lang, scope as int, scope as int, 0));
        }
        let found: &Vec<Found> = if is_global { global } else { &local };
        let methods_here = names_kind(&owners, t.nodes[scope].kind.as_str());
        let ghost se = scope_entries(*t, src@, lang, ch, g, d as int);
        let ghost base = entries_upto(*t, src@, lang, ch, g, d as int);
        assert(se.len() == found@.len());
        let mut j: usize = 0;
        assert(base + se.take(0) =~= base);
        while j < found.len()
            invariant
                d < chain@.len(),
                chain@ == ch,
                se == scope_entries(*t, src@, lang, ch, g, d as int),
                se.len() == found@.len(),
                forall|i: int| 0 <= i < found@.len() ==> #[trigger] se[i] == (
                    found@[i].0@,
                    if methods_here && found@[i].1 == SymbolKind::Function { SymbolKind::Method } else { found@[i].1 },
                    opt_view(found@[i].2),
                    is_global,
                    d as nat,
                ),
                j <= found@.len(),
                syms_view(out@) == firsts(base + se.take(j as int)),
                forall|n: Seq<char>| #[trigger] seen@.contains(n) <==> exists|k: int| 0 <= k < out@.len() && (#[trigger] out@[k]).name@ == n,
            decreases found@.len() - j,
        {
            let name = found[j].0.as_str();
            let ghost all = base + se.take(j as int);
            let ghost next = base + se.take(j + 1);
            assert(next =~= all.push(se[j as int]));
            assert(next.drop_last() =~= all);
            if !name.is_empty() {
                proof {
                    lemma_firsts_names(all, name@);
                    assert forall|k: int| 0 <= k < out@.len() implies (#[trigger] out@[k]).name@ == syms_view(out@)[k].0 by {}
                    assert forall|k: int| 0 <= k < syms_view(out@).len() implies (#[trigger] syms_view(out@)[k]).0 == out@[k].name@ by {}
                }
                if !seen.contains(name) {
                    let kind = if methods_here && found[j].1 == SymbolKind::Function {
                        SymbolKind::Method
                    } else {
                        found[j].1
                    };
                    let s = ScopeSymbol {
                        name: found[j].0.clone(),
                        kind,
                        ty: clone_ty(&found[j].2),
                        global: is_global,
                        depth: d,
                    };
                    let ghost before = out@;
                    let ghost seen0 = seen@;
                    out.push(s);
                    seen.insert(found[j].0.clone());
                    proof {
                        assert(syms_view(out@) =~= syms_view(before).push(sym_view(s)));
                        assert(sym_view(s) == se[j as int]);
                        assert forall|n: Seq<char>| #[trigger] seen@.contains(n) <==> exists|k: int| 0 <= k < out@.len() && (#[trigger] out@[k]).name@ == n by {
                            if seen@.contains(n) && n != name@ {
                                assert(seen0.contains(n));
                                let k = choose|k: int| 0 <= k < before.len() && (#[trigger] before[k]).name@ == n;
                                assert(out@[k] == before[k]);
                            }
                            if n == name@ {
                                assert(out@[before.len() as int].name@ == n);
                            }
                            if exists|k: int| 0 <= k < out@.len() && (#[trigger] out@[k]).name@ == n {
                                let k = choose|k: int| 0 <= k < out@.len() && (#[trigger] out@[k]).name@ == n;
                                if k < before.len() {
                                    assert(before[k] == out@[k]);
                                }
                            }
                        }
                    }
                }
            }
            j += 1;
        }
        proof {
            assert(se.take(j as int) =~= se);
            assert(entries_upto(*t, src@, lang, ch, g, d + 1) == base + se);
        }
        d += 1;
    }
    out
}

/// The symbols visible at `at`, nearest scope first, each name once.
pub fn visible_at(t: &SyntaxTree, src: &Vec<char>, at: usize, lang: ScopeLang) -> (v: Vec<ScopeSymbol>)
    requires
        t.wf(),
    ensures
        syms_view(v@) == visible_spec(
            *t,
            src@,
            lang,
            clamp_caret(at, src@.len()),
            collect_spec(*t, src@, lang, 0, 0, 0),
        ),
{
    let at = if at <= src.len() { at } else { src.len() };
    let global = collect_global_symbols(t, src, lang);
    visible_with(t, src, at, lang, &global)
}


/// `visible_at`, taking the file scope's declarations from `cache` when it
/// holds them for tree `tree_gen`, and leaving them there.
pub fn visible_at_cached(
    t: &SyntaxTree,
    src: &Vec<char>,
    at: usize,
    lang: ScopeLang,
    cache: &mut GlobalScopeCache,
    tree_gen: u64,
) -> (v: Vec<ScopeSymbol>)
    requires
        t.wf(),
    ensures
        syms_view(v@) == visible_spec(
            *t,
            src@,
            lang,
            clamp_caret(at, src@.len()),
            cached_global(*old(cache), tree_gen, *t, src@, lang),
        ),
        final(cache).generation() == tree_gen,
        final(cache).held() == Some(cached_global(*old(cache), tree_gen, *t, src@, lang)),
{
    let at = if at <= src.len() { at } else { src.len() };
    let mut held: Option<Vec<Found>> = None;
    std::mem::swap(&mut held, &mut cache.symbols);
    let global: Vec<Found> = if cache.tree_gen == tree_gen {
        match held {
            Some(v) => v,
            None => collect_global_symbols(t, src, lang),
        }
    } else {
        collect_global_symbols(t, src, lang)
    };
    cache.tree_gen = tree_gen;
    let r = visible_with(t, src, at, lang, &global);
    cache.symbols = Some(global);
    r
}

/// With the file scope's declarations in the cache for the current tree,
/// the cached walk answers as the uncached one.
pub proof fn law_cached_walk_agrees(
    cache: GlobalScopeCache,
    tree_gen: u64,
    t: SyntaxTree,
    src: Seq<char>,
    lang: ScopeLang,
    at: usize,
)
    requires
        cache.generation() == tree_gen,
        cache.held() == Some(collect_spec(t, src, lang, 0, 0, 0)),
    ensures
        visible_spec(t, src, lang, at, cached_global(cache, tree_gen, t, src, lang)) == visible_spec(
            t,
            src,
            lang,
            at,
            collect_spec(t, src, lang, 0, 0, 0),
        ),
{
}


// ── Laws of the walk ───────────────────────────────────────────────────────

proof fn lemma_firsts_from(s: Seq<SymView>)
    ensures
        forall|k: int| 0 <= k < firsts(s).len() ==> exists|j: int| 0 <= j < s.len() && #[trigger] firsts(s)[k] == s[j],
    decreases s.len(),
{
    if s.len() > 0 {
        let p = s.drop_last();
        lemma_firsts_from(p);
        assert forall|k: int| 0 <= k < firsts(s).len() implies exists|j: int| 0 <= j < s.len() && #[trigger] firsts(s)[k] == s[j] by {
            if k < firsts(p).len() {
                let j = choose|j: int| 0 <= j < p.len() && firsts(p)[k] == #[trigger] p[j];
                assert(firsts(s)[k] == s[j]);
            } else {
                assert(firsts(s)[k] == s[s.len() - 1]);
            }
        }
    }
}

proof fn lemma_firsts_distinct(s: Seq<SymView>)
    ensures
        forall|i: int, j: int| 0 <= i < j < firsts(s).len() ==> (#[trigger] firsts(s)[i]).0 != (#[trigger] firsts(s)[j]).0,
    decreases s.len(),
{
    if s.len() > 0 {
        let p = s.drop_last();
        let e = s.last();
        lemma_firsts_distinct(p);
        if !(e.0.len() == 0 || (exists|j: int| 0 <= j < s.len() - 1 && (#[trigger] s[j]).0 == e.0)) {
            lemma_firsts_names(p, e.0);
            assert forall|i: int, j: int| 0 <= i < j < firsts(s).len() implies (#[trigger] firsts(s)[i]).0 != (#[trigger] firsts(s)[j]).0 by {
                if j == firsts(s).len() - 1 {
                    assert(firsts(s)[i] == firsts(p)[i]);
                    if firsts(p)[i].0 == e.0 {
                        let w = choose|w: int| 0 <= w < p.len() && (#[trigger] p[w]).0 == e.0;
                        assert(s[w].0 == e.0);
                    }
                } else {
                    assert(firsts(s)[i] == firsts(p)[i]);
                    assert(firsts(s)[j] == firsts(p)[j]);
                }
            }
        }
    }
}

/// The entries of the first `d` scopes are ordered by depth, each below `d`.
proof fn lemma_entries_sorted(
    t: SyntaxTree,
    src: Seq<char>,
    lang: ScopeLang,
    chain: Seq<usize>,
    global: Seq<FoundView>,
    d: int,
)
    ensures
        forall|k: int| 0 <= k < entries_upto(t, src, lang, chain, global, d).len() ==> (#[trigger] entries_upto(
            t,
            src,
            lang,
            chain,
            global,
            d,
        )[k]).4 < d,
        forall|i: int, j: int|
            0 <= i < j < entries_upto(t, src, lang, chain, global, d).len() ==> (#[trigger] entries_upto(
                t,
                src,
                lang,
                chain,
                global,
                d,
            )[i]).4 <= (#[trigger] entries_upto(t, src, lang, chain, global, d)[j]).4,
    decreases d,
{
    if d > 0 {
        lemma_entries_sorted(t, src, lang, chain, global, d - 1);
        let a = entries_upto(t, src, lang, chain, global, d - 1);
        let b = scope_entries(t, src, lang, chain, global, d - 1);
        let all = entries_upto(t, src, lang, chain, global, d);
        assert(all == a + b);
        assert forall|k: int| 0 <= k < all.len() implies (#[trigger] all[k]).4 < d by {
            if k < a.len() {
                assert(all[k] == a[k]);
            } else {
                assert(all[k] == b[k - a.len()]);
            }
        }
        assert forall|i: int, j: int| 0 <= i < j < all.len() implies (#[trigger] all[i]).4 <= (#[trigger] all[j]).4 by {
            if j < a.len() {
                assert(all[i] == a[i] && all[j] == a[j]);
            } else if i < a.len() {
                assert(all[i] == a[i] && all[j] == b[j - a.len()]);
            } else {
                assert(all[i] == b[i - a.len()] && all[j] == b[j - a.len()]);
            }
        }
    }
}

proof fn lemma_firsts_sorted(s: Seq<SymView>)
    requires
        forall|i: int, j: int| 0 <= i < j < s.len() ==> (#[trigger] s[i]).4 <= (#[trigger] s[j]).4,
    ensures
        forall|i: int, j: int| 0 <= i < j < firsts(s).len() ==> (#[trigger] firsts(s)[i]).4 <= (#[trigger] firsts(s)[j]).4,
    decreases s.len(),
{
    if s.len() > 0 {
        let p = s.drop_last();
        lemma_firsts_sorted(p);
        lemma_firsts_from(p);
        assert forall|i: int, j: int| 0 <= i < j < firsts(s).len() implies (#[trigger] firsts(s)[i]).4 <= (#[trigger] firsts(s)[j]).4 by {
            assert(firsts(s)[i] == firsts(p)[i]);
            if j < firsts(p).len() {
                assert(firsts(s)[j] == firsts(p)[j]);
            } else {
                let w = choose|w: int| 0 <= w < p.len() && firsts(p)[i] == #[trigger] p[w];
                assert(s[w] == p[w]);
                assert(firsts(s)[j] == s[s.len() - 1]);
            }
        }
    }
}

/// Every symbol declared at file level is offered wherever the caret is,
/// under its name.
pub proof fn law_file_scope_offered_everywhere(t: SyntaxTree, src: Seq<char>, lang: ScopeLang, at: usize, k: int)
    requires
        0 <= k < collect_spec(t, src, lang, 0, 0, 0).len(),
        collect_spec(t, src, lang, 0, 0, 0)[k].0.len() > 0,
    ensures
        exists|j: int|
            0 <= j < visible_spec(t, src, lang, at, collect_spec(t, src, lang, 0, 0, 0)).len() && (#[trigger] visible_spec(
                t,
                src,
                lang,
                at,
                collect_spec(t, src, lang, 0, 0, 0),
            )[j]).0 == collect_spec(t, src, lang, 0, 0, 0)[k].0,
{
    let g = collect_spec(t, src, lang, 0, 0, 0);
    let chain = caret_chain(t, lang, at);
    lemma_chain_ends_at_root(t, lang, at);
    let last = chain.len() - 1;
    let a = entries_upto(t, src, lang, chain, g, last);
    let b = scope_entries(t, src, lang, chain, g, last);
    let all = entries_upto(t, src, lang, chain, g, chain.len() as int);
    assert(all == a + b);
    assert(all[a.len() + k] == b[k]);
    assert(all[a.len() + k].0 == g[k].0);
    lemma_firsts_names(all, g[k].0);
    let v = visible_spec(t, src, lang, at, g);
    assert(v == firsts(all));
    let w = choose|w: int| 0 <= w < firsts(all).len() && (#[trigger] firsts(all)[w]).0 == g[k].0;
    assert(v[w].0 == g[k].0);
}

/// No name is offered twice.
pub proof fn law_each_name_once(t: SyntaxTree, src: Seq<char>, lang: ScopeLang, at: usize, global: Seq<FoundView>)
    ensures
        forall|i: int, j: int|
            0 <= i < j < visible_spec(t, src, lang, at, global).len() ==> (#[trigger] visible_spec(
                t,
                src,
                lang,
                at,
                global,
            )[i]).0 != (#[trigger] visible_spec(t, src, lang, at, global)[j]).0,
{
    let chain = caret_chain(t, lang, at);
    lemma_firsts_distinct(entries_upto(t, src, lang, chain, global, chain.len() as int));
}

/// Nearer scopes come first: the depths never decrease along the list, so
/// a binding shadows any outer one of the same name.
pub proof fn law_nearest_first(t: SyntaxTree, src: Seq<char>, lang: ScopeLang, at: usize, global: Seq<FoundView>)
    ensures
        forall|i: int, j: int|
            0 <= i < j < visible_spec(t, src, lang, at, global).len() ==> (#[trigger] visible_spec(
                t,
                src,
                lang,
                at,
                global,
            )[i]).4 <= (#[trigger] visible_spec(t, src, lang, at, global)[j]).4,
{
    let chain = caret_chain(t, lang, at);
    lemma_entries_sorted(t, src, lang, chain, global, chain.len() as int);
    lemma_firsts_sorted(entries_upto(t, src, lang, chain, global, chain.len() as int));
}

} // verus!
