//! The logic view: one function's control flow read off its syntax tree, the
//! file's functions as an outline that opens one graph at a time, and the
//! debugger's position laid over it.
//!
//! Every node names its source rows, and a construct the language's table
//! does not name becomes an opaque node rather than nothing: a flowchart with
//! a missing branch would be a confident lie.

use vstd::prelude::*;
use crate::lang::{Lang, find_lang};
use crate::media::{extension, extension_of};
use crate::syntax::{SyntaxTree, SyntaxNode, names, names_kind};
use crate::text::{chars_of, string_of, str_eq, is_alnum, char_is_alnum, slice_vec, split_words, words_of, views, trimmed, trim_chars, append, split_lines, lines_of, own};

verus! {

/// What a node of the logic does.
#[derive(Debug, Clone, Copy, PartialEq, Eq, Structural)]
pub enum LogicKind {
    /// Where the function begins.
    Entry,
    /// An ordinary step.
    Process,
    /// A branch; its outgoing edges are labelled.
    Decision,
    /// A loop header, with a back edge.
    Loop,
    /// Leaves the function.
    Exit,
    /// Something the table does not name, shown rather than dropped.
    Opaque,
}

/// Why one node leads to another.
#[derive(Debug, Clone, Copy, PartialEq, Eq, Structural)]
pub enum EdgeLabel {
    Next,
    Yes,
    No,
    Back,
}

/// A box of the graph.
#[derive(Debug, Clone)]
pub struct LogicNode {
    pub id: usize,
    pub kind: LogicKind,
    /// The source text, on one line.
    pub label: String,
    /// Zero-based rows, inclusive.
    pub start_row: usize,
    pub end_row: usize,
}

#[derive(Debug, Clone, Copy, PartialEq, Eq, Structural)]
pub struct LogicEdge {
    pub from: usize,
    pub to: usize,
    pub label: EdgeLabel,
}

/// One function's control flow.
#[derive(Debug, Clone)]
pub struct LogicGraph {
    pub nodes: Vec<LogicNode>,
    pub edges: Vec<LogicEdge>,
    /// The function's name, for the header.
    pub name: String,
}

impl LogicGraph {
    pub fn is_empty(&self) -> (b: bool)
        ensures
            b == (self.nodes@.len() == 0),
    {
        self.nodes.len() == 0
    }
}

/// The node kinds a grammar spells its control flow with. A new language
/// is an entry in this table rather than a module of its own.
#[derive(Debug, Clone)]
pub struct LogicGrammar {
    /// A function, method or closure: where a graph starts.
    pub function: Vec<&'static str>,
    /// The field a function's name is under.
    pub name_field: &'static str,
    /// Branches; the condition is the first named child.
    pub decision: Vec<&'static str>,
    /// Loops, drawn with a back edge.
    pub loops: Vec<&'static str>,
    /// Leave the function.
    pub exit: Vec<&'static str>,
    /// Containers walked through rather than drawn.
    pub block: Vec<&'static str>,
    /// Ordinary steps.
    pub process: Vec<&'static str>,
    /// The fields of a decision holding the branch taken, and the other.
    pub consequence: &'static str,
    pub alternative: &'static str,
    /// The last expression of a body is the return value.
    pub tail_is_return: bool,
}

/// The languages with a logic table.
pub open spec fn has_table(lang: Lang) -> bool {
    lang == Lang::Rust || lang == Lang::Python || lang == Lang::JavaScript || lang == Lang::TypeScript || lang
        == Lang::Tsx || lang == Lang::Go || lang == Lang::C || lang == Lang::Cpp
}

/// The node kinds that are a `function` in the table for `lang`.
pub open spec fn function_kinds(lang: Lang) -> Seq<&'static str> {
    match lang {
        Lang::Rust => seq!["function_item", "closure_expression"],
        Lang::Python => seq!["function_definition", "lambda"],
        Lang::JavaScript | Lang::TypeScript | Lang::Tsx => seq!["function_declaration", "function_expression", "arrow_function", "method_definition"],
        Lang::Go => seq!["function_declaration", "method_declaration", "func_literal"],
        Lang::C | Lang::Cpp => seq!["function_definition", "lambda_expression"],
        _ => Seq::empty(),
    }
}

/// The node kinds that are a `decision` in the table for `lang`.
pub open spec fn decision_kinds(lang: Lang) -> Seq<&'static str> {
    match lang {
        Lang::Rust => seq!["if_expression", "match_expression"],
        Lang::Python => seq!["if_statement", "match_statement", "try_statement"],
        Lang::JavaScript | Lang::TypeScript | Lang::Tsx => seq!["if_statement", "switch_statement", "try_statement"],
        Lang::Go => seq!["if_statement", "type_switch_statement", "expression_switch_statement"],
        Lang::C | Lang::Cpp => seq!["if_statement", "switch_statement"],
        _ => Seq::empty(),
    }
}

/// The node kinds that are a `loops` in the table for `lang`.
pub open spec fn loops_kinds(lang: Lang) -> Seq<&'static str> {
    match lang {
        Lang::Rust => seq!["for_expression", "while_expression", "loop_expression"],
        Lang::Python => seq!["for_statement", "while_statement"],
        Lang::JavaScript | Lang::TypeScript | Lang::Tsx => seq!["for_statement", "for_in_statement", "while_statement", "do_statement"],
        Lang::Go => seq!["for_statement"],
        Lang::C | Lang::Cpp => seq!["for_statement", "while_statement", "do_statement"],
        _ => Seq::empty(),
    }
}

/// The node kinds that are a `exit` in the table for `lang`.
pub open spec fn exit_kinds(lang: Lang) -> Seq<&'static str> {
    match lang {
        Lang::Rust => seq!["return_expression", "break_expression", "continue_expression"],
        Lang::Python => seq!["return_statement", "break_statement", "continue_statement", "raise_statement"],
        Lang::JavaScript | Lang::TypeScript | Lang::Tsx => seq!["return_statement", "break_statement", "continue_statement", "throw_statement"],
        Lang::Go => seq!["return_statement", "break_statement", "continue_statement"],
        Lang::C | Lang::Cpp => seq!["return_statement", "break_statement", "continue_statement"],
        _ => Seq::empty(),
    }
}

/// The node kinds that are a `block` in the table for `lang`.
pub open spec fn block_kinds(lang: Lang) -> Seq<&'static str> {
    match lang {
        Lang::Rust => seq!["block", "expression_statement", "declaration_list"],
        Lang::Python => seq!["block", "expression_statement"],
        Lang::JavaScript | Lang::TypeScript | Lang::Tsx => seq!["statement_block", "expression_statement"],
        Lang::Go => seq!["block", "expression_statement"],
        Lang::C | Lang::Cpp => seq!["compound_statement", "expression_statement"],
        _ => Seq::empty(),
    }
}

/// The node kinds that are a `process` in the table for `lang`.
pub open spec fn process_kinds(lang: Lang) -> Seq<&'static str> {
    match lang {
        Lang::Rust => seq!["let_declaration", "assignment_expression", "compound_assignment_expr", "call_expression", "macro_invocation"],
        Lang::Python => seq!["assignment", "augmented_assignment", "call"],
        Lang::JavaScript | Lang::TypeScript | Lang::Tsx => seq!["lexical_declaration", "variable_declaration", "assignment_expression", "call_expression"],
        Lang::Go => seq!["short_var_declaration", "var_declaration", "assignment_statement", "call_expression"],
        Lang::C | Lang::Cpp => seq!["declaration", "assignment_expression", "call_expression"],
        _ => Seq::empty(),
    }
}

/// The field a function's name is under in the table for `lang`.
pub open spec fn name_field_of(lang: Lang) -> &'static str {
    match lang {
        Lang::Rust => "name",
        Lang::Python => "name",
        Lang::JavaScript | Lang::TypeScript | Lang::Tsx => "name",
        Lang::Go => "name",
        Lang::C | Lang::Cpp => "declarator",
        _ => "",
    }
}

/// `g` is the table for `lang`.
pub open spec fn is_table_of(g: LogicGrammar, lang: Lang) -> bool {
    &&& g.function@ == function_kinds(lang)
    &&& g.decision@ == decision_kinds(lang)
    &&& g.loops@ == loops_kinds(lang)
    &&& g.exit@ == exit_kinds(lang)
    &&& g.block@ == block_kinds(lang)
    &&& g.process@ == process_kinds(lang)
    &&& g.name_field == name_field_of(lang)
    &&& g.consequence == "consequence"
    &&& g.alternative == "alternative"
    &&& g.tail_is_return == (lang == Lang::Rust)
}

/// The table for `lang`, or `None` for a language without control flow to
/// read, or without a table yet.
pub fn grammar_for(lang: Lang) -> (r: Option<LogicGrammar>)
    ensures
        r is Some <==> has_table(lang),
        r matches Some(g) ==> is_table_of(g, lang),
{
    match lang {
        Lang::Rust => {
            let mut function: Vec<&'static str> = Vec::new();
            function.push("function_item");
            function.push("closure_expression");
            let mut decision: Vec<&'static str> = Vec::new();
            decision.push("if_expression");
            decision.push("match_expression");
            let mut loops: Vec<&'static str> = Vec::new();
            loops.push("for_expression");
            loops.push("while_expression");
            loops.push("loop_expression");
            let mut exit: Vec<&'static str> = Vec::new();
            exit.push("return_expression");
            exit.push("break_expression");
            exit.push("continue_expression");
            let mut block: Vec<&'static str> = Vec::new();
            block.push("block");
            block.push("expression_statement");
            block.push("declaration_list");
            let mut process: Vec<&'static str> = Vec::new();
            process.push("let_declaration");
            process.push("assignment_expression");
            process.push("compound_assignment_expr");
            process.push("call_expression");
            process.push("macro_invocation");
            assert(function@ =~= function_kinds(lang));
            assert(decision@ =~= decision_kinds(lang));
            assert(loops@ =~= loops_kinds(lang));
            assert(exit@ =~= exit_kinds(lang));
            assert(block@ =~= block_kinds(lang));
            assert(process@ =~= process_kinds(lang));
            Some(LogicGrammar {
                function,
                name_field: "name",
                decision,
                loops,
                exit,
                block,
                process,
                consequence: "consequence",
                alternative: "alternative",
                tail_is_return: true,
            })
        },
        Lang::Python => {
            let mut function: Vec<&'static str> = Vec::new();
            function.push("function_definition");
            function.push("lambda");
            let mut decision: Vec<&'static str> = Vec::new();
            decision.push("if_statement");
            decision.push("match_statement");
            decision.push("try_statement");
            let mut loops: Vec<&'static str> = Vec::new();
            loops.push("for_statement");
            loops.push("while_statement");
            let mut exit: Vec<&'static str> = Vec::new();
            exit.push("return_statement");
            exit.push("break_statement");
            exit.push("continue_statement");
            exit.push("raise_statement");
            let mut block: Vec<&'static str> = Vec::new();
            block.push("block");
            block.push("expression_statement");
            let mut process: Vec<&'static str> = Vec::new();
            process.push("assignment");
            process.push("augmented_assignment");
            process.push("call");
            assert(function@ =~= function_kinds(lang));
            assert(decision@ =~= decision_kinds(lang));
            assert(loops@ =~= loops_kinds(lang));
            assert(exit@ =~= exit_kinds(lang));
            assert(block@ =~= block_kinds(lang));
            assert(process@ =~= process_kinds(lang));
            Some(LogicGrammar {
                function,
                name_field: "name",
                decision,
                loops,
                exit,
                block,
                process,
                consequence: "consequence",
                alternative: "alternative",
                tail_is_return: false,
            })
        },
        Lang::JavaScript | Lang::TypeScript | Lang::Tsx => {
            let mut function: Vec<&'static str> = Vec::new();
            function.push("function_declaration");
            function.push("function_expression");
            function.push("arrow_function");
            function.push("method_definition");
            let mut decision: Vec<&'static str> = Vec::new();
            decision.push("if_statement");
            decision.push("switch_statement");
            decision.push("try_statement");
            let mut loops: Vec<&'static str> = Vec::new();
            loops.push("for_statement");
            loops.push("for_in_statement");
            loops.push("while_statement");
            loops.push("do_statement");
            let mut exit: Vec<&'static str> = Vec::new();
            exit.push("return_statement");
            exit.push("break_statement");
            exit.push("continue_statement");
            exit.push("throw_statement");
            let mut block: Vec<&'static str> = Vec::new();
            block.push("statement_block");
            block.push("expression_statement");
            let mut process: Vec<&'static str> = Vec::new();
            process.push("lexical_declaration");
            process.push("variable_declaration");
            process.push("assignment_expression");
            process.push("call_expression");
            assert(function@ =~= function_kinds(lang));
            assert(decision@ =~= decision_kinds(lang));
            assert(loops@ =~= loops_kinds(lang));
            assert(exit@ =~= exit_kinds(lang));
            assert(block@ =~= block_kinds(lang));
            assert(process@ =~= process_kinds(lang));
            Some(LogicGrammar {
                function,
                name_field: "name",
                decision,
                loops,
                exit,
                block,
                process,
                consequence: "consequence",
                alternative: "alternative",
                tail_is_return: false,
            })
        },
        Lang::Go => {
            let mut function: Vec<&'static str> = Vec::new();
            function.push("function_declaration");
            function.push("method_declaration");
            function.push("func_literal");
            let mut decision: Vec<&'static str> = Vec::new();
            decision.push("if_statement");
            decision.push("type_switch_statement");
            decision.push("expression_switch_statement");
            let mut loops: Vec<&'static str> = Vec::new();
            loops.push("for_statement");
            let mut exit: Vec<&'static str> = Vec::new();
            exit.push("return_statement");
            exit.push("break_statement");
            exit.push("continue_statement");
            let mut block: Vec<&'static str> = Vec::new();
            block.push("block");
            block.push("expression_statement");
            let mut process: Vec<&'static str> = Vec::new();
            process.push("short_var_declaration");
            process.push("var_declaration");
            process.push("assignment_statement");
            process.push("call_expression");
            assert(function@ =~= function_kinds(lang));
            assert(decision@ =~= decision_kinds(lang));
            assert(loops@ =~= loops_kinds(lang));
            assert(exit@ =~= exit_kinds(lang));
            assert(block@ =~= block_kinds(lang));
            assert(process@ =~= process_kinds(lang));
            Some(LogicGrammar {
                function,
                name_field: "name",
                decision,
                loops,
                exit,
                block,
                process,
                consequence: "consequence",
                alternative: "alternative",
                tail_is_return: false,
            })
        },
        Lang::C | Lang::Cpp => {
            let mut function: Vec<&'static str> = Vec::new();
            function.push("function_definition");
            function.push("lambda_expression");
            let mut decision: Vec<&'static str> = Vec::new();
            decision.push("if_statement");
            decision.push("switch_statement");
            let mut loops: Vec<&'static str> = Vec::new();
            loops.push("for_statement");
            loops.push("while_statement");
            loops.push("do_statement");
            let mut exit: Vec<&'static str> = Vec::new();
            exit.push("return_statement");
            exit.push("break_statement");
            exit.push("continue_statement");
            let mut block: Vec<&'static str> = Vec::new();
            block.push("compound_statement");
            block.push("expression_statement");
            let mut process: Vec<&'static str> = Vec::new();
            process.push("declaration");
            process.push("assignment_expression");
            process.push("call_expression");
            assert(function@ =~= function_kinds(lang));
            assert(decision@ =~= decision_kinds(lang));
            assert(loops@ =~= loops_kinds(lang));
            assert(exit@ =~= exit_kinds(lang));
            assert(block@ =~= block_kinds(lang));
            assert(process@ =~= process_kinds(lang));
            Some(LogicGrammar {
                function,
                name_field: "declarator",
                decision,
                loops,
                exit,
                block,
                process,
                consequence: "consequence",
                alternative: "alternative",
                tail_is_return: false,
            })
        },
        _ => None,
    }
}


/// `s` ends with `p`.
pub open spec fn has_suffix(s: Seq<char>, p: Seq<char>) -> bool {
    s.len() >= p.len() && s.skip(s.len() - p.len()) == p
}

pub(crate) fn ends_with(s: &[char], p: &str) -> (b: bool)
    ensures
        b == has_suffix(s@, p@),
{
    let pv = chars_of(p);
    if pv.len() > s.len() {
        return false;
    }
    let n = s.len();
    let off = n - pv.len();
    let mut k: usize = 0;
    while k < pv.len()
        invariant
            k <= pv@.len(),
            n == s@.len(),
            off + pv@.len() == n,
            pv@ == p@,
            forall|j: int| 0 <= j < k ==> s@[off + j] == pv@[j],
        decreases pv@.len() - k,
    {
        if s[off + k] != pv[k] {
            assert(s@.skip(off as int)[k as int] != p@[k as int]);
            return false;
        }
        k += 1;
    }
    assert(s@.skip(off as int) =~= p@);
    true
}

/// A statement rather than an expression, by the grammars' naming
/// convention.
pub open spec fn statement_kind(kind: Seq<char>) -> bool {
    has_suffix(kind, "_statement"@) || has_suffix(kind, "_declaration"@) || has_suffix(kind, "_item"@)
}

pub fn is_statement(kind: &str) -> (b: bool)
    ensures
        b == statement_kind(kind@),
{
    let k = chars_of(kind);
    ends_with(k.as_slice(), "_statement") || ends_with(k.as_slice(), "_declaration") || ends_with(
        k.as_slice(),
        "_item",
    )
}

/// The label of the edge a reader arrives at node `id` by: the first arm
/// label among its incoming edges, else plain sequence. A loop's way round
/// is never the answer.
pub open spec fn incoming_from(edges: Seq<LogicEdge>, id: usize, k: int) -> EdgeLabel
    decreases edges.len() - k,
{
    if k < 0 || k >= edges.len() {
        EdgeLabel::Next
    } else if edges[k].to == id && (edges[k].label == EdgeLabel::Yes || edges[k].label == EdgeLabel::No) {
        edges[k].label
    } else {
        incoming_from(edges, id, k + 1)
    }
}

pub fn incoming(graph: &LogicGraph, id: usize) -> (l: EdgeLabel)
    ensures
        l == incoming_from(graph.edges@, id, 0),
{
    let mut k: usize = 0;
    while k < graph.edges.len()
        invariant
            k <= graph.edges@.len(),
            incoming_from(graph.edges@, id, k as int) == incoming_from(graph.edges@, id, 0),
        decreases graph.edges@.len() - k,
    {
        let e = graph.edges[k];
        if e.to == id {
            match e.label {
                EdgeLabel::Yes | EdgeLabel::No => {
                    return e.label;
                },
                _ => {},
            }
        }
        k += 1;
    }
    EdgeLabel::Next
}

/// The table for a file, by its extension; `None` when no language claims
/// the extension or the language has no table.
pub fn grammar_for_path(path: &str) -> (r: Option<LogicGrammar>)
    ensures
        r is Some <==> (match extension_of(path@) {
            Some(e) => match find_lang(e, 0) {
                Some(l) => has_table(l),
                None => false,
            },
            None => false,
        }),
        r matches Some(g) ==> (extension_of(path@) matches Some(e) && find_lang(e, 0) matches Some(l) && is_table_of(
            g,
            l,
        )),
{
    match extension(path) {
        Some(e) => {
            let es = string_of(e.as_slice());
            match Lang::from_ext(es.as_str()) {
                Some(l) => grammar_for(l),
                None => None,
            }
        },
        None => None,
    }
}

// ── Calls ───────────────────────────────────────────────────────────────────

/// A character of an identifier.
pub open spec fn ident_char(c: char) -> bool {
    is_alnum(c) || c == '_'
}

/// The first `(` in `s` from `i` on.
pub open spec fn first_paren(s: Seq<char>, i: int) -> Option<int>
    decreases s.len() - i,
{
    if i < 0 || i >= s.len() {
        None
    } else if s[i] == '(' {
        Some(i)
    } else {
        first_paren(s, i + 1)
    }
}

/// The start of the run of identifier characters ending at `i`.
pub open spec fn ident_start(s: Seq<char>, i: int) -> int
    decreases i,
{
    if 0 < i <= s.len() && ident_char(s[i - 1]) {
        ident_start(s, i - 1)
    } else {
        i
    }
}

/// The name a step calls: the identifier right before its first `(`.
pub open spec fn called_name(label: Seq<char>) -> Option<Seq<char>> {
    match first_paren(label, 0) {
        None => None,
        Some(open) => {
            let j = ident_start(label, open);
            if j < open { Some(label.subrange(j, open)) } else { None }
        },
    }
}

/// The first function from `k` on named `name`.
pub open spec fn first_named(fns: Seq<(String, usize)>, name: Seq<char>, k: int) -> Option<int>
    decreases fns.len() - k,
{
    if k < 0 || k >= fns.len() {
        None
    } else if fns[k].0@ == name {
        Some(k)
    } else {
        first_named(fns, name, k + 1)
    }
}

/// The row of the one function a step calls, when exactly one function of
/// the file has that name; an ambiguous name resolves to nothing.
pub open spec fn call_target_spec(label: Seq<char>, fns: Seq<(String, usize)>) -> Option<usize> {
    match called_name(label) {
        None => None,
        Some(name) => match first_named(fns, name, 0) {
            None => None,
            Some(k) => if first_named(fns, name, k + 1) is Some {
                None
            } else {
                Some(fns[k].1)
            },
        },
    }
}

fn first_named_exec(fns: &[(String, usize)], name: &[char], from: usize) -> (r: Option<usize>)
    requires
        from <= fns@.len(),
    ensures
        match r {
            Some(k) => first_named(fns@, name@, from as int) == Some(k as int) && k < fns@.len(),
            None => first_named(fns@, name@, from as int) is None,
        },
{
    let mut k = from;
    while k < fns.len()
        invariant
            from <= k <= fns@.len(),
            first_named(fns@, name@, k as int) == first_named(fns@, name@, from as int),
        decreases fns@.len() - k,
    {
        let f = chars_of(fns[k].0.as_str());
        if crate::text::chars_eq(f.as_slice(), name) {
            return Some(k);
        }
        k += 1;
    }
    None
}

/// The function a step calls, if exactly one function of this file has
/// that name: the row it starts on.
pub fn call_target(label: &str, functions: &[(String, usize)]) -> (r: Option<usize>)
    ensures
        r == call_target_spec(label@, functions@),
{
    let l = chars_of(label);
    let mut open: usize = 0;
    while open < l.len() && l[open] != '('
        invariant
            open <= l@.len(),
            l@ == label@,
            first_paren(l@, open as int) == first_paren(l@, 0),
        decreases l@.len() - open,
    {
        open += 1;
    }
    if open >= l.len() {
        return None;
    }
    let mut j = open;
    while j > 0 && (char_is_alnum(l[j - 1]) || l[j - 1] == '_')
        invariant
            j <= open < l@.len(),
            ident_start(l@, j as int) == ident_start(l@, open as int),
        decreases j,
    {
        j -= 1;
    }
    if j >= open {
        return None;
    }
    let name = slice_vec(l.as_slice(), j, open);
    match first_named_exec(functions, name.as_slice(), 0) {
        None => None,
        Some(k) => match first_named_exec(functions, name.as_slice(), if k < functions.len() { k + 1 } else { k }) {
            Some(_) => None,
            None => Some(functions[k].1),
        },
    }
}

// ── Whole words ─────────────────────────────────────────────────────────────

/// A character that continues an identifier, counting every non-ASCII
/// character as one.
pub open spec fn word_part(c: char) -> bool {
    ('a' <= c <= 'z') || ('A' <= c <= 'Z') || ('0' <= c <= '9') || c == '_' || (c as u32) >= 0x80
}

/// `w` occurs in `t` at `s`.
pub open spec fn occurs_at(t: Seq<char>, w: Seq<char>, s: int) -> bool {
    0 <= s && s + w.len() <= t.len() && t.subrange(s, s + w.len()) == w
}

/// The first occurrence of `w` in `t` at or after `from`.
pub open spec fn find_from(t: Seq<char>, w: Seq<char>, from: int) -> Option<int>
    decreases t.len() - from,
{
    if from < 0 || from >= t.len() || from + w.len() > t.len() {
        None
    } else if occurs_at(t, w, from) {
        Some(from)
    } else {
        find_from(t, w, from + 1)
    }
}

/// The occurrence at `s` stands alone: no identifier character touches it.
pub open spec fn stands_alone(t: Seq<char>, s: int, e: int) -> bool {
    (s == 0 || !word_part(t[s - 1])) && (e >= t.len() || !word_part(t[e]))
}

/// Scanning occurrences of `w` from `from`, each resumed after the last,
/// one stands alone.
pub open spec fn word_from(t: Seq<char>, w: Seq<char>, from: int) -> bool
    decreases t.len() - from,
{
    if w.len() == 0 || from < 0 {
        false
    } else {
        match find_from(t, w, from) {
            None => false,
            Some(s) => {
                let e = s + w.len();
                if stands_alone(t, s, e) {
                    true
                } else if e >= t.len() || e <= from {
                    false
                } else {
                    word_from(t, w, e)
                }
            },
        }
    }
}

fn word_part_exec(c: char) -> (b: bool)
    ensures
        b == word_part(c),
{
    ('a' <= c && c <= 'z') || ('A' <= c && c <= 'Z') || ('0' <= c && c <= '9') || c == '_' || (c as u32) >= 0x80
}

proof fn lemma_find_from_bounds(t: Seq<char>, w: Seq<char>, from: int)
    ensures
        find_from(t, w, from) matches Some(s) ==> from <= s && occurs_at(t, w, s),
    decreases t.len() - from,
{
    if !(from < 0 || from >= t.len() || from + w.len() > t.len()) && !occurs_at(t, w, from) {
        lemma_find_from_bounds(t, w, from + 1);
    }
}

/// Whether `text` names `word` as a whole identifier rather than as part of
/// a longer one: `count` is in `count += 1` and not in `account`.
pub fn contains_word(text: &str, word: &str) -> (b: bool)
    ensures
        b == word_from(text@, word@, 0),
{
    let t = chars_of(text);
    let w = chars_of(word);
    if w.len() == 0 {
        return false;
    }
    let mut from: usize = 0;
    while from < t.len() && w.len() <= t.len() - from
        invariant
            from <= t@.len(),
            t@ == text@,
            w@ == word@,
            w@.len() > 0,
            word_from(t@, w@, from as int) == word_from(t@, w@, 0),
        decreases t@.len() - from,
    {
        let mut s = from;
        let mut found = false;
        while s < t.len() && w.len() <= t.len() - s && !found
            invariant
                from <= s <= t@.len(),
                t@ == text@,
                w@ == word@,
                found ==> occurs_at(t@, w@, s as int) && find_from(t@, w@, from as int) == Some(s as int),
                !found ==> find_from(t@, w@, s as int) == find_from(t@, w@, from as int),
            decreases t@.len() - s + (if found { 0int } else { 1int }),
        {
            if crate::text::matches_at(t.as_slice(), s, w.as_slice()) {
                assert(t@.subrange(s as int, s + w@.len()) =~= w@);
                found = true;
            } else {
                s += 1;
            }
        }
        if !found {
            return false;
        }
        let e = s + w.len();
        let before = s == 0 || !word_part_exec(t[s - 1]);
        let after = e >= t.len() || !word_part_exec(t[e]);
        if before && after {
            return true;
        }
        if e >= t.len() {
            return false;
        }
        from = e;
    }
    proof {
        assert(find_from(t@, w@, from as int) is None);
    }
    false
}

/// The debugger's locals that a row's label names as whole words, in the
/// order they were reported.
pub fn values_on<'a>(label: &str, values: &[(&'a str, &'a str)]) -> (v: Vec<(&'a str, &'a str)>)
    ensures
        v@ == values@.filter(|p: (&'a str, &'a str)| word_from(label@, p.0@, 0)),
{
    let mut v: Vec<(&'a str, &'a str)> = Vec::new();
    let mut k: usize = 0;
    while k < values.len()
        invariant
            k <= values@.len(),
            v@ == values@.take(k as int).filter(|p: (&'a str, &'a str)| word_from(label@, p.0@, 0)),
        decreases values@.len() - k,
    {
        let p = values[k];
        proof {
            values@.take(k as int).lemma_filter_push(p, |p: (&'a str, &'a str)| word_from(label@, p.0@, 0));
            assert(values@.take(k + 1) =~= values@.take(k as int).push(p));
        }
        if contains_word(label, p.0) {
            v.push(p);
        }
        k += 1;
    }
    assert(values@.take(values@.len() as int) =~= values@);
    v
}

// ── The outline and its rows ───────────────────────────────────────────────

/// A row of the outline: a function, or a step of an opened one, flattened
/// with a depth.
#[derive(Debug, Clone)]
pub struct LogicRow {
    pub kind: LogicKind,
    pub label: String,
    pub start_row: usize,
    pub end_row: usize,
    pub depth: usize,
    /// Something inside it has not been built yet.
    pub expandable: bool,
    pub expanded: bool,
    /// The edge this row is reached by.
    pub edge: EdgeLabel,
    /// For a call that resolves in this file: the row its target starts on.
    pub target_row: Option<usize>,
}

/// The file's logic, as deep as it has been opened.
#[derive(Debug, Clone)]
pub struct LogicTree {
    pub rows: Vec<LogicRow>,
}

/// The first row after `index` from `k` on that is not deeper than it:
/// where what was opened under it ends.
pub open spec fn subtree_end(rows: Seq<LogicRow>, depth: usize, k: int) -> int
    decreases rows.len() - k,
{
    if k < 0 || k >= rows.len() || rows[k].depth <= depth {
        k
    } else {
        subtree_end(rows, depth, k + 1)
    }
}

/// Close the row at `index`, dropping every row opened under it; false when
/// there is no such row or it is not open.
pub fn collapse(t: &mut LogicTree, index: usize) -> (closed: bool)
    ensures
        closed == (index < old(t).rows@.len() && old(t).rows@[index as int].expanded),
        !closed ==> final(t).rows@ == old(t).rows@,
        closed ==> {
            let rows = old(t).rows@;
            let end = subtree_end(rows, rows[index as int].depth, index + 1);
            let r = rows[index as int];
            &&& final(t).rows@ == rows.take(index as int).push(
                LogicRow { expanded: false, ..r },
            ) + rows.skip(end)
        },
{
    if index >= t.rows.len() || !t.rows[index].expanded {
        return false;
    }
    let ghost rows = t.rows@;
    let depth = t.rows[index].depth;
    let mut end = index + 1;
    while end < t.rows.len() && t.rows[end].depth > depth
        invariant
            index < end <= t.rows@.len(),
            t.rows@ == rows,
            depth == rows[index as int].depth,
            subtree_end(rows, depth, end as int) == subtree_end(rows, depth, index + 1),
        decreases t.rows@.len() - end,
    {
        end += 1;
    }
    let mut tail = t.rows.split_off(end);
    t.rows.truncate(index + 1);
    let mut r = t.rows.pop().unwrap();
    r.expanded = false;
    t.rows.push(r);
    t.rows.append(&mut tail);
    assert(t.rows@ =~= rows.take(index as int).push(LogicRow { expanded: false, ..rows[index as int] }) + rows.skip(
        end as int,
    ));
    true
}

/// Row `i` holds source line `line`.
pub open spec fn holds(rows: Seq<LogicRow>, i: int, line: usize) -> bool {
    0 <= i < rows.len() && rows[i].start_row <= line <= rows[i].end_row
}

/// Rows have their ranges the right way round.
pub open spec fn rows_ok(rows: Seq<LogicRow>) -> bool {
    forall|i: int| 0 <= i < rows.len() ==> #[trigger] rows[i].start_row <= rows[i].end_row
}

/// Row `a` is outside row `b`: shallower; or as deep and wider; or, tied on
/// both, earlier.
pub open spec fn outer(rows: Seq<LogicRow>, a: int, b: int) -> bool {
    let (ra, rb) = (rows[a], rows[b]);
    let (wa, wb) = (ra.end_row - ra.start_row, rb.end_row - rb.start_row);
    ra.depth < rb.depth || (ra.depth == rb.depth && (wa > wb || (wa == wb && a < b)))
}

/// `r` lists exactly the rows holding `line`, outermost first.
pub open spec fn holding_list(rows: Seq<LogicRow>, line: usize, r: Seq<usize>) -> bool {
    &&& forall|k: int| 0 <= k < r.len() ==> holds(rows, #[trigger] r[k] as int, line)
    &&& forall|i: int| holds(rows, i, line) ==> r.contains(i as usize)
    &&& forall|a: int, b: int| 0 <= a < b < r.len() ==> outer(rows, #[trigger] r[a] as int, #[trigger] r[b] as int)
}

/// Whether every row's range runs the right way round.
pub fn rows_in_order(t: &LogicTree) -> (b: bool)
    ensures
        b == rows_ok(t.rows@),
{
    let mut i: usize = 0;
    while i < t.rows.len()
        invariant
            i <= t.rows@.len(),
            forall|k: int| 0 <= k < i ==> #[trigger] t.rows@[k].start_row <= t.rows@[k].end_row,
        decreases t.rows@.len() - i,
    {
        if t.rows[i].start_row > t.rows[i].end_row {
            return false;
        }
        i += 1;
    }
    true
}

fn row_outside(t: &LogicTree, a: usize, b: usize) -> (r: bool)
    requires
        a < t.rows@.len(),
        b < t.rows@.len(),
        rows_ok(t.rows@),
    ensures
        r == outer(t.rows@, a as int, b as int),
{
    let ra = &t.rows[a];
    let rb = &t.rows[b];
    let wa = ra.end_row - ra.start_row;
    let wb = rb.end_row - rb.start_row;
    ra.depth < rb.depth || (ra.depth == rb.depth && (wa > wb || (wa == wb && a < b)))
}

/// Every row holding `line`, outermost first and innermost last.
pub fn rows_holding(t: &LogicTree, line: usize) -> (r: Vec<usize>)
    requires
        rows_ok(t.rows@),
    ensures
        holding_list(t.rows@, line, r@),
{
    let ghost rows = t.rows@;
    let mut out: Vec<usize> = Vec::new();
    let mut i: usize = 0;
    while i < t.rows.len()
        invariant
            i <= rows.len(),
            rows == t.rows@,
            rows_ok(rows),
            forall|k: int| 0 <= k < out@.len() ==> holds(rows, #[trigger] out@[k] as int, line) && out@[k] < i,
            forall|j: int| 0 <= j < i && holds(rows, j, line) ==> out@.contains(j as usize),
            forall|a: int, b: int|
                0 <= a < b < out@.len() ==> outer(rows, #[trigger] out@[a] as int, #[trigger] out@[b] as int),
        decreases rows.len() - i,
    {
        let r = &t.rows[i];
        if r.start_row <= line && line <= r.end_row {
            // Insert `i` after every row outside it.
            let mut p: usize = 0;
            while p < out.len() && row_outside(t, out[p], i)
                invariant
                    p <= out@.len(),
                    rows == t.rows@,
                    rows_ok(rows),
                    i < rows.len(),
                    *r == rows[i as int],
                    forall|k: int| 0 <= k < out@.len() ==> holds(rows, #[trigger] out@[k] as int, line) && out@[k] < i,
                    forall|k: int| 0 <= k < p ==> outer(rows, #[trigger] out@[k] as int, i as int),
                decreases out@.len() - p,
            {
                p += 1;
            }
            let ghost before = out@;
            proof {
                assert forall|k: int| p <= k < out@.len() implies outer(rows, i as int, #[trigger] out@[k] as int) by {
                    let q = out@[p as int];
                    if k > p {
                        assert(outer(rows, q as int, out@[k] as int));
                    }
                }
            }
            out.insert(p, i);
            proof {
                assert forall|a: int, b: int| 0 <= a < b < out@.len() implies outer(
                    rows,
                    #[trigger] out@[a] as int,
                    #[trigger] out@[b] as int,
                ) by {
                    if b < p {
                        assert(out@[a] == before[a] && out@[b] == before[b]);
                    } else if b == p {
                        assert(out@[a] == before[a]);
                    } else if a == p {
                        assert(out@[b] == before[b - 1]);
                    } else if a < p {
                        assert(out@[a] == before[a] && out@[b] == before[b - 1]);
                    } else {
                        assert(out@[a] == before[a - 1] && out@[b] == before[b - 1]);
                    }
                }
                assert forall|j: int| 0 <= j < i + 1 && holds(rows, j, line) implies out@.contains(j as usize) by {
                    if j == i {
                        assert(out@[p as int] == i);
                    } else {
                        let k = choose|k: int| 0 <= k < before.len() && before[k] == j as usize;
                        if k < p {
                            assert(out@[k] == j as usize);
                        } else {
                            assert(out@[k + 1] == j as usize);
                        }
                    }
                }
            }
        }
        i += 1;
    }
    out
}

/// The innermost row holding `line`: what a click in the source resolves
/// to, and what is running when the debugger stops there.
pub fn row_at(t: &LogicTree, line: usize) -> (r: Option<usize>)
    requires
        rows_ok(t.rows@),
    ensures
        match r {
            Some(i) => holds(t.rows@, i as int, line) && forall|j: int|
                holds(t.rows@, j, line) && j != i ==> outer(t.rows@, j, i as int),
            None => forall|j: int| !holds(t.rows@, j, line),
        },
{
    let n = t.rows.len();
    let mut h = rows_holding(t, line);
    let ghost hv = h@;
    let r = h.pop();
    proof {
        match r {
            Some(i) => {
                assert forall|j: int| holds(t.rows@, j, line) && j != i implies outer(t.rows@, j, i as int) by {
                    assert(j < n);
                    assert(hv.contains(j as usize));
                    let k = choose|k: int| 0 <= k < hv.len() && hv[k] == j as usize;
                    let last = hv.len() - 1;
                    assert(hv[last] == i);
                    assert(k != last);
                    assert(outer(t.rows@, hv[k] as int, hv[last] as int));
                }
            },
            None => {
                assert forall|j: int| !holds(t.rows@, j, line) by {
                    if holds(t.rows@, j, line) {
                        assert(hv.contains(j as usize));
                    }
                }
            },
        }
    }
    r
}

/// What the running program says about the rows of an outline.
#[derive(Debug, Clone)]
pub struct LogicRuntime {
    /// The row running now: the innermost one holding the stopped line.
    pub stopped: Option<usize>,
    /// The rows around it, outermost first.
    pub enclosing: Vec<usize>,
    /// The rows a caller's frame sits on, innermost caller first, once each.
    pub callers: Vec<usize>,
}

/// Row `i` is the innermost holding `line`.
pub open spec fn innermost(rows: Seq<LogicRow>, i: int, line: usize) -> bool {
    holds(rows, i, line) && forall|j: int| holds(rows, j, line) && j != i ==> outer(rows, j, i)
}

/// The innermost row holding `line`, if any row does.
pub open spec fn innermost_of(rows: Seq<LogicRow>, line: usize) -> Option<usize> {
    if exists|i: int| innermost(rows, i, line) {
        Some((choose|i: int| innermost(rows, i, line)) as usize)
    } else {
        None
    }
}

/// The rows the first `k` caller lines resolve to, in order, each once.
pub open spec fn caller_rows(rows: Seq<LogicRow>, lines: Seq<usize>, k: int) -> Seq<usize>
    decreases k,
{
    if k <= 0 {
        Seq::empty()
    } else {
        let acc = caller_rows(rows, lines, k - 1);
        match innermost_of(rows, lines[k - 1]) {
            None => acc,
            Some(r) => if acc.contains(r) { acc } else { acc.push(r) },
        }
    }
}

pub proof fn lemma_innermost_unique(rows: Seq<LogicRow>, i: int, j: int, line: usize)
    requires
        innermost(rows, i, line),
        innermost(rows, j, line),
    ensures
        i == j,
{
    if i != j {
        assert(outer(rows, j, i));
        assert(outer(rows, i, j));
    }
}

/// The overlay for the stop at `stop_line` (when the debugger is stopped in
/// this file) and the lines the callers' frames sit on (those in this file,
/// innermost caller first).
pub fn runtime(t: &LogicTree, stop_line: Option<usize>, caller_lines: &[usize]) -> (out: LogicRuntime)
    requires
        rows_ok(t.rows@),
    ensures
        match stop_line {
            Some(line) => match out.stopped {
                Some(i) => holding_list(t.rows@, line, out.enclosing@.push(i)),
                None => out.enclosing@.len() == 0 && holding_list(t.rows@, line, Seq::empty()),
            },
            None => out.stopped is None && out.enclosing@.len() == 0,
        },
        out.callers@ == caller_rows(t.rows@, caller_lines@, caller_lines@.len() as int),
{
    let mut stopped: Option<usize> = None;
    let mut enclosing: Vec<usize> = Vec::new();
    match stop_line {
        Some(line) => {
            let mut holding = rows_holding(t, line);
            let ghost hv = holding@;
            stopped = holding.pop();
            enclosing = holding;
            proof {
                if stopped is Some {
                    assert(enclosing@.push(stopped->0) =~= hv);
                } else {
                    assert(hv =~= Seq::<usize>::empty());
                }
            }
        },
        None => {},
    }
    let mut callers: Vec<usize> = Vec::new();
    let mut k: usize = 0;
    while k < caller_lines.len()
        invariant
            k <= caller_lines@.len(),
            rows_ok(t.rows@),
            callers@ == caller_rows(t.rows@, caller_lines@, k as int),
        decreases caller_lines@.len() - k,
    {
        let line = caller_lines[k];
        let found = row_at(t, line);
        proof {
            match found {
                Some(i) => {
                    assert(innermost(t.rows@, i as int, line));
                    let c = choose|c: int| innermost(t.rows@, c, line);
                    lemma_innermost_unique(t.rows@, i as int, c, line);
                    assert(innermost_of(t.rows@, line) == Some(i));
                },
                None => {
                    assert(!exists|c: int| innermost(t.rows@, c, line));
                },
            }
        }
        match found {
            Some(row) => {
                let mut seen = false;
                let mut q: usize = 0;
                while q < callers.len()
                    invariant
                        q <= callers@.len(),
                        seen == exists|j: int| 0 <= j < q && callers@[j] == row,
                    decreases callers@.len() - q,
                {
                    if callers[q] == row {
                        seen = true;
                    }
                    q += 1;
                }
                if !seen {
                    callers.push(row);
                }
            },
            None => {},
        }
        k += 1;
    }
    LogicRuntime { stopped, enclosing, callers }
}

// ── Reading the tree ───────────────────────────────────────────────────────

/// Node `i` spans row `row`.
pub open spec fn spans_row(t: SyntaxTree, i: int, row: usize) -> bool {
    t.nodes@[i].start_row <= row <= t.nodes@[i].end_row
}

/// The length of node `i`'s text.
pub open spec fn node_len(t: SyntaxTree, i: int) -> int {
    t.nodes@[i].end - t.nodes@[i].start
}

/// Of two functions holding the row, the smaller: the one found first on a
/// tie.
pub open spec fn smaller(t: SyntaxTree, found: Option<usize>, n: usize) -> Option<usize> {
    match found {
        Some(p) => if node_len(t, p as int) <= node_len(t, n as int) { Some(p) } else { Some(n) },
        None => Some(n),
    }
}

/// Depth-first from node `n` through the nodes spanning `row`, last child
/// first: the innermost function node met, starting from `found`.
pub open spec fn fn_visit(t: SyntaxTree, kinds: Seq<&'static str>, row: usize, n: int, found: Option<usize>) -> Option<usize>
    decreases t.size() - n, t.named_kids(n).len() + 1,
{
    if !(0 <= n < t.size()) || !t.wf() || !spans_row(t, n, row) {
        found
    } else {
        let f = if names(kinds, t.kind_of(n)) { smaller(t, found, n as usize) } else { found };
        fn_visit_kids(t, kinds, row, n, t.named_kids(n).len() as int, f)
    }
}

/// The visit of node `n`'s first `k` named children, the last first.
pub open spec fn fn_visit_kids(t: SyntaxTree, kinds: Seq<&'static str>, row: usize, n: int, k: int, found: Option<usize>) -> Option<usize>
    decreases t.size() - n, k,
{
    if k <= 0 || !(0 <= n < t.size()) || !t.wf() || k > t.named_kids(n).len() {
        found
    } else {
        let c = t.named_kids(n)[k - 1] as int;
        if n < c < t.size() {
            fn_visit_kids(t, kinds, row, n, k - 1, fn_visit(t, kinds, row, c, found))
        } else {
            found
        }
    }
}

proof fn lemma_named_kids_after(t: SyntaxTree, n: int)
    requires
        t.wf(),
        0 <= n < t.size(),
    ensures
        forall|k: int| 0 <= k < t.named_kids(n).len() ==> n < #[trigger] t.named_kids(n)[k] < t.size(),
{
    let kids = t.nodes@[n].children@;
    let pred = |c: usize| t.nodes@[c as int].named;
    assert forall|k: int| 0 <= k < t.named_kids(n).len() implies n < #[trigger] t.named_kids(n)[k] < t.size() by {
        let x = t.named_kids(n)[k];
        assert(kids.filter(pred).contains(x));
        kids.lemma_filter_contains_rev(pred, x);
        let j = choose|j: int| 0 <= j < kids.len() && kids[j] == x;
        assert(n < t.nodes@[n].children@[j]);
    }
}

fn fn_visit_exec(t: &SyntaxTree, kinds: &Vec<&'static str>, row: usize, n: usize, found: Option<usize>) -> (r: Option<usize>)
    requires
        t.wf(),
        n < t.nodes@.len(),
        found matches Some(p) ==> p < t.nodes@.len(),
    ensures
        r == fn_visit(*t, kinds@, row, n as int, found),
        r matches Some(p) ==> p < t.nodes@.len(),
    decreases t.nodes@.len() - n,
{
    let node = &t.nodes[n];
    if !(node.start_row <= row && row <= node.end_row) {
        return found;
    }
    let mut f = found;
    if names_kind(kinds, node.kind.as_str()) {
        f = match found {
            Some(p) => {
                if (t.nodes[p].end as i128 - t.nodes[p].start as i128) <= (node.end as i128 - node.start as i128) {
                    Some(p)
                } else {
                    Some(n)
                }
            },
            None => Some(n),
        };
    }
    let kids = t.named_children(n);
    proof {
        lemma_named_kids_after(*t, n as int);
    }
    let ghost f0 = f;
    let mut k = kids.len();
    while k > 0
        invariant
            k <= kids@.len(),
            kids@ == t.named_kids(n as int),
            t.wf(),
            n < t.nodes@.len(),
            forall|j: int| 0 <= j < kids@.len() ==> n < #[trigger] kids@[j] < t.nodes@.len(),
            f matches Some(p) ==> p < t.nodes@.len(),
            fn_visit_kids(*t, kinds@, row, n as int, k as int, f) == fn_visit_kids(
                *t,
                kinds@,
                row,
                n as int,
                kids@.len() as int,
                f0,
            ),
        decreases k,
    {
        k -= 1;
        f = fn_visit_exec(t, kinds, row, kids[k], f);
    }
    f
}

/// The innermost function node spanning `row`: depth-first through the
/// nodes that span it, the smallest function met winning and the first
/// met among equals.
pub fn function_at(t: &SyntaxTree, g: &LogicGrammar, row: usize) -> (r: Option<usize>)
    requires
        t.wf(),
    ensures
        r == fn_visit(*t, g.function@, row, 0, None),
        r matches Some(p) ==> p < t.nodes@.len(),
{
    fn_visit_exec(t, &g.function, row, 0, None)
}

// ── Box text ────────────────────────────────────────────────────────────────

/// `ws` joined with single spaces.
pub open spec fn joined(ws: Seq<Seq<char>>) -> Seq<char>
    decreases ws.len(),
{
    if ws.len() == 0 {
        Seq::empty()
    } else if ws.len() == 1 {
        ws[0]
    } else {
        joined(ws.drop_last()) + seq![' '] + ws.last()
    }
}

/// `s` on one line: its words, single-spaced.
pub open spec fn flat(s: Seq<char>) -> Seq<char> {
    joined(words_of(s))
}

/// Boxes hold at most this many characters; longer text is cut with an
/// ellipsis.
pub const LABEL_MAX: usize = 48;

/// `s` cut to fit a box.
pub open spec fn fit(s: Seq<char>) -> Seq<char> {
    if s.len() <= LABEL_MAX { s } else { s.take(LABEL_MAX - 1) + seq!['…'] }
}

/// The text of node `i`; nothing when its range does not lie in `src`.
pub open spec fn node_text(t: SyntaxTree, src: Seq<char>, i: int) -> Seq<char> {
    let n = t.nodes@[i];
    if n.start <= n.end <= src.len() { src.subrange(n.start as int, n.end as int) } else { Seq::empty() }
}

/// A step's box: its source, on one line, cut to fit.
pub open spec fn label_spec(t: SyntaxTree, src: Seq<char>, i: int) -> Seq<char> {
    fit(flat(node_text(t, src, i)))
}

/// `s` without trailing `{`, `:` and `(`.
pub open spec fn strip_openers(s: Seq<char>) -> Seq<char>
    decreases s.len(),
{
    if s.len() > 0 && (s.last() == '{' || s.last() == ':' || s.last() == '(') {
        strip_openers(s.drop_last())
    } else {
        s
    }
}

/// A loop's or branch's box: the text of `n` up to where `body` starts, on
/// one line, without the opener that begins the body, cut to fit.
pub open spec fn header_spec(t: SyntaxTree, src: Seq<char>, n: int, body: int) -> Seq<char> {
    let start = t.nodes@[n].start as int;
    let b = t.nodes@[body].start as int;
    let e0 = if b >= start { b } else { start };
    let end = if e0 <= src.len() { e0 } else { src.len() as int };
    let text = if start <= end { src.subrange(start, end) } else { Seq::empty() };
    fit(trimmed(strip_openers(flat(text))))
}

fn flatten(s: &[char]) -> (r: Vec<char>)
    ensures
        r@ == flat(s@),
{
    let ws = split_words(s);
    let ghost wv = views(ws@);
    let mut out: Vec<char> = Vec::new();
    let mut k: usize = 0;
    while k < ws.len()
        invariant
            k <= ws@.len(),
            wv == views(ws@),
            out@ == joined(wv.take(k as int)),
        decreases ws@.len() - k,
    {
        assert(wv.take(k + 1).drop_last() =~= wv.take(k as int));
        assert(wv[k as int] == ws@[k as int]@);
        if k > 0 {
            out.push(' ');
        }
        append(&mut out, ws[k].as_slice());
        proof {
            if k == 0 {
                assert(out@ =~= joined(wv.take(1)));
            } else {
                assert(out@ =~= joined(wv.take(k as int)) + seq![' '] + wv[k as int]);
            }
        }
        k += 1;
    }
    assert(wv.take(ws@.len() as int) =~= wv);
    out
}

fn fit_exec(s: Vec<char>) -> (r: String)
    ensures
        r@ == fit(s@),
{
    if s.len() <= LABEL_MAX {
        string_of(s.as_slice())
    } else {
        let mut cut = slice_vec(s.as_slice(), 0, LABEL_MAX - 1);
        cut.push('…');
        string_of(cut.as_slice())
    }
}

fn node_chars(t: &SyntaxTree, src: &Vec<char>, i: usize) -> (r: Vec<char>)
    requires
        i < t.nodes@.len(),
    ensures
        r@ == node_text(*t, src@, i as int),
{
    let n = &t.nodes[i];
    if n.start <= n.end && n.end <= src.len() {
        slice_vec(src.as_slice(), n.start, n.end)
    } else {
        Vec::new()
    }
}

/// A step's box text.
fn label_of(t: &SyntaxTree, src: &Vec<char>, i: usize) -> (r: String)
    requires
        i < t.nodes@.len(),
    ensures
        r@ == label_spec(*t, src@, i as int),
{
    let text = node_chars(t, src, i);
    fit_exec(flatten(text.as_slice()))
}

/// A loop's or branch's box text.
fn header_of(t: &SyntaxTree, src: &Vec<char>, n: usize, body: usize) -> (r: String)
    requires
        n < t.nodes@.len(),
        body < t.nodes@.len(),
    ensures
        r@ == header_spec(*t, src@, n as int, body as int),
{
    let start = t.nodes[n].start;
    let b = t.nodes[body].start;
    let e0 = if b >= start { b } else { start };
    let end = if e0 <= src.len() { e0 } else { src.len() };
    let text = if start <= end { slice_vec(src.as_slice(), start, end) } else { Vec::new() };
    let mut f = flatten(text.as_slice());
    while f.len() > 0 && (f[f.len() - 1] == '{' || f[f.len() - 1] == ':' || f[f.len() - 1] == '(')
        invariant
            strip_openers(f@) == strip_openers(flat(text@)),
        decreases f@.len(),
    {
        let ghost before = f@;
        f.pop();
        assert(f@ =~= before.drop_last());
    }
    let tr = trim_chars(f.as_slice());
    fit_exec(tr)
}

// ── Building a function's graph ────────────────────────────────────────────

/// A node kind a tail return can turn into an exit.
pub open spec fn plain(k: LogicKind) -> bool {
    k == LogicKind::Process || k == LogicKind::Opaque
}

/// No edge leaves node `x`.
pub open spec fn no_out(gr: LogicGraph, x: usize) -> bool {
    forall|k: int| 0 <= k < gr.edges@.len() ==> (#[trigger] gr.edges@[k]).from != x
}

/// The graph hangs together: node numbers are positions, edges join nodes,
/// nothing leaves an exit, a way round returns to a loop, and an arm leaves
/// a decision.
pub open spec fn graph_ok(gr: LogicGraph) -> bool {
    &&& forall|k: int| 0 <= k < gr.nodes@.len() ==> (#[trigger] gr.nodes@[k]).id == k
    &&& forall|k: int| 0 <= k < gr.edges@.len() ==> {
        let e = #[trigger] gr.edges@[k];
        &&& e.from < gr.nodes@.len()
        &&& e.to < gr.nodes@.len()
        &&& gr.nodes@[e.from as int].kind != LogicKind::Exit
        &&& e.label == EdgeLabel::Back ==> gr.nodes@[e.to as int].kind == LogicKind::Loop
        &&& (e.label == EdgeLabel::Yes || e.label == EdgeLabel::No) ==> gr.nodes@[e.from as int].kind
            == LogicKind::Decision
    }
}

/// The ends a walk has open: nodes that are not exits, and a plain step
/// among them has nothing leaving it yet.
pub open spec fn live_ok(gr: LogicGraph, live: Seq<usize>) -> bool {
    forall|k: int| 0 <= k < live.len() ==> {
        let x = #[trigger] live[k];
        &&& x < gr.nodes@.len()
        &&& gr.nodes@[x as int].kind != LogicKind::Exit
        &&& plain(gr.nodes@[x as int].kind) ==> no_out(gr, x)
    }
}

/// `new` grew from `old` by a walk that started from the ends `inc`:
/// nodes and edges only added, edges only leaving `inc` or new nodes, and
/// no node changed but a plain step of `inc` turned into an exit.
pub open spec fn grew(old: LogicGraph, new: LogicGraph, inc: Seq<usize>) -> bool {
    &&& old.nodes@.len() <= new.nodes@.len()
    &&& old.edges@.len() <= new.edges@.len()
    &&& forall|k: int| 0 <= k < old.edges@.len() ==> #[trigger] new.edges@[k] == old.edges@[k]
    &&& forall|k: int|
        old.edges@.len() <= k < new.edges@.len() ==> inc.contains((#[trigger] new.edges@[k]).from) || new.edges@[k].from
            >= old.nodes@.len()
    &&& forall|k: int| 0 <= k < old.nodes@.len() ==> #[trigger] new.nodes@[k] == old.nodes@[k] || (inc.contains(
        k as usize,
    ) && plain(old.nodes@[k].kind) && new.nodes@[k] == (LogicNode { kind: LogicKind::Exit, ..old.nodes@[k] }))
    &&& new.name == old.name
}

/// No edge added between `a` and `b` leaves `x`.
pub open spec fn no_out_new(a: LogicGraph, b: LogicGraph, x: usize) -> bool {
    forall|k: int| a.edges@.len() <= k < b.edges@.len() ==> (#[trigger] b.edges@[k]).from != x
}

/// Every end in `res` is one of `inc` or a new node.
pub open spec fn from_or_new(res: Seq<usize>, inc: Seq<usize>, old_len: nat) -> bool {
    forall|k: int| 0 <= k < res.len() ==> inc.contains(#[trigger] res[k]) || res[k] >= old_len
}

proof fn lemma_grew_refl(g: LogicGraph, inc: Seq<usize>)
    ensures
        grew(g, g, inc),
{
}

proof fn lemma_grew_trans(a: LogicGraph, b: LogicGraph, c: LogicGraph, inc: Seq<usize>, inc2: Seq<usize>)
    requires
        grew(a, b, inc),
        grew(b, c, inc2),
        from_or_new(inc2, inc, a.nodes@.len()),
    ensures
        grew(a, c, inc),
{
    assert forall|k: int| a.edges@.len() <= k < c.edges@.len() implies inc.contains((#[trigger] c.edges@[k]).from)
        || c.edges@[k].from >= a.nodes@.len() by {
        if k < b.edges@.len() {
            assert(c.edges@[k] == b.edges@[k]);
        } else if inc2.contains(c.edges@[k].from) {
            let j = choose|j: int| 0 <= j < inc2.len() && inc2[j] == c.edges@[k].from;
            assert(inc.contains(inc2[j]) || inc2[j] >= a.nodes@.len());
        }
    }
    assert forall|k: int| 0 <= k < a.nodes@.len() implies #[trigger] c.nodes@[k] == a.nodes@[k] || (inc.contains(
        k as usize,
    ) && plain(a.nodes@[k].kind) && c.nodes@[k] == (LogicNode { kind: LogicKind::Exit, ..a.nodes@[k] })) by {
        assert(b.nodes@[k] == a.nodes@[k] || (inc.contains(k as usize) && plain(a.nodes@[k].kind) && b.nodes@[k] == (
        LogicNode { kind: LogicKind::Exit, ..a.nodes@[k] })));
        if c.nodes@[k] != b.nodes@[k] {
            assert(inc2.contains(k as usize) && plain(b.nodes@[k].kind));
            let j = choose|j: int| 0 <= j < inc2.len() && inc2[j] == k as usize;
            assert(inc.contains(inc2[j]) || inc2[j] >= a.nodes@.len());
        }
    }
}

/// A set of ends held aside stays good while a walk from other ends grows
/// the graph.
proof fn lemma_live_kept(a: LogicGraph, b: LogicGraph, inc: Seq<usize>, held: Seq<usize>)
    requires
        grew(a, b, inc),
        live_ok(a, held),
        forall|k: int| 0 <= k < held.len() && inc.contains(#[trigger] held[k]) ==> !plain(a.nodes@[held[k] as int].kind),
    ensures
        live_ok(b, held),
{
    assert forall|k: int| 0 <= k < held.len() implies {
        let x = #[trigger] held[k];
        &&& x < b.nodes@.len()
        &&& b.nodes@[x as int].kind != LogicKind::Exit
        &&& plain(b.nodes@[x as int].kind) ==> no_out(b, x)
    } by {
        let x = held[k];
        assert(b.nodes@[x as int] == a.nodes@[x as int]);
        if plain(b.nodes@[x as int].kind) {
            assert(!inc.contains(x));
            assert forall|q: int| 0 <= q < b.edges@.len() implies (#[trigger] b.edges@[q]).from != x by {
                if q < a.edges@.len() {
                    assert(b.edges@[q] == a.edges@[q]);
                } else {
                    if b.edges@[q].from == x {
                        assert(inc.contains(x));
                    }
                }
            }
        }
    }
}

/// A graph as values: each node's number, kind, label and rows, and the
/// edges.
#[verifier::ext_equal]
pub struct GraphView {
    pub nodes: Seq<(usize, LogicKind, Seq<char>, usize, usize)>,
    pub edges: Seq<LogicEdge>,
}

/// A node as values.
pub open spec fn node_view(n: LogicNode) -> (usize, LogicKind, Seq<char>, usize, usize) {
    (n.id, n.kind, n.label@, n.start_row, n.end_row)
}

/// A graph's nodes and edges as values.
pub open spec fn gview(gr: LogicGraph) -> GraphView {
    GraphView { nodes: gr.nodes@.map_values(|n: LogicNode| node_view(n)), edges: gr.edges@ }
}

/// A node of `kind` labelled `label` added for tree node `n`, numbered by
/// its place.
pub open spec fn push_v(v: GraphView, kind: LogicKind, label: Seq<char>, t: SyntaxTree, n: int) -> GraphView {
    GraphView {
        nodes: v.nodes.push((v.nodes.len() as usize, kind, label, t.nodes@[n].start_row, t.nodes@[n].end_row)),
        edges: v.edges,
    }
}

/// An edge labelled `label` from each of `from`, in order, to `to`.
pub open spec fn link_v(v: GraphView, from: Seq<usize>, to: usize, label: EdgeLabel) -> GraphView {
    GraphView { nodes: v.nodes, edges: v.edges + Seq::new(from.len(), |k: int| LogicEdge { from: from[k], to, label }) }
}

/// Node `id` made an exit.
pub open spec fn exit_v(v: GraphView, id: int) -> GraphView {
    let x = v.nodes[id];
    GraphView { nodes: v.nodes.update(id, (x.0, LogicKind::Exit, x.2, x.3, x.4)), edges: v.edges }
}

/// The plain edges from `from` into a node numbered `before` or later,
/// relabelled `label`.
pub open spec fn relabel_v(v: GraphView, from: usize, before: int, label: EdgeLabel) -> GraphView {
    GraphView {
        nodes: v.nodes,
        edges: v.edges.map_values(
            |e: LogicEdge|
                if e.from == from && e.to >= before && e.label == EdgeLabel::Next {
                    LogicEdge { from: e.from, to: e.to, label }
                } else {
                    e
                },
        ),
    }
}

/// The last of `kids` whose kind is one of `blocks`.
pub open spec fn last_block_in(t: SyntaxTree, blocks: Seq<&'static str>, kids: Seq<usize>) -> Option<usize>
    decreases kids.len(),
{
    if kids.len() == 0 {
        None
    } else if names(blocks, t.nodes@[kids.last() as int].kind@) {
        Some(kids.last())
    } else {
        last_block_in(t, blocks, kids.drop_last())
    }
}

/// The body of loop `n`: its `body` field, else its last block, else itself.
pub open spec fn loop_body(t: SyntaxTree, g: LogicGrammar, n: int) -> int {
    match t.field_child(n, "body"@) {
        Some(b) => b as int,
        None => match last_block_in(t, g.block@, t.named_kids(n)) {
            Some(b) => b as int,
            None => n,
        },
    }
}

/// The condition of decision `n`: its `condition` field, else its first
/// named child, else itself.
pub open spec fn cond_of(t: SyntaxTree, n: int) -> int {
    match t.field_child(n, "condition"@) {
        Some(c) => c as int,
        None => if t.named_kids(n).len() > 0 { t.named_kids(n)[0] as int } else { n },
    }
}

/// Statement `n` walked from the open ends `inc`: the graph it leaves and
/// the ends it leaves open. A decision is a node with its two arms; a loop
/// a node with its body and a way round; an exit a node that ends the way;
/// a block is walked through, or is its one statement; anything else is a
/// step, an ordinary one when the table names it.
pub open spec fn stmt_v(v: GraphView, g: LogicGrammar, t: SyntaxTree, src: Seq<char>, n: int, inc: Seq<usize>) -> (GraphView, Seq<usize>)
    decreases t.nodes@.len() - n, 3int, 0int,
{
    let len = t.nodes@.len();
    if !(0 <= n < len) {
        (v, inc)
    } else {
        let kind = t.nodes@[n].kind@;
        let id = v.nodes.len() as usize;
        if names(g.decision@, kind) {
            let v1 = link_v(push_v(v, LogicKind::Decision, label_spec(t, src, cond_of(t, n)), t, n), inc, id, EdgeLabel::Next);
            let r1 = match t.field_child(n, g.consequence@) {
                Some(yes) => if n < yes < len { branch_v(v1, g, t, src, yes as int, id, EdgeLabel::Yes) } else { (v1, Seq::empty()) },
                None => (v1, seq![id]),
            };
            let r2 = match t.field_child(n, g.alternative@) {
                Some(no) => if n < no < len { branch_v(r1.0, g, t, src, no as int, id, EdgeLabel::No) } else { (r1.0, Seq::empty()) },
                None => (r1.0, seq![id]),
            };
            (r2.0, r1.1 + r2.1)
        } else if names(g.loops@, kind) {
            let body = loop_body(t, g, n);
            let v1 = link_v(push_v(v, LogicKind::Loop, header_spec(t, src, n, body), t, n), inc, id, EdgeLabel::Next);
            let r = if n <= body < len { block_v(v1, g, t, src, body, seq![id]) } else { (v1, Seq::empty()) };
            (link_v(r.0, r.1, id, EdgeLabel::Back), seq![id])
        } else if names(g.exit@, kind) {
            (link_v(push_v(v, LogicKind::Exit, label_spec(t, src, n), t, n), inc, id, EdgeLabel::Next), Seq::empty())
        } else if names(g.block@, kind) {
            let inner = t.named_kids(n);
            if inner.len() == 1 {
                if n < inner[0] < len { stmt_v(v, g, t, src, inner[0] as int, inc) } else { (v, inc) }
            } else {
                block_v(v, g, t, src, n, inc)
            }
        } else {
            let k = if names(g.process@, kind) { LogicKind::Process } else { LogicKind::Opaque };
            (link_v(push_v(v, k, label_spec(t, src, n), t, n), inc, id, EdgeLabel::Next), seq![id])
        }
    }
}

/// Block `b` walked from the open ends `inc`: its named children in order.
pub open spec fn block_v(v: GraphView, g: LogicGrammar, t: SyntaxTree, src: Seq<char>, b: int, inc: Seq<usize>) -> (GraphView, Seq<usize>)
    decreases t.nodes@.len() - b, 1int, 0int,
{
    kids_v(v, g, t, src, b, 0, inc)
}

/// The named children of `b` from the `i`-th on walked from the ends
/// `live`. In a language whose last expression is the return value, a
/// plain step that is the one end of the last child, and that child not a
/// statement, becomes the exit.
pub open spec fn kids_v(v: GraphView, g: LogicGrammar, t: SyntaxTree, src: Seq<char>, b: int, i: int, live: Seq<usize>) -> (GraphView, Seq<usize>)
    decreases t.nodes@.len() - b, 0int, t.named_kids(b).len() - i,
{
    let len = t.nodes@.len();
    let kids = t.named_kids(b);
    if !(0 <= b < len) || i < 0 || i >= kids.len() {
        (v, live)
    } else {
        let child = kids[i] as int;
        if !(b < child < len) {
            (v, live)
        } else {
            let r = stmt_v(v, g, t, src, child, live);
            let tail = g.tail_is_return && i + 1 == kids.len() && r.1.len() == 1 && r.1[0] < r.0.nodes.len()
                && plain(r.0.nodes[r.1[0] as int].1) && !statement_kind(t.nodes@[child].kind@);
            if tail {
                kids_v(exit_v(r.0, r.1[0] as int), g, t, src, b, i + 1, Seq::empty())
            } else {
                kids_v(r.0, g, t, src, b, i + 1, r.1)
            }
        }
    }
}

/// Arm `n` of decision `from` walked, the edges that enter it from the
/// decision labelled `label`.
pub open spec fn branch_v(v: GraphView, g: LogicGrammar, t: SyntaxTree, src: Seq<char>, n: int, from: usize, label: EdgeLabel) -> (GraphView, Seq<usize>)
    decreases t.nodes@.len() - n, 2int, 0int,
{
    let r = block_v(v, g, t, src, n, seq![from]);
    (relabel_v(r.0, from, v.nodes.len() as int, label), r.1)
}

/// Add a node for tree node `n`; returns its number.
fn push_node(gr: &mut LogicGraph, kind: LogicKind, label: String, t: &SyntaxTree, n: usize) -> (id: usize)
    requires
        n < t.nodes@.len(),
        graph_ok(*old(gr)),
    ensures
        id == old(gr).nodes@.len(),
        final(gr).nodes@ == old(gr).nodes@.push(
            LogicNode { id, kind, label, start_row: t.nodes@[n as int].start_row, end_row: t.nodes@[n as int].end_row },
        ),
        final(gr).edges@ == old(gr).edges@,
        final(gr).name == old(gr).name,
        graph_ok(*final(gr)),
        gview(*final(gr)) == push_v(gview(*old(gr)), kind, label@, *t, n as int),
{
    let id = gr.nodes.len();
    let ghost lv = label@;
    gr.nodes.push(LogicNode { id, kind, label, start_row: t.nodes[n].start_row, end_row: t.nodes[n].end_row });
    assert(gview(*gr).nodes =~= push_v(gview(*old(gr)), kind, lv, *t, n as int).nodes);
    id
}

/// Join every end of `from` to `to`.
fn link(gr: &mut LogicGraph, from: &[usize], to: usize, label: EdgeLabel)
    requires
        graph_ok(*old(gr)),
        live_ok(*old(gr), from@),
        to < old(gr).nodes@.len(),
        label == EdgeLabel::Next || (label == EdgeLabel::Back && old(gr).nodes@[to as int].kind == LogicKind::Loop),
    ensures
        graph_ok(*final(gr)),
        final(gr).nodes@ == old(gr).nodes@,
        final(gr).name == old(gr).name,
        final(gr).edges@ == old(gr).edges@ + Seq::new(from@.len(), |k: int| LogicEdge { from: from@[k], to, label }),
        gview(*final(gr)) == link_v(gview(*old(gr)), from@, to, label),
{
    let ghost e0 = gr.edges@;
    let mut k: usize = 0;
    while k < from.len()
        invariant
            k <= from@.len(),
            gr.nodes@ == old(gr).nodes@,
            gr.name == old(gr).name,
            live_ok(*old(gr), from@),
            to < gr.nodes@.len(),
            label == EdgeLabel::Next || (label == EdgeLabel::Back && gr.nodes@[to as int].kind == LogicKind::Loop),
            e0 == old(gr).edges@,
            graph_ok(*old(gr)),
            gr.edges@ == e0 + Seq::new(k as nat, |j: int| LogicEdge { from: from@[j], to, label }),
            graph_ok(*gr),
        decreases from@.len() - k,
    {
        gr.edges.push(LogicEdge { from: from[k], to, label });
        assert(gr.edges@ =~= e0 + Seq::new((k + 1) as nat, |j: int| LogicEdge { from: from@[j], to, label }));
        k += 1;
    }
    assert(gview(*gr).edges =~= link_v(gview(*old(gr)), from@, to, label).edges);
    assert(gview(*gr).nodes =~= link_v(gview(*old(gr)), from@, to, label).nodes);
}

/// Turn node `id` into an exit.
fn set_exit(gr: &mut LogicGraph, id: usize)
    requires
        id < old(gr).nodes@.len(),
    ensures
        final(gr).nodes@ == old(gr).nodes@.update(
            id as int,
            LogicNode { kind: LogicKind::Exit, ..old(gr).nodes@[id as int] },
        ),
        final(gr).edges@ == old(gr).edges@,
        final(gr).name == old(gr).name,
        gview(*final(gr)) == exit_v(gview(*old(gr)), id as int),
{
    let mut nd = gr.nodes.remove(id);
    nd.kind = LogicKind::Exit;
    gr.nodes.insert(id, nd);
    assert(gr.nodes@ =~= old(gr).nodes@.update(id as int, LogicNode { kind: LogicKind::Exit, ..old(gr).nodes@[id as int] }));
    assert(gview(*gr).nodes =~= exit_v(gview(*old(gr)), id as int).nodes);
}

/// The last named child of `n` that is a block.
fn last_block(t: &SyntaxTree, g: &LogicGrammar, n: usize) -> (r: Option<usize>)
    requires
        t.wf(),
        n < t.nodes@.len(),
    ensures
        r == last_block_in(*t, g.block@, t.named_kids(n as int)),
        r matches Some(c) ==> n < c < t.nodes@.len(),
{
    let kids = t.named_children(n);
    let mut found: Option<usize> = None;
    let mut k: usize = 0;
    while k < kids.len()
        invariant
            k <= kids@.len(),
            forall|j: int| 0 <= j < kids@.len() ==> n < #[trigger] kids@[j] < t.nodes@.len(),
            found matches Some(c) ==> n < c < t.nodes@.len(),
            found == last_block_in(*t, g.block@, kids@.take(k as int)),
        decreases kids@.len() - k,
    {
        assert(kids@.take(k + 1).drop_last() =~= kids@.take(k as int));
        if names_kind(&g.block, t.nodes[kids[k]].kind.as_str()) {
            found = Some(kids[k]);
        }
        k += 1;
    }
    assert(kids@.take(k as int) =~= kids@);
    found
}

/// Walk a block's named children in order, threading the open ends
/// through; returns the ends that fall out of the bottom. In a language
/// whose last expression is the return value, a plain last step becomes
/// the exit.
fn walk_block(gr: &mut LogicGraph, g: &LogicGrammar, t: &SyntaxTree, src: &Vec<char>, block: usize, incoming: Vec<usize>) -> (live: Vec<usize>)
    requires
        t.wf(),
        block < t.nodes@.len(),
        graph_ok(*old(gr)),
        live_ok(*old(gr), incoming@),
    ensures
        graph_ok(*final(gr)),
        live_ok(*final(gr), live@),
        grew(*old(gr), *final(gr), incoming@),
        from_or_new(live@, incoming@, old(gr).nodes@.len()),
        (gview(*final(gr)), live@) == block_v(gview(*old(gr)), *g, *t, src@, block as int, incoming@),
    decreases t.nodes@.len() - block, 0nat,
{
    let ghost g0 = *gr;
    let kids = t.named_children(block);
    let mut live = incoming;
    let ghost inc = live@;
    let mut i: usize = 0;
    while i < kids.len()
        invariant
            kids@ == t.named_kids(block as int),
            kids_v(gview(g0), *g, *t, src@, block as int, 0, inc) == kids_v(gview(*gr), *g, *t, src@, block as int, i as int, live@),
            i <= kids@.len(),
            t.wf(),
            block < t.nodes@.len(),
            forall|j: int| 0 <= j < kids@.len() ==> block < #[trigger] kids@[j] < t.nodes@.len(),
            graph_ok(*gr),
            live_ok(*gr, live@),
            grew(g0, *gr, inc),
            from_or_new(live@, inc, g0.nodes@.len()),
        decreases kids@.len() - i,
    {
        let child = kids[i];
        let ghost before = *gr;
        let ghost lv = live@;
        let next = walk_stmt(gr, g, t, src, child, &live);
        proof {
            lemma_grew_trans(g0, before, *gr, inc, lv);
            assert forall|k: int| 0 <= k < next@.len() implies inc.contains(#[trigger] next@[k]) || next@[k]
                >= g0.nodes@.len() by {
                if lv.contains(next@[k]) {
                    let j = choose|j: int| 0 <= j < lv.len() && lv[j] == next@[k];
                    assert(inc.contains(lv[j]) || lv[j] >= g0.nodes@.len());
                }
            }
        }
        live = next;
        if g.tail_is_return && i + 1 == kids.len() && live.len() == 1 {
            let id = live[0];
            let k = gr.nodes[id].kind;
            let plain_kind = match k {
                LogicKind::Process | LogicKind::Opaque => true,
                _ => false,
            };
            if plain_kind && !is_statement(t.nodes[child].kind.as_str()) {
                let ghost mid = *gr;
                set_exit(gr, id);
                proof {
                    assert(live_ok(mid, live@));
                    assert(live@[0] == id);
                    assert(no_out(mid, id));
                    assert forall|q: int| 0 <= q < gr.edges@.len() implies {
                        let e = #[trigger] gr.edges@[q];
                        &&& e.from < gr.nodes@.len()
                        &&& e.to < gr.nodes@.len()
                        &&& gr.nodes@[e.from as int].kind != LogicKind::Exit
                        &&& e.label == EdgeLabel::Back ==> gr.nodes@[e.to as int].kind == LogicKind::Loop
                        &&& (e.label == EdgeLabel::Yes || e.label == EdgeLabel::No) ==> gr.nodes@[e.from as int].kind
                            == LogicKind::Decision
                    } by {
                        assert(gr.edges@[q] == mid.edges@[q]);
                        assert(mid.edges@[q].from != id);
                    }
                    assert forall|q: int| 0 <= q < g0.nodes@.len() implies #[trigger] gr.nodes@[q] == g0.nodes@[q] || (
                    inc.contains(q as usize) && plain(g0.nodes@[q].kind) && gr.nodes@[q] == (LogicNode {
                        kind: LogicKind::Exit,
                        ..g0.nodes@[q]
                    })) by {
                        if q == id {
                            assert(inc.contains(id) || id >= g0.nodes@.len());
                            assert(mid.nodes@[q] == g0.nodes@[q] || (inc.contains(q as usize) && plain(g0.nodes@[q].kind)
                                && mid.nodes@[q] == (LogicNode { kind: LogicKind::Exit, ..g0.nodes@[q] })));
                        }
                    }
                }
                live = Vec::new();
            }
        }
        i += 1;
    }
    live
}

/// Walk one statement from the open ends `incoming`; returns the ends it
/// leaves open.
fn walk_stmt(gr: &mut LogicGraph, g: &LogicGrammar, t: &SyntaxTree, src: &Vec<char>, n: usize, incoming: &Vec<usize>) -> (live: Vec<usize>)
    requires
        t.wf(),
        n < t.nodes@.len(),
        graph_ok(*old(gr)),
        live_ok(*old(gr), incoming@),
    ensures
        graph_ok(*final(gr)),
        live_ok(*final(gr), live@),
        grew(*old(gr), *final(gr), incoming@),
        from_or_new(live@, incoming@, old(gr).nodes@.len()),
        (gview(*final(gr)), live@) == stmt_v(gview(*old(gr)), *g, *t, src@, n as int, incoming@),
    decreases t.nodes@.len() - n, 2nat,
{
    let ghost g0 = *gr;
    let kind = t.nodes[n].kind.as_str();
    if names_kind(&g.decision, kind) {
        let kids = t.named_children(n);
        let cond = match t.child_by_field(n, "condition") {
            Some(c) => c,
            None => if kids.len() > 0 { kids[0] } else { n },
        };
        let label = label_of(t, src, cond);
        let id = push_node(gr, LogicKind::Decision, label, t, n);
        link(gr, incoming.as_slice(), id, EdgeLabel::Next);
        let ghost g1 = *gr;
        proof {
            lemma_grew_refl(g0, incoming@);
        }
        let mut tails: Vec<usize> = Vec::new();
        match t.child_by_field(n, g.consequence) {
            Some(yes) => {
                let mut e = branch(gr, g, t, src, yes, id, EdgeLabel::Yes);
                tails.append(&mut e);
            },
            None => tails.push(id),
        }
        let ghost g2 = *gr;
        let ghost t2 = tails@;
        match t.child_by_field(n, g.alternative) {
            Some(no) => {
                let mut e = branch(gr, g, t, src, no, id, EdgeLabel::No);
                proof {
                    lemma_live_kept(g2, *gr, seq![id], t2);
                }
                tails.append(&mut e);
            },
            None => tails.push(id),
        }
        return tails;
    }
    if names_kind(&g.loops, kind) {
        let body = match t.child_by_field(n, "body") {
            Some(b) => b,
            None => match last_block(t, g, n) {
                Some(b) => b,
                None => n,
            },
        };
        let label = header_of(t, src, n, body);
        let id = push_node(gr, LogicKind::Loop, label, t, n);
        link(gr, incoming.as_slice(), id, EdgeLabel::Next);
        let mut start: Vec<usize> = Vec::new();
        start.push(id);
        assert(start@ =~= seq![id]);
        let ends = walk_block(gr, g, t, src, body, start);
        link(gr, ends.as_slice(), id, EdgeLabel::Back);
        let mut out: Vec<usize> = Vec::new();
        out.push(id);
        return out;
    }
    if names_kind(&g.exit, kind) {
        let label = label_of(t, src, n);
        let id = push_node(gr, LogicKind::Exit, label, t, n);
        link(gr, incoming.as_slice(), id, EdgeLabel::Next);
        return Vec::new();
    }
    if names_kind(&g.block, kind) {
        let inner = t.named_children(n);
        if inner.len() == 1 {
            return walk_stmt(gr, g, t, src, inner[0], incoming);
        }
        let inc = incoming.clone();
        return walk_block(gr, g, t, src, n, inc);
    }
    let k = if names_kind(&g.process, kind) { LogicKind::Process } else { LogicKind::Opaque };
    let label = label_of(t, src, n);
    let id = push_node(gr, k, label, t, n);
    link(gr, incoming.as_slice(), id, EdgeLabel::Next);
    let mut out: Vec<usize> = Vec::new();
    out.push(id);
    out
}

/// Walk one arm of decision `from`, labelling the edges that enter it.
fn branch(gr: &mut LogicGraph, g: &LogicGrammar, t: &SyntaxTree, src: &Vec<char>, n: usize, from: usize, label: EdgeLabel) -> (live: Vec<usize>)
    requires
        t.wf(),
        n < t.nodes@.len(),
        graph_ok(*old(gr)),
        from < old(gr).nodes@.len(),
        old(gr).nodes@[from as int].kind == LogicKind::Decision,
        label == EdgeLabel::Yes || label == EdgeLabel::No,
    ensures
        graph_ok(*final(gr)),
        live_ok(*final(gr), live@),
        grew(*old(gr), *final(gr), seq![from]),
        from_or_new(live@, seq![from], old(gr).nodes@.len()),
        (gview(*final(gr)), live@) == branch_v(gview(*old(gr)), *g, *t, src@, n as int, from, label),
    decreases t.nodes@.len() - n, 1nat,
{
    let ghost g0 = *gr;
    let before = gr.nodes.len();
    let mut start: Vec<usize> = Vec::new();
    start.push(from);
    assert(start@ =~= seq![from]);
    let ends = walk_block(gr, g, t, src, n, start);
    assert(before == gview(g0).nodes.len());
    let ghost g1 = *gr;
    assert(g1.nodes@[from as int] == g0.nodes@[from as int]);
    let mut k: usize = 0;
    while k < gr.edges.len()
        invariant
            k <= gr.edges@.len(),
            gr.nodes@ == g1.nodes@,
            gr.name == g1.name,
            gr.edges@.len() == g1.edges@.len(),
            graph_ok(g1),
            graph_ok(*gr),
            from < g1.nodes@.len(),
            label == EdgeLabel::Yes || label == EdgeLabel::No,
            g1.nodes@[from as int].kind == LogicKind::Decision,
            forall|q: int| 0 <= q < gr.edges@.len() ==> (#[trigger] gr.edges@[q]).from == g1.edges@[q].from
                && gr.edges@[q].to == g1.edges@[q].to,
            forall|q: int| 0 <= q < gr.edges@.len() && g1.edges@[q].to < before ==> #[trigger] gr.edges@[q] == g1.edges@[q],
            forall|q: int| k <= q < gr.edges@.len() ==> #[trigger] gr.edges@[q] == g1.edges@[q],
            forall|q: int| 0 <= q < k ==> #[trigger] gr.edges@[q] == (if g1.edges@[q].from == from && g1.edges@[q].to >= before
                && g1.edges@[q].label == EdgeLabel::Next {
                LogicEdge { from: g1.edges@[q].from, to: g1.edges@[q].to, label }
            } else {
                g1.edges@[q]
            }),
        decreases gr.edges@.len() - k,
    {
        let e = gr.edges[k];
        if e.from == from && e.to >= before && e.label == EdgeLabel::Next {
            gr.edges.set(k, LogicEdge { from: e.from, to: e.to, label });
        }
        k += 1;
    }
    proof {
        assert(gview(*gr).edges =~= relabel_v(gview(g1), from, before as int, label).edges);
        assert(gview(*gr).nodes =~= gview(g1).nodes);
        assert forall|q: int| 0 <= q < g0.edges@.len() implies #[trigger] gr.edges@[q] == g0.edges@[q] by {
            assert(g1.edges@[q] == g0.edges@[q]);
        }
        assert forall|q: int| 0 <= q < ends@.len() implies {
            let x = #[trigger] ends@[q];
            &&& x < gr.nodes@.len()
            &&& gr.nodes@[x as int].kind != LogicKind::Exit
            &&& plain(gr.nodes@[x as int].kind) ==> no_out(*gr, x)
        } by {
            let x = ends@[q];
            if plain(gr.nodes@[x as int].kind) {
                assert(no_out(g1, x));
                assert forall|r: int| 0 <= r < gr.edges@.len() implies (#[trigger] gr.edges@[r]).from != x by {
                    assert(g1.edges@[r].from != x);
                }
            }
        }
    }
    ends
}

/// The text of node `i` when its range lies in `src`.
pub open spec fn node_text_opt(t: SyntaxTree, src: Seq<char>, i: int) -> Option<Seq<char>> {
    let n = t.nodes@[i];
    if n.start <= n.end <= src.len() { Some(src.subrange(n.start as int, n.end as int)) } else { None }
}

/// A function's name: the first line of what is under its name field,
/// trimmed; `fn` when there is none.
pub open spec fn fn_name_spec(t: SyntaxTree, src: Seq<char>, field: Seq<char>, f: int) -> Seq<char> {
    match t.field_child(f, field) {
        None => "fn"@,
        Some(c) => match node_text_opt(t, src, c as int) {
            None => "fn"@,
            Some(text) => if lines_of(text).len() == 0 { "fn"@ } else { trimmed(lines_of(text)[0]) },
        },
    }
}

/// The name of function node `f`.
fn function_label(t: &SyntaxTree, g: &LogicGrammar, src: &Vec<char>, f: usize) -> (r: String)
    requires
        t.wf(),
        f < t.nodes@.len(),
    ensures
        r@ == fn_name_spec(*t, src@, g.name_field@, f as int),
{
    match t.child_by_field(f, g.name_field) {
        None => own("fn"),
        Some(c) => {
            let n = &t.nodes[c];
            if n.start <= n.end && n.end <= src.len() {
                let text = slice_vec(src.as_slice(), n.start, n.end);
                let ls = split_lines(text.as_slice());
                if ls.len() == 0 {
                    own("fn")
                } else {
                    assert(views(ls@)[0] == ls@[0]@);
                    let tr = trim_chars(ls[0].as_slice());
                    string_of(tr.as_slice())
                }
            } else {
                own("fn")
            }
        },
    }
}

/// The graph of the function holding `row`: an entry named `Start` on the
/// function's rows, then its body walked from there (see `walk_stmt`).
/// `None` for a language without a table, or where no function holds the
/// row.
pub fn graph_at(t: &SyntaxTree, src: &Vec<char>, lang: Lang, row: usize) -> (r: Option<LogicGraph>)
    requires
        t.wf(),
    ensures
        r is Some <==> has_table(lang) && fn_visit(*t, function_kinds(lang), row, 0, None) is Some,
        r matches Some(gr) ==> {
            let f = fn_visit(*t, function_kinds(lang), row, 0, None)->0 as int;
            &&& graph_ok(gr)
            &&& gr.nodes@.len() >= 1
            &&& gr.nodes@[0].kind == LogicKind::Entry
            &&& gr.nodes@[0].label@ == "Start"@
            &&& gr.nodes@[0].start_row == t.nodes@[f].start_row
            &&& gr.nodes@[0].end_row == t.nodes@[f].end_row
            &&& gr.name@ == fn_name_spec(*t, src@, name_field_of(lang)@, f)
            &&& exists|g: LogicGrammar| #[trigger] is_table_of(g, lang) && gview(gr) == block_v(
                push_v(GraphView { nodes: Seq::empty(), edges: Seq::empty() }, LogicKind::Entry, "Start"@, *t, f),
                g,
                *t,
                src@,
                loop_body(*t, g, f),
                seq![0usize],
            ).0
        },
{
    let g = match grammar_for(lang) {
        Some(g) => g,
        None => return None,
    };
    let func = match function_at(t, &g, row) {
        Some(f) => f,
        None => return None,
    };
    let name = function_label(t, &g, src, func);
    let mut gr = LogicGraph { nodes: Vec::new(), edges: Vec::new(), name };
    assert(gview(gr) =~= GraphView { nodes: Seq::empty(), edges: Seq::empty() });
    let entry = push_node(&mut gr, LogicKind::Entry, own("Start"), t, func);
    let body = match t.child_by_field(func, "body") {
        Some(b) => b,
        None => match last_block(t, &g, func) {
            Some(b) => b,
            None => func,
        },
    };
    let mut start: Vec<usize> = Vec::new();
    start.push(entry);
    assert(start@ =~= seq![0usize]);
    let ghost g1 = gr;
    let _tails = walk_block(&mut gr, &g, t, src, body, start);
    assert(gr.nodes@[0] == g1.nodes@[0]);
    assert(is_table_of(g, lang));
    Some(gr)
}

// ── The outline ─────────────────────────────────────────────────────────────

/// A name and row as values.
pub open spec fn start_views(v: Seq<(String, usize)>) -> Seq<(Seq<char>, usize)> {
    Seq::new(v.len(), |k: int| (v[k].0@, v[k].1))
}

/// Depth first from node `n`, last child first: every function met with a
/// name, and the row it starts on, after `acc`.
pub open spec fn starts_visit(t: SyntaxTree, src: Seq<char>, lang: Lang, n: int, acc: Seq<(Seq<char>, usize)>) -> Seq<(Seq<char>, usize)>
    decreases t.size() - n, t.named_kids(n).len() + 1,
{
    if !(0 <= n < t.size()) || !t.wf() {
        acc
    } else {
        let name = fn_name_spec(t, src, name_field_of(lang)@, n);
        let acc1 = if names(function_kinds(lang), t.kind_of(n)) && name.len() > 0 {
            acc.push((name, t.nodes@[n].start_row))
        } else {
            acc
        };
        starts_kids(t, src, lang, n, t.named_kids(n).len() as int, acc1)
    }
}

pub open spec fn starts_kids(t: SyntaxTree, src: Seq<char>, lang: Lang, n: int, k: int, acc: Seq<(Seq<char>, usize)>) -> Seq<(Seq<char>, usize)>
    decreases t.size() - n, k,
{
    if k <= 0 || !(0 <= n < t.size()) || !t.wf() || k > t.named_kids(n).len() {
        acc
    } else {
        let c = t.named_kids(n)[k - 1] as int;
        if n < c < t.size() {
            starts_kids(t, src, lang, n, k - 1, starts_visit(t, src, lang, c, acc))
        } else {
            acc
        }
    }
}

fn starts_exec(t: &SyntaxTree, g: &LogicGrammar, src: &Vec<char>, lang: Lang, n: usize, out: &mut Vec<(String, usize)>)
    requires
        t.wf(),
        n < t.nodes@.len(),
        is_table_of(*g, lang),
    ensures
        start_views(final(out)@) == starts_visit(*t, src@, lang, n as int, start_views(old(out)@)),
    decreases t.nodes@.len() - n,
{
    let name = function_label(t, g, src, n);
    if names_kind(&g.function, t.nodes[n].kind.as_str()) && name.unicode_len() > 0 {
        let ghost before = start_views(out@);
        out.push((name, t.nodes[n].start_row));
        assert(start_views(out@) =~= before.push((name@, t.nodes@[n as int].start_row)));
    }
    let kids = t.named_children(n);
    proof {
        lemma_named_kids_after(*t, n as int);
    }
    let ghost acc1 = start_views(out@);
    let mut k = kids.len();
    while k > 0
        invariant
            k <= kids@.len(),
            kids@ == t.named_kids(n as int),
            t.wf(),
            n < t.nodes@.len(),
            is_table_of(*g, lang),
            forall|j: int| 0 <= j < kids@.len() ==> n < #[trigger] kids@[j] < t.nodes@.len(),
            starts_kids(*t, src@, lang, n as int, k as int, start_views(out@)) == starts_kids(
                *t,
                src@,
                lang,
                n as int,
                kids@.len() as int,
                acc1,
            ),
        decreases k,
    {
        k -= 1;
        starts_exec(t, g, src, lang, kids[k], out);
    }
}

/// Every function of the file with a name, and the row it starts on.
pub fn function_starts(t: &SyntaxTree, g: &LogicGrammar, src: &Vec<char>, lang: Lang) -> (v: Vec<(String, usize)>)
    requires
        t.wf(),
        is_table_of(*g, lang),
    ensures
        start_views(v@) == starts_visit(*t, src@, lang, 0, Seq::empty()),
{
    let mut v: Vec<(String, usize)> = Vec::new();
    assert(start_views(v@) =~= Seq::<(Seq<char>, usize)>::empty());
    starts_exec(t, g, src, lang, 0, &mut v);
    v
}

/// In document order from node `n`: the function nodes met, not looking
/// inside a function, after `acc`.
pub open spec fn fns_visit(t: SyntaxTree, kinds: Seq<&'static str>, n: int, acc: Seq<usize>) -> Seq<usize>
    decreases t.size() - n, t.named_kids(n).len() + 1,
{
    if !(0 <= n < t.size()) || !t.wf() {
        acc
    } else if names(kinds, t.kind_of(n)) {
        acc.push(n as usize)
    } else {
        fns_kids(t, kinds, n, 0, acc)
    }
}

/// The visit of node `n`'s named children from the `k`-th on.
pub open spec fn fns_kids(t: SyntaxTree, kinds: Seq<&'static str>, n: int, k: int, acc: Seq<usize>) -> Seq<usize>
    decreases t.size() - n, t.named_kids(n).len() - k,
{
    if k < 0 || !(0 <= n < t.size()) || !t.wf() || k >= t.named_kids(n).len() {
        acc
    } else {
        let c = t.named_kids(n)[k] as int;
        if n < c < t.size() {
            fns_kids(t, kinds, n, k + 1, fns_visit(t, kinds, c, acc))
        } else {
            acc
        }
    }
}

fn fns_exec(t: &SyntaxTree, kinds: &Vec<&'static str>, n: usize, out: &mut Vec<usize>)
    requires
        t.wf(),
        n < t.nodes@.len(),
        forall|j: int| 0 <= j < old(out)@.len() ==> #[trigger] old(out)@[j] < t.nodes@.len(),
    ensures
        final(out)@ == fns_visit(*t, kinds@, n as int, old(out)@),
        forall|j: int| 0 <= j < final(out)@.len() ==> #[trigger] final(out)@[j] < t.nodes@.len(),
    decreases t.nodes@.len() - n,
{
    if names_kind(kinds, t.nodes[n].kind.as_str()) {
        out.push(n);
        return;
    }
    let kids = t.named_children(n);
    proof {
        lemma_named_kids_after(*t, n as int);
    }
    let ghost acc0 = out@;
    let mut k: usize = 0;
    while k < kids.len()
        invariant
            k <= kids@.len(),
            kids@ == t.named_kids(n as int),
            t.wf(),
            n < t.nodes@.len(),
            !names(kinds@, t.kind_of(n as int)),
            forall|j: int| 0 <= j < kids@.len() ==> n < #[trigger] kids@[j] < t.nodes@.len(),
            forall|j: int| 0 <= j < out@.len() ==> #[trigger] out@[j] < t.nodes@.len(),
            fns_kids(*t, kinds@, n as int, k as int, out@) == fns_kids(*t, kinds@, n as int, 0, acc0),
        decreases kids@.len() - k,
    {
        fns_exec(t, kinds, kids[k], out);
        k += 1;
    }
}

/// A row of the outline for function node `f`: closed, at the top.
pub open spec fn outline_row(r: LogicRow, t: SyntaxTree, src: Seq<char>, lang: Lang, f: int) -> bool {
    &&& r.kind == LogicKind::Entry
    &&& r.label@ == fn_name_spec(t, src, name_field_of(lang)@, f)
    &&& r.start_row == t.nodes@[f].start_row
    &&& r.end_row == t.nodes@[f].end_row
    &&& r.depth == 0
    &&& r.expandable
    &&& !r.expanded
    &&& r.edge == EdgeLabel::Next
    &&& r.target_row is None
}

/// The functions of the file in document order, not looking inside one.
pub open spec fn outline_fns(t: SyntaxTree, lang: Lang) -> Seq<usize> {
    fns_kids(t, function_kinds(lang), 0, 0, Seq::empty())
}

/// `p` orders the functions `ids` by the row they start on, and on a tie by
/// document order.
pub open spec fn by_start(t: SyntaxTree, ids: Seq<usize>, p: Seq<int>) -> bool {
    &&& p.len() == ids.len()
    &&& forall|k: int| 0 <= k < p.len() ==> 0 <= #[trigger] p[k] < ids.len()
    &&& forall|a: int, b: int|
        0 <= a < b < p.len() ==> {
            let (x, y) = (#[trigger] p[a], #[trigger] p[b]);
            t.nodes@[ids[x] as int].start_row < t.nodes@[ids[y] as int].start_row || (t.nodes@[ids[x] as int].start_row
                == t.nodes@[ids[y] as int].start_row && x < y)
        }
}

/// Every function of the file, closed, in the order they start; nothing
/// below a function is built. `None` for a language without a table.
#[verifier::rlimit(40)]
pub fn outline(t: &SyntaxTree, src: &Vec<char>, lang: Lang) -> (r: Option<LogicTree>)
    requires
        t.wf(),
    ensures
        r is Some <==> has_table(lang),
        r matches Some(lt) ==> lt.rows@.len() == outline_fns(*t, lang).len(),
        r matches Some(lt) ==> exists|p: Seq<int>|
            by_start(*t, outline_fns(*t, lang), p) && forall|k: int|
                0 <= k < lt.rows@.len() ==> outline_row(
                    #[trigger] lt.rows@[k],
                    *t,
                    src@,
                    lang,
                    outline_fns(*t, lang)[p[k]] as int,
                ),
{
    let g = match grammar_for(lang) {
        Some(g) => g,
        None => return None,
    };
    let mut ids: Vec<usize> = Vec::new();
    let kids = t.named_children(0);
    proof {
        lemma_named_kids_after(*t, 0);
    }
    let mut k: usize = 0;
    while k < kids.len()
        invariant
            k <= kids@.len(),
            kids@ == t.named_kids(0),
            t.wf(),
            is_table_of(g, lang),
            forall|j: int| 0 <= j < kids@.len() ==> 0 < #[trigger] kids@[j] < t.nodes@.len(),
            forall|j: int| 0 <= j < ids@.len() ==> #[trigger] ids@[j] < t.nodes@.len(),
            fns_kids(*t, g.function@, 0, k as int, ids@) == fns_kids(*t, g.function@, 0, 0, Seq::empty()),
        decreases kids@.len() - k,
    {
        fns_exec(t, &g.function, kids[k], &mut ids);
        k += 1;
    }
    assert(ids@ == outline_fns(*t, lang));
    // Order by starting row, keeping document order on a tie.
    let mut order: Vec<usize> = Vec::new();
    let mut i: usize = 0;
    while i < ids.len()
        invariant
            i <= ids@.len(),
            forall|j: int| 0 <= j < ids@.len() ==> #[trigger] ids@[j] < t.nodes@.len(),
            order@.len() == i,
            forall|q: int| 0 <= q < order@.len() ==> #[trigger] order@[q] < i,
            forall|a: int, b: int|
                0 <= a < b < order@.len() ==> {
                    let (x, y) = (#[trigger] order@[a] as int, #[trigger] order@[b] as int);
                    t.nodes@[ids@[x] as int].start_row < t.nodes@[ids@[y] as int].start_row || (
                    t.nodes@[ids@[x] as int].start_row == t.nodes@[ids@[y] as int].start_row && x < y)
                },
        decreases ids@.len() - i,
    {
        let ri = t.nodes[ids[i]].start_row;
        let mut p: usize = 0;
        while p < order.len() && t.nodes[ids[order[p]]].start_row <= ri
            invariant
                p <= order@.len(),
                i < ids@.len(),
                ri == t.nodes@[ids@[i as int] as int].start_row,
                forall|j: int| 0 <= j < ids@.len() ==> #[trigger] ids@[j] < t.nodes@.len(),
                forall|q: int| 0 <= q < order@.len() ==> #[trigger] order@[q] < i,
                forall|q: int| 0 <= q < p ==> t.nodes@[ids@[#[trigger] order@[q] as int] as int].start_row <= ri,
            decreases order@.len() - p,
        {
            p += 1;
        }
        let ghost before = order@;
        proof {
            assert forall|q: int| p <= q < before.len() implies t.nodes@[ids@[#[trigger] before[q] as int] as int].start_row
                > ri by {
                if q > p {
                    let x = before[p as int] as int;
                    let y = before[q] as int;
                    assert(t.nodes@[ids@[x] as int].start_row < t.nodes@[ids@[y] as int].start_row || (
                    t.nodes@[ids@[x] as int].start_row == t.nodes@[ids@[y] as int].start_row && x < y));
                }
            }
        }
        order.insert(p, i);
        proof {
            assert forall|a: int, b: int| 0 <= a < b < order@.len() implies {
                let (x, y) = (#[trigger] order@[a] as int, #[trigger] order@[b] as int);
                t.nodes@[ids@[x] as int].start_row < t.nodes@[ids@[y] as int].start_row || (
                t.nodes@[ids@[x] as int].start_row == t.nodes@[ids@[y] as int].start_row && x < y)
            } by {
                if b < p {
                    assert(order@[a] == before[a] && order@[b] == before[b]);
                } else if b == p {
                    assert(order@[a] == before[a]);
                } else if a == p {
                    assert(order@[b] == before[b - 1]);
                } else if a < p {
                    assert(order@[a] == before[a] && order@[b] == before[b - 1]);
                } else {
                    assert(order@[a] == before[a - 1] && order@[b] == before[b - 1]);
                }
            }
        }
        i += 1;
    }
    let mut rows: Vec<LogicRow> = Vec::new();
    let mut q: usize = 0;
    while q < order.len()
        invariant
            q <= order@.len(),
            order@.len() == ids@.len(),
            t.wf(),
            is_table_of(g, lang),
            forall|j: int| 0 <= j < ids@.len() ==> #[trigger] ids@[j] < t.nodes@.len(),
            forall|j: int| 0 <= j < order@.len() ==> #[trigger] order@[j] < ids@.len(),
            rows@.len() == q,
            forall|k: int| 0 <= k < q ==> outline_row(#[trigger] rows@[k], *t, src@, lang, ids@[order@[k] as int] as int),
        decreases order@.len() - q,
    {
        let f = ids[order[q]];
        let label = function_label(t, &g, src, f);
        rows.push(LogicRow {
            kind: LogicKind::Entry,
            label,
            start_row: t.nodes[f].start_row,
            end_row: t.nodes[f].end_row,
            depth: 0,
            expandable: true,
            expanded: false,
            edge: EdgeLabel::Next,
            target_row: None,
        });
        q += 1;
    }
    let ghost p = Seq::new(order@.len(), |k: int| order@[k] as int);
    assert(by_start(*t, ids@, p));
    assert(forall|k: int| 0 <= k < rows@.len() ==> outline_row(#[trigger] rows@[k], *t, src@, lang, outline_fns(*t, lang)[p[k]] as int));
    Some(LogicTree { rows })
}

/// The row `index` of `rows` can be opened in `lang`: there is such a row,
/// it is closed and has something inside, and the function it names (the
/// one it calls, for a call) is found in the tree.
pub open spec fn can_expand(rows: Seq<LogicRow>, index: usize, t: SyntaxTree, lang: Lang) -> bool {
    &&& index < rows.len()
    &&& !rows[index as int].expanded
    &&& rows[index as int].expandable
    &&& has_table(lang)
    &&& fn_visit(
        t,
        function_kinds(lang),
        match rows[index as int].target_row {
            Some(r) => r,
            None => rows[index as int].start_row,
        },
        0,
        None,
    ) is Some
}

/// What opening row `index` leaves: the rows before it as they were, the
/// row marked open, the rows after it as they were, and between them the
/// new rows, each deeper than it, none an entry or open, and each openable
/// exactly when it names a target.
pub open spec fn opened_rows(old_rows: Seq<LogicRow>, rows: Seq<LogicRow>, index: usize) -> bool {
    let m = rows.len() - old_rows.len();
    &&& index < old_rows.len()
    &&& rows.len() >= old_rows.len()
    &&& rows.take(index as int) == old_rows.take(index as int)
    &&& rows[index as int] == (LogicRow { expanded: true, ..old_rows[index as int] })
    &&& rows.skip(index + 1 + m) == old_rows.skip(index + 1)
    &&& forall|k: int|
        index + 1 <= k < index + 1 + m ==> {
            let r = #[trigger] rows[k];
            &&& r.depth > old_rows[index as int].depth || r.depth == usize::MAX
            &&& r.kind != LogicKind::Entry
            &&& !r.expanded
            &&& r.expandable == (r.target_row is Some)
        }
}

proof fn lemma_subtree_end_over(old_rows: Seq<LogicRow>, rows: Seq<LogicRow>, index: usize, k: int)
    requires
        opened_rows(old_rows, rows, index),
        old_rows[index as int].depth < usize::MAX,
        index + 1 < old_rows.len() ==> old_rows[index + 1].depth <= old_rows[index as int].depth,
        index + 1 <= k <= index + 1 + (rows.len() - old_rows.len()),
    ensures
        subtree_end(rows, rows[index as int].depth, k) == index + 1 + (rows.len() - old_rows.len()),
    decreases rows.len() - k,
{
    let m = rows.len() - old_rows.len();
    let d = rows[index as int].depth;
    if k < index + 1 + m {
        assert(rows[k].depth > old_rows[index as int].depth || rows[k].depth == usize::MAX);
        lemma_subtree_end_over(old_rows, rows, index, k + 1);
    } else if k < rows.len() {
        assert(rows.skip(index + 1 + m)[0] == rows[k]);
        assert(old_rows.skip(index + 1)[0] == old_rows[index + 1]);
    }
}

/// Closing a row just opened gives back the rows as they were before it
/// was opened, when nothing was open under it and it is not at the
/// deepest level there is.
pub proof fn law_collapse_undoes_expand(old_rows: Seq<LogicRow>, rows: Seq<LogicRow>, index: usize)
    requires
        opened_rows(old_rows, rows, index),
        !old_rows[index as int].expanded,
        old_rows[index as int].depth < usize::MAX,
        index + 1 < old_rows.len() ==> old_rows[index + 1].depth <= old_rows[index as int].depth,
    ensures
        rows.take(index as int).push(LogicRow { expanded: false, ..rows[index as int] }) + rows.skip(
            subtree_end(rows, rows[index as int].depth, index + 1),
        ) == old_rows,
{
    lemma_subtree_end_over(old_rows, rows, index, index + 1);
    let m = rows.len() - old_rows.len();
    assert(LogicRow { expanded: false, ..rows[index as int] } == old_rows[index as int]);
    assert(old_rows.take(index as int).push(old_rows[index as int]) + old_rows.skip(index + 1) =~= old_rows);
}

/// Open the row at `index`: the steps of the function it names (the one it
/// calls, for a call) go in under it, one level deeper and each nested in
/// what holds it; a call to a function of this file can itself be opened.
/// False, with nothing changed, when there is nothing to open.
pub fn expand(t: &mut LogicTree, index: usize, tree: &SyntaxTree, src: &Vec<char>, lang: Lang) -> (done: bool)
    requires
        tree.wf(),
    ensures
        done == can_expand(old(t).rows@, index, *tree, lang),
        !done ==> final(t).rows@ == old(t).rows@,
        done ==> opened_rows(old(t).rows@, final(t).rows@, index),
{
    if index >= t.rows.len() {
        return false;
    }
    if t.rows[index].expanded || !t.rows[index].expandable {
        return false;
    }
    let g = match grammar_for(lang) {
        Some(g) => g,
        None => return false,
    };
    let at = match t.rows[index].target_row {
        Some(r) => r,
        None => t.rows[index].start_row,
    };
    let graph = match graph_at(tree, src, lang, at) {
        Some(gr) => gr,
        None => return false,
    };
    let depth = t.rows[index].depth;
    let base = depth.saturating_add(1);
    let functions = function_starts(tree, &g, src, lang);
    let mut open: Vec<usize> = Vec::new();
    let mut inserted: Vec<LogicRow> = Vec::new();
    let mut k: usize = 0;
    while k < graph.nodes.len()
        invariant
            k <= graph.nodes@.len(),
            base == depth.saturating_add(1),
            forall|q: int|
                0 <= q < inserted@.len() ==> {
                    let r = #[trigger] inserted@[q];
                    &&& r.depth > depth || r.depth == usize::MAX
                    &&& r.kind != LogicKind::Entry
                    &&& !r.expanded
                    &&& r.expandable == (r.target_row is Some)
                },
        decreases graph.nodes@.len() - k,
    {
        let n = &graph.nodes[k];
        if n.kind != LogicKind::Entry {
            while open.len() > 0 && n.start_row > open[open.len() - 1]
                invariant
                    n == graph.nodes@[k as int],
                decreases open@.len(),
            {
                open.pop();
            }
            let target = call_target(n.label.as_str(), functions.as_slice());
            let expandable = match target {
                Some(_) => true,
                None => false,
            };
            inserted.push(LogicRow {
                kind: n.kind,
                label: n.label.clone(),
                start_row: n.start_row,
                end_row: n.end_row,
                depth: base.saturating_add(open.len()),
                expandable,
                expanded: false,
                edge: incoming(&graph, n.id),
                target_row: target,
            });
            open.push(n.end_row);
        }
        k += 1;
    }
    let ghost rows0 = t.rows@;
    let mut tail = t.rows.split_off(index + 1);
    let mut r = t.rows.pop().unwrap();
    r.expanded = true;
    t.rows.push(r);
    let ghost ins = inserted@;
    t.rows.append(&mut inserted);
    t.rows.append(&mut tail);
    assert(t.rows@ =~= rows0.take(index as int).push(LogicRow { expanded: true, ..rows0[index as int] }) + ins
        + rows0.skip(index + 1));
    assert(t.rows@.take(index as int) =~= rows0.take(index as int));
    assert(t.rows@.skip(index + 1 + ins.len()) =~= rows0.skip(index + 1));
    assert forall|k: int| index + 1 <= k < index + 1 + ins.len() implies {
        let r = #[trigger] t.rows@[k];
        &&& r.depth > rows0[index as int].depth || r.depth == usize::MAX
        &&& r.kind != LogicKind::Entry
        &&& !r.expanded
        &&& r.expandable == (r.target_row is Some)
    } by {
        assert(t.rows@[k] == ins[k - index - 1]);
    }
    true
}
/// A character an identifier can hold: an ASCII letter, digit or
/// underscore, or any character outside ASCII.
pub open spec fn identifier_part(c: char) -> bool {
    c == '_' || ('0' <= c && c <= '9') || ('a' <= c && c <= 'z') || ('A' <= c && c <= 'Z') || (c as u32) >= 0x80
}

proof fn lemma_word_from_alone(t: Seq<char>, w: Seq<char>, from: int)
    requires
        word_from(t, w, from),
    ensures
        exists|s: int| from <= s && occurs_at(t, w, s) && #[trigger] stands_alone(t, s, s + w.len()),
    decreases t.len() - from,
{
    lemma_find_from_bounds(t, w, from);
    let s = find_from(t, w, from)->0;
    let e = s + w.len();
    if stands_alone(t, s, e) {
        assert(from <= s && occurs_at(t, w, s) && stands_alone(t, s, s + w.len()));
    } else {
        lemma_word_from_alone(t, w, e);
    }
}

/// `text` does not name `word` when every place `word` occurs in it touches
/// an ASCII letter, digit or underscore, or a character outside ASCII, on
/// one side: `x` is not named by `x1`, `_x`, `ax` or `xé`.
pub proof fn law_touching_identifier_is_not_the_word(t: Seq<char>, w: Seq<char>)
    requires
        forall|s: int| #[trigger] occurs_at(t, w, s) ==> (s > 0 && identifier_part(t[s - 1])) || (s + w.len() < t.len()
            && identifier_part(t[s + w.len()])),
    ensures
        !word_from(t, w, 0),
{
    if word_from(t, w, 0) {
        lemma_word_from_alone(t, w, 0);
        let s = choose|s: int| 0 <= s && occurs_at(t, w, s) && #[trigger] stands_alone(t, s, s + w.len());
        assert(occurs_at(t, w, s));
    }
}

} // verus!
