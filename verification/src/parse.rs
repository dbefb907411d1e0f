//! Parsing a file's text with its language's tree-sitter grammar into the
//! library's plain syntax tree: the nodes numbered in pre-order, their
//! ranges in characters.

use vstd::prelude::*;
use tree_sitter::{Language, Node, Parser, Tree, TreeCursor};
use crate::grammar::{language_of, linked};
use crate::lang::Lang;
use crate::logic_view::Parse;
use crate::syntax::{SyntaxNode, SyntaxTree};
use crate::text::chars_of;

verus! {

/// A tree-sitter parser.
#[verifier::external_type_specification]
#[verifier::external_body]
pub struct ExParser(Parser);

/// A tree-sitter parse tree.
#[verifier::external_type_specification]
#[verifier::external_body]
pub struct ExTree(Tree);

/// A walk over a tree-sitter tree.
#[verifier::external_type_specification]
#[verifier::external_body]
pub struct ExTreeCursor<'a>(TreeCursor<'a>);

/// A node of a tree-sitter tree.
#[verifier::external_type_specification]
#[verifier::external_body]
pub struct ExNode<'a>(Node<'a>);

/// `Parser::new`: a parser with no language yet.
#[verifier::external_body]
fn new_parser() -> Parser {
    Parser::new()
}

/// `Parser::set_language`: whether the parser took the grammar (it refuses
/// one built for another version of tree-sitter).
#[verifier::external_body]
fn set_language(p: &mut Parser, l: &Language) -> bool {
    p.set_language(l).is_ok()
}

/// `Parser::parse` with no earlier tree: the parse, or nothing when the
/// parser has no language.
#[verifier::external_body]
fn parse_with(p: &mut Parser, text: &str) -> Option<Tree> {
    p.parse(text, None)
}

/// `Tree::root_node`.
#[verifier::external_body]
fn tree_root<'a>(t: &'a Tree) -> Node<'a> {
    t.root_node()
}

/// `Tree::walk`: a cursor on the root.
#[verifier::external_body]
fn tree_walk<'a>(t: &'a Tree) -> TreeCursor<'a> {
    t.walk()
}

/// `Node::descendant_count`: the node and everything below it.
#[verifier::external_body]
fn descendants(n: &Node) -> usize {
    n.descendant_count()
}

/// `TreeCursor::node`.
#[verifier::external_body]
fn cursor_node<'a>(c: &TreeCursor<'a>) -> Node<'a> {
    c.node()
}

/// `TreeCursor::field_name`: the field of the parent the node fills.
#[verifier::external_body]
fn cursor_field(c: &TreeCursor) -> Option<String> {
    c.field_name().map(String::from)
}

/// `TreeCursor::goto_first_child`: whether there was a child to go to.
#[verifier::external_body]
fn goto_first_child(c: &mut TreeCursor) -> bool {
    c.goto_first_child()
}

/// `TreeCursor::goto_next_sibling`: whether there was a sibling to go to.
#[verifier::external_body]
fn goto_next_sibling(c: &mut TreeCursor) -> bool {
    c.goto_next_sibling()
}

/// `TreeCursor::goto_parent`: whether there was a parent to go to.
#[verifier::external_body]
fn goto_parent(c: &mut TreeCursor) -> bool {
    c.goto_parent()
}

/// `Node::kind`.
#[verifier::external_body]
fn node_kind(n: &Node) -> String {
    String::from(n.kind())
}

/// `Node::is_named`.
#[verifier::external_body]
fn node_named(n: &Node) -> bool {
    n.is_named()
}

/// `Node::is_error`.
#[verifier::external_body]
fn node_error(n: &Node) -> bool {
    n.is_error()
}

/// `Node::start_byte`.
#[verifier::external_body]
fn node_start_byte(n: &Node) -> usize {
    n.start_byte()
}

/// `Node::end_byte`.
#[verifier::external_body]
fn node_end_byte(n: &Node) -> usize {
    n.end_byte()
}

/// The row of `Node::start_position`.
#[verifier::external_body]
fn node_start_row(n: &Node) -> usize {
    n.start_position().row
}

/// The row of `Node::end_position`.
#[verifier::external_body]
fn node_end_row(n: &Node) -> usize {
    n.end_position().row
}

/// How many bytes UTF-8 gives `c`.
pub open spec fn utf8_len(c: char) -> nat {
    let u = c as u32;
    if u < 0x80 { 1 } else if u < 0x800 { 2 } else if u < 0x10000 { 3 } else { 4 }
}

/// The character index of every byte of `s` in UTF-8, and of its end.
pub open spec fn char_index_spec(s: Seq<char>) -> Seq<usize>
    decreases s.len(),
{
    if s.len() == 0 {
        seq![0usize]
    } else {
        let rest = char_index_spec(s.drop_last());
        let n = (s.len() - 1) as usize;
        rest.drop_last() + Seq::new(utf8_len(s.last()), |i: int| n) + seq![s.len() as usize]
    }
}


proof fn lemma_char_index_bound(s: Seq<char>)
    requires
        s.len() <= usize::MAX,
    ensures
        char_index_spec(s).len() > 0,
        forall|i: int| 0 <= i < char_index_spec(s).len() ==> #[trigger] char_index_spec(s)[i] <= s.len(),
    decreases s.len(),
{
    if s.len() > 0 {
        lemma_char_index_bound(s.drop_last());
        let rest = char_index_spec(s.drop_last());
        let n = (s.len() - 1) as usize;
        let whole = rest.drop_last() + Seq::new(utf8_len(s.last()), |i: int| n) + seq![s.len() as usize];
        assert forall|i: int| 0 <= i < whole.len() implies #[trigger] whole[i] <= s.len() by {
            if i < rest.len() - 1 {
                assert(whole[i] == rest[i]);
            } else if i < rest.len() - 1 + utf8_len(s.last()) {
                assert(whole[i] == n);
            }
        }
    }
}

fn utf8_len_exec(c: char) -> (n: usize)
    ensures
        n == utf8_len(c),
{
    let u = c as u32;
    if u < 0x80 { 1 } else if u < 0x800 { 2 } else if u < 0x10000 { 3 } else { 4 }
}

/// The character index of every byte offset of `text`, and of its end.
pub fn char_index(text: &str) -> (at: Vec<usize>)
    ensures
        at@ == char_index_spec(text@),
        text@.len() <= usize::MAX,
{
    let cs = chars_of(text);
    assert(cs@.len() == cs.len());
    let mut at: Vec<usize> = Vec::new();
    at.push(0);
    let mut k: usize = 0;
    while k < cs.len()
        invariant
            k <= cs@.len(),
            cs@ == text@,
            at@ == char_index_spec(text@.take(k as int)),
        decreases cs.len() - k,
    {
        let ghost before = at@;
        let l = utf8_len_exec(cs[k]);
        at.pop();
        let mut j: usize = 0;
        while j < l
            invariant
                j <= l,
                l == utf8_len(cs@[k as int]),
                k < cs@.len(),
                before.len() > 0,
                at@ == before.drop_last() + Seq::new(j as nat, |i: int| k),
            decreases l - j,
        {
            at.push(k);
            j = j + 1;
            assert(at@ =~= before.drop_last() + Seq::new(j as nat, |i: int| k));
        }
        at.push(k + 1);
        proof {
            let t = text@.take(k as int + 1);
            assert(t.drop_last() =~= text@.take(k as int));
            assert(t.last() == cs@[k as int]);
            assert(at@ =~= char_index_spec(t));
        }
        k = k + 1;
    }
    proof {
        assert(text@.take(cs@.len() as int) =~= text@);
    }
    at
}

/// The character index of byte `b`, clamped to the text's end.
fn char_at(at: &Vec<usize>, b: usize) -> (r: usize)
    ensures
        r == (if at@.len() == 0 { 0 } else if b < at@.len() { at@[b as int] } else { at@.last() }),
{
    if at.len() == 0 {
        0
    } else if b < at.len() {
        at[b]
    } else {
        at[at.len() - 1]
    }
}

/// `tree`, parsed from `text`, as the library's syntax tree: a node for
/// each node of the walk in pre-order, each naming its parent, its children
/// and the fields they fill, its range turned from bytes into characters.
pub fn syntax_tree(tree: &Tree, text: &str) -> (t: SyntaxTree)
    ensures
        forall|i: int| 0 <= i < t.nodes@.len() ==> (#[trigger] t.nodes@[i]).start <= text@.len() && t.nodes@[i].end <= text@.len(),
{
    let at = char_index(text);
    proof {
        lemma_char_index_bound(text@);
    }
    let total = descendants(&tree_root(tree));
    let mut nodes: Vec<SyntaxNode> = Vec::new();
    let mut stack: Vec<usize> = Vec::new();
    let mut cursor = tree_walk(tree);
    let mut step: usize = 0;
    while step < total
        invariant
            forall|j: int| 0 <= j < stack@.len() ==> stack@[j] < nodes@.len(),
            at@ == char_index_spec(text@),
            at@.len() > 0,
            forall|i: int| 0 <= i < at@.len() ==> #[trigger] at@[i] <= text@.len(),
            forall|i: int| 0 <= i < nodes@.len() ==> (#[trigger] nodes@[i]).start <= text@.len() && nodes@[i].end <= text@.len(),
        decreases total - step,
    {
        let node = cursor_node(&cursor);
        let id = nodes.len();
        let parent = if stack.len() > 0 { Some(stack[stack.len() - 1]) } else { None };
        let field = cursor_field(&cursor);
        nodes.push(SyntaxNode {
            kind: node_kind(&node),
            named: node_named(&node),
            is_error: node_error(&node),
            start: char_at(&at, node_start_byte(&node)),
            end: char_at(&at, node_end_byte(&node)),
            start_row: node_start_row(&node),
            end_row: node_end_row(&node),
            children: Vec::new(),
            fields: Vec::new(),
            parent,
        });
        if let Some(p) = parent {
            nodes[p].children.push(id);
            if let Some(f) = field {
                nodes[p].fields.push((f, id));
            }
        }
        step = step + 1;
        let ghost s0 = step;
        if goto_first_child(&mut cursor) {
            stack.push(id);
        } else {
            loop
                invariant
                    forall|j: int| 0 <= j < stack@.len() ==> stack@[j] < nodes@.len(),
                    forall|i: int| 0 <= i < nodes@.len() ==> (#[trigger] nodes@[i]).start <= text@.len() && nodes@[i].end <= text@.len(),
                    s0 <= step <= total,
                decreases stack@.len(),
            {
                if goto_next_sibling(&mut cursor) {
                    break;
                }
                if stack.len() == 0 || !goto_parent(&mut cursor) {
                    step = total;
                    break;
                }
                stack.pop();
            }
        }
    }
    SyntaxTree { nodes }
}

/// The parse of `text` in `lang`: no grammar when there is no language or
/// its grammar is not built in, a failure when the grammar does not take or
/// the parse does not hold together, else the tree, well formed.
pub fn parse_text(lang: Option<Lang>, text: &str) -> (p: Parse)
    ensures
        lang is None ==> p is NoGrammar,
        lang matches Some(l) ==> (p is NoGrammar <==> !linked(l)),
        p matches Parse::Tree(t) ==> t.wf(),
        p matches Parse::Tree(t) ==> forall|i: int| 0 <= i < t.nodes@.len() ==> (#[trigger] t.nodes@[i]).start <= text@.len() && t.nodes@[i].end <= text@.len(),
{
    let l = match lang {
        Some(l) => l,
        None => return Parse::NoGrammar,
    };
    let language = match language_of(l) {
        Some(g) => g,
        None => return Parse::NoGrammar,
    };
    let mut parser = new_parser();
    if !set_language(&mut parser, &language) {
        return Parse::Failed;
    }
    match parse_with(&mut parser, text) {
        Some(tree) => {
            let t = syntax_tree(&tree, text);
            if t.check() {
                Parse::Tree(t)
            } else {
                Parse::Failed
            }
        },
        None => Parse::Failed,
    }
}

} // verus!
