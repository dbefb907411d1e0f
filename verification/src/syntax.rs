//! A parsed syntax tree as plain values: what the logic and scope walks read
//! of a parse.
//!
//! Nodes are numbered in pre-order, the root first, so every child has a
//! larger number than its parent; ranges are character offsets into the
//! source the tree was parsed from.

use vstd::prelude::*;
use crate::text::str_eq;

verus! {

/// One node of the tree.
#[derive(Debug, Clone)]
pub struct SyntaxNode {
    /// The grammar's name for the node.
    pub kind: String,
    /// A named node, as opposed to punctuation or a keyword.
    pub named: bool,
    /// A node the parser could not make sense of.
    pub is_error: bool,
    /// First character of the node's text.
    pub start: usize,
    /// One past its last character.
    pub end: usize,
    pub start_row: usize,
    pub end_row: usize,
    /// The children, in order, by number.
    pub children: Vec<usize>,
    /// Children reachable by a field name of the grammar, in order.
    pub fields: Vec<(String, usize)>,
    /// The parent's number; `None` for the root.
    pub parent: Option<usize>,
}

/// A parse: its nodes, the root first.
#[derive(Debug, Clone)]
pub struct SyntaxTree {
    pub nodes: Vec<SyntaxNode>,
}

impl SyntaxTree {
    /// Every child comes after its parent and names it as its parent, every
    /// parent comes before its child, and every field names a later node.
    pub open spec fn wf(&self) -> bool {
        &&& self.nodes@.len() > 0
        &&& forall|i: int| 0 <= i < self.nodes@.len() ==> ((#[trigger] self.nodes@[i]).parent matches Some(p) ==> p < i)
        &&& forall|i: int, k: int|
            0 <= i < self.nodes@.len() && 0 <= k < self.nodes@[i].children@.len() ==> self.nodes@[
                self.nodes@[i].children@[k] as int
            ].parent == Some(i as usize)
        &&& forall|i: int, k: int|
            0 <= i < self.nodes@.len() && 0 <= k < self.nodes@[i].children@.len() ==> i
                < #[trigger] self.nodes@[i].children@[k] < self.nodes@.len()
        &&& forall|i: int, k: int|
            0 <= i < self.nodes@.len() && 0 <= k < self.nodes@[i].fields@.len() ==> i
                < #[trigger] self.nodes@[i].fields@[k].1 < self.nodes@.len()
    }

    /// Whether the tree is well formed: what the walks over it rely on.
    pub fn check(&self) -> (b: bool)
        ensures
            b == self.wf(),
    {
        let n = self.nodes.len();
        if n == 0 {
            return false;
        }
        let mut i: usize = 0;
        while i < n
            invariant
                n == self.nodes@.len(),
                i <= n,
                forall|j: int| 0 <= j < i ==> ((#[trigger] self.nodes@[j]).parent matches Some(p) ==> p < j),
                forall|j: int, k: int|
                    0 <= j < i && 0 <= k < self.nodes@[j].children@.len() ==> j < #[trigger] self.nodes@[j].children@[k] < n,
                forall|j: int, k: int|
                    0 <= j < i && 0 <= k < self.nodes@[j].children@.len() ==> self.nodes@[
                        self.nodes@[j].children@[k] as int
                    ].parent == Some(j as usize),
                forall|j: int, k: int|
                    0 <= j < i && 0 <= k < self.nodes@[j].fields@.len() ==> j < #[trigger] self.nodes@[j].fields@[k].1 < n,
            decreases n - i,
        {
            let node = &self.nodes[i];
            match node.parent {
                Some(p) => {
                    if p >= i {
                        return false;
                    }
                },
                None => {},
            }
            let mut k: usize = 0;
            while k < node.children.len()
                invariant
                    n == self.nodes@.len(),
                    i < n,
                    *node == self.nodes@[i as int],
                    k <= node.children@.len(),
                    forall|m: int| 0 <= m < k ==> i < #[trigger] node.children@[m] < n,
                    forall|m: int| 0 <= m < k ==> self.nodes@[node.children@[m] as int].parent == Some(i),
                decreases node.children@.len() - k,
            {
                let c = node.children[k];
                if c <= i || c >= n {
                    return false;
                }
                if self.nodes[c].parent != Some(i) {
                    return false;
                }
                k += 1;
            }
            let mut f: usize = 0;
            while f < node.fields.len()
                invariant
                    n == self.nodes@.len(),
                    i < n,
                    *node == self.nodes@[i as int],
                    f <= node.fields@.len(),
                    forall|m: int| 0 <= m < f ==> i < #[trigger] node.fields@[m].1 < n,
                decreases node.fields@.len() - f,
            {
                let c = node.fields[f].1;
                if c <= i || c >= n {
                    return false;
                }
                f += 1;
            }
            i += 1;
        }
        true
    }

    /// The number of nodes.
    pub open spec fn size(&self) -> int {
        self.nodes@.len() as int
    }

    /// The kind of node `i`.
    pub open spec fn kind_of(&self, i: int) -> Seq<char> {
        self.nodes@[i].kind@
    }

    /// The named children of node `i`, in order.
    pub open spec fn named_kids(&self, i: int) -> Seq<usize> {
        self.nodes@[i].children@.filter(|c: usize| self.nodes@[c as int].named)
    }

    /// The first child of node `i` under field `name`.
    pub open spec fn field_child(&self, i: int, name: Seq<char>) -> Option<usize> {
        first_field(self.nodes@[i].fields@, name, 0)
    }

    /// The named children of node `i`.
    pub fn named_children(&self, i: usize) -> (v: Vec<usize>)
        requires
            i < self.nodes@.len(),
            self.wf(),
        ensures
            v@ == self.named_kids(i as int),
            forall|k: int| 0 <= k < v@.len() ==> i < #[trigger] v@[k] < self.nodes@.len(),
    {
        let n = &self.nodes[i];
        let ghost kids = n.children@;
        let mut v: Vec<usize> = Vec::new();
        let mut k: usize = 0;
        while k < n.children.len()
            invariant
                k <= kids.len(),
                kids == self.nodes@[i as int].children@,
                n == self.nodes@[i as int],
                self.wf(),
                i < self.nodes@.len(),
                v@ == kids.take(k as int).filter(|c: usize| self.nodes@[c as int].named),
                forall|j: int| 0 <= j < v@.len() ==> i < #[trigger] v@[j] < self.nodes@.len(),
            decreases kids.len() - k,
        {
            let c = n.children[k];
            assert(kids.take(k + 1).drop_last() =~= kids.take(k as int));
            proof {
                kids.take(k as int).lemma_filter_push(c, |c: usize| self.nodes@[c as int].named);
                assert(kids.take(k + 1) =~= kids.take(k as int).push(c));
            }
            if self.nodes[c].named {
                v.push(c);
            }
            k += 1;
        }
        assert(kids.take(kids.len() as int) =~= kids);
        v
    }

    /// The first child of node `i` under field `name`.
    pub fn child_by_field(&self, i: usize, name: &str) -> (r: Option<usize>)
        requires
            i < self.nodes@.len(),
            self.wf(),
        ensures
            r == self.field_child(i as int, name@),
            match r {
                Some(c) => i < c < self.nodes@.len(),
                None => true,
            },
    {
        let n = &self.nodes[i];
        let mut k: usize = 0;
        while k < n.fields.len()
            invariant
                k <= n.fields@.len(),
                i < self.nodes@.len(),
                self.wf(),
                n == self.nodes@[i as int],
                first_field(n.fields@, name@, k as int) == first_field(n.fields@, name@, 0),
            decreases n.fields@.len() - k,
        {
            if str_eq(n.fields[k].0.as_str(), name) {
                return Some(n.fields[k].1);
            }
            k += 1;
        }
        None
    }
}

/// The text of node `i` in `src`, when its range lies inside it.
pub open spec fn text_at(t: SyntaxTree, src: Seq<char>, i: int) -> Option<Seq<char>> {
    let n = t.nodes@[i];
    if n.start <= n.end <= src.len() { Some(src.subrange(n.start as int, n.end as int)) } else { None }
}

/// The text of node `i`.
pub fn node_text(t: &SyntaxTree, src: &Vec<char>, i: usize) -> (r: Option<Vec<char>>)
    requires
        i < t.nodes@.len(),
    ensures
        match r {
            Some(v) => text_at(*t, src@, i as int) == Some(v@),
            None => text_at(*t, src@, i as int) is None,
        },
{
    let n = &t.nodes[i];
    if n.start <= n.end && n.end <= src.len() {
        Some(crate::text::slice_vec(src.as_slice(), n.start, n.end))
    } else {
        None
    }
}

/// The child under the first field named `name` from entry `k` on.
pub open spec fn first_field(fields: Seq<(String, usize)>, name: Seq<char>, k: int) -> Option<usize>
    decreases fields.len() - k,
{
    if k < 0 || k >= fields.len() {
        None
    } else if fields[k].0@ == name {
        Some(fields[k].1)
    } else {
        first_field(fields, name, k + 1)
    }
}

/// `kinds` names `kind`.
pub open spec fn names(kinds: Seq<&'static str>, kind: Seq<char>) -> bool {
    exists|j: int| 0 <= j < kinds.len() && (#[trigger] kinds[j])@ == kind
}

/// Whether `kinds` names `kind`.
pub fn names_kind(kinds: &Vec<&'static str>, kind: &str) -> (b: bool)
    ensures
        b == names(kinds@, kind@),
{
    let mut k: usize = 0;
    while k < kinds.len()
        invariant
            k <= kinds@.len(),
            forall|j: int| 0 <= j < k ==> (#[trigger] kinds@[j])@ != kind@,
        decreases kinds@.len() - k,
    {
        if str_eq(kinds[k], kind) {
            return true;
        }
        k += 1;
    }
    false
}

} // verus!
