//! The GUI selection model.
//!
//! A selection is exclusive: its head sits *between* characters, so a caret
//! is simply an empty selection (`anchor == head`), Shift+Arrow extends by
//! moving the head while the anchor stays, and typing replaces exactly
//! `[start, end)`. Several selections live in one [`SelectionSet`], which
//! keeps them sorted by start with no two touching, and always holds at
//! least one — a document always has a caret.

use vstd::prelude::*;
use crate::position::{Position, pos_le, pos_lt, pos_min, pos_max};

verus! {

/// One selection; a caret when `anchor == head`.
#[derive(Clone, Copy, Debug, PartialEq, Eq, Structural)]
pub struct Selection {
    /// The fixed end, where the selection began.
    pub anchor: Position,
    /// The moving end, where the caret is drawn.
    pub head: Position,
    /// The column vertical motion aims for, kept across short lines.
    pub goal_x: Option<usize>,
}

/// A caret at `p`.
pub open spec fn caret_at(p: Position) -> Selection {
    Selection { anchor: p, head: p, goal_x: None }
}

/// A selection from `a` to `b` with no goal column.
pub open spec fn span(a: Position, b: Position) -> Selection {
    Selection { anchor: a, head: b, goal_x: None }
}

pub open spec fn sel_start(s: Selection) -> Position {
    pos_min(s.anchor, s.head)
}

pub open spec fn sel_end(s: Selection) -> Position {
    pos_max(s.anchor, s.head)
}

/// Two spans touch or overlap; sharing an endpoint counts.
pub open spec fn sel_overlaps(a: Selection, b: Selection) -> bool {
    pos_le(sel_start(a), sel_end(b)) && pos_le(sel_start(b), sel_end(a))
}

/// Exclusive containment: `start <= pos < end`.
pub open spec fn sel_contains(s: Selection, pos: Position) -> bool {
    pos_le(sel_start(s), pos) && pos_lt(pos, sel_end(s))
}

impl Selection {
    /// An empty selection at `pos`.
    pub fn caret(pos: Position) -> (s: Selection)
        ensures
            s == (Selection { anchor: pos, head: pos, goal_x: None }),
    {
        Selection { anchor: pos, head: pos, goal_x: None }
    }

    /// A selection from `anchor` to `head`, in either document order.
    pub fn new(anchor: Position, head: Position) -> (s: Selection)
        ensures
            s == (Selection { anchor, head, goal_x: None }),
    {
        Selection { anchor, head, goal_x: None }
    }

    /// True for a caret.
    pub fn is_empty(&self) -> (b: bool)
        ensures
            b == (self.anchor == self.head),
    {
        self.anchor.same(&self.head)
    }

    /// The span in document order, half-open.
    pub fn range(&self) -> (r: (Position, Position))
        ensures
            r == (sel_start(*self), sel_end(*self)),
    {
        if self.anchor.le(&self.head) {
            (self.anchor, self.head)
        } else {
            (self.head, self.anchor)
        }
    }

    /// The earlier of anchor and head.
    pub fn start(&self) -> (p: Position)
        ensures
            p == sel_start(*self),
    {
        self.range().0
    }

    /// The later of anchor and head.
    pub fn end(&self) -> (p: Position)
        ensures
            p == sel_end(*self),
    {
        self.range().1
    }

    /// Exclusive containment: a caret contains nothing, and `end` is never
    /// inside.
    pub fn contains(&self, pos: Position) -> (b: bool)
        ensures
            b == sel_contains(*self, pos),
    {
        let (s, e) = self.range();
        s.le(&pos) && pos.lt(&e)
    }

    /// A caret at the head; the goal column is kept.
    pub fn collapsed_to_head(&self) -> (s: Selection)
        ensures
            s == (Selection { anchor: self.head, head: self.head, goal_x: self.goal_x }),
    {
        Selection { anchor: self.head, head: self.head, goal_x: self.goal_x }
    }

    /// A caret at the document-start edge.
    pub fn collapsed_to_start(&self) -> (s: Selection)
        ensures
            s == (Selection { anchor: sel_start(*self), head: sel_start(*self), goal_x: None }),
    {
        let s = self.start();
        Selection { anchor: s, head: s, goal_x: None }
    }

    /// A caret at the document-end edge.
    pub fn collapsed_to_end(&self) -> (s: Selection)
        ensures
            s == (Selection { anchor: sel_end(*self), head: sel_end(*self), goal_x: None }),
    {
        let e = self.end();
        Selection { anchor: e, head: e, goal_x: None }
    }

    /// Move the head to `pos`, keeping the anchor.
    pub fn extended_to(&self, pos: Position) -> (s: Selection)
        ensures
            s == (Selection { anchor: self.anchor, head: pos, goal_x: None }),
    {
        Selection { anchor: self.anchor, head: pos, goal_x: None }
    }

    /// Same anchor and head, whatever the goal column.
    pub fn same_span(&self, other: &Self) -> (b: bool)
        ensures
            b == (self.anchor == other.anchor && self.head == other.head),
    {
        self.anchor.same(&other.anchor) && self.head.same(&other.head)
    }

    /// Do the spans touch or overlap?
    pub fn overlaps(&self, other: &Self) -> (b: bool)
        ensures
            b == sel_overlaps(*self, *other),
    {
        let (a0, a1) = self.range();
        let (b0, b1) = other.range();
        a0.le(&b1) && b0.le(&a1)
    }
}

// ── Normalisation: sort by start, merge what touches, find the primary ────

/// Insert `x` after every element whose start does not come after its own —
/// one step of a stable sort by start.
pub open spec fn ins(s: Seq<Selection>, x: Selection) -> Seq<Selection>
    decreases s.len(),
{
    if s.len() == 0 || pos_le(sel_start(s.last()), sel_start(x)) {
        s.push(x)
    } else {
        ins(s.drop_last(), x).push(s.last())
    }
}

/// `s` stably sorted by start.
pub open spec fn sort_by_start(s: Seq<Selection>) -> Seq<Selection>
    decreases s.len(),
{
    if s.len() == 0 {
        s
    } else {
        ins(sort_by_start(s.drop_last()), s.last())
    }
}

/// Walk sorted selections, folding each one that touches the previous
/// result into it: the union runs from the earlier start to the later end,
/// with the absorbed selection's goal column.
pub open spec fn merge(s: Seq<Selection>) -> Seq<Selection>
    decreases s.len(),
{
    if s.len() == 0 {
        s
    } else {
        let m = merge(s.drop_last());
        let x = s.last();
        if m.len() > 0 && sel_overlaps(m.last(), x) {
            let prev = m.last();
            m.drop_last().push(
                Selection {
                    anchor: pos_min(sel_start(prev), sel_start(x)),
                    head: pos_max(sel_end(prev), sel_end(x)),
                    goal_x: x.goal_x,
                },
            )
        } else {
            m.push(x)
        }
    }
}

/// The first selection whose head is `h` or that contains `h`.
pub open spec fn locate(s: Seq<Selection>, h: Position, i: int) -> int
    decreases s.len() - i,
{
    if i >= s.len() {
        0
    } else if s[i].head == h || sel_contains(s[i], h) {
        i
    } else {
        locate(s, h, i + 1)
    }
}

/// What normalising selections `s` with primary `p` produces.
pub open spec fn normalised(s: Seq<Selection>, p: int) -> (Seq<Selection>, int) {
    let m = merge(sort_by_start(s));
    (m, locate(m, s[p].head, 0))
}

/// Sorted by start, and each selection ends strictly before the next starts.
pub open spec fn disjoint_sorted(s: Seq<Selection>) -> bool {
    forall|i: int, j: int|
        0 <= i < j < s.len() ==> pos_lt(#[trigger] sel_end(s[i]), #[trigger] sel_start(s[j]))
}

pub open spec fn sorted_by_start(s: Seq<Selection>) -> bool {
    forall|i: int, j: int|
        0 <= i < j < s.len() ==> pos_le(#[trigger] sel_start(s[i]), #[trigger] sel_start(s[j]))
}

proof fn lemma_start_le_end(s: Selection)
    ensures
        pos_le(sel_start(s), sel_end(s)),
{
}

proof fn lemma_push_contains(s: Seq<Selection>, x: Selection, e: Selection)
    ensures
        s.push(x).contains(e) <==> (s.contains(e) || e == x),
{
    if s.push(x).contains(e) {
        let k = choose|k: int| 0 <= k < s.push(x).len() && s.push(x)[k] == e;
        if k < s.len() {
            assert(s[k] == e);
        }
    }
    if s.contains(e) {
        let k = choose|k: int| 0 <= k < s.len() && s[k] == e;
        assert(s.push(x)[k] == e);
    }
    if e == x {
        assert(s.push(x)[s.len() as int] == e);
    }
}

proof fn lemma_drop_last_contains(s: Seq<Selection>, e: Selection)
    requires
        s.len() > 0,
    ensures
        s.contains(e) <==> (s.drop_last().contains(e) || e == s.last()),
{
    assert(s =~= s.drop_last().push(s.last()));
    lemma_push_contains(s.drop_last(), s.last(), e);
}

proof fn lemma_ins_sorted(s: Seq<Selection>, x: Selection)
    requires
        sorted_by_start(s),
    ensures
        sorted_by_start(ins(s, x)),
        ins(s, x).len() == s.len() + 1,
        forall|e: Selection| ins(s, x).contains(e) <==> (s.contains(e) || e == x),
    decreases s.len(),
{
    if s.len() == 0 || pos_le(sel_start(s.last()), sel_start(x)) {
        assert forall|e: Selection| ins(s, x).contains(e) <==> (s.contains(e) || e == x) by {
            lemma_push_contains(s, x, e);
        }
        assert forall|i: int, j: int| 0 <= i < j < s.len() + 1 implies pos_le(
            #[trigger] sel_start(s.push(x)[i]),
            #[trigger] sel_start(s.push(x)[j]),
        ) by {
            if j == s.len() && i < s.len() - 1 {
                assert(pos_le(sel_start(s[i]), sel_start(s[s.len() - 1])));
            }
        }
    } else {
        let d = s.drop_last();
        assert(sorted_by_start(d)) by {
            assert forall|i: int, j: int| 0 <= i < j < d.len() implies pos_le(
                #[trigger] sel_start(d[i]),
                #[trigger] sel_start(d[j]),
            ) by {
                assert(d[i] == s[i] && d[j] == s[j]);
            }
        }
        lemma_ins_sorted(d, x);
        let r = ins(d, x);
        let l = s.last();
        assert forall|i: int, j: int| 0 <= i < j < r.len() + 1 implies pos_le(
            #[trigger] sel_start(r.push(l)[i]),
            #[trigger] sel_start(r.push(l)[j]),
        ) by {
            if j == r.len() {
                let e = r[i];
                assert(r.contains(e));
                if e != x {
                    assert(d.contains(e));
                    let k = choose|k: int| 0 <= k < d.len() && d[k] == e;
                    assert(pos_le(sel_start(s[k]), sel_start(s[s.len() - 1])));
                }
            }
        }
        assert forall|e: Selection| ins(s, x).contains(e) <==> (s.contains(e) || e == x) by {
            lemma_push_contains(r, l, e);
            lemma_drop_last_contains(s, e);
        }
    }
}

proof fn lemma_sort_sorted(s: Seq<Selection>)
    ensures
        sorted_by_start(sort_by_start(s)),
        sort_by_start(s).len() == s.len(),
        forall|e: Selection| sort_by_start(s).contains(e) <==> s.contains(e),
    decreases s.len(),
{
    if s.len() > 0 {
        lemma_sort_sorted(s.drop_last());
        lemma_ins_sorted(sort_by_start(s.drop_last()), s.last());
        assert forall|e: Selection| sort_by_start(s).contains(e) <==> s.contains(e) by {
            lemma_drop_last_contains(s, e);
        }
    }
}

/// Merging sorted selections leaves them sorted and pairwise apart, with
/// every input span inside some output span.
proof fn lemma_merge(s: Seq<Selection>)
    requires
        sorted_by_start(s),
    ensures
        disjoint_sorted(merge(s)),
        merge(s).len() <= s.len(),
        s.len() > 0 ==> merge(s).len() > 0,
        s.len() > 0 ==> pos_le(sel_start(merge(s).last()), sel_start(s.last())),
        forall|k: int| #![trigger s[k]] 0 <= k < s.len() ==> exists|j: int| 0 <= j < merge(s).len() && covers(
            #[trigger] merge(s)[j], s[k]),
    decreases s.len(),
{
    if s.len() > 0 {
        let d = s.drop_last();
        assert(sorted_by_start(d)) by {
            assert forall|i: int, j: int| 0 <= i < j < d.len() implies pos_le(
                #[trigger] sel_start(d[i]),
                #[trigger] sel_start(d[j]),
            ) by {
                assert(d[i] == s[i] && d[j] == s[j]);
            }
        }
        lemma_merge(d);
        let m = merge(d);
        let x = s.last();
        if d.len() > 0 {
            assert(pos_le(sel_start(d.last()), sel_start(x)));
        }
        if m.len() > 0 && sel_overlaps(m.last(), x) {
            let prev = m.last();
            let u = Selection {
                anchor: pos_min(sel_start(prev), sel_start(x)),
                head: pos_max(sel_end(prev), sel_end(x)),
                goal_x: x.goal_x,
            };
            let r = m.drop_last().push(u);
            assert(merge(s) == r);
            assert(sel_start(u) == sel_start(prev));
            assert forall|i: int, j: int| 0 <= i < j < r.len() implies pos_lt(
                #[trigger] sel_end(r[i]),
                #[trigger] sel_start(r[j]),
            ) by {
                if j == r.len() - 1 {
                    assert(pos_lt(sel_end(m[i]), sel_start(m[m.len() - 1])));
                } else {
                    assert(pos_lt(sel_end(m[i]), sel_start(m[j])));
                }
            }
            assert forall|k: int| #![trigger s[k]] 0 <= k < s.len() implies exists|j: int|
                0 <= j < r.len() && covers(#[trigger] r[j], s[k]) by {
                if k == s.len() - 1 {
                    assert(covers(r[r.len() - 1], s[k]));
                } else {
                    assert(s[k] == d[k]);
                    let j = choose|j: int| 0 <= j < m.len() && covers(#[trigger] m[j], d[k]);
                    if j == m.len() - 1 {
                        assert(covers(r[r.len() - 1], s[k]));
                    } else {
                        assert(covers(r[j], s[k]));
                    }
                }
            }
        } else {
            let r = m.push(x);
            assert(merge(s) == r);
            assert forall|i: int, j: int| 0 <= i < j < r.len() implies pos_lt(
                #[trigger] sel_end(r[i]),
                #[trigger] sel_start(r[j]),
            ) by {
                if j == r.len() - 1 {
                    if i < m.len() - 1 {
                        assert(pos_lt(sel_end(m[i]), sel_start(m[m.len() - 1])));
                    }
                } else {
                    assert(pos_lt(sel_end(m[i]), sel_start(m[j])));
                }
            }
            assert forall|k: int| #![trigger s[k]] 0 <= k < s.len() implies exists|j: int|
                0 <= j < r.len() && covers(#[trigger] r[j], s[k]) by {
                if k == s.len() - 1 {
                    assert(covers(r[r.len() - 1], s[k]));
                } else {
                    assert(s[k] == d[k]);
                    let j = choose|j: int| 0 <= j < m.len() && covers(#[trigger] m[j], d[k]);
                    assert(covers(r[j], s[k]));
                }
            }
        }
    }
}

/// `outer`'s span includes `inner`'s.
pub open spec fn covers(outer: Selection, inner: Selection) -> bool {
    pos_le(sel_start(outer), sel_start(inner)) && pos_le(sel_end(inner), sel_end(outer))
}

proof fn lemma_locate(s: Seq<Selection>, h: Position, i: int)
    requires
        0 <= i,
    ensures
        s.len() > 0 ==> 0 <= locate(s, h, i) < s.len(),
        s.len() == 0 ==> locate(s, h, i) == 0,
    decreases s.len() - i,
{
    if i < s.len() {
        lemma_locate(s, h, i + 1);
    }
}

/// A merged selection whose head is not its end was left as it was, and
/// covers no other selection of the input.
proof fn lemma_merge_unmerged(s: Seq<Selection>)
    requires
        sorted_by_start(s),
    ensures
        forall|j: int, k: int|
            0 <= j < merge(s).len() && 0 <= k < s.len() && covers(#[trigger] merge(s)[j], #[trigger] s[k])
                && merge(s)[j].head != sel_end(merge(s)[j]) ==> merge(s)[j] == s[k],
    decreases s.len(),
{
    if s.len() > 0 {
        let d = s.drop_last();
        assert(sorted_by_start(d)) by {
            assert forall|i: int, j: int| 0 <= i < j < d.len() implies pos_le(
                #[trigger] sel_start(d[i]),
                #[trigger] sel_start(d[j]),
            ) by {
                assert(d[i] == s[i] && d[j] == s[j]);
            }
        }
        lemma_merge_unmerged(d);
        lemma_merge(d);
        let m = merge(d);
        let x = s.last();
        if d.len() > 0 {
            assert(pos_le(sel_start(d.last()), sel_start(x)));
        }
        let r = merge(s);
        assert forall|j: int, k: int|
            0 <= j < r.len() && 0 <= k < s.len() && covers(#[trigger] r[j], #[trigger] s[k]) && r[j].head != sel_end(r[j])
            implies r[j] == s[k] by {
            lemma_start_le_end(r[j]);
            lemma_start_le_end(s[k]);
            lemma_start_le_end(x);
            if m.len() > 0 && sel_overlaps(m.last(), x) {
                // The last one is a merge, whose head is its end.
                assert(j < m.len() - 1);
                assert(r[j] == m[j]);
                assert(pos_lt(sel_end(m[j]), sel_start(m[m.len() - 1])));
                if k == s.len() - 1 {
                    lemma_start_le_end(m[m.len() - 1]);
                    assert(false);
                } else {
                    assert(s[k] == d[k]);
                }
            } else {
                if j < m.len() {
                    assert(r[j] == m[j]);
                    if k == s.len() - 1 {
                        lemma_start_le_end(m[m.len() - 1]);
                        if j < m.len() - 1 {
                            assert(pos_lt(sel_end(m[j]), sel_start(m[m.len() - 1])));
                        }
                        assert(false);
                    } else {
                        assert(s[k] == d[k]);
                    }
                } else {
                    assert(r[j] == x);
                    if k < s.len() - 1 {
                        assert(s[k] == d[k]);
                        assert(pos_le(sel_start(s[k]), sel_start(x)));
                        let i = choose|i: int| 0 <= i < m.len() && covers(#[trigger] m[i], d[k]);
                        lemma_start_le_end(m[i]);
                        if i < m.len() - 1 {
                            lemma_start_le_end(m[m.len() - 1]);
                            assert(pos_lt(sel_end(m[i]), sel_start(m[m.len() - 1])));
                        }
                        assert(false);
                    }
                }
            }
        }
    }
}

/// `locate` from `i` stops at the first selection holding `h`, when one at
/// `j` or before does.
proof fn lemma_locate_found(s: Seq<Selection>, h: Position, i: int, j: int)
    requires
        0 <= i <= j < s.len(),
        s[j].head == h || sel_contains(s[j], h),
    ensures
        i <= locate(s, h, i) <= j,
        s[locate(s, h, i)].head == h || sel_contains(s[locate(s, h, i)], h),
    decreases j - i,
{
    if !(s[i].head == h || sel_contains(s[i], h)) {
        lemma_locate_found(s, h, i + 1, j);
    }
}

/// The primary of a normalised set spans the head the old primary had: a
/// caret keeps the selection it is in.
pub proof fn law_normalised_primary_spans_head(s: Seq<Selection>, p: int)
    requires
        s.len() > 0,
        0 <= p < s.len(),
    ensures
        pos_le(sel_start(normalised(s, p).0[normalised(s, p).1]), s[p].head),
        pos_le(s[p].head, sel_end(normalised(s, p).0[normalised(s, p).1])),
{
    let q = sort_by_start(s);
    lemma_sort_sorted(s);
    lemma_merge(q);
    lemma_merge_unmerged(q);
    let r = merge(q);
    let x = s[p];
    let h = x.head;
    assert(s.contains(x));
    assert(q.contains(x));
    let kk = choose|kk: int| 0 <= kk < q.len() && q[kk] == x;
    let j = choose|j: int| 0 <= j < r.len() && covers(#[trigger] r[j], q[kk]);
    lemma_start_le_end(x);
    lemma_start_le_end(r[j]);
    if !pos_lt(h, sel_end(r[j])) && r[j].head != sel_end(r[j]) {
        assert(r[j] == q[kk]);
    }
    assert(r[j].head == h || sel_contains(r[j], h));
    lemma_locate_found(r, h, 0, j);
    let i = locate(r, h, 0);
    lemma_start_le_end(r[i]);
}

/// Normalising gives a non-empty, sorted, pairwise-apart set whose primary is
/// in range, and loses no selected text.
pub proof fn law_normalised(s: Seq<Selection>, p: int)
    requires
        s.len() > 0,
        0 <= p < s.len(),
    ensures
        normalised(s, p).0.len() > 0,
        0 <= normalised(s, p).1 < normalised(s, p).0.len(),
        disjoint_sorted(normalised(s, p).0),
        forall|k: int| #![trigger s[k]] 0 <= k < s.len() ==> exists|j: int| 0 <= j < normalised(s, p).0.len() && covers(
            #[trigger] normalised(s, p).0[j], s[k]),
{
    let q = sort_by_start(s);
    lemma_sort_sorted(s);
    lemma_merge(q);
    lemma_locate(merge(q), s[p].head, 0);
    assert forall|k: int| #![trigger s[k]] 0 <= k < s.len() implies exists|j: int| 0 <= j < merge(q).len() && covers(
        #[trigger] merge(q)[j], s[k]) by {
        assert(s.contains(s[k]));
        assert(q.contains(s[k]));
        let kk = choose|kk: int| 0 <= kk < q.len() && q[kk] == s[k];
        let j = choose|j: int| 0 <= j < merge(q).len() && covers(#[trigger] merge(q)[j], q[kk]);
        assert(covers(merge(q)[j], s[k]));
    }
}

proof fn lemma_ins_split(s: Seq<Selection>, x: Selection, j: int)
    requires
        0 <= j <= s.len(),
        forall|k: int| j <= k < s.len() ==> !pos_le(sel_start(#[trigger] s[k]), sel_start(x)),
        j == 0 || pos_le(sel_start(s[j - 1]), sel_start(x)),
    ensures
        ins(s, x) == s.insert(j, x),
    decreases s.len() - j,
{
    if j == s.len() {
        if s.len() > 0 {
            assert(s.last() == s[j - 1]);
        }
        assert(s.push(x) =~= s.insert(j, x));
    } else {
        assert(s.last() == s[s.len() - 1]);
        let d = s.drop_last();
        assert forall|k: int| j <= k < d.len() implies !pos_le(sel_start(#[trigger] d[k]), sel_start(x)) by {
            assert(d[k] == s[k]);
        }
        if j > 0 {
            assert(d[j - 1] == s[j - 1]);
        }
        lemma_ins_split(d, x, j);
        assert(d.insert(j, x).push(s.last()) =~= s.insert(j, x));
    }
}

/// Stable insertion of `x` by start.
fn insert_sorted(v: &mut Vec<Selection>, x: Selection)
    ensures
        final(v)@ == ins(old(v)@, x),
{
    let mut j = v.len();
    while j > 0 && !v[j - 1].start().le(&x.start())
        invariant
            j <= v@.len(),
            v@ == old(v)@,
            forall|k: int| j <= k < v@.len() ==> !pos_le(sel_start(#[trigger] v@[k]), sel_start(x)),
        decreases j,
    {
        j -= 1;
    }
    proof {
        lemma_ins_split(v@, x, j as int);
    }
    v.insert(j, x);
}

/// Sort by start (stably), merge what touches, and find where the old
/// primary head went.
fn normalise(v: &Vec<Selection>, p: usize) -> (r: (Vec<Selection>, usize))
    requires
        v@.len() > 0,
        p < v@.len(),
    ensures
        (r.0@, r.1 as int) == normalised(v@, p as int),
        r.0@.len() > 0,
        r.1 < r.0@.len(),
        disjoint_sorted(r.0@),
{
    let primary_head = v[p].head;
    let mut sorted: Vec<Selection> = Vec::new();
    let mut i: usize = 0;
    while i < v.len()
        invariant
            i <= v@.len(),
            sorted@ == sort_by_start(v@.take(i as int)),
        decreases v@.len() - i,
    {
        assert(v@.take(i + 1).drop_last() =~= v@.take(i as int));
        assert(v@.take(i + 1).last() == v@[i as int]);
        insert_sorted(&mut sorted, v[i]);
        i += 1;
    }
    assert(v@.take(v@.len() as int) =~= v@);
    let mut merged: Vec<Selection> = Vec::new();
    let mut k: usize = 0;
    while k < sorted.len()
        invariant
            k <= sorted@.len(),
            merged@ == merge(sorted@.take(k as int)),
        decreases sorted@.len() - k,
    {
        let s = sorted[k];
        assert(sorted@.take(k + 1).drop_last() =~= sorted@.take(k as int));
        assert(sorted@.take(k + 1).last() == s);
        let n = merged.len();
        if n > 0 && merged[n - 1].overlaps(&s) {
            let prev = merged[n - 1];
            let a = if prev.start().le(&s.start()) { prev.start() } else { s.start() };
            let b = if prev.end().le(&s.end()) { s.end() } else { prev.end() };
            merged.set(n - 1, Selection { anchor: a, head: b, goal_x: s.goal_x });
            proof {
                assert(merged@ =~= merge(sorted@.take(k as int)).drop_last().push(
                    Selection { anchor: a, head: b, goal_x: s.goal_x },
                ));
            }
        } else {
            merged.push(s);
        }
        k += 1;
    }
    assert(sorted@.take(sorted@.len() as int) =~= sorted@);
    let mut j: usize = 0;
    let mut found: usize = 0;
    while j < merged.len()
        invariant_except_break
            j <= merged@.len(),
            found == 0,
            locate(merged@, primary_head, j as int) == locate(merged@, primary_head, 0),
        ensures
            found == locate(merged@, primary_head, 0),
        decreases merged@.len() - j,
    {
        let s = merged[j];
        if s.head.same(&primary_head) || s.contains(primary_head) {
            found = j;
            break;
        }
        j += 1;
    }
    proof {
        law_normalised(v@, p as int);
    }
    (merged, found)
}

/// Selections kept sorted by start with none touching, and a primary.
#[derive(Debug)]
pub struct SelectionSet {
    selections: Vec<Selection>,
    /// Which selection the viewport follows and that reports as the cursor.
    primary: usize,
}

impl SelectionSet {
    #[verifier::type_invariant]
    spec fn well_formed(self) -> bool {
        &&& self.selections@.len() > 0
        &&& self.primary < self.selections@.len()
        &&& disjoint_sorted(self.selections@)
    }

    /// The selections, in document order.
    pub closed spec fn sels(&self) -> Seq<Selection> {
        self.selections@
    }

    /// Index of the primary selection.
    pub closed spec fn prim(&self) -> int {
        self.primary as int
    }

    /// A single caret at the origin.
    pub fn new() -> (r: Self)
        ensures
            r.sels() == seq![Selection { anchor: Position { row: 0, col: 0 }, head: Position { row: 0, col: 0 }, goal_x: None }],
            r.prim() == 0,
    {
        let mut v = Vec::new();
        v.push(Selection::caret(Position::zero()));
        SelectionSet { selections: v, primary: 0 }
    }

    /// A set holding just `sel`.
    pub fn single(sel: Selection) -> (r: Self)
        ensures
            r.sels() == seq![sel],
            r.prim() == 0,
    {
        let mut v = Vec::new();
        v.push(sel);
        SelectionSet { selections: v, primary: 0 }
    }

    /// Carets at `heads`, the one at index `primary` (clamped) primary,
    /// normalised; the origin caret when `heads` is empty.
    pub fn carets(heads: &[Position], primary: usize) -> (r: Self)
        ensures
            heads@.len() == 0 ==> r.sels() == seq![Selection { anchor: Position { row: 0, col: 0 }, head: Position { row: 0, col: 0 }, goal_x: None }] && r.prim() == 0,
            heads@.len() > 0 ==> (r.sels(), r.prim()) == normalised(
                Seq::new(heads@.len(), |i: int| Selection { anchor: heads@[i], head: heads@[i], goal_x: None }),
                if primary < heads@.len() { primary as int } else { heads@.len() - 1 },
            ),
    {
        if heads.len() == 0 {
            return Self::new();
        }
        let mut v: Vec<Selection> = Vec::new();
        let mut i: usize = 0;
        while i < heads.len()
            invariant
                i <= heads@.len(),
                v@ =~= Seq::new(i as nat, |k: int| Selection { anchor: heads@[k], head: heads@[k], goal_x: None }),
            decreases heads@.len() - i,
        {
            v.push(Selection::caret(heads[i]));
            i += 1;
        }
        let p = if primary < heads.len() { primary } else { heads.len() - 1 };
        let (s, q) = normalise(&v, p);
        SelectionSet { selections: s, primary: q }
    }

    /// The selections `sels`, the one at index `primary` (clamped) primary,
    /// normalised; the origin caret when `sels` is empty.
    pub fn spans(sels: Vec<Selection>, primary: usize) -> (r: Self)
        ensures
            sels@.len() == 0 ==> r.sels() == seq![Selection { anchor: Position { row: 0, col: 0 }, head: Position { row: 0, col: 0 }, goal_x: None }] && r.prim() == 0,
            sels@.len() > 0 ==> (r.sels(), r.prim()) == normalised(
                sels@,
                if primary < sels@.len() { primary as int } else { sels@.len() - 1 },
            ),
    {
        if sels.len() == 0 {
            return Self::new();
        }
        let p = if primary < sels.len() { primary } else { sels.len() - 1 };
        let (s, q) = normalise(&sels, p);
        SelectionSet { selections: s, primary: q }
    }

    pub fn primary_index(&self) -> (i: usize)
        ensures
            i == self.prim(),
            i < self.sels().len(),
    {
        proof {
            use_type_invariant(self);
        }
        self.primary
    }

    pub fn all(&self) -> (s: &[Selection])
        ensures
            s@ == self.sels(),
            s@.len() > 0,
            disjoint_sorted(s@),
    {
        proof {
            use_type_invariant(self);
        }
        self.selections.as_slice()
    }

    pub fn len(&self) -> (n: usize)
        ensures
            n == self.sels().len(),
            n > 0,
    {
        proof {
            use_type_invariant(self);
        }
        self.selections.len()
    }

    pub fn is_multi(&self) -> (b: bool)
        ensures
            b == (self.sels().len() > 1),
    {
        self.selections.len() > 1
    }

    /// The selection the caret and viewport follow.
    pub fn primary(&self) -> (s: Selection)
        ensures
            s == self.sels()[self.prim()],
    {
        proof {
            use_type_invariant(self);
        }
        self.selections[self.primary]
    }

    /// Replace the primary selection and normalise again; the primary
    /// follows its head.
    pub fn set_primary(&mut self, sel: Selection)
        ensures
            (final(self).sels(), final(self).prim()) == normalised(
                old(self).sels().update(old(self).prim(), sel),
                old(self).prim(),
            ),
    {
        proof {
            use_type_invariant(&*self);
        }
        let mut v = self.selections.clone();
        v.set(self.primary, sel);
        let (s, q) = normalise(&v, self.primary);
        *self = SelectionSet { selections: s, primary: q };
    }

    /// Keep only a caret at the primary head.
    pub fn collapse_to_primary_caret(&mut self)
        ensures
            final(self).sels() == seq![Selection { anchor: old(self).sels()[old(self).prim()].head, head: old(self).sels()[old(self).prim()].head, goal_x: None }],
            final(self).prim() == 0,
    {
        let head = self.primary().head;
        *self = Self::single(Selection::caret(head));
    }

    /// Add a selection, make it primary, and normalise.
    pub fn add(&mut self, sel: Selection)
        ensures
            (final(self).sels(), final(self).prim()) == normalised(
                old(self).sels().push(sel),
                old(self).sels().len() as int,
            ),
    {
        proof {
            use_type_invariant(&*self);
        }
        let mut v = self.selections.clone();
        v.push(sel);
        let p = v.len() - 1;
        let (s, q) = normalise(&v, p);
        *self = SelectionSet { selections: s, primary: q };
    }

    /// Add a selection without changing which head is primary: after
    /// normalising, the primary is the selection whose head is the old
    /// primary head, if one still is.
    #[verifier::rlimit(30)]
    pub fn push_keeping_primary(&mut self, sel: Selection)
        ensures
            ({
                let keep = old(self).sels()[old(self).prim()].head;
                let (m, q) = normalised(old(self).sels().push(sel), old(self).prim());
                &&& final(self).sels() == m
                &&& final(self).prim() == (if exists|i: int| 0 <= i < m.len() && m[i].head == keep {
                    choose_first_head(m, keep)
                } else {
                    q
                })
            }),
    {
        proof {
            use_type_invariant(&*self);
        }
        let keep = self.primary().head;
        let mut v = self.selections.clone();
        v.push(sel);
        let (s, q) = normalise(&v, self.primary);
        let mut i: usize = 0;
        let mut p = q;
        while i < s.len()
            invariant_except_break
                i <= s@.len(),
                p == q,
                forall|k: int| 0 <= k < i ==> s@[k].head != keep,
            invariant
                q < s@.len(),
            ensures
                p < s@.len(),
                (p == q && forall|k: int| 0 <= k < s@.len() ==> s@[k].head != keep) || (s@[p as int].head
                    == keep && p == choose_first_head(s@, keep)),
            decreases s@.len() - i,
        {
            if s[i].head.same(&keep) {
                p = i;
                proof {
                    lemma_first_head(s@, keep, i as int);
                }
                break;
            }
            i += 1;
        }
        *self = SelectionSet { selections: s, primary: p };
    }

    /// Apply `f` to every selection, then normalise.
    pub fn map<F: Fn(Selection) -> Selection>(&mut self, f: F)
        requires
            forall|s: Selection| #[trigger] f.requires((s,)),
        ensures
            exists|m: Seq<Selection>| #![trigger normalised(m, old(self).prim())] {
                &&& m.len() == old(self).sels().len()
                &&& forall|i: int| 0 <= i < m.len() ==> #[trigger] f.ensures((old(self).sels()[i],), m[i])
                &&& (final(self).sels(), final(self).prim()) == normalised(m, old(self).prim())
                &&& pos_le(sel_start(final(self).sels()[final(self).prim()]), m[old(self).prim()].head)
                &&& pos_le(m[old(self).prim()].head, sel_end(final(self).sels()[final(self).prim()]))
            },
    {
        proof {
            use_type_invariant(&*self);
        }
        let n = self.selections.len();
        let ghost orig = self.sels();
        let ghost p0 = self.prim();
        let mut v: Vec<Selection> = Vec::new();
        let mut i: usize = 0;
        while i < n
            invariant
                self.selections@ == orig,
                n == self.selections@.len(),
                i <= n,
                v@.len() == i,
                forall|s: Selection| #[trigger] f.requires((s,)),
                forall|k: int| 0 <= k < i ==> #[trigger] f.ensures((self.selections@[k],), v@[k]),
            decreases n - i,
        {
            let r = f(self.selections[i]);
            v.push(r);
            i += 1;
        }
        let (s, q) = normalise(&v, self.primary);
        assert(normalised(v@, p0) == (s@, q as int));
        proof {
            law_normalised_primary_spans_head(v@, p0);
        }
        *self = SelectionSet { selections: s, primary: q };
    }
}

/// The first index whose head is `h`.
pub open spec fn choose_first_head(m: Seq<Selection>, h: Position) -> int {
    choose|i: int| 0 <= i < m.len() && m[i].head == h && forall|k: int| 0 <= k < i ==> m[k].head != h
}

proof fn lemma_first_head(m: Seq<Selection>, h: Position, i: int)
    requires
        0 <= i < m.len(),
        m[i].head == h,
        forall|k: int| 0 <= k < i ==> m[k].head != h,
    ensures
        choose_first_head(m, h) == i,
{
    let c = choose_first_head(m, h);
    assert(0 <= c < m.len() && m[c].head == h && forall|k: int| 0 <= k < c ==> m[k].head != h);
    if c < i {
        assert(m[c].head != h);
    } else if c > i {
        assert(m[i].head != h);
    }
}

impl Default for SelectionSet {
    fn default() -> (r: Self)
        ensures
            r.sels() == seq![Selection { anchor: Position { row: 0, col: 0 }, head: Position { row: 0, col: 0 }, goal_x: None }],
            r.prim() == 0,
    {
        Self::new()
    }
}

} // verus!
