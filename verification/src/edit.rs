//! Edits and deltas: the one description of a text change that undo, language
//! servers and incremental parsing all consume.
//!
//! A [`Change`] replaces the characters `[start, start + old.len())` with
//! `new`; offsets count characters from the start of the document. An
//! [`Edit`] is a group of non-overlapping changes against one version of the
//! document, and applying it yields a [`Delta`] that records what each change
//! actually replaced — which is all undo needs: [`Delta::inverse`] is an edit
//! that puts the text back.

use vstd::prelude::*;
use crate::position::Position;
use crate::text::{chars_of, string_of, slice_vec};
use crate::buffer::{Buffer, pos_at, off_of, next_version, lemma_last_le_range};

verus! {

/// What a change says, as values: start offset, replaced text, new text.
pub type ChangeView = (int, Seq<char>, Seq<char>);

/// One replacement: `[start, start + old.len())` becomes `new`.
#[derive(Clone, Debug, PartialEq, Eq)]
pub struct Change {
    /// Offset, in characters, from the start of the document.
    pub start: usize,
    /// The text that was replaced (empty for a pure insert).
    pub old: String,
    /// The replacement (empty for a pure delete).
    pub new: String,
}

impl View for Change {
    type V = ChangeView;

    open spec fn view(&self) -> ChangeView {
        (self.start as int, self.old@, self.new@)
    }
}

/// Where a change's replaced range ends.
pub open spec fn cend(c: ChangeView) -> int {
    c.0 + c.1.len()
}

/// Change `i` ends no later than change `i + 1` begins.
pub open spec fn step_ok(cs: Seq<ChangeView>, i: int) -> bool {
    cend(cs[i]) <= cs[i + 1].0
}

/// Changes in ascending document order, none overlapping the next.
pub open spec fn chained(cs: Seq<ChangeView>) -> bool {
    &&& forall|i: int| 0 <= i < cs.len() ==> 0 <= #[trigger] cs[i].0
    &&& forall|i: int| 0 <= i < cs.len() - 1 ==> #[trigger] step_ok(cs, i)
}

/// Chained, and inside a document of `n` characters.
pub open spec fn ordered(cs: Seq<ChangeView>, n: int) -> bool {
    &&& chained(cs)
    &&& cs.len() > 0 ==> cend(cs.last()) <= n
}

/// Where the untouched text before change `i` begins: the end of change
/// `i - 1`, or the start of the document.
pub open spec fn gap_start(cs: Seq<ChangeView>, i: int) -> int {
    if i <= 0 {
        0
    } else {
        cend(cs[i - 1])
    }
}

/// The text from old offset `p` on, with changes `i..` applied.
pub open spec fn build(t: Seq<char>, cs: Seq<ChangeView>, i: int, p: int) -> Seq<char>
    decreases cs.len() - i,
{
    if i >= cs.len() {
        t.subrange(p, t.len() as int)
    } else {
        t.subrange(p, cs[i].0) + cs[i].2 + build(t, cs, i + 1, cend(cs[i]))
    }
}

/// The document after an ordered group of changes.
pub open spec fn applied(t: Seq<char>, cs: Seq<ChangeView>) -> Seq<char> {
    build(t, cs, 0, 0)
}

/// Net growth in length caused by changes `0..i`.
pub open spec fn shift(cs: Seq<ChangeView>, i: int) -> int
    decreases i,
{
    if i <= 0 {
        0
    } else {
        shift(cs, i - 1) + cs[i - 1].2.len() - cs[i - 1].1.len()
    }
}

/// Where the untouched text before change `i` sits once the changes are
/// applied.
pub open spec fn new_gap_start(cs: Seq<ChangeView>, i: int) -> int {
    gap_start(cs, i) + shift(cs, i)
}

/// The changes that undo `cs`, in ascending order of the changed document:
/// each one takes back its own replacement, at its start moved by everything
/// before it.
pub open spec fn inverse_view(cs: Seq<ChangeView>) -> Seq<ChangeView> {
    Seq::new(cs.len(), |i: int| (cs[i].0 + shift(cs, i), cs[i].2, cs[i].1))
}

/// Each change's `old` is what the document held at its range.
pub open spec fn captured(t: Seq<char>, cs: Seq<ChangeView>) -> bool {
    forall|i: int| 0 <= i < cs.len() ==> #[trigger] cs[i].1 == t.subrange(cs[i].0, cend(cs[i]))
}

/// The group in the order it is applied: a group written back-to-front (as
/// an inverse is) is read front-to-back.
pub open spec fn in_order(cs: Seq<ChangeView>, n: int) -> Seq<ChangeView> {
    if ordered(cs.reverse(), n) {
        cs.reverse()
    } else {
        cs
    }
}

pub open spec fn views(cs: Seq<Change>) -> Seq<ChangeView> {
    cs.map_values(|c: Change| c@)
}

proof fn lemma_gap_le_start(cs: Seq<ChangeView>, i: int)
    requires
        chained(cs),
        0 <= i < cs.len(),
    ensures
        gap_start(cs, i) <= cs[i].0,
{
    if i > 0 {
        assert(step_ok(cs, i - 1));
    }
}

proof fn lemma_new_gap_nonneg(cs: Seq<ChangeView>, i: int)
    requires
        chained(cs),
        0 <= i <= cs.len(),
    ensures
        new_gap_start(cs, i) >= 0,
        i < cs.len() ==> new_gap_start(cs, i + 1) == new_gap_start(cs, i) + (cs[i].0
            - gap_start(cs, i)) + cs[i].2.len(),
    decreases i,
{
    if i > 0 {
        lemma_new_gap_nonneg(cs, i - 1);
        lemma_gap_le_start(cs, i - 1);
    }
    if i < cs.len() {
        lemma_gap_le_start(cs, i);
    }
}

proof fn lemma_gap_monotone(cs: Seq<ChangeView>, i: int, j: int)
    requires
        chained(cs),
        0 <= i <= j <= cs.len(),
    ensures
        gap_start(cs, i) <= gap_start(cs, j),
    decreases j - i,
{
    if i < j {
        lemma_gap_monotone(cs, i, j - 1);
        lemma_gap_le_start(cs, j - 1);
    }
}

proof fn lemma_new_gap_monotone(cs: Seq<ChangeView>, i: int, j: int)
    requires
        chained(cs),
        0 <= i <= j <= cs.len(),
    ensures
        new_gap_start(cs, i) <= new_gap_start(cs, j),
    decreases j - i,
{
    if i < j {
        lemma_new_gap_monotone(cs, i, j - 1);
        lemma_new_gap_nonneg(cs, j - 1);
        lemma_gap_le_start(cs, j - 1);
    }
}

/// The length of what `build` produces.
proof fn lemma_build_len(t: Seq<char>, cs: Seq<ChangeView>, i: int)
    requires
        ordered(cs, t.len() as int),
        0 <= i <= cs.len(),
    ensures
        build(t, cs, i, gap_start(cs, i)).len() == t.len() - gap_start(cs, i) + shift(
            cs,
            cs.len() as int,
        ) - shift(cs, i),
        gap_start(cs, i) <= t.len(),
    decreases cs.len() - i,
{
    if i < cs.len() {
        lemma_gap_le_start(cs, i);
        lemma_build_len(t, cs, i + 1);
    } else if i > 0 {
        assert(cs.last() == cs[i - 1]);
    }
}

/// Undoing, one change at a time: from the gap before change `i`, the undo
/// group rebuilds exactly the original text.
proof fn lemma_undo_from(t: Seq<char>, cs: Seq<ChangeView>, a: Seq<char>, i: int)
    requires
        ordered(cs, t.len() as int),
        captured(t, cs),
        0 <= i <= cs.len(),
        0 <= new_gap_start(cs, i) <= a.len(),
        a.subrange(new_gap_start(cs, i), a.len() as int) == build(t, cs, i, gap_start(cs, i)),
    ensures
        build(a, inverse_view(cs), i, new_gap_start(cs, i)) == t.subrange(
            gap_start(cs, i),
            t.len() as int,
        ),
    decreases cs.len() - i,
{
    let inv = inverse_view(cs);
    let q = new_gap_start(cs, i);
    let p = gap_start(cs, i);
    if i < cs.len() {
        let c = cs[i];
        lemma_gap_le_start(cs, i);
        lemma_new_gap_nonneg(cs, i);
        let e = cend(c);
        assert(gap_start(cs, i + 1) == e);
        let rest = build(t, cs, i + 1, e);
        let b = build(t, cs, i, p);
        assert(b == t.subrange(p, c.0) + c.2 + rest);
        let q1 = new_gap_start(cs, i + 1);
        let mid = q + (c.0 - p);
        assert(q1 == mid + c.2.len());
        assert(e <= t.len()) by {
            if i + 1 < cs.len() {
                assert(step_ok(cs, i));
                lemma_gap_le_start(cs, i + 1);
                lemma_build_len(t, cs, i + 1);
            } else {
                assert(cs.last() == c);
            }
        }
        let sa = a.subrange(q, a.len() as int);
        assert(sa.len() == b.len());
        assert(a.subrange(q1, a.len() as int) =~= b.subrange(q1 - q, b.len() as int));
        assert(b.subrange(q1 - q, b.len() as int) =~= rest);
        lemma_undo_from(t, cs, a, i + 1);
        assert(inv[i] == (c.0 + shift(cs, i), c.2, c.1));
        assert(inv[i].0 == mid);
        assert(cend(inv[i]) == q1);
        assert(a.subrange(q, mid) =~= b.subrange(0, c.0 - p));
        assert(b.subrange(0, c.0 - p) =~= t.subrange(p, c.0));
        assert(c.1 == t.subrange(c.0, e));
        assert(build(a, inv, i, q) == a.subrange(q, mid) + c.1 + build(a, inv, i + 1, q1));
        assert(t.subrange(p, c.0) + t.subrange(c.0, e) + t.subrange(e, t.len() as int)
            =~= t.subrange(p, t.len() as int));
    }
}

/// The undo group is itself an ordered group over the changed text.
proof fn lemma_inverse_ordered(t: Seq<char>, cs: Seq<ChangeView>)
    requires
        ordered(cs, t.len() as int),
    ensures
        ordered(inverse_view(cs), applied(t, cs).len() as int),
        applied(t, cs).len() == t.len() + shift(cs, cs.len() as int),
{
    let inv = inverse_view(cs);
    let n = cs.len() as int;
    lemma_build_len(t, cs, 0);
    assert forall|i: int| 0 <= i < inv.len() implies 0 <= #[trigger] inv[i].0 by {
        lemma_new_gap_nonneg(cs, i);
        lemma_gap_le_start(cs, i);
    }
    assert forall|i: int| 0 <= i < inv.len() - 1 implies #[trigger] step_ok(inv, i) by {
        lemma_new_gap_nonneg(cs, i);
        lemma_new_gap_nonneg(cs, i + 1);
        lemma_gap_le_start(cs, i + 1);
        assert(gap_start(cs, i + 1) == cend(cs[i]));
    }
    if n > 0 {
        lemma_new_gap_nonneg(cs, n - 1);
        lemma_build_len(t, cs, n);
        assert(inv.last() == inv[n - 1]);
        assert(gap_start(cs, n) == cend(cs[n - 1]));
    }
}

/// Applying a delta's inverse to the text it produced gives back the text it
/// started from — undo restores exactly.
pub proof fn law_inverse_restores(t: Seq<char>, cs: Seq<ChangeView>)
    requires
        ordered(cs, t.len() as int),
        captured(t, cs),
    ensures
        ordered(inverse_view(cs), applied(t, cs).len() as int),
        applied(applied(t, cs), inverse_view(cs)) == t,
{
    let a = applied(t, cs);
    lemma_inverse_ordered(t, cs);
    assert(a.subrange(0, a.len() as int) =~= a);
    lemma_undo_from(t, cs, a, 0);
    assert(t.subrange(0, t.len() as int) =~= t);
}

impl Change {
    pub fn insert(start: usize, new: &str) -> (c: Change)
        ensures
            c@ == (start as int, Seq::<char>::empty(), new@),
    {
        Change { start, old: String::new(), new: crate::text::own(new) }
    }

    pub fn delete(start: usize, old: &str) -> (c: Change)
        ensures
            c@ == (start as int, old@, Seq::<char>::empty()),
    {
        Change { start, old: crate::text::own(old), new: String::new() }
    }

    pub fn replace(start: usize, old: &str, new: &str) -> (c: Change)
        ensures
            c@ == (start as int, old@, new@),
    {
        Change { start, old: crate::text::own(old), new: crate::text::own(new) }
    }

    /// Characters replaced.
    pub fn old_len(&self) -> (n: usize)
        ensures
            n == self.old@.len(),
    {
        chars_of(self.old.as_str()).len()
    }

    /// Characters inserted.
    pub fn new_len(&self) -> (n: usize)
        ensures
            n == self.new@.len(),
    {
        chars_of(self.new.as_str()).len()
    }

    /// The change that reverses this one: same start, new and old swapped.
    /// Valid in the version of the document this change produced.
    pub fn inverse(&self) -> (c: Change)
        ensures
            c@ == (self.start as int, self.new@, self.old@),
    {
        Change { start: self.start, old: self.new.clone(), new: self.old.clone() }
    }

    fn copy(&self) -> (c: Change)
        ensures
            c@ == self@,
    {
        Change { start: self.start, old: self.old.clone(), new: self.new.clone() }
    }
}

/// A group of changes against one version of a document.
#[derive(Clone, Debug, Default)]
pub struct Edit {
    pub changes: Vec<Change>,
}

impl Edit {
    pub fn new() -> (e: Edit)
        ensures
            e.changes@.len() == 0,
    {
        Edit { changes: Vec::new() }
    }

    pub fn single(change: Change) -> (e: Edit)
        ensures
            e.changes@ == seq![change],
    {
        let mut changes = Vec::new();
        changes.push(change);
        Edit { changes }
    }

    pub fn is_empty(&self) -> (b: bool)
        ensures
            b == (self.changes@.len() == 0),
    {
        self.changes.len() == 0
    }
}

/// What changed between two versions of a document: the changes in
/// ascending order with what each replaced, and the caret on either side.
#[derive(Clone, Debug)]
pub struct Delta {
    pub version_before: u64,
    pub version_after: u64,
    pub changes: Vec<Change>,
    pub cursor_before: Position,
    pub cursor_after: Position,
}

impl Delta {
    /// Ordered changes whose result still fits an offset.
    pub open spec fn wf(&self) -> bool {
        let cs = views(self.changes@);
        &&& chained(cs)
        &&& gap_start(cs, cs.len() as int) < usize::MAX
        &&& new_gap_start(cs, cs.len() as int) < usize::MAX
    }

    pub fn is_empty(&self) -> (b: bool)
        ensures
            b == (self.changes@.len() == 0),
    {
        self.changes.len() == 0
    }

    /// The edit that undoes this delta: every change inverted and moved into
    /// the changed document's offsets, listed back-to-front.
    pub fn inverse(&self) -> (e: Edit)
        requires
            self.wf(),
        ensures
            views(e.changes@) == inverse_view(views(self.changes@)).reverse(),
    {
        let ghost cs = views(self.changes@);
        let n = self.changes.len();
        let mut out: Vec<Change> = Vec::new();
        let mut removed: usize = 0;
        let mut added: usize = 0;
        let mut i: usize = 0;
        proof {
            lemma_new_gap_monotone(cs, 0, n as int);
        }
        while i < n
            invariant
                n == self.changes@.len() == cs.len(),
                cs == views(self.changes@),
                chained(cs),
                gap_start(cs, n as int) < usize::MAX,
                new_gap_start(cs, n as int) < usize::MAX,
                i <= n,
                added - removed == shift(cs, i as int),
                removed <= gap_start(cs, i as int),
                added <= new_gap_start(cs, i as int),
                views(out@) == inverse_view(cs).take(i as int),
            decreases n - i,
        {
            let c = &self.changes[i];
            proof {
                assert(cs[i as int] == c@);
                lemma_gap_le_start(cs, i as int);
                lemma_new_gap_nonneg(cs, i as int);
                lemma_new_gap_monotone(cs, (i + 1) as int, n as int);
                lemma_gap_monotone(cs, (i + 1) as int, n as int);
                assert(gap_start(cs, i + 1) == cend(cs[i as int]));
            }
            let ol = c.old_len();
            let nl = c.new_len();
            let start = (c.start - removed) + added;
            let nc = Change { start, old: c.new.clone(), new: c.old.clone() };
            let ghost before = out@;
            out.push(nc);
            removed = removed + ol;
            added = added + nl;
            proof {
                assert(out@ == before.push(nc));
                assert(views(out@) =~= views(before).push(nc@));
                assert(nc@ == inverse_view(cs)[i as int]);
                assert(views(out@) =~= inverse_view(cs).take(i + 1));
            }
            i += 1;
        }
        assert(inverse_view(cs).take(n as int) =~= inverse_view(cs));
        let mut rev: Vec<Change> = Vec::new();
        let mut k: usize = n;
        while k > 0
            invariant
                k <= n == out@.len(),
                views(out@) == inverse_view(cs),
                views(rev@) =~= inverse_view(cs).reverse().take((n - k) as int),
            decreases k,
        {
            k -= 1;
            let c = out[k].copy();
            let ghost before = rev@;
            rev.push(c);
            proof {
                assert(rev@ == before.push(c));
                assert(views(rev@) =~= views(before).push(c@));
                assert(views(out@)[k as int] == out@[k as int]@);
            }
        }
        assert(inverse_view(cs).reverse().take(n as int) =~= inverse_view(cs).reverse());
        Edit { changes: rev }
    }
}

/// Do the changes, as given, run in document order without overlapping?
fn check_order(cs: &Vec<Change>, n: usize) -> (b: bool)
    ensures
        b == ordered(views(cs@), n as int),
{
    let len = cs.len();
    let mut i: usize = 0;
    let ghost v = views(cs@);
    while i < len
        invariant
            len == cs@.len() == v.len(),
            v == views(cs@),
            i <= len,
            forall|j: int| 0 <= j < i && j < len - 1 ==> #[trigger] step_ok(v, j),
            i == len && len > 0 ==> cend(v.last()) <= n,
        decreases len - i,
    {
        let c = &cs[i];
        assert(v[i as int] == c@);
        let ol = c.old_len();
        if i + 1 < len {
            let next = cs[i + 1].start;
            assert(v[i + 1] == cs@[i + 1]@);
            if c.start > next || ol > next - c.start {
                assert(!step_ok(v, i as int));
                return false;
            }
        } else {
            assert(v.last() == v[i as int]);
            if c.start > n || ol > n - c.start {
                return false;
            }
        }
        i += 1;
    }
    true
}

/// A copy of the changes in reverse order.
fn reversed(cs: &Vec<Change>) -> (r: Vec<Change>)
    ensures
        views(r@) == views(cs@).reverse(),
{
    let n = cs.len();
    let mut r: Vec<Change> = Vec::new();
    let mut k: usize = n;
    while k > 0
        invariant
            k <= n == cs@.len(),
            views(r@) =~= views(cs@).reverse().take((n - k) as int),
        decreases k,
    {
        k -= 1;
        let c = cs[k].copy();
        let ghost before = r@;
        r.push(c);
        proof {
            assert(r@ == before.push(c));
            assert(views(r@) =~= views(before).push(c@));
            assert(views(cs@)[k as int] == cs@[k as int]@);
        }
    }
    assert(views(cs@).reverse().take(n as int) =~= views(cs@).reverse());
    r
}

fn copy_all(cs: &Vec<Change>) -> (r: Vec<Change>)
    ensures
        views(r@) == views(cs@),
{
    let n = cs.len();
    let mut r: Vec<Change> = Vec::new();
    let mut k: usize = 0;
    while k < n
        invariant
            k <= n == cs@.len(),
            views(r@) =~= views(cs@).take(k as int),
        decreases n - k,
    {
        let c = cs[k].copy();
        let ghost before = r@;
        r.push(c);
        proof {
            assert(r@ == before.push(c));
            assert(views(r@) =~= views(before).push(c@));
            assert(views(cs@)[k as int] == cs@[k as int]@);
        }
        k += 1;
    }
    assert(views(cs@).take(n as int) =~= views(cs@));
    r
}

impl Buffer {
    /// Apply every change of `edit` at once.
    ///
    /// The changes' offsets all refer to the current text; they are applied
    /// from the back so an earlier change never moves a later one. A group
    /// written back-to-front is taken in document order. Each recorded change
    /// carries the text it actually replaced. An empty edit leaves the
    /// version alone; any other bumps it once.
    pub fn apply_edit(&mut self, edit: &Edit) -> (d: Delta)
        requires
            old(self).wf(),
            ordered(views(edit.changes@), old(self).chars().len() as int) || ordered(
                views(edit.changes@).reverse(),
                old(self).chars().len() as int,
            ),
            old(self).chars().len() + shift(
                views(edit.changes@),
                edit.changes@.len() as int,
            ) < usize::MAX,
        ensures
            ({
                let t = old(self).chars();
                let cs = in_order(views(edit.changes@), t.len() as int);
                &&& ordered(cs, t.len() as int)
                &&& final(self).chars() == applied(t, cs)
                &&& views(d.changes@).len() == cs.len()
                &&& forall|i: int| 0 <= i < cs.len() ==> #[trigger] views(d.changes@)[i] == (
                    cs[i].0,
                    t.subrange(cs[i].0, cend(cs[i])),
                    cs[i].2,
                )
                &&& captured(t, views(d.changes@))
                &&& ordered(views(d.changes@), t.len() as int)
                &&& applied(t, views(d.changes@)) == applied(t, cs)
            }),
            d.wf(),
            d.version_before == old(self).ver(),
            d.version_after == final(self).ver(),
            final(self).ver() == (if edit.changes@.len() == 0 {
                old(self).ver()
            } else {
                next_version(old(self).ver())
            }),
            d.cursor_before == old(self).caret(),
            d.cursor_after == final(self).caret(),
            final(self).caret() == pos_at(
                final(self).chars(),
                if off_of(old(self).chars(), old(self).caret()) <= final(self).chars().len() {
                    off_of(old(self).chars(), old(self).caret())
                } else {
                    final(self).chars().len() as int
                },
            ),
            final(self).wf(),
    {
        let ghost t = self.chars();
        let n = self.len_chars();
        let cs: Vec<Change> = if check_order(&reversed(&edit.changes), n) {
            reversed(&edit.changes)
        } else {
            copy_all(&edit.changes)
        };
        let ghost v = views(cs@);
        proof {
            assert(v == in_order(views(edit.changes@), t.len() as int));
            lemma_shift_reverse(views(edit.changes@));
            lemma_build_len(t, v, 0);
            lemma_new_gap_monotone(v, 0, v.len() as int);
        }
        let version_before = self.version();
        let before_cursor = self.cursor();
        let cur_off = self.cursor_offset();
        proof {
            lemma_last_le_range(t, before_cursor, t.len() as int);
        }
        let len = cs.len();
        let mut out: Vec<char> = Vec::new();
        let mut recorded: Vec<Change> = Vec::new();
        let mut p: usize = 0;
        let mut i: usize = 0;
        let text = self.text_chars();
        while i < len
            invariant
                len == cs@.len() == v.len(),
                v == views(cs@),
                ordered(v, t.len() as int),
                text@ == t,
                n == t.len(),
                i <= len,
                p == gap_start(v, i as int),
                p <= n,
                out@ + build(t, v, i as int, p as int) == build(t, v, 0, 0),
                views(recorded@).len() == i,
                forall|j: int| 0 <= j < i ==> #[trigger] views(recorded@)[j] == (
                    v[j].0,
                    t.subrange(v[j].0, cend(v[j])),
                    v[j].2,
                ),
            decreases len - i,
        {
            let c = &cs[i];
            proof {
                assert(v[i as int] == c@);
                lemma_gap_le_start(v, i as int);
                lemma_build_len(t, v, i + 1);
                assert(gap_start(v, i + 1) == cend(v[i as int]));
            }
            let ol = c.old_len();
            let s = c.start;
            let e = s + ol;
            let gap = slice_vec(text.as_slice(), p, s);
            let ghost before = out@;
            out.append(&mut gap.clone());
            let nv = chars_of(c.new.as_str());
            out.append(&mut nv.clone());
            let oldv = slice_vec(text.as_slice(), s, e);
            let ghost rec_before = recorded@;
            let rc = Change { start: s, old: string_of(oldv.as_slice()), new: c.new.clone() };
            recorded.push(rc);
            proof {
                assert(recorded@ == rec_before.push(rc));
                assert(views(recorded@) =~= views(rec_before).push(rc@));
                assert(rc@ == (v[i as int].0, t.subrange(v[i as int].0, cend(v[i as int])), v[i as int].2));
                assert(build(t, v, i as int, p as int) == t.subrange(p as int, s as int) + v[i as int].2
                    + build(t, v, i + 1, e as int));
                assert(out@ =~= before + t.subrange(p as int, s as int) + v[i as int].2);
                assert(views(recorded@)[i as int] == recorded@[i as int]@);
                assert forall|j: int| 0 <= j < i + 1 implies #[trigger] views(recorded@)[j] == (
                    v[j].0,
                    t.subrange(v[j].0, cend(v[j])),
                    v[j].2,
                ) by {
                    if j < i {
                        assert(views(recorded@)[j] == views(rec_before)[j]);
                    }
                }
            }
            p = e;
            i += 1;
        }
        let tail = slice_vec(text.as_slice(), p, n);
        out.append(&mut tail.clone());
        proof {
            assert(out@ == build(t, v, 0, 0));
            let rv = views(recorded@);
            assert forall|j: int| 0 <= j < rv.len() implies #[trigger] rv[j].1 == t.subrange(
                rv[j].0,
                cend(rv[j]),
            ) by {
                assert(rv[j] == (v[j].0, t.subrange(v[j].0, cend(v[j])), v[j].2));
                lemma_gap_le_start(v, j);
                lemma_build_len(t, v, j + 1);
                assert(gap_start(v, j + 1) == cend(v[j]));
            }
            lemma_same_shape(t, v, rv);
        }
        let ghost cursor_target = if cur_off <= out@.len() { cur_off as int } else { out@.len() as int };
        let changed = len > 0;
        self.replace_all(out, changed);
        let new_len = self.len_chars();
        let at = if cur_off <= new_len { cur_off } else { new_len };
        let after = self.offset_to_position(at);
        self.set_cursor(after);
        Delta {
            version_before,
            version_after: self.version(),
            changes: recorded,
            cursor_before: before_cursor,
            cursor_after: after,
        }
    }
}

/// Reversing a group does not change its total growth.
proof fn lemma_shift_reverse(cs: Seq<ChangeView>)
    ensures
        shift(cs.reverse(), cs.len() as int) == shift(cs, cs.len() as int),
    decreases cs.len(),
{
    if cs.len() > 0 {
        let r = cs.reverse();
        lemma_shift_reverse(cs.drop_last());
        lemma_shift_front(r);
        assert(r.drop_first() =~= cs.drop_last().reverse());
        lemma_shift_prefix(cs, cs.len() - 1);
        lemma_shift_prefix(r.drop_first(), r.drop_first().len() as int);
    }
}

proof fn lemma_shift_front(cs: Seq<ChangeView>)
    requires
        cs.len() > 0,
    ensures
        shift(cs, cs.len() as int) == cs[0].2.len() - cs[0].1.len() + shift(
            cs.drop_first(),
            cs.len() - 1,
        ),
    decreases cs.len(),
{
    assert(shift(cs, 0) == 0);
    assert(shift(cs.drop_first(), 0) == 0);
    if cs.len() > 1 {
        lemma_shift_front(cs.drop_last());
        assert(cs.drop_last().drop_first() =~= cs.drop_first().drop_last());
        lemma_shift_prefix(cs, cs.len() - 1);
        lemma_shift_prefix(cs.drop_first(), cs.len() - 2);
        assert(cs.drop_first()[cs.len() - 2] == cs[cs.len() - 1]);
    }
}

/// `shift` of a prefix only looks at the prefix.
proof fn lemma_shift_prefix(cs: Seq<ChangeView>, k: int)
    requires
        0 <= k <= cs.len(),
    ensures
        shift(cs, k) == shift(cs.take(k), k),
        k < cs.len() ==> shift(cs, k) == shift(cs.drop_last(), k),
    decreases k,
{
    if k > 0 {
        lemma_shift_prefix(cs, k - 1);
        lemma_shift_prefix(cs.take(k), k - 1);
        assert(cs.take(k).take(k - 1) =~= cs.take(k - 1));
        if k < cs.len() {
            lemma_shift_prefix(cs.drop_last(), k - 1);
            assert(cs.drop_last().take(k - 1) =~= cs.take(k - 1));
        }
    }
}

/// Two groups with the same starts, lengths and new texts build the same
/// result.
proof fn lemma_same_shape(t: Seq<char>, v: Seq<ChangeView>, w: Seq<ChangeView>)
    requires
        ordered(v, t.len() as int),
        v.len() == w.len(),
        forall|j: int| 0 <= j < v.len() ==> #[trigger] w[j] == (v[j].0, t.subrange(v[j].0, cend(v[j])), v[j].2),
    ensures
        ordered(w, t.len() as int),
        applied(t, w) == applied(t, v),
        forall|j: int| 0 <= j <= v.len() ==> shift(w, j) == shift(v, j),
{
    assert forall|j: int| 0 <= j < v.len() implies cend(#[trigger] w[j]) == cend(v[j]) by {
        lemma_gap_le_start(v, j);
        lemma_build_len(t, v, j + 1);
        assert(gap_start(v, j + 1) == cend(v[j]));
    }
    assert forall|j: int| 0 <= j < w.len() - 1 implies #[trigger] step_ok(w, j) by {
        assert(step_ok(v, j));
        assert(cend(w[j]) == cend(v[j]));
        assert(w[j + 1] == (v[j + 1].0, t.subrange(v[j + 1].0, cend(v[j + 1])), v[j + 1].2));
    }
    if v.len() > 0 {
        assert(w.last() == w[w.len() - 1]);
        assert(v.last() == v[v.len() - 1]);
        assert(cend(w[w.len() - 1]) == cend(v[v.len() - 1]));
    }
    lemma_same_build(t, v, w, 0, 0);
    assert forall|j: int| 0 <= j <= v.len() implies shift(w, j) == shift(v, j) by {
        lemma_same_shift(v, w, j);
    }
}

proof fn lemma_same_shift(v: Seq<ChangeView>, w: Seq<ChangeView>, j: int)
    requires
        0 <= j <= v.len() == w.len(),
        forall|k: int| 0 <= k < v.len() ==> (#[trigger] w[k]).1.len() == v[k].1.len() && w[k].2
            == v[k].2,
    ensures
        shift(w, j) == shift(v, j),
    decreases j,
{
    if j > 0 {
        lemma_same_shift(v, w, j - 1);
        assert(w[j - 1].1.len() == v[j - 1].1.len());
    }
}

proof fn lemma_same_build(t: Seq<char>, v: Seq<ChangeView>, w: Seq<ChangeView>, i: int, p: int)
    requires
        v.len() == w.len(),
        0 <= i <= v.len(),
        forall|j: int| 0 <= j < v.len() ==> (#[trigger] w[j]).0 == v[j].0 && cend(w[j]) == cend(
            v[j],
        ) && w[j].2 == v[j].2,
    ensures
        build(t, w, i, p) == build(t, v, i, p),
    decreases v.len() - i,
{
    if i < v.len() {
        lemma_same_build(t, v, w, i + 1, cend(v[i]));
        assert(w[i].0 == v[i].0 && cend(w[i]) == cend(v[i]) && w[i].2 == v[i].2);
    }
}

} // verus!
