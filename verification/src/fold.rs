//! Indent-based code folding.
//!
//! A fold starts at a non-blank line followed (after blank lines) by a more
//! indented one, and runs over every following line that is blank or more
//! indented than its header, ending at the last such non-blank line. Closing
//! a fold hides the lines after its header. Two derived indexes keep queries
//! cheap: the widest fold starting at each row, and the set of hidden rows;
//! a generation number changes whenever the hidden rows may have.

use vstd::prelude::*;
use std::collections::{HashMap, HashSet};
use crate::text::{chars_of, trim_str, trimmed};

verus! {

broadcast use vstd::std_specs::hash::group_hash_axioms;

/// An inclusive range of lines that can collapse.
#[derive(Debug, Clone, Copy, PartialEq, Eq, Structural)]
pub struct FoldRange {
    pub start: usize,
    pub end: usize,
}

// ── The fold structure of a text ────────────────────────────────────────────

/// Indentation width of `s` from index `i`: spaces count one, tabs count
/// `tw`, and the first other character stops the count.
pub open spec fn indent_from(s: Seq<char>, tw: int, i: int) -> int
    decreases s.len() - i,
{
    if i < 0 || i >= s.len() {
        0
    } else if s[i] == ' ' {
        1 + indent_from(s, tw, i + 1)
    } else if s[i] == '\t' {
        tw + indent_from(s, tw, i + 1)
    } else {
        0
    }
}

pub open spec fn indent_at(ls: Seq<String>, tw: int, k: int) -> int {
    indent_from(ls[k]@, tw, 0)
}

/// A line holding nothing but white space.
pub open spec fn blank_at(ls: Seq<String>, k: int) -> bool {
    trimmed(ls[k]@).len() == 0
}

/// The first non-blank line at or after `k`, or the line count.
pub open spec fn next_nonblank(ls: Seq<String>, k: int) -> int
    decreases ls.len() - k,
{
    if k < 0 || k >= ls.len() {
        ls.len() as int
    } else if blank_at(ls, k) {
        next_nonblank(ls, k + 1)
    } else {
        k
    }
}

/// Scanning from `k`, the last non-blank line indented past `base` before
/// the first non-blank line that is not; `end` is the last one seen so far.
pub open spec fn block_end(ls: Seq<String>, tw: int, base: int, k: int, end: int) -> int
    decreases ls.len() - k,
{
    if k < 0 || k >= ls.len() {
        end
    } else if blank_at(ls, k) {
        block_end(ls, tw, base, k + 1, end)
    } else if indent_at(ls, tw, k) > base {
        block_end(ls, tw, base, k + 1, k)
    } else {
        end
    }
}

/// The fold whose header is line `i`, if it has one.
pub open spec fn fold_for(ls: Seq<String>, tw: int, i: int) -> Option<FoldRange> {
    if blank_at(ls, i) {
        None
    } else {
        let base = indent_at(ls, tw, i);
        let j = next_nonblank(ls, i + 1);
        if j >= ls.len() || indent_at(ls, tw, j) <= base {
            None
        } else {
            let end = block_end(ls, tw, base, j, j);
            if end > i {
                Some(FoldRange { start: i as usize, end: end as usize })
            } else {
                None
            }
        }
    }
}

/// The folds with headers among the first `m` lines, in line order.
pub open spec fn folds_upto(ls: Seq<String>, tw: int, m: int) -> Seq<FoldRange>
    decreases m,
{
    if m <= 0 {
        seq![]
    } else {
        folds_upto(ls, tw, m - 1) + match fold_for(ls, tw, m - 1) {
            Some(r) => seq![r],
            None => seq![],
        }
    }
}

/// Every fold of `ls`; the last line never heads one.
pub open spec fn folds_spec(ls: Seq<String>, tw: int) -> Seq<FoldRange> {
    if ls.len() < 2 {
        seq![]
    } else {
        folds_upto(ls, tw, ls.len() - 1)
    }
}

/// Every line of `ls` has an indentation that fits in a `usize`.
pub open spec fn indents_fit(ls: Seq<String>, tw: int) -> bool {
    forall|k: int| 0 <= k < ls.len() ==> #[trigger] indent_at(ls, tw, k) <= usize::MAX
}

// ── Derived views of a fold state ───────────────────────────────────────────

/// Among the first `n` ranges, the widest starting at `row`; the first of
/// equally wide ones.
pub open spec fn widest_upto(rs: Seq<FoldRange>, row: usize, n: int) -> Option<FoldRange>
    decreases n,
{
    if n <= 0 {
        None
    } else {
        let prev = widest_upto(rs, row, n - 1);
        let r = rs[n - 1];
        if r.start == row {
            match prev {
                Some(c) => if r.end > c.end {
                    Some(r)
                } else {
                    Some(c)
                },
                None => Some(r),
            }
        } else {
            prev
        }
    }
}

/// The widest fold starting at `row`.
pub open spec fn widest(rs: Seq<FoldRange>, row: usize) -> Option<FoldRange> {
    widest_upto(rs, row, rs.len() as int)
}

/// `row` lies strictly inside the widest fold of some closed header.
pub open spec fn hidden_row(rs: Seq<FoldRange>, closed: Set<usize>, row: int) -> bool {
    exists|s: usize|
        #![trigger closed.contains(s)]
        closed.contains(s) && widest(rs, s) is Some && widest(rs, s)->0.start < row <= widest(rs, s)->0.end
}

pub open spec fn hidden_set(rs: Seq<FoldRange>, closed: Set<usize>) -> Set<usize> {
    Set::new(|row: usize| hidden_row(rs, closed, row as int))
}

/// The greatest start among the first `n` ranges that strictly enclose
/// `row` (header excluded).
pub open spec fn max_enclosing(rs: Seq<FoldRange>, row: usize, n: int) -> Option<usize>
    decreases n,
{
    if n <= 0 {
        None
    } else {
        let prev = max_enclosing(rs, row, n - 1);
        let r = rs[n - 1];
        if r.start < row && row <= r.end {
            match prev {
                Some(s) => if r.start >= s {
                    Some(r.start)
                } else {
                    Some(s)
                },
                None => Some(r.start),
            }
        } else {
            prev
        }
    }
}

/// The fold a toggle at `row` acts on: the one starting there, else the
/// innermost one enclosing it.
pub open spec fn toggle_target(rs: Seq<FoldRange>, row: usize) -> Option<usize> {
    if widest(rs, row) is Some {
        Some(row)
    } else {
        max_enclosing(rs, row, rs.len() as int)
    }
}

/// Flip whether `s` is closed.
pub open spec fn flip(closed: Set<usize>, s: usize) -> Set<usize> {
    if closed.contains(s) {
        closed.remove(s)
    } else {
        closed.insert(s)
    }
}

/// Headers of the ranges.
pub open spec fn starts_of(rs: Seq<FoldRange>) -> Set<usize> {
    Set::new(|s: usize| exists|k: int| 0 <= k < rs.len() && rs[k].start == s)
}

/// Every range starts no later than it ends.
pub open spec fn ranges_ordered(rs: Seq<FoldRange>) -> bool {
    forall|k: int| 0 <= k < rs.len() ==> (#[trigger] rs[k]).start <= rs[k].end
}

proof fn lemma_widest_upto(rs: Seq<FoldRange>, row: usize, n: int)
    requires
        0 <= n <= rs.len(),
    ensures
        widest_upto(rs, row, n) is Some <==> exists|k: int| 0 <= k < n && rs[k].start == row,
        widest_upto(rs, row, n) is Some ==> exists|k: int|
            0 <= k < n && rs[k] == widest_upto(rs, row, n)->0,
        widest_upto(rs, row, n) is Some ==> widest_upto(rs, row, n)->0.start == row,
    decreases n,
{
    if n > 0 {
        lemma_widest_upto(rs, row, n - 1);
        if widest_upto(rs, row, n - 1) is Some {
            let k = choose|k: int| 0 <= k < n - 1 && rs[k].start == row;
            assert(0 <= k < n && rs[k].start == row);
        }
        if rs[n - 1].start == row {
            assert(0 <= n - 1 < n && rs[n - 1].start == row);
        }
        if exists|k: int| 0 <= k < n && rs[k].start == row {
            let k = choose|k: int| 0 <= k < n && rs[k].start == row;
            if k < n - 1 {
                assert(exists|k: int| 0 <= k < n - 1 && rs[k].start == row);
            }
        }
    }
}

proof fn lemma_max_enclosing(rs: Seq<FoldRange>, row: usize, n: int)
    requires
        0 <= n <= rs.len(),
    ensures
        max_enclosing(rs, row, n) is Some ==> exists|k: int|
            0 <= k < n && rs[k].start == max_enclosing(rs, row, n)->0,
    decreases n,
{
    if n > 0 {
        lemma_max_enclosing(rs, row, n - 1);
        if max_enclosing(rs, row, n) is Some {
            let s = max_enclosing(rs, row, n)->0;
            if s == rs[n - 1].start && rs[n - 1].start < row && row <= rs[n - 1].end {
                assert(0 <= n - 1 < n && rs[n - 1].start == s);
            } else {
                let k = choose|k: int| 0 <= k < n - 1 && rs[k].start == max_enclosing(rs, row, n - 1)->0;
                assert(0 <= k < n && rs[k].start == s);
            }
        }
    }
}

/// The fold ranges of a buffer, which of them are closed, and the indexes
/// derived from both.
#[derive(Debug)]
pub struct FoldState {
    /// Every detected fold, in order of its header line.
    pub ranges: Vec<FoldRange>,
    /// Header lines of the closed folds.
    pub closed: HashSet<usize>,
    /// Header row to the widest fold starting there.
    starts: HashMap<usize, FoldRange>,
    /// Every row inside a closed fold.
    hidden: HashSet<usize>,
    /// Changes whenever `hidden` may have.
    generation: u64,
}

impl FoldState {
    /// The derived indexes agree with `ranges` and `closed`.
    pub closed spec fn wf(&self) -> bool {
        &&& ranges_ordered(self.rs())
        &&& forall|row: usize| #[trigger]
            self.starts@.contains_key(row) == (widest(self.rs(), row) is Some)
        &&& forall|row: usize| #[trigger]
            self.starts@.contains_key(row) ==> self.starts@[row] == widest(self.rs(), row)->0
        &&& self.hidden@ == hidden_set(self.rs(), self.cl())
    }

    /// The fold ranges.
    pub closed spec fn rs(&self) -> Seq<FoldRange> {
        self.ranges@
    }

    /// The headers of the closed folds.
    pub closed spec fn cl(&self) -> Set<usize> {
        self.closed@
    }

    pub closed spec fn gen(&self) -> u64 {
        self.generation
    }

    /// The rows hidden inside closed folds.
    pub open spec fn hidden_rows(&self) -> Set<usize> {
        hidden_set(self.rs(), self.cl())
    }

    /// No folds, nothing closed.
    pub fn new() -> (f: Self)
        ensures
            f.wf(),
            f.rs() == Seq::<FoldRange>::empty(),
            f.cl() == Set::<usize>::empty(),
            f.gen() == 0,
    {
        let f = FoldState {
            ranges: Vec::new(),
            closed: HashSet::new(),
            starts: HashMap::new(),
            hidden: HashSet::new(),
            generation: 0,
        };
        assert(f.hidden@ =~= hidden_set(f.rs(), f.cl()));
        f
    }

    /// Forget every fold.
    pub fn clear(&mut self)
        ensures
            final(self).wf(),
            final(self).rs() == Seq::<FoldRange>::empty(),
            final(self).cl() == Set::<usize>::empty(),
            final(self).gen() == old(self).gen().wrapping_add(1),
    {
        self.ranges.clear();
        self.closed.clear();
        self.starts.clear();
        self.hidden.clear();
        self.generation = self.generation.wrapping_add(1);
        assert(self.hidden@ =~= hidden_set(self.rs(), self.cl()));
    }

    /// Rebuild `starts` from `ranges`.
    fn reindex_starts(&mut self)
        ensures
            final(self).ranges == old(self).ranges,
            final(self).closed == old(self).closed,
            final(self).hidden == old(self).hidden,
            final(self).generation == old(self).generation,
            forall|row: usize| #[trigger]
                final(self).starts@.contains_key(row) == (widest(final(self).rs(), row) is Some),
            forall|row: usize| #[trigger]
                final(self).starts@.contains_key(row) ==> final(self).starts@[row] == widest(
                    final(self).rs(),
                    row,
                )->0,
    {
        self.starts.clear();
        let mut i: usize = 0;
        while i < self.ranges.len()
            invariant
                i <= self.rs().len(),
                self.ranges == old(self).ranges,
                self.closed == old(self).closed,
                self.hidden == old(self).hidden,
                self.generation == old(self).generation,
                forall|row: usize| #[trigger]
                    self.starts@.contains_key(row) == (widest_upto(self.rs(), row, i as int) is Some),
                forall|row: usize| #[trigger]
                    self.starts@.contains_key(row) ==> self.starts@[row] == widest_upto(
                        self.rs(),
                        row,
                        i as int,
                    )->0,
            decreases self.rs().len() - i,
        {
            let r = self.ranges[i];
            let replace = match self.starts.get(&r.start) {
                Some(cur) => r.end > cur.end,
                None => true,
            };
            if replace {
                self.starts.insert(r.start, r);
            }
            i += 1;
        }
    }

    /// Recompute `hidden` from the closed folds.
    fn recompute_hidden(&mut self)
        requires
            ranges_ordered(old(self).rs()),
            forall|row: usize| #[trigger]
                old(self).starts@.contains_key(row) == (widest(old(self).rs(), row) is Some),
            forall|row: usize| #[trigger]
                old(self).starts@.contains_key(row) ==> old(self).starts@[row] == widest(
                    old(self).rs(),
                    row,
                )->0,
        ensures
            final(self).wf(),
            final(self).rs() == old(self).rs(),
            final(self).closed == old(self).closed,
            final(self).starts == old(self).starts,
            final(self).generation == old(self).generation.wrapping_add(1),
    {
        self.generation = self.generation.wrapping_add(1);
        self.hidden.clear();
        let ghost rs = self.rs();
        let ghost cl = self.cl();
        let mut i: usize = 0;
        while i < self.ranges.len()
            invariant
                i <= rs.len(),
                rs == self.rs(),
                cl == self.cl(),
                ranges_ordered(rs),
                self.ranges == old(self).ranges,
                self.closed == old(self).closed,
                self.starts == old(self).starts,
                self.generation == old(self).generation.wrapping_add(1),
                forall|row: usize| #[trigger]
                    self.starts@.contains_key(row) == (widest(rs, row) is Some),
                forall|row: usize| #[trigger]
                    self.starts@.contains_key(row) ==> self.starts@[row] == widest(rs, row)->0,
                forall|row: usize| #[trigger]
                    self.hidden@.contains(row) <==> exists|k: int|
                        0 <= k < i && cl.contains(#[trigger] rs[k].start) && widest(rs, rs[k].start)->0.start
                            < row <= widest(rs, rs[k].start)->0.end,
            decreases rs.len() - i,
        {
            let s = self.ranges[i].start;
            proof {
                lemma_widest_upto(rs, s, rs.len() as int);
                assert(0 <= i < rs.len() && rs[i as int].start == s);
            }
            if self.closed.contains(&s) {
                let r = *self.starts.get(&s).unwrap();
                proof {
                    let k = choose|k: int| 0 <= k < rs.len() && rs[k] == widest(rs, s)->0;
                    assert(rs[k].start <= rs[k].end);
                }
                let mut row = r.start;
                while row < r.end
                    invariant
                        r.start <= row <= r.end,
                        rs == self.rs(),
                        cl == self.cl(),
                        self.ranges == old(self).ranges,
                        self.closed == old(self).closed,
                        self.starts == old(self).starts,
                        self.generation == old(self).generation.wrapping_add(1),
                        r == widest(rs, s)->0,
                        cl.contains(s),
                        s == rs[i as int].start,
                        i < rs.len(),
                        forall|x: usize| #[trigger]
                            self.hidden@.contains(x) <==> (exists|k: int|
                                0 <= k < i && cl.contains(#[trigger] rs[k].start) && widest(rs, rs[k].start)->0.start
                                    < x <= widest(rs, rs[k].start)->0.end) || (r.start < x <= row),
                    decreases r.end - row,
                {
                    row += 1;
                    self.hidden.insert(row);
                }
            }
            proof {
                assert forall|x: usize|
                    #[trigger] self.hidden@.contains(x) <==> exists|k: int|
                        0 <= k < i + 1 && cl.contains(#[trigger] rs[k].start) && widest(rs, rs[k].start)->0.start
                            < x <= widest(rs, rs[k].start)->0.end by {
                    if exists|k: int|
                        0 <= k < i + 1 && cl.contains(#[trigger] rs[k].start) && widest(rs, rs[k].start)->0.start
                            < x <= widest(rs, rs[k].start)->0.end {
                        let k = choose|k: int|
                            0 <= k < i + 1 && cl.contains(#[trigger] rs[k].start) && widest(rs, rs[k].start)->0.start
                                < x <= widest(rs, rs[k].start)->0.end;
                        if k < i {
                            assert(exists|k: int|
                                0 <= k < i && cl.contains(#[trigger] rs[k].start) && widest(rs, rs[k].start)->0.start
                                    < x <= widest(rs, rs[k].start)->0.end);
                        }
                    }
                }
            }
            i += 1;
        }
        proof {
            assert forall|x: usize| self.hidden@.contains(x) == hidden_set(rs, cl).contains(x) by {
                if self.hidden@.contains(x) {
                    let k = choose|k: int|
                        0 <= k < rs.len() && cl.contains(#[trigger] rs[k].start) && widest(rs, rs[k].start)->0.start
                            < x <= widest(rs, rs[k].start)->0.end;
                    lemma_widest_upto(rs, rs[k].start, rs.len() as int);
                    assert(cl.contains(rs[k].start));
                }
                if hidden_set(rs, cl).contains(x) {
                    let s = choose|s: usize|
                        #![trigger cl.contains(s)]
                        cl.contains(s) && widest(rs, s) is Some && widest(rs, s)->0.start < x <= widest(rs, s)->0.end;
                    lemma_widest_upto(rs, s, rs.len() as int);
                    let k = choose|k: int| 0 <= k < rs.len() && rs[k].start == s;
                    assert(cl.contains(rs[k].start));
                }
            }
            assert(self.hidden@ =~= hidden_set(rs, cl));
        }
    }

    /// Rebuild the folds from the buffer's lines. A fold whose header still
    /// heads a fold keeps its closed state; the others open.
    pub fn rebuild(&mut self, lines: &[String], tab_width: usize)
        requires
            old(self).wf(),
            indents_fit(lines@, tab_width as int),
        ensures
            final(self).wf(),
            final(self).rs() == folds_spec(lines@, tab_width as int),
            final(self).cl() == old(self).cl().intersect(starts_of(final(self).rs())),
            final(self).gen() == old(self).gen().wrapping_add(1),
    {
        let ghost tw = tab_width as int;
        let ghost ls = lines@;
        let mut old_closed: HashSet<usize> = HashSet::new();
        std::mem::swap(&mut old_closed, &mut self.closed);
        self.ranges.clear();
        let n = lines.len();
        if n < 2 {
            self.starts.clear();
            self.hidden.clear();
            self.generation = self.generation.wrapping_add(1);
            assert(self.hidden@ =~= hidden_set(self.rs(), self.cl()));
            assert(self.cl() =~= old(self).cl().intersect(starts_of(self.rs())));
            return;
        }
        let mut indents: Vec<usize> = Vec::new();
        let mut blanks: Vec<bool> = Vec::new();
        let mut k: usize = 0;
        while k < n
            invariant
                k <= n,
                n == ls.len(),
                ls == lines@,
                indents_fit(ls, tw),
                tw == tab_width as int,
                indents@.len() == k,
                blanks@.len() == k,
                forall|j: int| 0 <= j < k ==> indents@[j] == indent_at(ls, tw, j),
                forall|j: int| 0 <= j < k ==> blanks@[j] == blank_at(ls, j),
            decreases n - k,
        {
            assert(indent_at(ls, tw, k as int) <= usize::MAX);
            indents.push(line_indent(lines[k].as_str(), tab_width));
            blanks.push(trim_str(lines[k].as_str()).len() == 0);
            k += 1;
        }
        let mut i: usize = 0;
        while i < n - 1
            invariant
                i <= n - 1,
                n == ls.len(),
                ls == lines@,
                tw == tab_width as int,
                indents@.len() == n,
                blanks@.len() == n,
                forall|j: int| 0 <= j < n ==> indents@[j] == indent_at(ls, tw, j),
                forall|j: int| 0 <= j < n ==> blanks@[j] == blank_at(ls, j),
                self.ranges@ == folds_upto(ls, tw, i as int),
                ranges_ordered(self.ranges@),
                self.closed@ == Set::<usize>::empty(),
                self.generation == old(self).generation,
            decreases n - 1 - i,
        {
            if !blanks[i] {
                let base = indents[i];
                let mut j = i + 1;
                while j < n && blanks[j]
                    invariant
                        i + 1 <= j <= n,
                        n == ls.len(),
                        blanks@.len() == n,
                        forall|q: int| 0 <= q < n ==> blanks@[q] == blank_at(ls, q),
                        next_nonblank(ls, j as int) == next_nonblank(ls, i + 1),
                    decreases n - j,
                {
                    j += 1;
                }
                if j < n && indents[j] > base {
                    let mut end = j;
                    let mut q = j;
                    while q < n && (blanks[q] || indents[q] > base)
                        invariant
                            j <= q <= n,
                            j <= end < n,
                            n == ls.len(),
                            base == indent_at(ls, tw, i as int),
                            indents@.len() == n,
                            blanks@.len() == n,
                            forall|x: int| 0 <= x < n ==> indents@[x] == indent_at(ls, tw, x),
                            forall|x: int| 0 <= x < n ==> blanks@[x] == blank_at(ls, x),
                            block_end(ls, tw, base as int, q as int, end as int) == block_end(
                                ls,
                                tw,
                                base as int,
                                j as int,
                                j as int,
                            ),
                        decreases n - q,
                    {
                        if !blanks[q] {
                            end = q;
                        }
                        q += 1;
                    }
                    if end > i {
                        self.ranges.push(FoldRange { start: i, end });
                    }
                }
            }
            proof {
                assert(folds_upto(ls, tw, i + 1) == folds_upto(ls, tw, i as int) + match fold_for(
                    ls,
                    tw,
                    i as int,
                ) {
                    Some(r) => seq![r],
                    None => seq![],
                });
                assert(self.ranges@ =~= folds_upto(ls, tw, i + 1));
            }
            i += 1;
        }
        let ghost rs = self.ranges@;
        let ghost oc = old_closed@;
        let mut r: usize = 0;
        while r < self.ranges.len()
            invariant
                r <= rs.len(),
                rs == self.ranges@,
                oc == old_closed@,
                self.generation == old(self).generation,
                ranges_ordered(rs),
                self.closed@ == oc.intersect(Set::new(|s: usize| exists|k: int| 0 <= k < r && rs[k].start == s)),
            decreases rs.len() - r,
        {
            let s = self.ranges[r].start;
            if old_closed.contains(&s) {
                self.closed.insert(s);
            }
            proof {
                assert forall|x: usize|
                    #![trigger self.closed@.contains(x)]
                    self.closed@.contains(x) == oc.intersect(
                        Set::new(|s: usize| exists|k: int| 0 <= k < r + 1 && rs[k].start == s),
                    ).contains(x) by {
                    if x == s {
                        assert(0 <= r < r + 1 && rs[r as int].start == s);
                    }
                    if exists|k: int| 0 <= k < r + 1 && rs[k].start == x {
                        let k = choose|k: int| 0 <= k < r + 1 && rs[k].start == x;
                        if k < r {
                            assert(exists|k: int| 0 <= k < r && rs[k].start == x);
                        }
                    }
                }
                assert(self.closed@ =~= oc.intersect(
                    Set::new(|s: usize| exists|k: int| 0 <= k < r + 1 && rs[k].start == s),
                ));
            }
            r += 1;
        }
        assert(self.closed@ =~= oc.intersect(starts_of(rs)));
        self.reindex_starts();
        self.recompute_hidden();
    }

    /// The widest fold starting at `row`.
    pub fn fold_at(&self, row: usize) -> (r: Option<FoldRange>)
        requires
            self.wf(),
        ensures
            r == widest(self.rs(), row),
    {
        match self.starts.get(&row) {
            Some(r) => Some(*r),
            None => None,
        }
    }

    pub fn is_closed(&self, start: usize) -> (b: bool)
        ensures
            b == self.cl().contains(start),
    {
        self.closed.contains(&start)
    }

    /// Is `row` hidden inside a closed fold? A header is not hidden by its
    /// own fold.
    pub fn is_hidden(&self, row: usize) -> (b: bool)
        requires
            self.wf(),
        ensures
            b == self.hidden_rows().contains(row),
    {
        self.hidden.contains(&row)
    }

    /// The headers of the folds that strictly contain `row`, outermost
    /// first, without hidden headers and without repeats.
    pub fn enclosing(&self, row: usize) -> (v: Vec<usize>)
        requires
            self.wf(),
        ensures
            forall|a: int, b: int| 0 <= a < b < v@.len() ==> v@[a] < v@[b],
            forall|s: usize|
                v@.contains(s) <==> (exists|k: int|
                    0 <= k < self.rs().len() && (#[trigger] self.rs()[k]).start == s && s < row
                        && row <= self.rs()[k].end) && !self.hidden_rows().contains(s),
    {
        let mut v: Vec<usize> = Vec::new();
        let mut i: usize = 0;
        while i < self.ranges.len()
            invariant
                i <= self.rs().len(),
                self.wf(),
                forall|a: int, b: int| 0 <= a < b < v@.len() ==> v@[a] < v@[b],
                forall|s: usize|
                    v@.contains(s) <==> (exists|k: int|
                        0 <= k < i && (#[trigger] self.rs()[k]).start == s && s < row
                            && row <= self.rs()[k].end) && !self.hidden_rows().contains(s),
            decreases self.rs().len() - i,
        {
            let r = self.ranges[i];
            let ghost old_v = v@;
            if row > r.start && row <= r.end && !self.is_hidden(r.start) {
                insert_sorted_unique(&mut v, r.start);
            }
            proof {
                assert forall|s: usize|
                    v@.contains(s) <==> (exists|k: int|
                        0 <= k < i + 1 && (#[trigger] self.rs()[k]).start == s && s < row
                            && row <= self.rs()[k].end) && !self.hidden_rows().contains(s) by {
                    if exists|k: int|
                        0 <= k < i + 1 && (#[trigger] self.rs()[k]).start == s && s < row
                            && row <= self.rs()[k].end {
                        let k = choose|k: int|
                            0 <= k < i + 1 && (#[trigger] self.rs()[k]).start == s && s < row
                                && row <= self.rs()[k].end;
                        if k < i {
                            assert(exists|k: int|
                                0 <= k < i && (#[trigger] self.rs()[k]).start == s && s < row
                                    && row <= self.rs()[k].end);
                        }
                    }
                }
            }
            i += 1;
        }
        v
    }

    /// Open or close the fold at `row` (the one starting there, else the
    /// innermost one enclosing it); says which it did.
    pub fn toggle(&mut self, row: usize) -> (msg: Option<&'static str>)
        requires
            old(self).wf(),
        ensures
            final(self).wf(),
            final(self).rs() == old(self).rs(),
            match toggle_target(old(self).rs(), row) {
                None => msg is None && final(self).cl() == old(self).cl() && final(self).gen()
                    == old(self).gen(),
                Some(s) => {
                    &&& final(self).cl() == flip(old(self).cl(), s)
                    &&& msg == if old(self).cl().contains(s) {
                        Some("opened fold")
                    } else {
                        Some("closed fold")
                    }
                    &&& final(self).gen() == old(self).gen().wrapping_add(1)
                },
            },
    {
        let ghost rs = self.rs();
        let start = if self.starts.contains_key(&row) {
            row
        } else {
            let mut best: Option<usize> = None;
            let mut i: usize = 0;
            while i < self.ranges.len()
                invariant
                    i <= rs.len(),
                    rs == self.rs(),
                    best == max_enclosing(rs, row, i as int),
                decreases rs.len() - i,
            {
                let r = self.ranges[i];
                if row > r.start && row <= r.end {
                    best = match best {
                        Some(s) => if r.start >= s {
                            Some(r.start)
                        } else {
                            Some(s)
                        },
                        None => Some(r.start),
                    };
                }
                i += 1;
            }
            match best {
                Some(s) => s,
                None => {
                    return None;
                },
            }
        };
        proof {
            if widest(rs, row) is None {
                lemma_max_enclosing(rs, row, rs.len() as int);
                let k = choose|k: int| 0 <= k < rs.len() && rs[k].start == start;
                lemma_widest_upto(rs, start, rs.len() as int);
            }
        }
        let msg = if self.closed.contains(&start) {
            self.closed.remove(&start);
            Some("opened fold")
        } else if self.starts.contains_key(&start) {
            self.closed.insert(start);
            Some("closed fold")
        } else {
            None
        };
        if msg.is_some() {
            self.recompute_hidden();
        }
        msg
    }

    /// Close the fold starting at `row`; false when none starts there.
    pub fn close_at(&mut self, row: usize) -> (ok: bool)
        requires
            old(self).wf(),
        ensures
            final(self).wf(),
            final(self).rs() == old(self).rs(),
            ok == (widest(old(self).rs(), row) is Some),
            ok ==> final(self).cl() == old(self).cl().insert(row) && final(self).gen() == old(
                self,
            ).gen().wrapping_add(1),
            !ok ==> final(self).cl() == old(self).cl() && final(self).gen() == old(self).gen(),
    {
        if !self.starts.contains_key(&row) {
            return false;
        }
        self.closed.insert(row);
        self.recompute_hidden();
        true
    }

    /// Open the fold starting at `row`; false when it was not closed.
    pub fn open_at(&mut self, row: usize) -> (removed: bool)
        requires
            old(self).wf(),
        ensures
            final(self).wf(),
            final(self).rs() == old(self).rs(),
            removed == old(self).cl().contains(row),
            final(self).cl() == old(self).cl().remove(row),
            final(self).gen() == if removed {
                old(self).gen().wrapping_add(1)
            } else {
                old(self).gen()
            },
    {
        let removed = self.closed.remove(&row);
        if removed {
            self.recompute_hidden();
        } else {
            assert(self.cl() =~= old(self).cl());
        }
        removed
    }

    /// Close every fold.
    pub fn close_all(&mut self)
        requires
            old(self).wf(),
        ensures
            final(self).wf(),
            final(self).rs() == old(self).rs(),
            final(self).cl() == old(self).cl().union(starts_of(old(self).rs())),
            final(self).gen() == old(self).gen().wrapping_add(1),
    {
        let ghost rs = self.rs();
        let mut i: usize = 0;
        while i < self.ranges.len()
            invariant
                i <= rs.len(),
                rs == self.rs(),
                self.ranges == old(self).ranges,
                self.starts == old(self).starts,
                self.hidden == old(self).hidden,
                self.generation == old(self).generation,
                self.cl() == old(self).cl().union(
                    Set::new(|s: usize| exists|k: int| 0 <= k < i && rs[k].start == s),
                ),
            decreases rs.len() - i,
        {
            let s = self.ranges[i].start;
            self.closed.insert(s);
            proof {
                assert forall|x: usize|
                    #![trigger self.cl().contains(x)]
                    self.cl().contains(x) == old(self).cl().union(
                        Set::new(|s: usize| exists|k: int| 0 <= k < i + 1 && rs[k].start == s),
                    ).contains(x) by {
                    if x == s {
                        assert(0 <= i < i + 1 && rs[i as int].start == s);
                    }
                    if exists|k: int| 0 <= k < i + 1 && rs[k].start == x {
                        let k = choose|k: int| 0 <= k < i + 1 && rs[k].start == x;
                        if k < i {
                            assert(exists|k: int| 0 <= k < i && rs[k].start == x);
                        }
                    }
                }
                assert(self.cl() =~= old(self).cl().union(
                    Set::new(|s: usize| exists|k: int| 0 <= k < i + 1 && rs[k].start == s),
                ));
            }
            i += 1;
        }
        assert(self.cl() =~= old(self).cl().union(starts_of(rs)));
        self.recompute_hidden();
    }

    /// Open every fold.
    pub fn open_all(&mut self)
        requires
            old(self).wf(),
        ensures
            final(self).wf(),
            final(self).rs() == old(self).rs(),
            final(self).cl() == Set::<usize>::empty(),
            final(self).gen() == old(self).gen().wrapping_add(1),
    {
        self.closed.clear();
        self.hidden.clear();
        self.generation = self.generation.wrapping_add(1);
        assert(self.hidden@ =~= hidden_set(self.rs(), self.cl()));
    }

    /// Changes whenever the set of hidden rows may have.
    pub fn generation(&self) -> (g: u64)
        ensures
            g == self.gen(),
    {
        self.generation
    }

    /// The next row drawn after `row`: a closed fold is stepped over whole.
    pub fn next_visible(&self, row: usize) -> (n: usize)
        requires
            self.wf(),
        ensures
            n == match widest(self.rs(), row) {
                Some(r) => if self.cl().contains(row) {
                    r.end.saturating_add(1)
                } else {
                    row.saturating_add(1)
                },
                None => row.saturating_add(1),
            },
    {
        match self.starts.get(&row) {
            Some(r) => {
                if self.closed.contains(&row) {
                    r.end.saturating_add(1)
                } else {
                    row.saturating_add(1)
                }
            },
            None => row.saturating_add(1),
        }
    }

    /// Lines hidden under the fold starting at `start` when it is closed.
    pub fn closed_count(&self, start: usize) -> (n: usize)
        requires
            self.wf(),
        ensures
            n == match widest(self.rs(), start) {
                Some(r) => if self.cl().contains(start) {
                    (r.end - r.start) as usize
                } else {
                    0
                },
                None => 0,
            },
    {
        match self.fold_at(start) {
            Some(r) => {
                if self.is_closed(start) {
                    proof {
                        lemma_widest_upto(self.rs(), start, self.rs().len() as int);
                        let k = choose|k: int| 0 <= k < self.rs().len() && self.rs()[k] == r;
                        assert(self.rs()[k].start <= self.rs()[k].end);
                    }
                    r.end - r.start
                } else {
                    0
                }
            },
            None => 0,
        }
    }
}

proof fn lemma_indent_nonneg(s: Seq<char>, tw: int, i: int)
    requires
        tw >= 0,
    ensures
        indent_from(s, tw, i) >= 0,
    decreases s.len() - i,
{
    if 0 <= i < s.len() {
        lemma_indent_nonneg(s, tw, i + 1);
    }
}

/// Indentation width of `line`: a space counts one, a tab `tab_width`.
fn line_indent(line: &str, tab_width: usize) -> (n: usize)
    requires
        indent_from(line@, tab_width as int, 0) <= usize::MAX,
    ensures
        n == indent_from(line@, tab_width as int, 0),
{
    let cs = chars_of(line);
    let ghost tw = tab_width as int;
    let mut n: usize = 0;
    let mut i: usize = 0;
    while i < cs.len() && (cs[i] == ' ' || cs[i] == '\t')
        invariant
            i <= cs@.len(),
            cs@ == line@,
            tw == tab_width as int,
            n + indent_from(cs@, tw, i as int) == indent_from(cs@, tw, 0),
            indent_from(cs@, tw, 0) <= usize::MAX,
        decreases cs@.len() - i,
    {
        proof {
            lemma_indent_nonneg(cs@, tw, i + 1);
        }
        if cs[i] == ' ' {
            n += 1;
        } else {
            n += tab_width;
        }
        i += 1;
    }
    n
}

/// Insert `x` into the strictly increasing `v`, unless it is there.
fn insert_sorted_unique(v: &mut Vec<usize>, x: usize)
    requires
        forall|a: int, b: int| 0 <= a < b < old(v)@.len() ==> old(v)@[a] < old(v)@[b],
    ensures
        forall|a: int, b: int| 0 <= a < b < final(v)@.len() ==> final(v)@[a] < final(v)@[b],
        forall|s: usize| final(v)@.contains(s) <==> (old(v)@.contains(s) || s == x),
{
    let mut j: usize = 0;
    while j < v.len() && v[j] < x
        invariant
            j <= v@.len(),
            v@ == old(v)@,
            forall|a: int| 0 <= a < j ==> v@[a] < x,
        decreases v@.len() - j,
    {
        j += 1;
    }
    if j < v.len() && v[j] == x {
        assert(v@[j as int] == x);
        return;
    }
    let ghost before = v@;
    v.insert(j, x);
    proof {
        assert forall|a: int, b: int| 0 <= a < b < v@.len() implies v@[a] < v@[b] by {
            if b < j {
            } else if b == j {
            } else if a < j {
                assert(v@[b] == before[b - 1]);
                assert(before[j as int] > x);
                if b - 1 > j {
                    assert(before[j as int] < before[b - 1]);
                }
            } else if a == j {
                assert(v@[b] == before[b - 1]);
                if b - 1 > j {
                    assert(before[j as int] < before[b - 1]);
                }
            } else {
                assert(v@[a] == before[a - 1] && v@[b] == before[b - 1]);
            }
        }
        lemma_insert_contains(before, j as int, x);
    }
}

proof fn lemma_insert_contains(before: Seq<usize>, j: int, x: usize)
    requires
        0 <= j <= before.len(),
    ensures
        forall|s: usize| #[trigger] before.insert(j, x).contains(s) <==> (before.contains(s) || s == x),
{
    let after = before.insert(j, x);
    assert forall|s: usize| #[trigger] after.contains(s) <==> (before.contains(s) || s == x) by {
        if after.contains(s) {
            let k = choose|k: int| 0 <= k < after.len() && after[k] == s;
            if k < j {
                assert(before[k] == s);
            } else if k > j {
                assert(before[k - 1] == s);
            }
        }
        if before.contains(s) {
            let k = choose|k: int| 0 <= k < before.len() && before[k] == s;
            if k < j {
                assert(after[k] == s);
            } else {
                assert(after[k + 1] == s);
            }
        }
        if s == x {
            assert(after[j] == x);
        }
    }
}

/// Toggling the same fold twice leaves the closed set as it was.
pub proof fn law_toggle_twice(closed: Set<usize>, s: usize)
    ensures
        flip(flip(closed, s), s) == closed,
{
    if closed.contains(s) {
        assert(closed.remove(s).insert(s) =~= closed);
    } else {
        assert(closed.insert(s).remove(s) =~= closed);
    }
}

/// A generation bump always yields a different number, so a changed hidden
/// set is never mistaken for the old one.
pub proof fn law_generation_bump_differs(g: u64)
    ensures
        g.wrapping_add(1) != g,
{
}

proof fn lemma_block_end_bounds(ls: Seq<String>, tw: int, base: int, k: int, end: int)
    requires
        0 <= end < ls.len(),
        end <= k,
    ensures
        end <= block_end(ls, tw, base, k, end) < ls.len(),
    decreases ls.len() - k,
{
    if k < ls.len() {
        if blank_at(ls, k) {
            lemma_block_end_bounds(ls, tw, base, k + 1, end);
        } else if indent_at(ls, tw, k) > base {
            lemma_block_end_bounds(ls, tw, base, k + 1, k);
        }
    }
}

proof fn lemma_next_nonblank_bounds(ls: Seq<String>, k: int)
    requires
        0 <= k <= ls.len(),
    ensures
        k <= next_nonblank(ls, k) <= ls.len(),
    decreases ls.len() - k,
{
    if k < ls.len() && blank_at(ls, k) {
        lemma_next_nonblank_bounds(ls, k + 1);
    }
}

proof fn lemma_folds_upto_in_text(ls: Seq<String>, tw: int, m: int)
    requires
        0 <= m < ls.len(),
        ls.len() <= usize::MAX,
    ensures
        forall|k: int| 0 <= k < folds_upto(ls, tw, m).len() ==> {
            let r = #[trigger] folds_upto(ls, tw, m)[k];
            &&& r.start < m
            &&& r.start < r.end
            &&& r.end < ls.len()
            &&& !blank_at(ls, r.start as int)
        },
    decreases m,
{
    if m > 0 {
        lemma_folds_upto_in_text(ls, tw, m - 1);
        let i = m - 1;
        if let Some(r) = fold_for(ls, tw, i) {
            let base = indent_at(ls, tw, i);
            let j = next_nonblank(ls, i + 1);
            lemma_next_nonblank_bounds(ls, i + 1);
            lemma_block_end_bounds(ls, tw, base, j, j);
        }
        let prev = folds_upto(ls, tw, m - 1);
        let tail = match fold_for(ls, tw, m - 1) {
            Some(r) => seq![r],
            None => Seq::<FoldRange>::empty(),
        };
        assert(folds_upto(ls, tw, m) == prev + tail);
        assert forall|k: int| 0 <= k < folds_upto(ls, tw, m).len() implies {
            let r = #[trigger] folds_upto(ls, tw, m)[k];
            &&& r.start < m
            &&& r.start < r.end
            &&& r.end < ls.len()
            &&& !blank_at(ls, r.start as int)
        } by {
            if k < prev.len() {
                assert(folds_upto(ls, tw, m)[k] == prev[k]);
            } else {
                assert(folds_upto(ls, tw, m)[k] == tail[0]);
            }
        }
    }
}

/// Every fold lies inside the text: its header is a line that is not blank,
/// it ends after its header and on a line of the text; text of fewer than
/// two lines has no fold.
pub proof fn law_folds_lie_in_the_text(ls: Seq<String>, tw: int)
    requires
        ls.len() <= usize::MAX,
    ensures
        ls.len() < 2 ==> folds_spec(ls, tw).len() == 0,
        forall|k: int| 0 <= k < folds_spec(ls, tw).len() ==> {
            let r = #[trigger] folds_spec(ls, tw)[k];
            &&& r.start < r.end
            &&& r.end < ls.len()
            &&& !blank_at(ls, r.start as int)
        },
{
    if ls.len() >= 2 {
        lemma_folds_upto_in_text(ls, tw, ls.len() - 1);
    }
}

} // verus!
