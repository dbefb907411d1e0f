//! Incremental search: the find bar's model.
//!
//! The committed pattern, the live query, the matches in row order and the
//! origins that Esc restores, together with the pure computations over them:
//! finding every match, the nearest match to a position, stepping and
//! cycling through matches with wrap-around.

use vstd::prelude::*;
use vstd::string::StrSliceExecFns;
use crate::position::{Position, pos_le, pos_lt};
use crate::text::{chars_of, char_is_upper, char_lower, to_lower, matches_at, is_upper, lower_char, lowercase};

verus! {

/// The view of an optional string.
pub open spec fn opt_view(o: Option<String>) -> Option<Seq<char>> {
    match o {
        Some(s) => Some(s@),
        None => None,
    }
}

pub open spec fn opt_str_view(o: Option<&str>) -> Option<Seq<char>> {
    match o {
        Some(s) => Some(s@),
        None => None,
    }
}

/// The find bar's state.
#[derive(Debug, Clone)]
pub struct SearchState {
    /// Committed pattern: survives leaving the bar, drives `n`/`N` and the
    /// persistent highlight.
    pub pattern: Option<String>,
    /// Live query while the bar is open.
    pub input: String,
    /// Match positions in row order.
    pub matches: Vec<Position>,
    /// Index into `matches` of the match the caret sits on.
    pub current: usize,
    /// Caret when the bar opened; Esc puts it back.
    pub origin: Option<Position>,
    /// Scroll when the bar opened; Esc puts it back.
    pub scroll_origin: usize,
    /// Pattern in force before this search session, restored on cancel.
    pub pattern_backup: Option<String>,
    /// Forward (`/`) or reverse (`?`); `n` follows it, `N` opposes it.
    pub forward: bool,
    /// What a replace puts in place of a match.
    pub replace_input: String,
}

/// The pattern in force for highlighting: the live input while in the bar
/// (none while it is empty), the committed pattern elsewhere.
pub open spec fn active_spec(st: SearchState, in_search_mode: bool) -> Option<Seq<char>> {
    if in_search_mode {
        if st.input@.len() == 0 {
            None
        } else {
            Some(st.input@)
        }
    } else {
        opt_view(st.pattern)
    }
}

/// `k` is the first index of `m` that `pred` accepts.
pub open spec fn first_where(m: Seq<Position>, k: int, pred: spec_fn(Position) -> bool) -> bool {
    &&& 0 <= k < m.len()
    &&& pred(m[k])
    &&& forall|j: int| 0 <= j < k ==> !pred(#[trigger] m[j])
}

/// `k` is the last index of `m` that `pred` accepts.
pub open spec fn last_where(m: Seq<Position>, k: int, pred: spec_fn(Position) -> bool) -> bool {
    &&& 0 <= k < m.len()
    &&& pred(m[k])
    &&& forall|j: int| k < j < m.len() ==> !pred(#[trigger] m[j])
}

/// No index of `m` is accepted by `pred`.
pub open spec fn none_where(m: Seq<Position>, pred: spec_fn(Position) -> bool) -> bool {
    forall|j: int| 0 <= j < m.len() ==> !pred(#[trigger] m[j])
}

/// The first index accepted by `pred`, else `fallback`.
pub open spec fn first_or(m: Seq<Position>, k: int, pred: spec_fn(Position) -> bool, fallback: int) -> bool {
    first_where(m, k, pred) || (none_where(m, pred) && k == fallback)
}

/// The last index accepted by `pred`, else `fallback`.
pub open spec fn last_or(m: Seq<Position>, k: int, pred: spec_fn(Position) -> bool, fallback: int) -> bool {
    last_where(m, k, pred) || (none_where(m, pred) && k == fallback)
}

/// Rows never decrease along `m`.
pub open spec fn rows_sorted(m: Seq<Position>) -> bool {
    forall|i: int, j: int| 0 <= i <= j < m.len() ==> (#[trigger] m[i]).row <= (#[trigger] m[j]).row
}

// ── Finding matches ─────────────────────────────────────────────────────────

/// An all-lowercase pattern searches without regard to case.
pub open spec fn smart_case(p: Seq<char>) -> bool {
    forall|i: int| 0 <= i < p.len() ==> !is_upper(#[trigger] p[i])
}

/// Each character replaced by the first character of its lowercase form.
pub open spec fn lowered(s: Seq<char>) -> Seq<char> {
    Seq::new(s.len(), |i: int| lower_char(s[i]))
}

/// Every occurrence of `pat` in `line` at column `i` or later, overlapping
/// ones included, as positions on `row`.
pub open spec fn hits_all(line: Seq<char>, pat: Seq<char>, row: usize, i: int) -> Seq<Position>
    decreases line.len() - i,
{
    if pat.len() == 0 || i < 0 || i + pat.len() > line.len() {
        seq![]
    } else if line.subrange(i, i + pat.len()) == pat {
        seq![Position { row, col: i as usize }] + hits_all(line, pat, row, i + 1)
    } else {
        hits_all(line, pat, row, i + 1)
    }
}

/// The matches of `pat` on one line, overlapping ones included:
/// case-insensitive for a smart-case pattern, exact otherwise.
pub open spec fn row_hits(line: Seq<char>, pat: Seq<char>, row: usize) -> Seq<Position> {
    if smart_case(pat) {
        hits_all(lowered(line), lowercase(pat), row, 0)
    } else {
        hits_all(line, pat, row, 0)
    }
}

/// The matches on the first `n` lines, in row order.
pub open spec fn collect_spec(lines: Seq<Seq<char>>, pat: Seq<char>, n: int) -> Seq<Position>
    decreases n,
{
    if n <= 0 {
        seq![]
    } else {
        collect_spec(lines, pat, n - 1) + row_hits(lines[n - 1], pat, (n - 1) as usize)
    }
}

/// The text of each line.
pub open spec fn line_texts(lines: Seq<String>) -> Seq<Seq<char>> {
    lines.map_values(|s: String| s@)
}

fn push_all_hits(out: &mut Vec<Position>, line: &[char], pat: &[char], row: usize)
    ensures
        final(out)@ == old(out)@ + hits_all(line@, pat@, row, 0),
{
    let n = line.len();
    let plen = pat.len();
    if plen == 0 || plen > n {
        return;
    }
    let mut i: usize = 0;
    while i <= n - plen
        invariant
            0 < plen <= n,
            n == line@.len(),
            plen == pat@.len(),
            i <= n - plen + 1,
            out@ + hits_all(line@, pat@, row, i as int) == old(out)@ + hits_all(line@, pat@, row, 0),
        decreases n - i,
    {
        if matches_at(line, i, pat) {
            out.push(Position::new(row, i));
            assert(out@ + hits_all(line@, pat@, row, i + 1) =~= old(out)@ + hits_all(line@, pat@, row, 0));
        }
        i += 1;
    }
}

/// Does `p` contain no uppercase character?
fn is_smart_case(p: &[char]) -> (b: bool)
    ensures
        b == smart_case(p@),
{
    let mut i: usize = 0;
    while i < p.len()
        invariant
            i <= p@.len(),
            forall|j: int| 0 <= j < i ==> !is_upper(#[trigger] p@[j]),
        decreases p@.len() - i,
    {
        if char_is_upper(p[i]) {
            return false;
        }
        i += 1;
    }
    true
}

fn lower_each(s: &[char]) -> (r: Vec<char>)
    ensures
        r@ == lowered(s@),
{
    let mut r: Vec<char> = Vec::new();
    let mut i: usize = 0;
    while i < s.len()
        invariant
            i <= s@.len(),
            r@ == lowered(s@).take(i as int),
        decreases s@.len() - i,
    {
        r.push(char_lower(s[i]));
        assert(r@ =~= lowered(s@).take(i + 1));
        i += 1;
    }
    assert(r@ =~= lowered(s@));
    r
}

impl SearchState {
    /// The pattern saved when the bar opened.
    pub open spec fn backup(&self) -> Option<Seq<char>> {
        opt_view(self.pattern_backup)
    }

    /// Open the find bar.
    pub fn begin(&mut self, forward: bool, cursor: Position, scroll: usize)
        ensures
            final(self).forward == forward,
            final(self).origin == Some(cursor),
            final(self).scroll_origin == scroll,
            final(self).backup() == opt_view(old(self).pattern),
            final(self).input@ == Seq::<char>::empty(),
            final(self).pattern == old(self).pattern,
            final(self).matches == old(self).matches,
            final(self).current == old(self).current,
    {
        self.forward = forward;
        self.origin = Some(cursor);
        self.scroll_origin = scroll;
        self.pattern_backup = match &self.pattern {
            Some(p) => Some(p.clone()),
            None => None,
        };
        self.input = String::new();
    }

    /// Leave the bar, keeping the committed pattern (Enter).
    pub fn finish(&mut self)
        ensures
            final(self).input@ == Seq::<char>::empty(),
            final(self).origin == None::<Position>,
            final(self).backup() == None::<Seq<char>>,
            final(self).pattern == old(self).pattern,
            final(self).matches == old(self).matches,
            final(self).current == old(self).current,
            final(self).scroll_origin == old(self).scroll_origin,
            final(self).forward == old(self).forward,
    {
        self.input = String::new();
        self.origin = None;
        self.pattern_backup = None;
    }

    /// Esc: give back the caret origin, the scroll origin and the pattern in
    /// force before the search, which becomes the committed pattern again.
    pub fn cancel(&mut self) -> (r: (Option<Position>, usize, Option<String>))
        ensures
            r.0 == old(self).origin,
            r.1 == old(self).scroll_origin,
            opt_view(r.2) == old(self).backup(),
            opt_view(final(self).pattern) == old(self).backup(),
            final(self).backup() == None::<Seq<char>>,
            final(self).origin == None::<Position>,
            final(self).input@ == Seq::<char>::empty(),
            final(self).matches@ == Seq::<Position>::empty(),
            final(self).current == 0,
            final(self).scroll_origin == old(self).scroll_origin,
            final(self).forward == old(self).forward,
    {
        let origin = self.origin;
        self.origin = None;
        let scroll = self.scroll_origin;
        self.input = String::new();
        let restored = match &self.pattern_backup {
            Some(p) => Some(p.clone()),
            None => None,
        };
        self.pattern_backup = None;
        self.pattern = restored;
        self.matches.clear();
        self.current = 0;
        let back = match &self.pattern {
            Some(p) => Some(p.clone()),
            None => None,
        };
        (origin, scroll, back)
    }

    /// The pattern used for highlighting.
    pub fn active_pattern(&self, in_search_mode: bool) -> (r: Option<&str>)
        ensures
            opt_str_view(r) == active_spec(*self, in_search_mode),
    {
        if in_search_mode {
            if self.input.as_str().unicode_len() == 0 {
                None
            } else {
                Some(self.input.as_str())
            }
        } else {
            match &self.pattern {
                Some(p) => Some(p.as_str()),
                None => None,
            }
        }
    }

    /// Length in characters of the active pattern; 0 when there is none.
    pub fn pattern_len_chars(&self, in_search_mode: bool) -> (n: usize)
        ensures
            n == match active_spec(*self, in_search_mode) {
                Some(p) => p.len(),
                None => 0,
            },
    {
        match self.active_pattern(in_search_mode) {
            Some(p) => p.unicode_len(),
            None => 0,
        }
    }

    /// The matches on `row`, with the index of the first of them.
    pub fn row_slice(&self, row: usize) -> (r: (usize, &[Position]))
        requires
            rows_sorted(self.matches@),
        ensures
            r.0 + r.1@.len() <= self.matches@.len(),
            r.1@ == self.matches@.subrange(r.0 as int, r.0 + r.1@.len()),
            forall|i: int| 0 <= i < r.0 ==> (#[trigger] self.matches@[i]).row < row,
            forall|i: int| 0 <= i < r.1@.len() ==> (#[trigger] r.1@[i]).row == row,
            forall|i: int| r.0 + r.1@.len() <= i < self.matches@.len() ==> (
            #[trigger] self.matches@[i]).row > row,
    {
        let lo = partition_rows(&self.matches, row, false);
        let hi = partition_rows(&self.matches, row, true);
        assert(lo <= hi) by {
            if hi < lo {
                assert(self.matches@[hi as int].row <= row);
            }
        }
        (lo, vstd::slice::slice_subrange(self.matches.as_slice(), lo, hi))
    }

    /// Is the current match at `(row, col)`?
    pub fn is_current_match(&self, row: usize, col: usize) -> (b: bool)
        ensures
            b == (self.current < self.matches@.len() && self.matches@[self.current as int].row == row
                && self.matches@[self.current as int].col == col),
    {
        if self.current < self.matches.len() {
            let p = self.matches[self.current];
            p.row == row && p.col == col
        } else {
            false
        }
    }

    /// The match a fresh search from `from` lands on: the first at or after
    /// it going forward, the last at or before it going back, wrapping to the
    /// far end when none qualifies. `None` without matches.
    pub fn nearest(&self, from: Position, forward: bool) -> (r: Option<usize>)
        ensures
            r is None <==> self.matches@.len() == 0,
            r matches Some(k) ==> (if forward {
                first_or(self.matches@, k as int, |p: Position| pos_le(from, p), 0)
            } else {
                last_or(self.matches@, k as int, |p: Position| pos_le(p, from), self.matches@.len() - 1)
            }),
    {
        let n = self.matches.len();
        if n == 0 {
            return None;
        }
        if forward {
            let mut i: usize = 0;
            while i < n && !from.le(&self.matches[i])
                invariant
                    n == self.matches@.len(),
                    i <= n,
                    forall|j: int| 0 <= j < i ==> !pos_le(from, #[trigger] self.matches@[j]),
                decreases n - i,
            {
                i += 1;
            }
            if i == n {
                Some(0)
            } else {
                Some(i)
            }
        } else {
            let mut i: usize = n;
            while i > 0 && !self.matches[i - 1].le(&from)
                invariant
                    n == self.matches@.len(),
                    i <= n,
                    forall|j: int| i <= j < n ==> !pos_le(#[trigger] self.matches@[j], from),
                decreases i,
            {
                i -= 1;
            }
            if i == 0 {
                Some(n - 1)
            } else {
                Some(i - 1)
            }
        }
    }

    /// The next match strictly past `cur`, wrapping at the ends, and whether
    /// the step wrapped.
    pub fn step(&self, cur: Position, forward: bool) -> (r: Option<(usize, bool)>)
        ensures
            r is None <==> self.matches@.len() == 0,
            r matches Some((k, wrapped)) ==> {
                &&& if forward {
                    first_or(self.matches@, k as int, |p: Position| pos_lt(cur, p), 0)
                } else {
                    last_or(self.matches@, k as int, |p: Position| pos_lt(p, cur), self.matches@.len() - 1)
                }
                &&& wrapped == if forward {
                    k == 0 && pos_le(self.matches@[k as int], cur)
                } else {
                    k == self.matches@.len() - 1 && pos_le(cur, self.matches@[k as int])
                }
            },
    {
        let n = self.matches.len();
        if n == 0 {
            return None;
        }
        let idx: usize = if forward {
            let mut i: usize = 0;
            while i < n && !cur.lt(&self.matches[i])
                invariant
                    n == self.matches@.len(),
                    i <= n,
                    forall|j: int| 0 <= j < i ==> !pos_lt(cur, #[trigger] self.matches@[j]),
                decreases n - i,
            {
                i += 1;
            }
            if i == n {
                0
            } else {
                i
            }
        } else {
            let mut i: usize = n;
            while i > 0 && !self.matches[i - 1].lt(&cur)
                invariant
                    n == self.matches@.len(),
                    i <= n,
                    forall|j: int| i <= j < n ==> !pos_lt(#[trigger] self.matches@[j], cur),
                decreases i,
            {
                i -= 1;
            }
            if i == 0 {
                n - 1
            } else {
                i - 1
            }
        };
        let pos = self.matches[idx];
        let wrapped = if forward {
            idx == 0 && pos.le(&cur)
        } else {
            idx == n - 1 && cur.le(&pos)
        };
        Some((idx, wrapped))
    }

    /// Move the live match while still typing; the caret goes to the result.
    pub fn cycle(&mut self, forward: bool) -> (r: Option<Position>)
        requires
            old(self).matches@.len() > 0 && !forward ==> old(self).current <= old(self).matches@.len(),
        ensures
            old(self).matches@.len() == 0 ==> r is None && final(self).current == old(self).current,
            old(self).matches@.len() > 0 ==> {
                &&& final(self).current == if forward {
                    (old(self).current + 1) % (old(self).matches@.len() as int)
                } else if old(self).current == 0 {
                    old(self).matches@.len() - 1
                } else {
                    old(self).current - 1
                }
                &&& final(self).current < old(self).matches@.len()
                &&& r == Some(old(self).matches@[final(self).current as int])
            },
            final(self).matches == old(self).matches,
            final(self).pattern == old(self).pattern,
            final(self).input == old(self).input,
    {
        let n = self.matches.len();
        if n == 0 {
            return None;
        }
        let c = self.current;
        let next: usize = if forward {
            if c < n - 1 {
                proof {
                    vstd::arithmetic::div_mod::lemma_small_mod((c + 1) as nat, n as nat);
                }
                c + 1
            } else {
                proof {
                    vstd::arithmetic::div_mod::lemma_add_mod_noop(c as int, 1, n as int);
                    vstd::arithmetic::div_mod::lemma_mod_bound(c as int, n as int);
                    vstd::arithmetic::div_mod::lemma_mod_bound((c % n) as int + 1, n as int);
                    if n > 1 {
                        vstd::arithmetic::div_mod::lemma_small_mod(1, n as nat);
                    }
                }
                (c % n + 1) % n
            }
        } else if c == 0 {
            n - 1
        } else {
            c - 1
        };
        self.current = next;
        Some(self.matches[self.current])
    }

    /// Every match of `pattern` in `lines`, in row order. An all-lowercase
    /// pattern matches without regard to case; any uppercase character makes
    /// the search exact. Overlapping matches count either way.
    pub fn collect(lines: &[String], pattern: &str) -> (out: Vec<Position>)
        ensures
            pattern@.len() == 0 ==> out@ == Seq::<Position>::empty(),
            pattern@.len() > 0 ==> out@ == collect_spec(line_texts(lines@), pattern@, lines@.len() as int),
    {
        let mut out: Vec<Position> = Vec::new();
        let pat = chars_of(pattern);
        if pat.len() == 0 {
            return out;
        }
        let smart = is_smart_case(pat.as_slice());
        let pat_lower = if smart {
            let l = to_lower(pattern);
            chars_of(l.as_str())
        } else {
            Vec::new()
        };
        let mut row: usize = 0;
        while row < lines.len()
            invariant
                row <= lines@.len(),
                pat@ == pattern@,
                smart == smart_case(pattern@),
                smart ==> pat_lower@ == lowercase(pattern@),
                out@ == collect_spec(line_texts(lines@), pattern@, row as int),
            decreases lines@.len() - row,
        {
            let line = chars_of(lines[row].as_str());
            if smart {
                let lower = lower_each(line.as_slice());
                push_all_hits(&mut out, lower.as_slice(), pat_lower.as_slice(), row);
            } else {
                push_all_hits(&mut out, line.as_slice(), pat.as_slice(), row);
            }
            row += 1;
        }
        out
    }
}

/// The first index whose match `below` does not accept, where `below` is
/// "row before `row`" or, when `inclusive`, "row at most `row`".
fn partition_rows(m: &Vec<Position>, row: usize, inclusive: bool) -> (k: usize)
    requires
        rows_sorted(m@),
    ensures
        k <= m@.len(),
        forall|i: int| 0 <= i < k ==> if inclusive {
            (#[trigger] m@[i]).row <= row
        } else {
            m@[i].row < row
        },
        forall|i: int| k <= i < m@.len() ==> if inclusive {
            (#[trigger] m@[i]).row > row
        } else {
            m@[i].row >= row
        },
{
    let mut lo: usize = 0;
    let mut hi: usize = m.len();
    while lo < hi
        invariant
            lo <= hi <= m@.len(),
            rows_sorted(m@),
            forall|i: int| 0 <= i < lo ==> if inclusive {
                (#[trigger] m@[i]).row <= row
            } else {
                m@[i].row < row
            },
            forall|i: int| hi <= i < m@.len() ==> if inclusive {
                (#[trigger] m@[i]).row > row
            } else {
                m@[i].row >= row
            },
        decreases hi - lo,
    {
        let mid = lo + (hi - lo) / 2;
        let r = m[mid].row;
        let below = if inclusive { r <= row } else { r < row };
        if below {
            assert forall|i: int| 0 <= i <= mid implies if inclusive {
                (#[trigger] m@[i]).row <= row
            } else {
                m@[i].row < row
            } by {
                assert(m@[i].row <= m@[mid as int].row);
            }
            lo = mid + 1;
        } else {
            assert forall|i: int| mid <= i < m@.len() implies if inclusive {
                (#[trigger] m@[i]).row > row
            } else {
                m@[i].row >= row
            } by {
                assert(m@[mid as int].row <= m@[i].row);
            }
            hi = mid;
        }
    }
    lo
}

impl Default for SearchState {
    fn default() -> (r: Self)
        ensures
            r.pattern == None::<String>,
            r.input@ == Seq::<char>::empty(),
            r.matches@ == Seq::<Position>::empty(),
            r.current == 0,
            r.origin == None::<Position>,
            r.scroll_origin == 0,
            r.backup() == None::<Seq<char>>,
            r.forward,
            r.replace_input@ == Seq::<char>::empty(),
    {
        SearchState {
            pattern: None,
            input: String::new(),
            matches: Vec::new(),
            current: 0,
            origin: None,
            scroll_origin: 0,
            pattern_backup: None,
            forward: true,
            replace_input: String::new(),
        }
    }
}

/// `pat` occurs exactly, character for character, in `line` at column `c`.
pub open spec fn occurs_at(line: Seq<char>, pat: Seq<char>, c: int) -> bool {
    0 <= c && c + pat.len() <= line.len() && line.subrange(c, c + pat.len()) == pat
}

proof fn lemma_hits_all_exact(line: Seq<char>, pat: Seq<char>, row: usize, i: int)
    requires
        0 <= i,
        pat.len() > 0,
        line.len() <= usize::MAX,
    ensures
        forall|j: int| 0 <= j < hits_all(line, pat, row, i).len() ==> {
            let q = #[trigger] hits_all(line, pat, row, i)[j];
            q.row == row && i <= q.col && occurs_at(line, pat, q.col as int)
        },
        forall|c: int| i <= c && #[trigger] occurs_at(line, pat, c) ==> hits_all(line, pat, row, i).contains(
            Position { row, col: c as usize },
        ),
    decreases line.len() - i,
{
    if i + pat.len() <= line.len() {
        lemma_hits_all_exact(line, pat, row, i + 1);
        let rest = hits_all(line, pat, row, i + 1);
        let h = hits_all(line, pat, row, i);
        if line.subrange(i, i + pat.len()) == pat {
            let head = seq![Position { row, col: i as usize }];
            assert(h == head + rest);
            assert forall|j: int| 0 <= j < h.len() implies {
                let q = #[trigger] h[j];
                q.row == row && i <= q.col && occurs_at(line, pat, q.col as int)
            } by {
                if j > 0 {
                    assert(h[j] == rest[j - 1]);
                }
            }
            assert forall|c: int| i <= c && #[trigger] occurs_at(line, pat, c) implies h.contains(
                Position { row, col: c as usize },
            ) by {
                if c == i {
                    assert(h[0] == Position { row, col: c as usize });
                } else {
                    let k = choose|k: int| 0 <= k < rest.len() && rest[k] == Position { row, col: c as usize };
                    assert(h[k + 1] == rest[k]);
                }
            }
        } else {
            assert forall|c: int| i <= c && #[trigger] occurs_at(line, pat, c) implies h.contains(
                Position { row, col: c as usize },
            ) by {
                if c == i {
                    assert(false);
                }
            }
        }
    } else {
        assert forall|c: int| i <= c && #[trigger] occurs_at(line, pat, c) implies false by {}
    }
}

proof fn lemma_collect_exact(lines: Seq<Seq<char>>, pat: Seq<char>, n: int)
    requires
        !smart_case(pat),
        pat.len() > 0,
        0 <= n <= lines.len(),
        lines.len() <= usize::MAX,
        forall|r: int| 0 <= r < lines.len() ==> (#[trigger] lines[r]).len() <= usize::MAX,
    ensures
        forall|j: int| 0 <= j < collect_spec(lines, pat, n).len() ==> {
            let q = #[trigger] collect_spec(lines, pat, n)[j];
            q.row < n && occurs_at(lines[q.row as int], pat, q.col as int)
        },
        forall|r: int, c: int| 0 <= r < n && #[trigger] occurs_at(lines[r], pat, c) ==> collect_spec(lines, pat, n).contains(
            Position { row: r as usize, col: c as usize },
        ),
    decreases n,
{
    if n > 0 {
        lemma_collect_exact(lines, pat, n - 1);
        let prev = collect_spec(lines, pat, n - 1);
        let hs = row_hits(lines[n - 1], pat, (n - 1) as usize);
        lemma_hits_all_exact(lines[n - 1], pat, (n - 1) as usize, 0);
        let all = collect_spec(lines, pat, n);
        assert(all == prev + hs);
        assert forall|j: int| 0 <= j < all.len() implies {
            let q = #[trigger] all[j];
            q.row < n && occurs_at(lines[q.row as int], pat, q.col as int)
        } by {
            if j < prev.len() {
                assert(all[j] == prev[j]);
            } else {
                assert(all[j] == hs[j - prev.len()]);
            }
        }
        assert forall|r: int, c: int| 0 <= r < n && #[trigger] occurs_at(lines[r], pat, c) implies all.contains(
            Position { row: r as usize, col: c as usize },
        ) by {
            if r < n - 1 {
                let k = choose|k: int| 0 <= k < prev.len() && prev[k] == Position { row: r as usize, col: c as usize };
                assert(all[k] == prev[k]);
            } else {
                assert(occurs_at(lines[n - 1], pat, c));
                let k = choose|k: int| 0 <= k < hs.len() && hs[k] == Position { row: r as usize, col: c as usize };
                assert(all[prev.len() + k] == hs[k]);
            }
        }
    }
}

/// A pattern with an uppercase character anywhere in it searches exactly:
/// every match found is a place where the line holds the pattern character
/// for character, and every such place is found.
pub proof fn law_uppercase_searches_exactly(lines: Seq<Seq<char>>, pat: Seq<char>, k: int)
    requires
        0 <= k < pat.len(),
        is_upper(pat[k]),
        lines.len() <= usize::MAX,
        forall|r: int| 0 <= r < lines.len() ==> (#[trigger] lines[r]).len() <= usize::MAX,
    ensures
        forall|j: int| 0 <= j < collect_spec(lines, pat, lines.len() as int).len() ==> {
            let q = #[trigger] collect_spec(lines, pat, lines.len() as int)[j];
            q.row < lines.len() && occurs_at(lines[q.row as int], pat, q.col as int)
        },
        forall|r: int, c: int| 0 <= r < lines.len() && #[trigger] occurs_at(lines[r], pat, c) ==> collect_spec(
            lines,
            pat,
            lines.len() as int,
        ).contains(Position { row: r as usize, col: c as usize }),
{
    assert(!smart_case(pat));
    lemma_collect_exact(lines, pat, lines.len() as int);
}

} // verus!
