//! Git gutter: hunks and per-line signs from `git diff -U0` output, and
//! per-line blame from `git blame --line-porcelain` output. Running git is
//! the caller's; this module reads what git printed.

use vstd::prelude::*;
use std::collections::HashMap;
use vstd::string::StringSliceAdditionalSpecFns;
use crate::text::{
    chars_of, string_of, own, push_char, push_str, slice_vec, starts_with, has_prefix, split_lines, split_words,
    lines_of, words_of, views, parse_i64, parse_i64_spec, parse_usize, parse_usize_spec, i64_string,
    signed_decimal, chars_are, utf8_len, utf8_width, utf8_at_least, lemma_utf8_grows,
};

verus! {

broadcast use vstd::std_specs::hash::group_hash_axioms;

/// What a line of the gutter shows.
#[derive(Debug, Clone, Copy, PartialEq, Eq, Structural)]
pub enum GitSign {
    /// A line added in the working tree.
    Added,
    /// A changed line.
    Modified,
    /// Lines were deleted next to this one.
    Deleted,
}

/// One contiguous change against HEAD.
#[derive(Debug, Clone)]
pub struct GitHunk {
    /// First line of the hunk in the current buffer, from zero.
    pub start: usize,
    /// How many current lines it spans; zero for a pure deletion, which is
    /// marked against `start`.
    pub len: usize,
    /// The lines it replaced, as HEAD has them.
    pub removed: Vec<String>,
    pub kind: GitSign,
    /// The hunk's own slice of the diff: its `@@` line and body.
    pub patch: String,
    /// In the index and untouched since.
    pub staged: bool,
}

/// A hunk as a value.
pub struct HunkView {
    pub start: usize,
    pub len: usize,
    pub removed: Seq<Seq<char>>,
    pub kind: GitSign,
    pub patch: Seq<char>,
    pub staged: bool,
}

pub open spec fn str_views(v: Seq<String>) -> Seq<Seq<char>> {
    Seq::new(v.len(), |i: int| v[i]@)
}

pub open spec fn hunk_view(h: GitHunk) -> HunkView {
    HunkView {
        start: h.start,
        len: h.len,
        removed: str_views(h.removed@),
        kind: h.kind,
        patch: h.patch@,
        staged: h.staged,
    }
}

pub open spec fn hunk_views(v: Seq<GitHunk>) -> Seq<HunkView> {
    Seq::new(v.len(), |i: int| hunk_view(v[i]))
}

/// The last line a hunk covers, or `start` when it covers none (never past
/// the largest line number).
pub open spec fn hunk_end(start: usize, len: usize) -> usize {
    if len == 0 {
        start
    } else if start + (len - 1) > usize::MAX {
        usize::MAX
    } else {
        (start + (len - 1)) as usize
    }
}

/// A hunk answers for `row`: the lines it spans, or its marker line for a
/// pure deletion.
pub open spec fn hunk_covers(start: usize, len: usize, row: usize) -> bool {
    if len == 0 {
        row == start
    } else {
        start <= row <= hunk_end(start, len)
    }
}

impl GitHunk {
    /// Last line the hunk covers, or `start` when it covers none.
    pub fn end(&self) -> (e: usize)
        ensures
            e == hunk_end(self.start, self.len),
    {
        if self.len == 0 {
            self.start
        } else if self.start > usize::MAX - (self.len - 1) {
            usize::MAX
        } else {
            self.start + (self.len - 1)
        }
    }

    /// Whether `row` is inside the hunk; a pure deletion answers for the
    /// line its marker sits on.
    pub fn contains(&self, row: usize) -> (b: bool)
        ensures
            b == hunk_covers(self.start, self.len, row),
    {
        if self.len == 0 {
            return row == self.start;
        }
        row >= self.start && row <= self.end()
    }
}

// ── Reading a diff ──────────────────────────────────────────────────────────

/// The index of the first `c` in `s`.
pub open spec fn first_index(s: Seq<char>, c: char, i: int) -> Option<int>
    decreases s.len() - i,
{
    if i < 0 || i >= s.len() {
        None
    } else if s[i] == c {
        Some(i)
    } else {
        first_index(s, c, i + 1)
    }
}

pub open spec fn or_default(o: Option<i64>, d: i64) -> i64 {
    match o {
        Some(v) => v,
        None => d,
    }
}

/// `start[,count]` of a hunk header side; an unreadable start is 0 and an
/// unreadable or missing count is 1.
pub open spec fn hunk_range_spec(spec: Seq<char>) -> (i64, i64) {
    match first_index(spec, ',', 0) {
        Some(k) => (or_default(parse_i64_spec(spec.take(k)), 0), or_default(parse_i64_spec(spec.skip(k + 1)), 1)),
        None => (or_default(parse_i64_spec(spec), 0), 1),
    }
}

/// Reading the words of a header: the old count, the new start and the new
/// count, after the first `n` words.
pub open spec fn header_fold(toks: Seq<Seq<char>>, n: int) -> (i64, i64, i64)
    decreases n,
{
    if n <= 0 {
        (1, 0, 1)
    } else {
        let prev = header_fold(toks, n - 1);
        let t = toks[n - 1];
        if t.len() > 0 && t[0] == '-' {
            (hunk_range_spec(t.drop_first()).1, prev.1, prev.2)
        } else if t.len() > 0 && t[0] == '+' {
            (prev.0, hunk_range_spec(t.drop_first()).0, hunk_range_spec(t.drop_first()).1)
        } else {
            prev
        }
    }
}

pub open spec fn clamp0(x: i64) -> usize {
    if x > 0 {
        x as usize
    } else {
        0
    }
}

/// The hunk an `@@` line opens.
pub open spec fn header_hunk(line: Seq<char>) -> HunkView {
    let toks = words_of(line.skip(2));
    let h = header_fold(toks, toks.len() as int);
    let o = clamp0(h.0);
    let n = clamp0(h.2);
    HunkView {
        start: if n == 0 {
            clamp0(h.1)
        } else if h.1 >= 1 {
            (h.1 - 1) as usize
        } else {
            0
        },
        len: n,
        removed: seq![],
        kind: if o == 0 {
            GitSign::Added
        } else if n == 0 {
            GitSign::Deleted
        } else {
            GitSign::Modified
        },
        patch: line.push('\n'),
        staged: false,
    }
}

/// A body line joins the hunk most recently opened: its patch keeps the line
/// verbatim, and a `-` line is also what the hunk removed. File headers and
/// other lines are skipped.
pub open spec fn body_step(hs: Seq<HunkView>, line: Seq<char>) -> Seq<HunkView> {
    if has_prefix(line, "---"@) || has_prefix(line, "+++"@) {
        hs
    } else if line.len() > 0 && (line[0] == '+' || line[0] == '-' || line[0] == ' ' || line[0] == '\\')
        && hs.len() > 0 {
        let h = hs.last();
        hs.drop_last().push(
            HunkView {
                start: h.start,
                len: h.len,
                removed: if line[0] == '-' {
                    h.removed.push(line.drop_first())
                } else {
                    h.removed
                },
                kind: h.kind,
                patch: h.patch + line + seq!['\n'],
                staged: h.staged,
            },
        )
    } else {
        hs
    }
}

pub open spec fn line_step(hs: Seq<HunkView>, line: Seq<char>) -> Seq<HunkView> {
    if has_prefix(line, "@@"@) {
        hs.push(header_hunk(line))
    } else {
        body_step(hs, line)
    }
}

/// The hunks of the first `n` lines.
pub open spec fn hunks_upto(ls: Seq<Seq<char>>, n: int) -> Seq<HunkView>
    decreases n,
{
    if n <= 0 {
        seq![]
    } else {
        line_step(hunks_upto(ls, n - 1), ls[n - 1])
    }
}

/// The hunks of a `-U0` diff.
pub open spec fn parse_hunks_spec(diff: Seq<char>) -> Seq<HunkView> {
    hunks_upto(lines_of(diff), lines_of(diff).len() as int)
}

fn hunk_range(spec: &[char]) -> (r: (i64, i64))
    ensures
        r == hunk_range_spec(spec@),
{
    let mut k: usize = 0;
    while k < spec.len() && spec[k] != ','
        invariant
            k <= spec@.len(),
            first_index(spec@, ',', k as int) == first_index(spec@, ',', 0),
        decreases spec@.len() - k,
    {
        k += 1;
    }
    if k < spec.len() {
        let a = slice_vec(spec, 0, k);
        let b = slice_vec(spec, k + 1, spec.len());
        assert(a@ =~= spec@.take(k as int));
        assert(b@ =~= spec@.skip(k + 1));
        let s = match parse_i64(a.as_slice()) {
            Some(v) => v,
            None => 0,
        };
        let c = match parse_i64(b.as_slice()) {
            Some(v) => v,
            None => 1,
        };
        (s, c)
    } else {
        let s = match parse_i64(spec) {
            Some(v) => v,
            None => 0,
        };
        (s, 1)
    }
}

fn header_to_hunk(line: &[char]) -> (h: GitHunk)
    requires
        line@.len() >= 2,
    ensures
        hunk_view(h) == header_hunk(line@),
{
    let rest = slice_vec(line, 2, line.len());
    assert(rest@ =~= line@.skip(2));
    let toks = split_words(rest.as_slice());
    let mut oc: i64 = 1;
    let mut ns: i64 = 0;
    let mut nc: i64 = 1;
    let mut i: usize = 0;
    while i < toks.len()
        invariant
            i <= toks@.len(),
            views(toks@) == words_of(line@.skip(2)),
            (oc, ns, nc) == header_fold(views(toks@), i as int),
        decreases toks@.len() - i,
    {
        let t = toks[i].as_slice();
        assert(t@ == views(toks@)[i as int]);
        if t.len() > 0 && t[0] == '-' {
            let spec = slice_vec(t, 1, t.len());
            assert(spec@ =~= t@.drop_first());
            let r = hunk_range(spec.as_slice());
            oc = r.1;
        } else if t.len() > 0 && t[0] == '+' {
            let spec = slice_vec(t, 1, t.len());
            assert(spec@ =~= t@.drop_first());
            let r = hunk_range(spec.as_slice());
            ns = r.0;
            nc = r.1;
        }
        i += 1;
    }
    let o: usize = if oc > 0 { oc as usize } else { 0 };
    let n: usize = if nc > 0 { nc as usize } else { 0 };
    let kind = if o == 0 {
        GitSign::Added
    } else if n == 0 {
        GitSign::Deleted
    } else {
        GitSign::Modified
    };
    let start: usize = if n == 0 {
        if ns > 0 { ns as usize } else { 0 }
    } else if ns >= 1 {
        (ns - 1) as usize
    } else {
        0
    };
    let mut patch = string_of(line);
    push_char(&mut patch, '\n');
    let h = GitHunk { start, len: n, removed: Vec::new(), kind, patch, staged: false };
    assert(str_views(h.removed@) =~= Seq::<Seq<char>>::empty());
    h
}

/// Parse a `-U0` unified diff into hunks: every `@@` block is one change,
/// and the `-` lines under it are what it replaced.
pub fn parse_diff_hunks_full(diff: &str) -> (out: Vec<GitHunk>)
    ensures
        hunk_views(out@) == parse_hunks_spec(diff@),
{
    let text = chars_of(diff);
    let lines = split_lines(text.as_slice());
    let ghost ls = lines_of(diff@);
    let at = chars_of("@@");
    let dashes = chars_of("---");
    let pluses = chars_of("+++");
    let mut out: Vec<GitHunk> = Vec::new();
    let mut k: usize = 0;
    while k < lines.len()
        invariant
            k <= lines@.len(),
            views(lines@) == ls,
            at@ == "@@"@,
            dashes@ == "---"@,
            pluses@ == "+++"@,
            hunk_views(out@) == hunks_upto(ls, k as int),
        decreases lines@.len() - k,
    {
        let line = lines[k].as_slice();
        assert(line@ == ls[k as int]);
        proof {
            reveal_strlit("@@");
        }
        let ghost before = hunk_views(out@);
        if starts_with(line, at.as_slice()) {
            let h = header_to_hunk(line);
            out.push(h);
            assert(hunk_views(out@) =~= before.push(header_hunk(line@)));
        } else if starts_with(line, dashes.as_slice()) || starts_with(line, pluses.as_slice()) {
        } else if line.len() > 0 && (line[0] == '+' || line[0] == '-' || line[0] == ' ' || line[0] == '\\')
            && out.len() > 0 {
            let mut h = out.pop().unwrap();
            let ghost hv = hunk_view(h);
            assert(hv == before.last());
            push_str(&mut h.patch, string_of(line).as_str());
            push_char(&mut h.patch, '\n');
            assert(h.patch@ =~= hv.patch + line@ + seq!['\n']);
            if line[0] == '-' {
                let removed_text = slice_vec(line, 1, line.len());
                assert(removed_text@ =~= line@.drop_first());
                h.removed.push(string_of(removed_text.as_slice()));
                assert(str_views(h.removed@) =~= hv.removed.push(line@.drop_first()));
            } else {
                assert(str_views(h.removed@) =~= hv.removed);
            }
            let ghost nh = HunkView {
                start: hv.start,
                len: hv.len,
                removed: if line@[0] == '-' {
                    hv.removed.push(line@.drop_first())
                } else {
                    hv.removed
                },
                kind: hv.kind,
                patch: hv.patch + line@ + seq!['\n'],
                staged: hv.staged,
            };
            assert(hunk_view(h) == nh);
            out.push(h);
            assert(hunk_views(out@) =~= before.drop_last().push(nh));
            assert(body_step(before, line@) == before.drop_last().push(nh));
        }
        k += 1;
    }
    out
}

// ── Signs ───────────────────────────────────────────────────────────────────

/// The sign of a hunk's `i`-th line: modified while it has a removed line
/// to stand for, added after.
pub open spec fn row_sign(h: HunkView, i: int) -> GitSign {
    if h.kind == GitSign::Added || i >= h.removed.len() {
        GitSign::Added
    } else {
        GitSign::Modified
    }
}

/// The signs of a hunk's first `i` lines written into `m`.
pub open spec fn sign_rows(m: Map<usize, GitSign>, h: HunkView, i: int) -> Map<usize, GitSign>
    decreases i,
{
    if i <= 0 {
        m
    } else if h.start + (i - 1) <= usize::MAX {
        sign_rows(m, h, i - 1).insert((h.start + (i - 1)) as usize, row_sign(h, i - 1))
    } else {
        sign_rows(m, h, i - 1)
    }
}

/// One hunk's signs over `m`: a pure deletion marks its line unless some
/// sign is there already; otherwise every line it spans, and a hunk that
/// removed more lines than it added ends in a deletion marker.
pub open spec fn hunk_signs(m: Map<usize, GitSign>, h: HunkView) -> Map<usize, GitSign> {
    if h.len == 0 {
        if m.contains_key(h.start) {
            m
        } else {
            m.insert(h.start, GitSign::Deleted)
        }
    } else {
        let m1 = sign_rows(m, h, h.len as int);
        if h.removed.len() > h.len {
            m1.insert(hunk_end(h.start, h.len), GitSign::Deleted)
        } else {
            m1
        }
    }
}

/// The signs of the first `n` hunks over `m`.
pub open spec fn signs_upto(m: Map<usize, GitSign>, hs: Seq<HunkView>, n: int) -> Map<usize, GitSign>
    decreases n,
{
    if n <= 0 {
        m
    } else {
        hunk_signs(signs_upto(m, hs, n - 1), hs[n - 1])
    }
}

/// Write the per-line signs of `hunks` into `signs`.
pub fn signs_from_hunks(hunks: &[GitHunk], signs: &mut HashMap<usize, GitSign>)
    ensures
        final(signs)@ == signs_upto(old(signs)@, hunk_views(hunks@), hunks@.len() as int),
{
    let ghost hs = hunk_views(hunks@);
    let mut k: usize = 0;
    while k < hunks.len()
        invariant
            k <= hunks@.len(),
            hs == hunk_views(hunks@),
            signs@ == signs_upto(old(signs)@, hs, k as int),
        decreases hunks@.len() - k,
    {
        let h = &hunks[k];
        assert(hunk_view(*h) == hs[k as int]);
        if h.len == 0 {
            if !signs.contains_key(&h.start) {
                signs.insert(h.start, GitSign::Deleted);
            }
        } else {
            let ghost m0 = signs@;
            let mut i: usize = 0;
            while i < h.len
                invariant
                    i <= h.len,
                    hunk_view(*h) == hs[k as int],
                    signs@ == sign_rows(m0, hs[k as int], i as int),
                decreases h.len - i,
            {
                if h.start <= usize::MAX - i {
                    let row = h.start + i;
                    let sign = if h.kind == GitSign::Added || i >= h.removed.len() {
                        GitSign::Added
                    } else {
                        GitSign::Modified
                    };
                    signs.insert(row, sign);
                }
                i += 1;
            }
            if h.removed.len() > h.len {
                signs.insert(h.end(), GitSign::Deleted);
            }
        }
        k += 1;
    }
}

/// Parse a diff straight into per-line signs.
pub fn parse_diff_hunks(diff: &str, signs: &mut HashMap<usize, GitSign>)
    ensures
        final(signs)@ == signs_upto(old(signs)@, parse_hunks_spec(diff@), parse_hunks_spec(diff@).len() as int),
{
    let hunks = parse_diff_hunks_full(diff);
    signs_from_hunks(hunks.as_slice(), signs);
}

/// Two hunks cover a common line; a pure deletion covers its marker line.
pub open spec fn hunks_overlap(a: HunkView, b: HunkView) -> bool {
    a.start <= hunk_end(b.start, b.len) && b.start <= hunk_end(a.start, a.len)
}

/// `h` is staged: no hunk of the unstaged diff overlaps it.
pub open spec fn staged_against(h: HunkView, dirty: Seq<HunkView>) -> bool {
    forall|j: int| 0 <= j < dirty.len() ==> !hunks_overlap(h, #[trigger] dirty[j])
}

/// The gutter of a file from its two diffs: `all` against HEAD, and
/// `unstaged` against the index. A hunk of the first that no hunk of the
/// second overlaps has been staged.
pub fn gutter_from_diffs(all: &str, unstaged: &str) -> (r: (HashMap<usize, GitSign>, Vec<GitHunk>))
    ensures
        r.1@.len() == parse_hunks_spec(all@).len(),
        forall|k: int| 0 <= k < r.1@.len() ==> {
            let got = hunk_view(#[trigger] r.1@[k]);
            let want = parse_hunks_spec(all@)[k];
            &&& got.start == want.start
            &&& got.len == want.len
            &&& got.removed == want.removed
            &&& got.kind == want.kind
            &&& got.patch == want.patch
            &&& got.staged == staged_against(want, parse_hunks_spec(unstaged@))
        },
        r.0@ == signs_upto(Map::<usize, GitSign>::empty(), hunk_views(r.1@), r.1@.len() as int),
{
    let mut hunks = parse_diff_hunks_full(all);
    let dirty = parse_diff_hunks_full(unstaged);
    let ghost base = hunk_views(hunks@);
    let ghost dv = hunk_views(dirty@);
    let mut k: usize = 0;
    while k < hunks.len()
        invariant
            k <= hunks@.len(),
            base == parse_hunks_spec(all@),
            dv == parse_hunks_spec(unstaged@),
            dv == hunk_views(dirty@),
            hunks@.len() == base.len(),
            forall|j: int| 0 <= j < hunks@.len() ==> {
                let got = hunk_view(#[trigger] hunks@[j]);
                &&& got.start == base[j].start
                &&& got.len == base[j].len
                &&& got.removed == base[j].removed
                &&& got.kind == base[j].kind
                &&& got.patch == base[j].patch
                &&& j < k ==> got.staged == staged_against(base[j], dv)
            },
        decreases hunks@.len() - k,
    {
        let mut h = hunks.remove(k);
        let mut staged = true;
        let mut j: usize = 0;
        while j < dirty.len()
            invariant
                j <= dirty@.len(),
                dv == hunk_views(dirty@),
                staged == forall|q: int| 0 <= q < j ==> !hunks_overlap(hunk_view(h), #[trigger] dv[q]),
            decreases dirty@.len() - j,
        {
            let d = &dirty[j];
            assert(hunk_view(*d) == dv[j as int]);
            if h.start <= d.end() && d.start <= h.end() {
                staged = false;
            }
            j += 1;
        }
        h.staged = staged;
        hunks.insert(k, h);
        k += 1;
    }
    let mut signs: HashMap<usize, GitSign> = HashMap::new();
    signs_from_hunks(hunks.as_slice(), &mut signs);
    (signs, hunks)
}

// ── The gutter ──────────────────────────────────────────────────────────────

/// `k` is the first hunk of `hs` covering `row`.
pub open spec fn first_cover(hs: Seq<HunkView>, row: usize, k: int) -> bool {
    &&& 0 <= k < hs.len()
    &&& hunk_covers(hs[k].start, hs[k].len, row)
    &&& forall|j: int| 0 <= j < k ==> !hunk_covers(#[trigger] hs[j].start, hs[j].len, row)
}

/// The gutter of one file: its hunks and the signs derived from them.
#[derive(Debug, Clone)]
pub struct GitGutter {
    /// Line to sign, derived from `hunks`.
    pub signs: HashMap<usize, GitSign>,
    /// The changes, in buffer order.
    pub hunks: Vec<GitHunk>,
    pub path: String,
    pub available: bool,
}

impl GitGutter {
    pub fn new() -> (g: Self)
        ensures
            g.signs@ == Map::<usize, GitSign>::empty(),
            g.hunks@.len() == 0,
            g.path@ == Seq::<char>::empty(),
            !g.available,
    {
        GitGutter { signs: HashMap::new(), hunks: Vec::new(), path: String::new(), available: false }
    }

    pub fn clear(&mut self)
        ensures
            final(self).signs@ == Map::<usize, GitSign>::empty(),
            final(self).hunks@.len() == 0,
            final(self).path@ == Seq::<char>::empty(),
            !final(self).available,
    {
        self.signs.clear();
        self.hunks = Vec::new();
        self.path = String::new();
        self.available = false;
    }

    /// Recompute the gutter of `path` from its diffs: `all` is the diff
    /// against HEAD (`None` when git could not produce one), `unstaged` the
    /// diff against the index. An empty path, or no diff, leaves the gutter
    /// unavailable and empty.
    pub fn refresh(&mut self, path: &str, all: Option<&str>, unstaged: &str)
        ensures
            final(self).path@ == path@,
            final(self).available == (path@.len() > 0 && all is Some),
            !final(self).available ==> final(self).signs@ == Map::<usize, GitSign>::empty()
                && final(self).hunks@.len() == 0,
            final(self).available ==> {
                let a = all->0;
                &&& final(self).hunks@.len() == parse_hunks_spec(a@).len()
                &&& forall|k: int| 0 <= k < final(self).hunks@.len() ==> {
                    let got = hunk_view(#[trigger] final(self).hunks@[k]);
                    let want = parse_hunks_spec(a@)[k];
                    &&& got.start == want.start
                    &&& got.len == want.len
                    &&& got.removed == want.removed
                    &&& got.kind == want.kind
                    &&& got.patch == want.patch
                    &&& got.staged == staged_against(want, parse_hunks_spec(unstaged@))
                }
                &&& final(self).signs@ == signs_upto(
                    Map::<usize, GitSign>::empty(),
                    hunk_views(final(self).hunks@),
                    final(self).hunks@.len() as int,
                )
            },
    {
        self.path = own(path);
        let usable = match all {
            Some(_) => path.unicode_len() > 0,
            None => false,
        };
        if usable {
            let (signs, hunks) = gutter_from_diffs(all.unwrap(), unstaged);
            self.available = true;
            self.signs = signs;
            self.hunks = hunks;
        } else {
            self.available = false;
            self.signs = HashMap::new();
            self.hunks = Vec::new();
        }
    }

    /// The first hunk covering `row`.
    pub fn hunk_at(&self, row: usize) -> (r: Option<&GitHunk>)
        ensures
            match r {
                Some(h) => exists|k: int| first_cover(hunk_views(self.hunks@), row, k) && *h == self.hunks@[k],
                None => forall|k: int| 0 <= k < self.hunks@.len() ==> !hunk_covers(
                    #[trigger] self.hunks@[k].start,
                    self.hunks@[k].len,
                    row,
                ),
            },
    {
        let mut k: usize = 0;
        while k < self.hunks.len()
            invariant
                k <= self.hunks@.len(),
                forall|j: int| 0 <= j < k ==> !hunk_covers(#[trigger] self.hunks@[j].start, self.hunks@[j].len, row),
            decreases self.hunks@.len() - k,
        {
            if self.hunks[k].contains(row) {
                let ghost hs = hunk_views(self.hunks@);
                assert(first_cover(hs, row, k as int)) by {
                    assert forall|j: int| 0 <= j < k implies !hunk_covers(#[trigger] hs[j].start, hs[j].len, row) by {
                        assert(hs[j] == hunk_view(self.hunks@[j]));
                    }
                }
                return Some(&self.hunks[k]);
            }
            k += 1;
        }
        None
    }

    pub fn sign_at(&self, row: usize) -> (r: Option<GitSign>)
        ensures
            r == (if self.signs@.contains_key(row) {
                Some(self.signs@[row])
            } else {
                None
            }),
    {
        match self.signs.get(&row) {
            Some(s) => Some(*s),
            None => None,
        }
    }
}

impl Default for GitGutter {
    fn default() -> (g: Self)
        ensures
            g.signs@ == Map::<usize, GitSign>::empty(),
            g.hunks@.len() == 0,
            g.path@ == Seq::<char>::empty(),
            !g.available,
    {
        GitGutter::new()
    }
}

/// What a gutter action does to one hunk.
#[derive(Debug, Clone, Copy, PartialEq, Eq, Structural)]
pub enum HunkAction {
    /// Add just this change to the index.
    Stage,
    /// Throw this change away, returning those lines to HEAD.
    Discard,
}

/// `s` with every `\` turned into `/`.
pub open spec fn forward_slashes(s: Seq<char>) -> Seq<char> {
    Seq::new(s.len(), |i: int| if s[i] == '\\' { '/' } else { s[i] })
}

/// The one-hunk patch for the file at `rel`: the header git needs, then the
/// hunk's own text.
pub open spec fn hunk_patch_text(rel: Seq<char>, patch: Seq<char>) -> Seq<char> {
    "diff --git a/"@ + rel + " b/"@ + rel + "\n--- a/"@ + rel + "\n+++ b/"@ + rel + "\n"@ + patch
}

/// The patch that applies `action` to the hunk covering `row`, for the
/// file at `rel` inside the repository; or the message saying why not.
pub fn plan_hunk_action(hunks: &[GitHunk], row: usize, action: HunkAction, rel: &str) -> (r: Result<
    String,
    String,
>)
    ensures
        match r {
            Ok(p) => exists|k: int|
                first_cover(hunk_views(hunks@), row, k) && !(action == HunkAction::Stage && hunks@[k].staged)
                    && p@ == hunk_patch_text(forward_slashes(rel@), hunks@[k].patch@),
            Err(e) => (e@ == "No change on that line"@ && forall|k: int|
                0 <= k < hunks@.len() ==> !hunk_covers(#[trigger] hunks@[k].start, hunks@[k].len, row)) || (e@
                == "Already staged"@ && action == HunkAction::Stage && exists|k: int|
                first_cover(hunk_views(hunks@), row, k) && hunks@[k].staged),
        },
{
    let mut k: usize = 0;
    while k < hunks.len() && !hunks[k].contains(row)
        invariant
            k <= hunks@.len(),
            forall|j: int| 0 <= j < k ==> !hunk_covers(#[trigger] hunks@[j].start, hunks@[j].len, row),
        decreases hunks@.len() - k,
    {
        k += 1;
    }
    if k >= hunks.len() {
        return Err(own("No change on that line"));
    }
    let ghost hs = hunk_views(hunks@);
    assert(first_cover(hs, row, k as int)) by {
        assert forall|j: int| 0 <= j < k implies !hunk_covers(#[trigger] hs[j].start, hs[j].len, row) by {
            assert(hs[j] == hunk_view(hunks@[j]));
        }
    }
    let h = &hunks[k];
    if action == HunkAction::Stage && h.staged {
        return Err(own("Already staged"));
    }
    let raw = chars_of(rel);
    let mut fixed: Vec<char> = Vec::new();
    let mut i: usize = 0;
    while i < raw.len()
        invariant
            i <= raw@.len(),
            raw@ == rel@,
            fixed@ == forward_slashes(rel@).take(i as int),
        decreases raw@.len() - i,
    {
        fixed.push(if raw[i] == '\\' { '/' } else { raw[i] });
        assert(fixed@ =~= forward_slashes(rel@).take(i + 1));
        i += 1;
    }
    assert(fixed@ =~= forward_slashes(rel@));
    let r = string_of(fixed.as_slice());
    let mut p = own("diff --git a/");
    push_str(&mut p, r.as_str());
    push_str(&mut p, " b/");
    push_str(&mut p, r.as_str());
    push_str(&mut p, "\n--- a/");
    push_str(&mut p, r.as_str());
    push_str(&mut p, "\n+++ b/");
    push_str(&mut p, r.as_str());
    push_str(&mut p, "\n");
    push_str(&mut p, h.patch.as_str());
    assert(p@ =~= hunk_patch_text(forward_slashes(rel@), hunks@[k as int].patch@));
    Ok(p)
}

/// The message once `action` went through.
pub fn hunk_action_done(action: HunkAction) -> (s: String)
    ensures
        s@ == (match action {
            HunkAction::Stage => "Staged change"@,
            HunkAction::Discard => "Discarded change"@,
        }),
{
    match action {
        HunkAction::Stage => own("Staged change"),
        HunkAction::Discard => own("Discarded change"),
    }
}

// ── Blame ───────────────────────────────────────────────────────────────────

/// Who last touched a line.
#[derive(Debug, Clone, Default)]
pub struct BlameLine {
    /// Author, shortened.
    pub author: String,
    /// Abbreviated commit hash.
    pub hash: String,
    /// When, as git's timestamp.
    pub date: String,
}

/// Author, hash and date of a blame line.
pub open spec fn blame_view(b: BlameLine) -> (Seq<char>, Seq<char>, Seq<char>) {
    (b.author@, b.hash@, b.date@)
}

pub open spec fn blame_map(m: Map<usize, BlameLine>) -> Map<usize, (Seq<char>, Seq<char>, Seq<char>)> {
    m.map_values(|b: BlameLine| blame_view(b))
}

/// The first `n` characters of `s`, or all of them.
pub open spec fn first_chars(s: Seq<char>, n: int) -> Seq<char> {
    if s.len() <= n {
        s
    } else {
        s.take(n)
    }
}

/// What the porcelain reader knows between lines: the current commit's
/// hash, author and date, the line the next content line belongs to, and
/// the blame gathered so far.
pub struct BlameState {
    pub hash: Seq<char>,
    pub author: Seq<char>,
    pub date: Seq<char>,
    pub line_no: Option<usize>,
    pub out: Map<usize, (Seq<char>, Seq<char>, Seq<char>)>,
}

/// A header line: a 40-digit hex hash, then a space or the line's end.
pub open spec fn is_blame_header(line: Seq<char>) -> bool {
    &&& line.len() >= 40
    &&& forall|i: int| 0 <= i < 40 ==> crate::text::is_hex_digit(#[trigger] line[i])
    &&& (line.len() == 40 || line[40] == ' ')
}

/// Whether `line` is a header line.
fn blame_header(line: &[char]) -> (b: bool)
    ensures
        b == is_blame_header(line@),
{
    if line.len() < 40 {
        return false;
    }
    let mut i: usize = 0;
    while i < 40
        invariant
            i <= 40,
            line@.len() >= 40,
            forall|j: int| 0 <= j < i ==> crate::text::is_hex_digit(#[trigger] line@[j]),
        decreases 40 - i,
    {
        let c = line[i];
        if !(('0' <= c && c <= '9') || ('a' <= c && c <= 'f') || ('A' <= c && c <= 'F')) {
            return false;
        }
        i += 1;
    }
    line.len() == 40 || line[40] == ' '
}

/// One line of `git blame --line-porcelain`: a header starts a commit (hash
/// and final line number), `author ` and `author-time ` lines fill it in,
/// and a tab-led content line records it for its line.
pub open spec fn blame_step(st: BlameState, line: Seq<char>) -> BlameState {
    if is_blame_header(line) {
        let parts = words_of(line);
        BlameState {
            hash: if parts.len() >= 3 { first_chars(parts[0], 7) } else { st.hash },
            author: seq![],
            date: seq![],
            line_no: if parts.len() >= 3 {
                match parse_usize_spec(parts[2]) {
                    Some(n) => Some(if n == 0 { 0 } else { (n - 1) as usize }),
                    None => st.line_no,
                }
            } else {
                st.line_no
            },
            out: st.out,
        }
    } else if has_prefix(line, "author "@) {
        BlameState { author: first_chars(line.skip(7), 12), ..st }
    } else if has_prefix(line, "author-time "@) {
        match parse_i64_spec(line.skip(12)) {
            Some(secs) => BlameState { date: signed_decimal(secs as int), ..st },
            None => st,
        }
    } else if line.len() > 0 && line[0] == '\t' {
        match st.line_no {
            Some(row) => BlameState {
                line_no: None,
                out: st.out.insert(row, (if st.author.len() == 0 { "?"@ } else { st.author }, st.hash, st.date)),
                ..st
            },
            None => BlameState { line_no: None, ..st },
        }
    } else {
        st
    }
}

pub open spec fn blame_upto(st: BlameState, ls: Seq<Seq<char>>, n: int) -> BlameState
    decreases n,
{
    if n <= 0 {
        st
    } else {
        blame_step(blame_upto(st, ls, n - 1), ls[n - 1])
    }
}

fn first_chars_of(s: &[char], n: usize) -> (r: Vec<char>)
    ensures
        r@ == first_chars(s@, n as int),
{
    if s.len() <= n {
        let r = slice_vec(s, 0, s.len());
        assert(r@ =~= s@);
        r
    } else {
        let r = slice_vec(s, 0, n);
        assert(r@ =~= s@.take(n as int));
        r
    }
}

/// Parse `git blame --line-porcelain` output into `out`, line number to
/// author, hash and date.
pub fn parse_blame_porcelain(text: &str, out: &mut HashMap<usize, BlameLine>)
    ensures
        blame_map(final(out)@) == blame_upto(
            BlameState { hash: seq![], author: seq![], date: seq![], line_no: None, out: blame_map(old(out)@) },
            lines_of(text@),
            lines_of(text@).len() as int,
        ).out,
{
    let chars = chars_of(text);
    let lines = split_lines(chars.as_slice());
    let ghost ls = lines_of(text@);
    let author_p = chars_of("author ");
    let time_p = chars_of("author-time ");
    proof {
        reveal_strlit("author ");
        reveal_strlit("author-time ");
    }
    let mut hash: Vec<char> = Vec::new();
    let mut author: Vec<char> = Vec::new();
    let mut date: Vec<char> = Vec::new();
    let mut line_no: Option<usize> = None;
    let mut k: usize = 0;
    while k < lines.len()
        invariant
            k <= lines@.len(),
            views(lines@) == ls,
            author_p@ == "author "@,
            time_p@ == "author-time "@,
            author_p@.len() == 7,
            time_p@.len() == 12,
            ({
                let st = blame_upto(
                    BlameState { hash: seq![], author: seq![], date: seq![], line_no: None, out: blame_map(old(out)@) },
                    ls,
                    k as int,
                );
                &&& st.hash == hash@
                &&& st.author == author@
                &&& st.date == date@
                &&& st.line_no == line_no
                &&& st.out == blame_map(out@)
            }),
        decreases lines@.len() - k,
    {
        let line = lines[k].as_slice();
        assert(line@ == ls[k as int]);
        if blame_header(line) {
            let parts = split_words(line);
            if parts.len() >= 3 {
                assert(parts@[0]@ == views(parts@)[0]);
                assert(parts@[2]@ == views(parts@)[2]);
                hash = first_chars_of(parts[0].as_slice(), 7);
                match parse_usize(parts[2].as_slice()) {
                    Some(n) => {
                        line_no = Some(if n == 0 { 0 } else { n - 1 });
                    },
                    None => {},
                }
            }
            author = Vec::new();
            date = Vec::new();
        } else if starts_with(line, author_p.as_slice()) {
            let rest = slice_vec(line, 7, line.len());
            assert(rest@ =~= line@.skip(7));
            author = first_chars_of(rest.as_slice(), 12);
        } else if starts_with(line, time_p.as_slice()) {
            let rest = slice_vec(line, 12, line.len());
            assert(rest@ =~= line@.skip(12));
            match parse_i64(rest.as_slice()) {
                Some(secs) => {
                    let d = i64_string(secs);
                    date = chars_of(d.as_str());
                },
                None => {},
            }
        } else if line.len() > 0 && line[0] == '\t' {
            match line_no {
                Some(row) => {
                    let who = if author.len() == 0 {
                        own("?")
                    } else {
                        string_of(author.as_slice())
                    };
                    let b = BlameLine { author: who, hash: string_of(hash.as_slice()), date: string_of(date.as_slice()) };
                    let ghost before = blame_map(out@);
                    out.insert(row, b);
                    assert(blame_map(out@) =~= before.insert(row, blame_view(b)));
                },
                None => {},
            }
            line_no = None;
        }
        k += 1;
    }
}

/// `{:<8} {}`: the author's first eight characters padded with spaces to
/// eight, a space, and the hash; then cut to `width` characters.
pub open spec fn blame_gutter_text(author: Seq<char>, hash: Seq<char>, width: int) -> Seq<char> {
    let a = first_chars(author, 8);
    let padded = a + Seq::new((8 - a.len()) as nat, |i: int| ' ');
    first_chars(padded + seq![' '] + hash, width)
}

/// Blame for a narrow gutter: author padded to eight, then the hash.
pub fn format_blame_gutter(b: &BlameLine, width: usize) -> (s: String)
    ensures
        s@ == blame_gutter_text(b.author@, b.hash@, width as int),
{
    let a = first_chars_of(chars_of(b.author.as_str()).as_slice(), 8);
    let mut v = a;
    let ghost a0 = v@;
    while v.len() < 8
        invariant
            a0 == first_chars(b.author@, 8),
            a0.len() <= v@.len() <= 8,
            v@ == a0 + Seq::new((v@.len() - a0.len()) as nat, |i: int| ' '),
        decreases 8 - v@.len(),
    {
        v.push(' ');
        assert(v@ =~= a0 + Seq::new((v@.len() - a0.len()) as nat, |i: int| ' '));
    }
    v.push(' ');
    let h = chars_of(b.hash.as_str());
    let mut i: usize = 0;
    let ghost pre = v@;
    while i < h.len()
        invariant
            i <= h@.len(),
            h@ == b.hash@,
            v@ == pre + h@.take(i as int),
        decreases h@.len() - i,
    {
        v.push(h[i]);
        assert(v@ =~= pre + h@.take(i + 1));
        i += 1;
    }
    assert(v@ =~= a0 + Seq::new((8 - a0.len()) as nat, |i: int| ' ') + seq![' '] + b.hash@);
    let cut = first_chars_of(v.as_slice(), width);
    string_of(cut.as_slice())
}

// ── Blame colours ───────────────────────────────────────────────────────────

/// The fixed flame palette: deep red through orange and gold to ember.
pub open spec fn flame_table() -> Seq<(u8, u8, u8)> {
    seq![
        (255u8, 48u8, 20u8),
        (255u8, 90u8, 25u8),
        (255u8, 130u8, 30u8),
        (255u8, 170u8, 40u8),
        (255u8, 200u8, 55u8),
        (255u8, 110u8, 45u8),
        (255u8, 70u8, 35u8),
        (255u8, 150u8, 60u8),
    ]
}

/// The hash a key's bytes fold to: times 33 plus the byte, wrapping.
pub open spec fn flame_hash(bytes: Seq<u8>) -> u32
    decreases bytes.len(),
{
    if bytes.len() == 0 {
        0
    } else {
        flame_hash(bytes.drop_last()).wrapping_mul(33).wrapping_add(bytes.last() as u32)
    }
}

/// The flame colour for a key (an author): the same key always gets the
/// same colour.
pub fn flame_color_for(key: &str) -> (c: (u8, u8, u8))
    ensures
        c == flame_table()[(flame_hash(key.spec_bytes()) % 8) as int],
{
    let bytes = key.as_bytes();
    let mut h: u32 = 0;
    let mut i: usize = 0;
    while i < bytes.len()
        invariant
            i <= bytes@.len(),
            bytes@ == key.spec_bytes(),
            h == flame_hash(bytes@.take(i as int)),
        decreases bytes@.len() - i,
    {
        assert(bytes@.take(i + 1).drop_last() =~= bytes@.take(i as int));
        h = h.wrapping_mul(33).wrapping_add(bytes[i] as u32);
        i += 1;
    }
    assert(bytes@.take(bytes@.len() as int) =~= bytes@);
    let k = h % 8;
    if k == 0 {
        (255, 48, 20)
    } else if k == 1 {
        (255, 90, 25)
    } else if k == 2 {
        (255, 130, 30)
    } else if k == 3 {
        (255, 170, 40)
    } else if k == 4 {
        (255, 200, 55)
    } else if k == 5 {
        (255, 110, 45)
    } else if k == 6 {
        (255, 70, 35)
    } else {
        (255, 150, 60)
    }
}

} // verus!
