//! Session restore: the open tabs (documents with their carets, and shells
//! at their directories), the active tab, and the split layout, in a small
//! line-based text format. Reading and writing the file, and asking whether
//! a restored path still exists, are the caller's.

use vstd::prelude::*;
use crate::text::{append, 
    chars_of, string_of, own, push_str, push_char, trim_chars, trimmed, parse_usize, parse_usize_spec,
    split_lines, lines_of, views, starts_with, has_prefix, slice_vec, decimal, push_decimal,
};

verus! {

#[derive(Debug, Clone, Default)]
pub struct SessionFile {
    pub path: String,
    pub row: usize,
    pub col: usize,
}

/// One restored tab: a document, or a shell at a directory.
#[derive(Debug, Clone)]
pub enum SessionItem {
    File(SessionFile),
    Terminal { cwd: String },
}

impl SessionItem {
    /// The file this item is, if it is one.
    pub fn file(&self) -> (r: Option<&SessionFile>)
        ensures
            match self {
                SessionItem::File(f) => r == Some(f),
                SessionItem::Terminal { .. } => r is None,
            },
    {
        match self {
            SessionItem::File(f) => Some(f),
            SessionItem::Terminal { .. } => None,
        }
    }
}

/// One pane's viewport; `tab` indexes the session's items.
#[derive(Debug, Clone, Copy, Default, PartialEq, Eq, Structural)]
pub struct SessionPane {
    pub tab: usize,
    pub scroll: usize,
    pub row: usize,
    pub col: usize,
}

/// The split layout: the tree as tokens, the focused pane, the panes.
#[derive(Debug, Clone, Default)]
pub struct SessionSplit {
    pub tree: String,
    pub focus_pane: usize,
    pub panes: Vec<SessionPane>,
}

#[derive(Debug, Clone, Default)]
pub struct Session {
    /// Tabs in strip order, documents and shells together.
    pub items: Vec<SessionItem>,
    pub active: usize,
    pub split: Option<SessionSplit>,
}

// ── Values ──────────────────────────────────────────────────────────────────

/// A session item as a value.
pub enum ItemView {
    File(Seq<char>, usize, usize),
    Terminal(Seq<char>),
}

pub open spec fn item_view(i: SessionItem) -> ItemView {
    match i {
        SessionItem::File(f) => ItemView::File(f.path@, f.row, f.col),
        SessionItem::Terminal { cwd } => ItemView::Terminal(cwd@),
    }
}

pub open spec fn items_view(v: Seq<SessionItem>) -> Seq<ItemView> {
    Seq::new(v.len(), |i: int| item_view(v[i]))
}

/// The split as a value: tree, focused pane, panes.
pub open spec fn split_view(s: Option<SessionSplit>) -> Option<(Seq<char>, usize, Seq<SessionPane>)> {
    match s {
        Some(sp) => Some((sp.tree@, sp.focus_pane, sp.panes@)),
        None => None,
    }
}

// ── Reading ─────────────────────────────────────────────────────────────────

/// The `|`-separated parts of `s` from index `i`, `cur` the part so far.
pub open spec fn bar_parts(s: Seq<char>, i: int, cur: Seq<char>) -> Seq<Seq<char>>
    decreases s.len() - i,
{
    if i < 0 || i >= s.len() {
        seq![cur]
    } else if s[i] == '|' {
        seq![cur] + bar_parts(s, i + 1, seq![])
    } else {
        bar_parts(s, i + 1, cur.push(s[i]))
    }
}

pub open spec fn parts_of(s: Seq<char>) -> Seq<Seq<char>> {
    bar_parts(s, 0, seq![])
}

pub open spec fn num_or_zero(s: Seq<char>) -> usize {
    match parse_usize_spec(s) {
        Some(n) => n,
        None => 0,
    }
}

/// What the reader holds between lines. `k` counts the tabs asked about so
/// far, in order, and `present` answers whether each still exists.
pub struct ScanState {
    pub items: Seq<ItemView>,
    pub active: usize,
    pub tree: Seq<char>,
    pub have_split: bool,
    pub focus: usize,
    pub panes: Seq<SessionPane>,
    pub k: int,
}

pub open spec fn scan_start() -> ScanState {
    ScanState { items: seq![], active: 0, tree: seq![], have_split: false, focus: 0, panes: seq![], k: 0 }
}

/// The tab a document or shell line names, before asking whether it still
/// exists.
pub open spec fn candidate(line: Seq<char>) -> Option<ItemView> {
    if line.len() == 0 || line[0] == '#' || has_prefix(line, "active="@) || has_prefix(line, "split="@)
        || has_prefix(line, "focus_pane="@) || has_prefix(line, "pane="@) {
        None
    } else if has_prefix(line, "term="@) {
        let cwd = trimmed(line.skip(5));
        if cwd.len() == 0 {
            None
        } else {
            Some(ItemView::Terminal(cwd))
        }
    } else {
        let parts = parts_of(line);
        if parts[0].len() == 0 {
            None
        } else {
            Some(
                ItemView::File(
                    parts[0],
                    if parts.len() > 1 { num_or_zero(parts[1]) } else { 0 },
                    if parts.len() > 2 { num_or_zero(parts[2]) } else { 0 },
                ),
            )
        }
    }
}

/// One trimmed line of the session file.
pub open spec fn scan_step(st: ScanState, line: Seq<char>, present: Seq<bool>) -> ScanState {
    if line.len() == 0 || line[0] == '#' {
        st
    } else if has_prefix(line, "active="@) {
        ScanState { active: num_or_zero(trimmed(line.skip(7))), ..st }
    } else if has_prefix(line, "split="@) {
        let t = trimmed(line.skip(6));
        ScanState { tree: t, have_split: t.len() > 0, ..st }
    } else if has_prefix(line, "focus_pane="@) {
        ScanState { focus: num_or_zero(trimmed(line.skip(11))), ..st }
    } else if has_prefix(line, "pane="@) {
        let p = parts_of(line.skip(5));
        if p.len() >= 4 {
            ScanState {
                panes: st.panes.push(
                    SessionPane {
                        tab: num_or_zero(p[0]),
                        scroll: num_or_zero(p[1]),
                        row: num_or_zero(p[2]),
                        col: num_or_zero(p[3]),
                    },
                ),
                ..st
            }
        } else {
            st
        }
    } else {
        match candidate(line) {
            Some(item) => ScanState {
                items: if 0 <= st.k < present.len() && present[st.k] {
                    st.items.push(item)
                } else {
                    st.items
                },
                k: st.k + 1,
                ..st
            },
            None => st,
        }
    }
}

pub open spec fn scan_upto(ls: Seq<Seq<char>>, n: int, present: Seq<bool>) -> ScanState
    decreases n,
{
    if n <= 0 {
        scan_start()
    } else {
        scan_step(scan_upto(ls, n - 1, present), trimmed(ls[n - 1]), present)
    }
}

/// The trimmed lines of `text`.
pub open spec fn session_lines(text: Seq<char>) -> Seq<Seq<char>> {
    lines_of(text)
}

/// The tabs `text` names, in order, before asking whether they exist.
pub open spec fn candidates_upto(ls: Seq<Seq<char>>, n: int) -> Seq<ItemView>
    decreases n,
{
    if n <= 0 {
        seq![]
    } else {
        let prev = candidates_upto(ls, n - 1);
        let line = trimmed(ls[n - 1]);
        if line.len() == 0 || line[0] == '#' {
            prev
        } else {
            match candidate(line) {
                Some(c) => prev.push(c),
                None => prev,
            }
        }
    }
}

/// The panes whose tab is among the first `n` items.
pub open spec fn keep_panes(panes: Seq<SessionPane>, n: int) -> Seq<SessionPane> {
    panes.filter(|p: SessionPane| p.tab < n)
}

/// The session `text` describes, given for each candidate tab whether it
/// still exists: the active tab clamped to the list, and the split kept when
/// it has a tree and some pane whose tab survived.
pub open spec fn parse_spec(text: Seq<char>, present: Seq<bool>) -> (Seq<ItemView>, usize, Option<(Seq<char>, usize, Seq<SessionPane>)>) {
    let ls = session_lines(text);
    let st = scan_upto(ls, ls.len() as int, present);
    let active = if st.active >= st.items.len() && st.items.len() > 0 {
        (st.items.len() - 1) as usize
    } else {
        st.active
    };
    let kept = keep_panes(st.panes, st.items.len() as int);
    let split = if st.have_split && st.panes.len() > 0 && kept.len() > 0 {
        Some((st.tree, st.focus, kept))
    } else {
        None
    };
    (st.items, active, split)
}

fn parts(s: &[char]) -> (r: Vec<Vec<char>>)
    ensures
        views(r@) == parts_of(s@),
        r@.len() >= 1,
{
    let mut out: Vec<Vec<char>> = Vec::new();
    let mut cur: Vec<char> = Vec::new();
    let mut i: usize = 0;
    while i < s.len()
        invariant
            i <= s@.len(),
            views(out@) + bar_parts(s@, i as int, cur@) == parts_of(s@),
        decreases s@.len() - i,
    {
        if s[i] == '|' {
            let ghost before = views(out@);
            let ghost cv = cur@;
            out.push(cur);
            cur = Vec::new();
            assert(views(out@) =~= before + seq![cv]);
            assert(views(out@) + bar_parts(s@, i + 1, cur@) =~= before + bar_parts(s@, i as int, cv));
        } else {
            cur.push(s[i]);
        }
        i += 1;
    }
    let ghost before = views(out@);
    let ghost cv = cur@;
    out.push(cur);
    assert(views(out@) =~= before + seq![cv]);
    out
}

fn number_or_zero(s: &[char]) -> (n: usize)
    ensures
        n == num_or_zero(s@),
{
    match parse_usize(s) {
        Some(n) => n,
        None => 0,
    }
}

fn make_item(c: &ItemCandidate) -> (i: SessionItem)
    ensures
        item_view(i) == candidate_view(*c),
{
    match c {
        ItemCandidate::File(p, r, col) => SessionItem::File(SessionFile { path: string_of(p.as_slice()), row: *r, col: *col }),
        ItemCandidate::Terminal(p) => SessionItem::Terminal { cwd: string_of(p.as_slice()) },
    }
}

/// A candidate tab as the reader builds it.
enum ItemCandidate {
    File(Vec<char>, usize, usize),
    Terminal(Vec<char>),
}

spec fn candidate_view(c: ItemCandidate) -> ItemView {
    match c {
        ItemCandidate::File(p, r, col) => ItemView::File(p@, r, col),
        ItemCandidate::Terminal(p) => ItemView::Terminal(p@),
    }
}

fn candidate_of(line: &[char]) -> (r: Option<ItemCandidate>)
    requires
        line@.len() > 0,
        line@[0] != '#',
        !has_prefix(line@, "active="@),
        !has_prefix(line@, "split="@),
        !has_prefix(line@, "focus_pane="@),
        !has_prefix(line@, "pane="@),
    ensures
        match r {
            Some(c) => candidate(line@) == Some(candidate_view(c)),
            None => candidate(line@) is None,
        },
{
    let term = chars_of("term=");
    proof {
        reveal_strlit("term=");
    }
    if starts_with(line, term.as_slice()) {
        let rest = slice_vec(line, 5, line.len());
        assert(rest@ =~= line@.skip(5));
        let cwd = trim_chars(rest.as_slice());
        if cwd.len() == 0 {
            None
        } else {
            Some(ItemCandidate::Terminal(cwd))
        }
    } else {
        let p = parts(line);
        let first = &p[0];
        assert(first@ == parts_of(line@)[0]);
        if first.len() == 0 {
            None
        } else {
            let row = if p.len() > 1 {
                assert(p@[1]@ == parts_of(line@)[1]);
                number_or_zero(p[1].as_slice())
            } else {
                0
            };
            let col = if p.len() > 2 {
                assert(p@[2]@ == parts_of(line@)[2]);
                number_or_zero(p[2].as_slice())
            } else {
                0
            };
            let path = slice_vec(first.as_slice(), 0, first.len());
            assert(path@ =~= parts_of(line@)[0]);
            let c = ItemCandidate::File(path, row, col);
            assert(candidate_view(c) == ItemView::File(parts_of(line@)[0], row, col));
            Some(c)
        }
    }
}

/// The tabs `text` names, in order, before asking whether each still
/// exists; `parse` takes one answer per tab, in this order.
pub fn candidates(text: &str) -> (v: Vec<SessionItem>)
    ensures
        items_view(v@) == candidates_upto(session_lines(text@), session_lines(text@).len() as int),
{
    let chars = chars_of(text);
    let lines = split_lines(chars.as_slice());
    let ghost ls = session_lines(text@);
    let mut v: Vec<SessionItem> = Vec::new();
    let mut k: usize = 0;
    while k < lines.len()
        invariant
            k <= lines@.len(),
            views(lines@) == ls,
            items_view(v@) == candidates_upto(ls, k as int),
        decreases lines@.len() - k,
    {
        let line = trim_chars(lines[k].as_slice());
        assert(line@ == trimmed(ls[k as int]));
        let ghost before = items_view(v@);
        if line.len() > 0 && line[0] != '#' && !is_setting_line(line.as_slice()) {
            match candidate_of(line.as_slice()) {
                Some(c) => {
                    v.push(make_item(&c));
                    assert(items_view(v@) =~= before.push(candidate_view(c)));
                },
                None => {},
            }
        } else {
            assert(candidate(line@) is None || line@.len() == 0 || line@[0] == '#');
        }
        k += 1;
    }
    v
}

/// An `active=`, `split=`, `focus_pane=` or `pane=` line.
fn is_setting_line(line: &[char]) -> (b: bool)
    ensures
        b == (has_prefix(line@, "active="@) || has_prefix(line@, "split="@) || has_prefix(line@, "focus_pane="@)
            || has_prefix(line@, "pane="@)),
{
    let a = chars_of("active=");
    let s = chars_of("split=");
    let f = chars_of("focus_pane=");
    let p = chars_of("pane=");
    starts_with(line, a.as_slice()) || starts_with(line, s.as_slice()) || starts_with(line, f.as_slice())
        || starts_with(line, p.as_slice())
}

/// Read a session. `present` answers, for each tab of `candidates(text)` in
/// order, whether its file (or a shell's directory) still exists; a tab
/// without an answer, or answered `false`, is dropped.
pub fn parse(text: &str, present: &[bool]) -> (s: Session)
    ensures
        (items_view(s.items@), s.active, split_view(s.split)) == parse_spec(text@, present@),
{
    let chars = chars_of(text);
    let lines = split_lines(chars.as_slice());
    let ghost ls = session_lines(text@);
    let a_p = chars_of("active=");
    let s_p = chars_of("split=");
    let f_p = chars_of("focus_pane=");
    let p_p = chars_of("pane=");
    proof {
        reveal_strlit("active=");
        reveal_strlit("split=");
        reveal_strlit("focus_pane=");
        reveal_strlit("pane=");
    }
    let mut items: Vec<SessionItem> = Vec::new();
    let mut active: usize = 0;
    let mut tree: Vec<char> = Vec::new();
    let mut have_split = false;
    let mut focus: usize = 0;
    let mut panes: Vec<SessionPane> = Vec::new();
    let mut k: usize = 0;
    let mut line_no: usize = 0;
    while line_no < lines.len()
        invariant
            line_no <= lines@.len(),
            views(lines@) == ls,
            a_p@ == "active="@,
            s_p@ == "split="@,
            f_p@ == "focus_pane="@,
            p_p@ == "pane="@,
            a_p@.len() == 7,
            s_p@.len() == 6,
            f_p@.len() == 11,
            p_p@.len() == 5,
            k <= line_no,
            ({
                let st = scan_upto(ls, line_no as int, present@);
                &&& st.items == items_view(items@)
                &&& st.active == active
                &&& st.tree == tree@
                &&& st.have_split == have_split
                &&& st.focus == focus
                &&& st.panes == panes@
                &&& st.k == k
            }),
        decreases lines@.len() - line_no,
    {
        let line = trim_chars(lines[line_no].as_slice());
        assert(line@ == trimmed(ls[line_no as int]));
        let line = line.as_slice();
        if line.len() == 0 || line[0] == '#' {
        } else if starts_with(line, a_p.as_slice()) {
            let v = slice_vec(line, 7, line.len());
            assert(v@ =~= line@.skip(7));
            active = number_or_zero(trim_chars(v.as_slice()).as_slice());
        } else if starts_with(line, s_p.as_slice()) {
            let v = slice_vec(line, 6, line.len());
            assert(v@ =~= line@.skip(6));
            tree = trim_chars(v.as_slice());
            have_split = tree.len() > 0;
        } else if starts_with(line, f_p.as_slice()) {
            let v = slice_vec(line, 11, line.len());
            assert(v@ =~= line@.skip(11));
            focus = number_or_zero(trim_chars(v.as_slice()).as_slice());
        } else if starts_with(line, p_p.as_slice()) {
            let v = slice_vec(line, 5, line.len());
            assert(v@ =~= line@.skip(5));
            let ps = parts(v.as_slice());
            if ps.len() >= 4 {
                assert(ps@[0]@ == parts_of(line@.skip(5))[0]);
                assert(ps@[1]@ == parts_of(line@.skip(5))[1]);
                assert(ps@[2]@ == parts_of(line@.skip(5))[2]);
                assert(ps@[3]@ == parts_of(line@.skip(5))[3]);
                panes.push(
                    SessionPane {
                        tab: number_or_zero(ps[0].as_slice()),
                        scroll: number_or_zero(ps[1].as_slice()),
                        row: number_or_zero(ps[2].as_slice()),
                        col: number_or_zero(ps[3].as_slice()),
                    },
                );
            }
        } else {
            match candidate_of(line) {
                Some(c) => {
                    let ghost before = items_view(items@);
                    if k < present.len() && present[k] {
                        items.push(make_item(&c));
                        assert(items_view(items@) =~= before.push(candidate_view(c)));
                    }
                    k += 1;
                },
                None => {},
            }
        }
        line_no += 1;
    }
    let n = items.len();
    if active >= n && n > 0 {
        active = n - 1;
    }
    let mut split: Option<SessionSplit> = None;
    if have_split && panes.len() > 0 {
        let ghost all = panes@;
        let mut kept: Vec<SessionPane> = Vec::new();
        let mut j: usize = 0;
        while j < panes.len()
            invariant
                j <= all.len(),
                all == panes@,
                kept@ == all.take(j as int).filter(|p: SessionPane| p.tab < n),
            decreases all.len() - j,
        {
            let ghost pre = all.take(j as int);
            assert(all.take(j + 1) =~= pre.push(all[j as int]));
            proof {
                pre.lemma_filter_push(all[j as int], |p: SessionPane| p.tab < n);
            }
            if panes[j].tab < n {
                kept.push(panes[j]);
            }
            j += 1;
        }
        assert(all.take(all.len() as int) =~= all);
        if kept.len() > 0 {
            split = Some(SessionSplit { tree: string_of(tree.as_slice()), focus_pane: focus, panes: kept });
        }
    }
    Session { items, active, split }
}

// ── Writing ─────────────────────────────────────────────────────────────────

/// The first line of every session file.
pub open spec fn header_line() -> Seq<char> {
    "# suisei session — paths, cursors, split layout\n"@
}

/// The line of one tab; none for a document without a path.
pub open spec fn item_line(i: ItemView) -> Seq<char> {
    match i {
        ItemView::File(p, r, c) => if p.len() == 0 {
            seq![]
        } else {
            p + seq!['|'] + decimal(r as nat) + seq!['|'] + decimal(c as nat) + seq!['\n']
        },
        ItemView::Terminal(cwd) => "term="@ + cwd + seq!['\n'],
    }
}

pub open spec fn items_text(v: Seq<ItemView>, n: int) -> Seq<char>
    decreases n,
{
    if n <= 0 {
        seq![]
    } else {
        items_text(v, n - 1) + item_line(v[n - 1])
    }
}

pub open spec fn pane_line(p: SessionPane) -> Seq<char> {
    "pane="@ + decimal(p.tab as nat) + seq!['|'] + decimal(p.scroll as nat) + seq!['|'] + decimal(p.row as nat)
        + seq!['|'] + decimal(p.col as nat) + seq!['\n']
}

pub open spec fn panes_text(v: Seq<SessionPane>, n: int) -> Seq<char>
    decreases n,
{
    if n <= 0 {
        seq![]
    } else {
        panes_text(v, n - 1) + pane_line(v[n - 1])
    }
}

/// The text of a session.
pub open spec fn render_spec(items: Seq<ItemView>, active: usize, split: Option<(Seq<char>, usize, Seq<SessionPane>)>) -> Seq<char> {
    header_line() + "active="@ + decimal(active as nat) + seq!['\n'] + items_text(items, items.len() as int) + match split {
        Some((tree, focus, panes)) => "split="@ + tree + seq!['\n'] + "focus_pane="@ + decimal(focus as nat) + seq!['\n']
            + panes_text(panes, panes.len() as int),
        None => seq![],
    }
}

/// Write a session in the format `parse` reads.
pub fn render(session: &Session) -> (s: String)
    ensures
        s@ == render_spec(items_view(session.items@), session.active, split_view(session.split)),
{
    let mut out: Vec<char> = chars_of("# suisei session — paths, cursors, split layout\n");
    let a = chars_of("active=");
    let ghost iv = items_view(session.items@);
    let mut i: usize = 0;
    while i < a.len()
        invariant
            i <= a@.len(),
            out@ == header_line() + a@.take(i as int),
        decreases a@.len() - i,
    {
        out.push(a[i]);
        assert(out@ =~= header_line() + a@.take(i + 1));
        i += 1;
    }
    assert(a@.take(a@.len() as int) =~= a@);
    push_decimal(&mut out, session.active);
    out.push('\n');
    let ghost base = out@;
    assert(base =~= header_line() + "active="@ + decimal(session.active as nat) + seq!['\n']);
    let mut k: usize = 0;
    while k < session.items.len()
        invariant
            k <= session.items@.len(),
            iv == items_view(session.items@),
            out@ == base + items_text(iv, k as int),
        decreases session.items@.len() - k,
    {
        let ghost before = out@;
        match &session.items[k] {
            SessionItem::File(f) => {
                let p = chars_of(f.path.as_str());
                if p.len() > 0 {
                    append(&mut out, p.as_slice());
                    out.push('|');
                    push_decimal(&mut out, f.row);
                    out.push('|');
                    push_decimal(&mut out, f.col);
                    out.push('\n');
                }
            },
            SessionItem::Terminal { cwd } => {
                let t = chars_of("term=");
                append(&mut out, t.as_slice());
                let c = chars_of(cwd.as_str());
                append(&mut out, c.as_slice());
                out.push('\n');
            },
        }
        assert(out@ =~= before + item_line(iv[k as int]));
        k += 1;
    }
    match &session.split {
        Some(sp) => {
            let ghost before = out@;
            append(&mut out, chars_of("split=").as_slice());
            append(&mut out, chars_of(sp.tree.as_str()).as_slice());
            out.push('\n');
            append(&mut out, chars_of("focus_pane=").as_slice());
            push_decimal(&mut out, sp.focus_pane);
            out.push('\n');
            let ghost mid = out@;
            assert(mid =~= before + "split="@ + sp.tree@ + seq!['\n'] + "focus_pane="@ + decimal(sp.focus_pane as nat)
                + seq!['\n']);
            let mut j: usize = 0;
            while j < sp.panes.len()
                invariant
                    j <= sp.panes@.len(),
                    out@ == mid + panes_text(sp.panes@, j as int),
                decreases sp.panes@.len() - j,
            {
                let p = sp.panes[j];
                let ghost b2 = out@;
                append(&mut out, chars_of("pane=").as_slice());
                push_decimal(&mut out, p.tab);
                out.push('|');
                push_decimal(&mut out, p.scroll);
                out.push('|');
                push_decimal(&mut out, p.row);
                out.push('|');
                push_decimal(&mut out, p.col);
                out.push('\n');
                assert(out@ =~= b2 + pane_line(p));
                j += 1;
            }
            assert(out@ =~= base + items_text(iv, iv.len() as int) + ("split="@ + sp.tree@ + seq!['\n'] + "focus_pane="@
                + decimal(sp.focus_pane as nat) + seq!['\n'] + panes_text(sp.panes@, sp.panes@.len() as int)));
        },
        None => {
            assert(out@ =~= base + items_text(iv, iv.len() as int) + Seq::<char>::empty());
        },
    }
    string_of(out.as_slice())
}


// ── Reading back what was written ──────────────────────────────────────────

/// Text that is not empty, has no white space at either end, and no newline.
pub open spec fn clean_text(x: Seq<char>) -> bool {
    &&& x.len() > 0
    &&& !crate::text::is_space(x[0])
    &&& !crate::text::is_space(x.last())
    &&& forall|k: int| 0 <= k < x.len() ==> x[k] != '\n'
}

/// `x` starts like one of the file's keyed lines.
pub open spec fn keyed(x: Seq<char>) -> bool {
    ||| has_prefix(x, "active="@)
    ||| has_prefix(x, "split="@)
    ||| has_prefix(x, "focus_pane="@)
    ||| has_prefix(x, "pane="@)
    ||| has_prefix(x, "term="@)
}

/// A tab the file can hold: a document whose path is clean text without
/// `|`, not starting with `#` or a key; or a shell at a clean directory.
pub open spec fn clean_item(i: ItemView) -> bool {
    match i {
        ItemView::File(p, _, _) => clean_text(p) && p[0] != '#' && !keyed(p) && forall|k: int| 0 <= k < p.len() ==> p[k] != '|',
        ItemView::Terminal(c) => clean_text(c),
    }
}

/// A split the file can hold, over `n` tabs: a clean tree and at least one
/// pane, each on one of the tabs.
pub open spec fn clean_split(sp: Option<(Seq<char>, usize, Seq<SessionPane>)>, n: nat) -> bool {
    match sp {
        Some((tree, _, panes)) => clean_text(tree) && panes.len() > 0 && forall|k: int| 0 <= k < panes.len() ==> panes[k].tab < n,
        None => true,
    }
}

/// A tab's line, without its newline.
pub open spec fn item_body(i: ItemView) -> Seq<char> {
    match i {
        ItemView::File(p, r, c) => p + seq!['|'] + decimal(r as nat) + seq!['|'] + decimal(c as nat),
        ItemView::Terminal(cwd) => "term="@ + cwd,
    }
}

/// A pane's line, without its newline.
pub open spec fn pane_body(p: SessionPane) -> Seq<char> {
    "pane="@ + decimal(p.tab as nat) + seq!['|'] + decimal(p.scroll as nat) + seq!['|'] + decimal(p.row as nat) + seq!['|']
        + decimal(p.col as nat)
}

/// Lines, each followed by a newline.
pub open spec fn joined(ls: Seq<Seq<char>>) -> Seq<char>
    decreases ls.len(),
{
    if ls.len() == 0 {
        seq![]
    } else {
        joined(ls.drop_last()) + ls.last().push('\n')
    }
}

proof fn lemma_joined_concat(a: Seq<Seq<char>>, b: Seq<Seq<char>>)
    ensures
        joined(a + b) == joined(a) + joined(b),
    decreases b.len(),
{
    if b.len() == 0 {
        assert(a + b =~= a);
        assert(joined(a) + joined(b) =~= joined(a));
    } else {
        assert((a + b).drop_last() =~= a + b.drop_last());
        lemma_joined_concat(a, b.drop_last());
        assert(joined(a + b) =~= joined(a) + joined(b));
    }
}

/// Clean lines joined read back as themselves.
proof fn lemma_joined_lines(ls: Seq<Seq<char>>)
    requires
        forall|k: int| 0 <= k < ls.len() ==> clean_text(#[trigger] ls[k]),
    ensures
        lines_of(joined(ls)) == ls,
    decreases ls.len(),
{
    if ls.len() > 0 {
        let init = ls.drop_last();
        lemma_joined_lines(init);
        let l = ls.last();
        assert(clean_text(ls[ls.len() - 1]));
        assert(crate::text::is_space('\r'));
        crate::text::lemma_one_line(l);
        let a = joined(init);
        if a.len() > 0 {
            assert(init.len() > 0);
            assert(a.last() == '\n');
        }
        crate::text::lemma_lines_concat(a, l.push('\n'));
        assert(ls =~= init + seq![l]);
    } else {
        assert(lines_of(seq![]) =~= Seq::<Seq<char>>::empty());
    }
}

proof fn lemma_items_text(v: Seq<ItemView>, n: int)
    requires
        0 <= n <= v.len(),
        forall|k: int| 0 <= k < v.len() ==> clean_item(#[trigger] v[k]),
    ensures
        items_text(v, n) == joined(v.take(n).map_values(|i: ItemView| item_body(i))),
    decreases n,
{
    if n > 0 {
        lemma_items_text(v, n - 1);
        assert(v.take(n).map_values(|i: ItemView| item_body(i)).drop_last() =~= v.take(n - 1).map_values(|i: ItemView| item_body(i)));
        assert(clean_item(v[n - 1]));
        assert(item_line(v[n - 1]) =~= item_body(v[n - 1]).push('\n'));
    } else {
        assert(v.take(0).map_values(|i: ItemView| item_body(i)) =~= Seq::<Seq<char>>::empty());
    }
}

proof fn lemma_panes_text(v: Seq<SessionPane>, n: int)
    requires
        0 <= n <= v.len(),
    ensures
        panes_text(v, n) == joined(v.take(n).map_values(|p: SessionPane| pane_body(p))),
    decreases n,
{
    if n > 0 {
        lemma_panes_text(v, n - 1);
        assert(v.take(n).map_values(|p: SessionPane| pane_body(p)).drop_last() =~= v.take(n - 1).map_values(|p: SessionPane| pane_body(p)));
        assert(pane_line(v[n - 1]) =~= pane_body(v[n - 1]).push('\n'));
    } else {
        assert(v.take(0).map_values(|p: SessionPane| pane_body(p)) =~= Seq::<Seq<char>>::empty());
    }
}

/// The `|`-parts past a prefix are those of what follows it.
proof fn lemma_bar_shift(a: Seq<char>, b: Seq<char>, j: int, cur: Seq<char>)
    requires
        0 <= j,
    ensures
        bar_parts(a + b, a.len() + j, cur) == bar_parts(b, j, cur),
    decreases b.len() - j,
{
    if j < b.len() {
        assert((a + b)[a.len() + j] == b[j]);
        lemma_bar_shift(a, b, j + 1, seq![]);
        lemma_bar_shift(a, b, j + 1, cur.push(b[j]));
    }
}

proof fn lemma_bar_first(x: Seq<char>, y: Seq<char>, i: int)
    requires
        0 <= i <= x.len(),
        forall|k: int| 0 <= k < x.len() ==> x[k] != '|',
    ensures
        bar_parts(x + seq!['|'] + y, i, x.take(i)) == seq![x] + bar_parts(y, 0, seq![]),
    decreases x.len() - i,
{
    let s = x + seq!['|'] + y;
    if i < x.len() {
        assert(s[i] == x[i]);
        assert(x.take(i).push(x[i]) =~= x.take(i + 1));
        lemma_bar_first(x, y, i + 1);
    } else {
        assert(s[i] == '|');
        assert(x.take(i) =~= x);
        assert(s =~= (x + seq!['|']) + y);
        lemma_bar_shift(x + seq!['|'], y, 0, seq![]);
        assert((x + seq!['|']).len() + 0 == i + 1);
    }
}

/// `x|y` splits into `x` and the parts of `y`.
proof fn lemma_parts_cons(x: Seq<char>, y: Seq<char>)
    requires
        forall|k: int| 0 <= k < x.len() ==> x[k] != '|',
    ensures
        parts_of(x + seq!['|'] + y) == seq![x] + parts_of(y),
{
    assert(x.take(0) =~= Seq::<char>::empty());
    lemma_bar_first(x, y, 0);
}

proof fn lemma_parts_one_from(x: Seq<char>, i: int)
    requires
        0 <= i <= x.len(),
        forall|k: int| 0 <= k < x.len() ==> x[k] != '|',
    ensures
        bar_parts(x, i, x.take(i)) == seq![x],
    decreases x.len() - i,
{
    if i < x.len() {
        assert(x.take(i).push(x[i]) =~= x.take(i + 1));
        lemma_parts_one_from(x, i + 1);
    } else {
        assert(x.take(i) =~= x);
    }
}

/// Text without `|` is one part.
proof fn lemma_parts_one(x: Seq<char>)
    requires
        forall|k: int| 0 <= k < x.len() ==> x[k] != '|',
    ensures
        parts_of(x) == seq![x],
{
    assert(x.take(0) =~= Seq::<char>::empty());
    lemma_parts_one_from(x, 0);
}

/// The digits of a number: clean, without `|`, and read back as it.
proof fn lemma_number(n: usize)
    ensures
        num_or_zero(decimal(n as nat)) == n,
        clean_text(decimal(n as nat)),
        forall|k: int| 0 <= k < decimal(n as nat).len() ==> decimal(n as nat)[k] != '|',
        trimmed(decimal(n as nat)) == decimal(n as nat),
{
    crate::text::lemma_parse_decimal(n);
    let d = decimal(n as nat);
    assert(crate::text::is_digit(d[0]));
    assert(crate::text::is_digit(d[d.len() - 1]));
    crate::text::lemma_trimmed_self(d);
}

/// `x` does not start with `key` when the first characters differ.
proof fn lemma_not_prefix(x: Seq<char>, key: Seq<char>)
    requires
        x.len() > 0,
        key.len() > 0,
        x[0] != key[0],
    ensures
        !has_prefix(x, key),
{
    if has_prefix(x, key) {
        assert(x.take(key.len() as int)[0] == x[0]);
    }
}

/// `p|...` starts with a key only when `p` does, since no key holds `|`.
proof fn lemma_not_keyed(p: Seq<char>, rest: Seq<char>)
    requires
        !keyed(p),
    ensures
        !keyed(p + seq!['|'] + rest),
{
    reveal_strlit("active=");
    reveal_strlit("split=");
    reveal_strlit("focus_pane=");
    reveal_strlit("pane=");
    reveal_strlit("term=");
    let l = p + seq!['|'] + rest;
    assert forall|key: Seq<char>| (forall|k: int| 0 <= k < key.len() ==> key[k] != '|') && #[trigger] has_prefix(l, key) implies has_prefix(p, key) by {
        if key.len() > p.len() {
            assert(l.take(key.len() as int)[p.len() as int] == key[p.len() as int]);
            assert(l[p.len() as int] == '|');
        } else {
            assert(l.take(key.len() as int) =~= p.take(key.len() as int));
        }
    }
    assert(forall|k: int| 0 <= k < "active="@.len() ==> "active="@[k] != '|');
    assert(forall|k: int| 0 <= k < "split="@.len() ==> "split="@[k] != '|');
    assert(forall|k: int| 0 <= k < "focus_pane="@.len() ==> "focus_pane="@[k] != '|');
    assert(forall|k: int| 0 <= k < "pane="@.len() ==> "pane="@[k] != '|');
    assert(forall|k: int| 0 <= k < "term="@.len() ==> "term="@[k] != '|');
}

/// A tab's line is read back as that tab.
proof fn lemma_item_step(st: ScanState, i: ItemView, present: Seq<bool>)
    requires
        clean_item(i),
        0 <= st.k < present.len(),
        present[st.k],
    ensures
        clean_text(item_body(i)),
        scan_step(st, trimmed(item_body(i)), present) == (ScanState { items: st.items.push(i), k: st.k + 1, ..st }),
{
    reveal_strlit("active=");
    reveal_strlit("split=");
    reveal_strlit("focus_pane=");
    reveal_strlit("pane=");
    reveal_strlit("term=");
    let l = item_body(i);
    match i {
        ItemView::File(p, r, c) => {
            lemma_number(r);
            lemma_number(c);
            let dr = decimal(r as nat);
            let dc = decimal(c as nat);
            let tail = dr + seq!['|'] + dc;
            assert(l =~= p + seq!['|'] + tail);
            assert(l[0] == p[0]);
            assert(l.last() == dc.last());
            assert forall|k: int| 0 <= k < l.len() implies l[k] != '\n' by {
                if k < p.len() {
                    assert(l[k] == p[k]);
                } else if k > p.len() && k < p.len() + 1 + dr.len() {
                    assert(l[k] == dr[k - p.len() - 1]);
                } else if k > p.len() + dr.len() + 1 {
                    assert(l[k] == dc[k - p.len() - dr.len() - 2]);
                }
            }
            crate::text::lemma_trimmed_self(l);
            lemma_not_keyed(p, tail);
            lemma_parts_cons(p, tail);
            lemma_parts_cons(dr, dc);
            lemma_parts_one(dc);
            assert(parts_of(l) =~= seq![p, dr, dc]);
        },
        ItemView::Terminal(cwd) => {
            let key = "term="@;
            assert(l.skip(5) =~= cwd);
            assert(l[0] == 't');
            assert(l.last() == cwd.last());
            assert forall|k: int| 0 <= k < l.len() implies l[k] != '\n' by {
                if k >= 5 {
                    assert(l[k] == cwd[k - 5]);
                }
            }
            crate::text::lemma_trimmed_self(l);
            crate::text::lemma_trimmed_self(cwd);
            lemma_not_prefix(l, "active="@);
            lemma_not_prefix(l, "split="@);
            lemma_not_prefix(l, "focus_pane="@);
            lemma_not_prefix(l, "pane="@);
            assert(l.take(5) =~= key);
        },
    }
}

/// The scan after the header, the active line and the first `m` tabs.
proof fn lemma_scan_items(ls: Seq<Seq<char>>, items: Seq<ItemView>, a: usize, present: Seq<bool>, m: int)
    requires
        ls.len() >= 2 + items.len(),
        scan_upto(ls, 2, present) == (ScanState { active: a, ..scan_start() }),
        forall|k: int| 0 <= k < items.len() ==> ls[2 + k] == item_body(#[trigger] items[k]),
        forall|k: int| 0 <= k < items.len() ==> clean_item(#[trigger] items[k]),
        present.len() >= items.len(),
        forall|k: int| 0 <= k < present.len() ==> #[trigger] present[k],
        0 <= m <= items.len(),
    ensures
        scan_upto(ls, 2 + m, present) == (ScanState { items: items.take(m), active: a, k: m, ..scan_start() }),
    decreases m,
{
    if m > 0 {
        lemma_scan_items(ls, items, a, present, m - 1);
        let st = scan_upto(ls, 2 + m - 1, present);
        assert(clean_item(items[m - 1]));
        assert(present[m - 1]);
        lemma_item_step(st, items[m - 1], present);
        assert(ls[2 + m - 1] == item_body(items[m - 1]));
        assert(items.take(m - 1).push(items[m - 1]) =~= items.take(m));
    } else {
        assert(items.take(0) =~= Seq::<ItemView>::empty());
    }
}

/// Text joined from pieces without a newline has none.
proof fn lemma_no_newline(a: Seq<char>, b: Seq<char>)
    requires
        forall|k: int| 0 <= k < a.len() ==> a[k] != '\n',
        forall|k: int| 0 <= k < b.len() ==> b[k] != '\n',
    ensures
        forall|k: int| 0 <= k < (a + b).len() ==> (a + b)[k] != '\n',
{
    assert forall|k: int| 0 <= k < (a + b).len() implies (a + b)[k] != '\n' by {
        if k < a.len() {
            assert((a + b)[k] == a[k]);
        } else {
            assert((a + b)[k] == b[k - a.len()]);
        }
    }
}

/// Four pieces without `|` or newline, joined by `|`, split back into
/// them.
proof fn lemma_four_parts(d0: Seq<char>, d1: Seq<char>, d2: Seq<char>, d3: Seq<char>)
    requires
        forall|k: int| 0 <= k < d0.len() ==> d0[k] != '|' && d0[k] != '\n',
        forall|k: int| 0 <= k < d1.len() ==> d1[k] != '|' && d1[k] != '\n',
        forall|k: int| 0 <= k < d2.len() ==> d2[k] != '|' && d2[k] != '\n',
        forall|k: int| 0 <= k < d3.len() ==> d3[k] != '|' && d3[k] != '\n',
        d3.len() > 0,
    ensures
        ({
            let rest = d0 + seq!['|'] + d1 + seq!['|'] + d2 + seq!['|'] + d3;
            &&& parts_of(rest) == seq![d0, d1, d2, d3]
            &&& forall|k: int| 0 <= k < rest.len() ==> rest[k] != '\n'
            &&& rest.len() > 0
            &&& rest.last() == d3.last()
        }),
{
    let bar = seq!['|'];
    let t2 = d2 + bar + d3;
    let t1 = d1 + bar + t2;
    let rest = d0 + bar + d1 + bar + d2 + bar + d3;
    assert(rest =~= d0 + bar + t1);
    lemma_parts_cons(d0, t1);
    lemma_parts_cons(d1, t2);
    lemma_parts_cons(d2, d3);
    lemma_parts_one(d3);
    assert(parts_of(rest) =~= seq![d0, d1, d2, d3]);
    assert(forall|k: int| 0 <= k < bar.len() ==> bar[k] != '\n');
    lemma_no_newline(d2, bar);
    lemma_no_newline(d2 + bar, d3);
    lemma_no_newline(d1, bar);
    lemma_no_newline(d1 + bar, t2);
    lemma_no_newline(d0, bar);
    lemma_no_newline(d0 + bar, t1);
}

/// Four numbers joined by `|` split back into their digits.
proof fn lemma_pane_parts(p: SessionPane)
    ensures
        ({
            let d0 = decimal(p.tab as nat);
            let d1 = decimal(p.scroll as nat);
            let d2 = decimal(p.row as nat);
            let d3 = decimal(p.col as nat);
            let rest = d0 + seq!['|'] + d1 + seq!['|'] + d2 + seq!['|'] + d3;
            &&& parts_of(rest) == seq![d0, d1, d2, d3]
            &&& forall|k: int| 0 <= k < rest.len() ==> rest[k] != '\n'
            &&& rest.len() > 0
            &&& rest.last() == d3.last()
        }),
{
    lemma_number(p.tab);
    lemma_number(p.scroll);
    lemma_number(p.row);
    lemma_number(p.col);
    lemma_four_parts(decimal(p.tab as nat), decimal(p.scroll as nat), decimal(p.row as nat), decimal(p.col as nat));
}

/// A pane's line is read back as that pane.
proof fn lemma_pane_step(st: ScanState, p: SessionPane, present: Seq<bool>)
    ensures
        clean_text(pane_body(p)),
        scan_step(st, trimmed(pane_body(p)), present) == (ScanState { panes: st.panes.push(p), ..st }),
{
    reveal_strlit("active=");
    reveal_strlit("split=");
    reveal_strlit("focus_pane=");
    reveal_strlit("pane=");
    lemma_number(p.col);
    lemma_pane_parts(p);
    let rest = decimal(p.tab as nat) + seq!['|'] + decimal(p.scroll as nat) + seq!['|'] + decimal(p.row as nat) + seq!['|']
        + decimal(p.col as nat);
    let l = pane_body(p);
    assert(l =~= "pane="@ + rest);
    assert(l.skip(5) =~= rest);
    assert(l[0] == 'p');
    assert(l.last() == rest.last());
    lemma_no_newline("pane="@, rest);
    crate::text::lemma_trimmed_self(l);
    lemma_not_prefix(l, "active="@);
    lemma_not_prefix(l, "split="@);
    lemma_not_prefix(l, "focus_pane="@);
    assert(l.take(5) =~= "pane="@);
    lemma_number(p.tab);
    lemma_number(p.scroll);
    lemma_number(p.row);
}

/// The scan past the first `m` pane lines.
proof fn lemma_scan_panes(ls: Seq<Seq<char>>, base: int, panes: Seq<SessionPane>, st0: ScanState, present: Seq<bool>, m: int)
    requires
        0 <= base,
        ls.len() >= base + panes.len(),
        scan_upto(ls, base, present) == st0,
        forall|k: int| 0 <= k < panes.len() ==> ls[base + k] == pane_body(#[trigger] panes[k]),
        0 <= m <= panes.len(),
    ensures
        scan_upto(ls, base + m, present) == (ScanState { panes: st0.panes + panes.take(m), ..st0 }),
    decreases m,
{
    if m > 0 {
        lemma_scan_panes(ls, base, panes, st0, present, m - 1);
        let st = scan_upto(ls, base + m - 1, present);
        lemma_pane_step(st, panes[m - 1], present);
        assert(ls[base + m - 1] == pane_body(panes[m - 1]));
        assert(st0.panes + panes.take(m - 1) + seq![panes[m - 1]] =~= st0.panes + panes.take(m));
        assert((st0.panes + panes.take(m - 1)).push(panes[m - 1]) =~= st0.panes + panes.take(m));
    } else {
        assert(st0.panes + panes.take(0) =~= st0.panes);
    }
}



/// The header line without its newline.
pub open spec fn header_body() -> Seq<char> {
    header_line().drop_last()
}

proof fn lemma_header()
    ensures
        clean_text(header_body()),
        header_body()[0] == '#',
        header_line() == header_body().push('\n'),
{
    reveal_strlit("# suisei session — paths, cursors, split layout\n");
    assert(header_line() =~= header_body().push('\n'));
    assert(header_body()[0] == '#');
    assert(header_body().last() == 't');
    assert forall|k: int| 0 <= k < header_body().len() implies header_body()[k] != '\n' by {
        assert(header_body()[k] == header_line()[k]);
    }
}

/// The line of the active tab, without its newline.
pub open spec fn active_body(a: usize) -> Seq<char> {
    "active="@ + decimal(a as nat)
}

proof fn lemma_prefixed(key: Seq<char>, d: Seq<char>)
    requires
        key.len() > 0,
        !crate::text::is_space(key[0]),
        forall|k: int| 0 <= k < key.len() ==> key[k] != '\n',
        clean_text(d),
    ensures
        clean_text(key + d),
        (key + d).skip(key.len() as int) == d,
        (key + d).take(key.len() as int) == key,
        trimmed(key + d) == key + d,
        (key + d)[0] == key[0],
{
    let l = key + d;
    assert(l.skip(key.len() as int) =~= d);
    assert(l.take(key.len() as int) =~= key);
    assert(l[0] == key[0]);
    assert(l.last() == d.last());
    lemma_no_newline(key, d);
    crate::text::lemma_trimmed_self(l);
}

proof fn lemma_active_step(st: ScanState, a: usize, present: Seq<bool>)
    ensures
        clean_text(active_body(a)),
        scan_step(st, trimmed(active_body(a)), present) == (ScanState { active: a, ..st }),
{
    reveal_strlit("active=");
    lemma_number(a);
    lemma_prefixed("active="@, decimal(a as nat));
}

proof fn lemma_split_step(st: ScanState, tree: Seq<char>, present: Seq<bool>)
    requires
        clean_text(tree),
    ensures
        clean_text("split="@ + tree),
        scan_step(st, trimmed("split="@ + tree), present) == (ScanState { tree, have_split: true, ..st }),
{
    reveal_strlit("active=");
    reveal_strlit("split=");
    lemma_prefixed("split="@, tree);
    crate::text::lemma_trimmed_self(tree);
    lemma_not_prefix("split="@ + tree, "active="@);
}

proof fn lemma_focus_step(st: ScanState, f: usize, present: Seq<bool>)
    ensures
        clean_text("focus_pane="@ + decimal(f as nat)),
        scan_step(st, trimmed("focus_pane="@ + decimal(f as nat)), present) == (ScanState { focus: f, ..st }),
{
    reveal_strlit("active=");
    reveal_strlit("split=");
    reveal_strlit("focus_pane=");
    lemma_number(f);
    lemma_prefixed("focus_pane="@, decimal(f as nat));
    lemma_not_prefix("focus_pane="@ + decimal(f as nat), "active="@);
    lemma_not_prefix("focus_pane="@ + decimal(f as nat), "split="@);
}

proof fn lemma_keep_all(panes: Seq<SessionPane>, n: int, m: int)
    requires
        0 <= m <= panes.len(),
        forall|k: int| 0 <= k < panes.len() ==> (#[trigger] panes[k]).tab < n,
    ensures
        panes.take(m).filter(|p: SessionPane| p.tab < n) == panes.take(m),
    decreases m,
{
    if m > 0 {
        lemma_keep_all(panes, n, m - 1);
        assert(panes.take(m) =~= panes.take(m - 1).push(panes[m - 1]));
        panes.take(m - 1).lemma_filter_push(panes[m - 1], |p: SessionPane| p.tab < n);
    } else {
        assert(panes.take(0) =~= Seq::<SessionPane>::empty());
        assert(Seq::<SessionPane>::empty().filter(|p: SessionPane| p.tab < n) =~= Seq::<SessionPane>::empty());
    }
}

/// The lines of a written session, without their newlines.
pub open spec fn session_body(items: Seq<ItemView>, active: usize, split: Option<(Seq<char>, usize, Seq<SessionPane>)>) -> Seq<Seq<char>> {
    seq![header_body(), active_body(active)] + items.map_values(|i: ItemView| item_body(i)) + match split {
        Some((tree, focus, panes)) => seq!["split="@ + tree, "focus_pane="@ + decimal(focus as nat)] + panes.map_values(
            |p: SessionPane| pane_body(p),
        ),
        None => seq![],
    }
}

proof fn lemma_joined_two(x: Seq<char>, y: Seq<char>)
    ensures
        joined(seq![x, y]) == x.push('\n') + y.push('\n'),
{
    assert(seq![x, y].drop_last() =~= seq![x]);
    assert(seq![x].drop_last() =~= Seq::<Seq<char>>::empty());
    assert(joined(Seq::<Seq<char>>::empty()) =~= Seq::<char>::empty());
    assert(seq![x].last() == x);
    assert(joined(seq![x]) =~= x.push('\n'));
    assert(joined(seq![x, y]) =~= x.push('\n') + y.push('\n'));
}

/// Every line of a written session is clean text.
proof fn lemma_body_clean(items: Seq<ItemView>, active: usize, split: Option<(Seq<char>, usize, Seq<SessionPane>)>)
    requires
        forall|k: int| 0 <= k < items.len() ==> clean_item(#[trigger] items[k]),
        clean_split(split, items.len()),
    ensures
        forall|k: int| 0 <= k < session_body(items, active, split).len() ==> clean_text(#[trigger] session_body(items, active, split)[k]),
{
    let n = items.len() as int;
    let ls = session_body(items, active, split);
    lemma_header();
    lemma_active_step(scan_start(), active, seq![]);
    assert forall|k: int| 0 <= k < ls.len() implies clean_text(#[trigger] ls[k]) by {
        if k < 2 {
        } else if k < 2 + n {
            assert(ls[k] == item_body(items[k - 2]));
            lemma_item_step(scan_start(), items[k - 2], seq![true]);
        } else {
            match split {
                Some((tree, focus, panes)) => {
                    if k == 2 + n {
                        lemma_split_step(scan_start(), tree, seq![]);
                    } else if k == 3 + n {
                        lemma_focus_step(scan_start(), focus, seq![]);
                    } else {
                        assert(ls[k] == pane_body(panes[k - 4 - n]));
                        lemma_pane_step(scan_start(), panes[k - 4 - n], seq![]);
                    }
                },
                None => {},
            }
        }
    }
}

/// The scan of a written split, from the state `st` after the tabs.
proof fn lemma_scan_split(ls: Seq<Seq<char>>, n: int, st: ScanState, tree: Seq<char>, focus: usize, panes: Seq<SessionPane>, present: Seq<bool>)
    requires
        0 <= n,
        ls.len() == 4 + n + panes.len(),
        scan_upto(ls, 2 + n, present) == st,
        st.panes.len() == 0,
        clean_text(tree),
        ls[2 + n] == "split="@ + tree,
        ls[3 + n] == "focus_pane="@ + decimal(focus as nat),
        forall|k: int| 0 <= k < panes.len() ==> ls[4 + n + k] == pane_body(#[trigger] panes[k]),
    ensures
        scan_upto(ls, ls.len() as int, present) == (ScanState { tree, have_split: true, focus, panes, ..st }),
{
    lemma_split_step(st, tree, present);
    let st1 = ScanState { tree, have_split: true, ..st };
    assert(scan_upto(ls, 3 + n, present) == st1);
    lemma_focus_step(st1, focus, present);
    let st2 = ScanState { focus, ..st1 };
    assert(scan_upto(ls, 4 + n, present) == st2);
    lemma_scan_panes(ls, 4 + n, panes, st2, present, panes.len() as int);
    assert(panes.take(panes.len() as int) =~= panes);
    assert(st2.panes + panes =~= panes);
}

proof fn lemma_render_joined(items: Seq<ItemView>, active: usize, split: Option<(Seq<char>, usize, Seq<SessionPane>)>)
    requires
        forall|k: int| 0 <= k < items.len() ==> clean_item(#[trigger] items[k]),
    ensures
        render_spec(items, active, split) == joined(session_body(items, active, split)),
{
    lemma_header();
    let ib = items.map_values(|i: ItemView| item_body(i));
    lemma_items_text(items, items.len() as int);
    assert(items.take(items.len() as int) =~= items);
    let first = seq![header_body(), active_body(active)];
    lemma_joined_two(header_body(), active_body(active));
    assert(joined(first) =~= header_line() + "active="@ + decimal(active as nat) + seq!['\n']);
    lemma_joined_concat(first, ib);
    match split {
        Some((tree, focus, panes)) => {
            let two = seq!["split="@ + tree, "focus_pane="@ + decimal(focus as nat)];
            let pb = panes.map_values(|p: SessionPane| pane_body(p));
            lemma_panes_text(panes, panes.len() as int);
            assert(panes.take(panes.len() as int) =~= panes);
            lemma_joined_two("split="@ + tree, "focus_pane="@ + decimal(focus as nat));
            assert(joined(two) =~= "split="@ + tree + seq!['\n'] + "focus_pane="@ + decimal(focus as nat) + seq!['\n']);
            lemma_joined_concat(two, pb);
            lemma_joined_concat(first + ib, two + pb);
            assert(session_body(items, active, split) =~= (first + ib) + (two + pb));
            assert(render_spec(items, active, split) =~= joined(first + ib) + joined(two + pb));
        },
        None => {
            assert(session_body(items, active, split) =~= first + ib);
            assert(render_spec(items, active, split) =~= joined(first + ib));
        },
    }
}

/// Reading a written session back, with every tab still there, gives the
/// same tabs, active tab and split, when each tab is one the file can hold,
/// the active tab is one of them, and the split is one the file can hold.
#[verifier::rlimit(40)]
pub proof fn law_session_round_trip(
    items: Seq<ItemView>,
    active: usize,
    split: Option<(Seq<char>, usize, Seq<SessionPane>)>,
    present: Seq<bool>,
)
    requires
        forall|k: int| 0 <= k < items.len() ==> clean_item(#[trigger] items[k]),
        active < items.len(),
        clean_split(split, items.len()),
        present.len() >= items.len(),
        forall|k: int| 0 <= k < present.len() ==> #[trigger] present[k],
    ensures
        parse_spec(render_spec(items, active, split), present) == (items, active, split),
{
    let n = items.len() as int;
    let ls = session_body(items, active, split);
    lemma_render_joined(items, active, split);
    lemma_body_clean(items, active, split);
    lemma_joined_lines(ls);
    lemma_header();
    assert(ls[0] == header_body());
    assert(ls[1] == active_body(active));
    crate::text::lemma_trimmed_self(header_body());
    assert(scan_upto(ls, 0, present) == scan_start());
    assert(scan_upto(ls, 1, present) == scan_start());
    lemma_active_step(scan_start(), active, present);
    assert(scan_upto(ls, 2, present) == (ScanState { active, ..scan_start() }));
    assert forall|k: int| 0 <= k < n implies ls[2 + k] == item_body(#[trigger] items[k]) by {}
    lemma_scan_items(ls, items, active, present, n);
    assert(items.take(n) =~= items);
    let st = scan_upto(ls, 2 + n, present);
    match split {
        Some((tree, focus, panes)) => {
            assert forall|k: int| 0 <= k < panes.len() implies ls[4 + n + k] == pane_body(#[trigger] panes[k]) by {}
            lemma_scan_split(ls, n, st, tree, focus, panes, present);
            lemma_keep_all(panes, n, panes.len() as int);
            assert(panes.take(panes.len() as int) =~= panes);
        },
        None => {
            assert(ls.len() == 2 + n);
        },
    }
}

/// A session written and read back, with every tab still there, is the
/// same session, when its tabs, active tab and split are ones the file can
/// hold.
pub proof fn law_session_read_gives_back_write(s: Session, present: Seq<bool>)
    requires
        forall|k: int| 0 <= k < s.items@.len() ==> clean_item(#[trigger] item_view(s.items@[k])),
        s.active < s.items@.len(),
        clean_split(split_view(s.split), s.items@.len()),
        present.len() >= s.items@.len(),
        forall|k: int| 0 <= k < present.len() ==> #[trigger] present[k],
    ensures
        parse_spec(render_spec(items_view(s.items@), s.active, split_view(s.split)), present) == (
            items_view(s.items@),
            s.active,
            split_view(s.split),
        ),
{
    let v = items_view(s.items@);
    assert forall|k: int| 0 <= k < v.len() implies clean_item(#[trigger] v[k]) by {
        assert(v[k] == item_view(s.items@[k]));
    }
    law_session_round_trip(v, s.active, split_view(s.split), present);
}


} // verus!
