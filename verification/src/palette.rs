//! The command / file / problems palette: a list of items, a query, and the
//! items that match it ranked best first.
//!
//! Matching is fuzzy: the query's characters must appear in order in the
//! item's text, and a match scores higher when its characters run together,
//! fall at the start of a path or word component, or land in the file's
//! basename, and lower when it had to skip far or the text is long.

use vstd::prelude::*;
use crate::text::{chars_of, string_of, own, push_char, push_str, to_lower, lowercase, decimal, decimal_string};

verus! {

#[derive(Clone, Copy, Debug, PartialEq, Eq, Structural)]
pub enum PaletteKind {
    Files,
    Commands,
    Problems,
    /// Document or workspace symbols.
    Symbols,
    /// Code actions and quick fixes.
    CodeActions,
}

/// What choosing an item does.
#[derive(Clone, Debug)]
pub enum PaletteAction {
    /// Open the file at this path.
    OpenFile(String),
    /// Run a built-in command by id.
    Command(&'static str),
    Goto { row: usize, col: usize },
    /// Jump to a place in another file.
    GotoFile { path: String, row: usize, col: usize },
    /// Run the code action with this index.
    CodeAction(usize),
}

#[derive(Clone, Debug)]
pub struct PaletteItem {
    pub label: String,
    pub detail: String,
    pub action: PaletteAction,
}

/// How bad a diagnostic is.
#[derive(Clone, Copy, Debug, PartialEq, Eq, Structural)]
pub enum DiagnosticSeverity {
    Error,
    Warning,
    Info,
    Hint,
}

/// A problem a language server reported, as the palette lists it.
#[derive(Clone, Debug)]
pub struct Diagnostic {
    pub row: usize,
    pub col_start: usize,
    pub severity: DiagnosticSeverity,
    pub message: String,
}

/// The palette.
#[derive(Clone, Debug)]
pub struct Palette {
    pub open: bool,
    pub kind: PaletteKind,
    pub query: String,
    pub items: Vec<PaletteItem>,
    /// Indices into `items` of the matches, best first.
    pub filtered: Vec<usize>,
    pub selected: usize,
    /// When the opening animation started, in milliseconds of the shell's
    /// clock; set by the shell on the first frame.
    pub opened_at: Option<u64>,
    /// The opening animation waits for its first frame.
    pub anim_pending: bool,
}

/// Length of the expand-in animation, in milliseconds.
pub const PALETTE_ANIM_MS: u64 = 160;

// ── Fuzzy scoring ───────────────────────────────────────────────────────────

/// The first index at or after `i` where `h` holds `c`.
pub open spec fn find_from(h: Seq<char>, c: char, i: int) -> Option<int>
    decreases h.len() - i,
{
    if i < 0 || i >= h.len() {
        None
    } else if h[i] == c {
        Some(i)
    } else {
        find_from(h, c, i + 1)
    }
}

/// The last index before `n` where `h` holds `'/'`.
pub open spec fn last_slash(h: Seq<char>, n: int) -> Option<int>
    decreases n,
{
    if n <= 0 {
        None
    } else if h[n - 1] == '/' {
        Some(n - 1)
    } else {
        last_slash(h, n - 1)
    }
}

/// Where the basename starts: just after the last `/`.
pub open spec fn base_of(h: Seq<char>) -> int {
    match last_slash(h, h.len() as int) {
        Some(i) => i + 1,
        None => 0,
    }
}

/// Index `i` starts a path or word component.
pub open spec fn at_boundary(h: Seq<char>, i: int) -> bool {
    i == 0 || h[i - 1] == '/' || h[i - 1] == '_' || h[i - 1] == '-' || h[i - 1] == '.' || h[i - 1] == ' '
}

/// What one matched character earns: found at `at` after searching from
/// `from`, the previous match at `prev`.
pub open spec fn hit_gain(h: Seq<char>, base: int, from: int, at: int, prev: Option<int>) -> int {
    (if prev == Some(at - 1) { 15int } else { 0int }) + (if at_boundary(h, at) { 10int } else { 0int }) + (
    if at >= base { 12int } else { 0int }) - (if at - from < 10 { at - from } else { 10 })
}

/// Matching `nd[k..]` greedily in `h` from index `hi`: the sum of the
/// gains, or `None` when some character cannot be found.
pub open spec fn fuzzy_steps(h: Seq<char>, nd: Seq<char>, base: int, k: int, hi: int, prev: Option<int>) -> Option<int>
    decreases nd.len() - k, h.len() - hi,
{
    if k < 0 || k >= nd.len() {
        Some(0)
    } else {
        match find_from(h, nd[k], hi) {
            None => None,
            Some(at) => if at < hi {
                None
            } else {
                match fuzzy_steps(h, nd, base, k + 1, at + 1, Some(at)) {
                    Some(rest) => Some(hit_gain(h, base, hi, at, prev) + rest),
                    None => None,
                }
            },
        }
    }
}

/// The score of `needle` in `hay`, higher is better; `None` when the
/// needle's characters do not all appear in order. Longer hay scores less.
pub open spec fn fuzzy_spec(hay: Seq<char>, nd: Seq<char>) -> Option<int> {
    if nd.len() == 0 {
        Some(0)
    } else {
        match fuzzy_steps(hay, nd, base_of(hay), 0, 0, None) {
            Some(s) => Some(s - hay.len() / 24),
            None => None,
        }
    }
}

proof fn lemma_find_from(h: Seq<char>, c: char, i: int)
    requires
        0 <= i,
    ensures
        match find_from(h, c, i) {
            Some(at) => i <= at < h.len() && h[at] == c && forall|j: int| i <= j < at ==> h[j] != c,
            None => forall|j: int| i <= j < h.len() ==> h[j] != c,
        },
    decreases h.len() - i,
{
    if i < h.len() && h[i] != c {
        lemma_find_from(h, c, i + 1);
    }
}

/// Score a fuzzy match of `needle` in `hay`, or `None` when the needle does
/// not fit.
pub fn fuzzy_score(hay: &str, needle: &str) -> (r: Option<i128>)
    ensures
        match r {
            Some(s) => fuzzy_spec(hay@, needle@) == Some(s as int),
            None => fuzzy_spec(hay@, needle@) is None,
        },
{
    let h = chars_of(hay);
    let n = chars_of(needle);
    if n.len() == 0 {
        return Some(0);
    }
    let mut s: usize = h.len();
    while s > 0 && h[s - 1] != '/'
        invariant
            s <= h@.len(),
            last_slash(h@, h@.len() as int) == last_slash(h@, s as int),
        decreases s,
    {
        s -= 1;
    }
    let base = s;
    let mut score: i128 = 0;
    let mut hi: usize = 0;
    let mut prev: Option<usize> = None;
    let mut k: usize = 0;
    while k < n.len()
        invariant
            k <= n@.len(),
            hi <= h@.len(),
            h@ == hay@,
            n@ == needle@,
            n@.len() > 0,
            base as int == base_of(h@),
            -10 * (k as int) <= score <= 37 * (k as int),
            prev matches Some(p) ==> p < hi,
            match fuzzy_steps(h@, n@, base as int, k as int, hi as int, match prev { Some(p) => Some(p as int), None => None }) {
                Some(rest) => fuzzy_steps(h@, n@, base as int, 0, 0, None) == Some(score + rest),
                None => fuzzy_steps(h@, n@, base as int, 0, 0, None) is None,
            },
        decreases n@.len() - k,
    {
        let nc = n[k];
        let start = hi;
        proof {
            lemma_find_from(h@, nc, hi as int);
        }
        while hi < h.len() && h[hi] != nc
            invariant
                start <= hi <= h@.len(),
                find_from(h@, nc, hi as int) == find_from(h@, nc, start as int),
            decreases h@.len() - hi,
        {
            hi += 1;
        }
        if hi >= h.len() {
            return None;
        }
        let mut gain: i128 = 0;
        match prev {
            Some(p) => {
                if hi >= 1 && p == hi - 1 {
                    gain = gain + 15;
                }
            },
            None => {},
        }
        let boundary = hi == 0 || h[hi - 1] == '/' || h[hi - 1] == '_' || h[hi - 1] == '-' || h[hi - 1] == '.'
            || h[hi - 1] == ' ';
        if boundary {
            gain = gain + 10;
        }
        if hi >= base {
            gain = gain + 12;
        }
        let skip = hi - start;
        let pen: i128 = if skip < 10 { skip as i128 } else { 10 };
        gain = gain - pen;
        proof {
            let pv = match prev { Some(p) => Some(p as int), None => None };
            assert(gain == hit_gain(h@, base as int, start as int, hi as int, pv));
        }
        score = score + gain;
        prev = Some(hi);
        hi += 1;
        k += 1;
    }
    let tail: i128 = (h.len() / 24) as i128;
    Some(score - tail)
}

// ── Ranking ─────────────────────────────────────────────────────────────────

/// The text an item is matched against: label, a space, detail, lowercased.
pub open spec fn hay_of(it: PaletteItem) -> Seq<char> {
    lowercase(it.label@ + seq![' '] + it.detail@)
}

/// The score of item `i` of `items` against the lowercased query `q`.
pub open spec fn item_score(items: Seq<PaletteItem>, q: Seq<char>, i: int) -> Option<int> {
    fuzzy_spec(hay_of(items[i]), q)
}

/// Index `a` ranks before index `b`: higher score, then earlier item.
pub open spec fn ranks_before(items: Seq<PaletteItem>, q: Seq<char>, a: int, b: int) -> bool {
    let sa = item_score(items, q, a)->0;
    let sb = item_score(items, q, b)->0;
    sa > sb || (sa == sb && a < b)
}

/// `f` lists, best first, exactly the items among the first `n` that match.
pub open spec fn ranked(items: Seq<PaletteItem>, q: Seq<char>, f: Seq<usize>, n: int) -> bool {
    &&& forall|k: int| 0 <= k < f.len() ==> (#[trigger] f[k]) < n && item_score(items, q, f[k] as int) is Some
    &&& forall|i: int| 0 <= i < n && item_score(items, q, i) is Some ==> f.contains(i as usize)
    &&& forall|a: int, b: int| 0 <= a < b < f.len() ==> ranks_before(items, q, #[trigger] f[a] as int, #[trigger] f[b] as int)
}

/// Where the selection lands after the list changed: kept when still in
/// range, else the last match (0 for none).
pub open spec fn clamp_sel(sel: usize, len: int) -> usize {
    if sel >= len {
        if len == 0 { 0 } else { (len - 1) as usize }
    } else {
        sel
    }
}

/// What `refilter` produces for these items and query: every item, in
/// order, for an empty query, else the matches ranked best first.
pub open spec fn filtered_ok(items: Seq<PaletteItem>, query: Seq<char>, f: Seq<usize>) -> bool {
    let q = lowercase(query);
    if q.len() == 0 {
        f == Seq::new(items.len(), |i: int| i as usize)
    } else {
        ranked(items, q, f, items.len() as int)
    }
}

// ── Built-in commands ───────────────────────────────────────────────────────

/// The built-in commands: label, key hint, command id.
pub open spec fn builtin_spec() -> Seq<(&'static str, &'static str, &'static str)> {
    seq![
        ("Save file", "w", "save"),
        ("Save and quit", "wq", "wq"),
        ("Quit", "q", "quit"),
        ("Force quit", "q!", "quit!"),
        ("Toggle explorer", "Ctrl+F", "explorer"),
        ("Toggle side terminal", "Ctrl+T", "terminal"),
        ("Pane / full terminal", "Ctrl+Shift+T", "terminal_full"),
        ("Source Control", "Ctrl+G", "scm"),
        ("Git workbench", "Ctrl+Shift+G", "git"),
        ("Settings", "Ctrl+,", "settings"),
        ("Preview document", "Ctrl+Shift+V", "preview"),
        ("Command panel (XLC)", ":", "xlc"),
        ("Next tab", "gt", "tab_next"),
        ("Previous tab", "gT", "tab_prev"),
        ("Close tab", ":bd", "tab_close"),
        ("Theme: ocean", "", "theme:ocean"),
        ("Theme: monokai", "", "theme:monokai"),
        ("Theme: nord", "", "theme:nord"),
        ("Theme: gruvbox", "", "theme:gruvbox"),
        ("Theme: sakura", "", "theme:sakura"),
        ("Show problems", "", "problems"),
        ("Go to definition", "gd", "lsp_def"),
        ("Peek definition", "gp", "lsp_peek"),
        ("Format document", "Ctrl+Shift+I", "format"),
        ("Code actions / Quick fix", "Ctrl+.", "code_action"),
        ("Document symbols", "gO / Ctrl+Shift+O", "symbols"),
        ("Workspace symbols", "", "workspace_symbols"),
        ("Find in files", "Ctrl+Shift+F", "workspace_find"),
        ("Split vertical", "Ctrl+W v", "split_v"),
        ("Split horizontal", "Ctrl+W s", "split_h"),
        ("Find files", "Ctrl+P", "files"),
        ("Help", ":help", "help")
    ]
}

/// The palette item of a built-in command.
pub open spec fn command_item_ok(it: PaletteItem, c: (&'static str, &'static str, &'static str)) -> bool {
    it.label@ == c.0@ && it.detail@ == c.1@ && it.action == PaletteAction::Command(c.2)
}

fn push_command(v: &mut Vec<PaletteItem>, label: &'static str, detail: &'static str, id: &'static str)
    ensures
        final(v)@.len() == old(v)@.len() + 1,
        forall|k: int| 0 <= k < old(v)@.len() ==> #[trigger] final(v)@[k] == old(v)@[k],
        command_item_ok(final(v)@.last(), (label, detail, id)),
{
    v.push(PaletteItem { label: own(label), detail: own(detail), action: PaletteAction::Command(id) });
}

/// The built-in commands as palette items.
pub fn builtin_commands() -> (v: Vec<PaletteItem>)
    ensures
        v@.len() == builtin_spec().len(),
        forall|k: int| 0 <= k < v@.len() ==> command_item_ok(#[trigger] v@[k], builtin_spec()[k]),
{
    let mut v: Vec<PaletteItem> = Vec::new();
    push_command(&mut v, "Save file", "w", "save");
    push_command(&mut v, "Save and quit", "wq", "wq");
    push_command(&mut v, "Quit", "q", "quit");
    push_command(&mut v, "Force quit", "q!", "quit!");
    push_command(&mut v, "Toggle explorer", "Ctrl+F", "explorer");
    push_command(&mut v, "Toggle side terminal", "Ctrl+T", "terminal");
    push_command(&mut v, "Pane / full terminal", "Ctrl+Shift+T", "terminal_full");
    push_command(&mut v, "Source Control", "Ctrl+G", "scm");
    push_command(&mut v, "Git workbench", "Ctrl+Shift+G", "git");
    push_command(&mut v, "Settings", "Ctrl+,", "settings");
    push_command(&mut v, "Preview document", "Ctrl+Shift+V", "preview");
    push_command(&mut v, "Command panel (XLC)", ":", "xlc");
    push_command(&mut v, "Next tab", "gt", "tab_next");
    push_command(&mut v, "Previous tab", "gT", "tab_prev");
    push_command(&mut v, "Close tab", ":bd", "tab_close");
    push_command(&mut v, "Theme: ocean", "", "theme:ocean");
    push_command(&mut v, "Theme: monokai", "", "theme:monokai");
    push_command(&mut v, "Theme: nord", "", "theme:nord");
    push_command(&mut v, "Theme: gruvbox", "", "theme:gruvbox");
    push_command(&mut v, "Theme: sakura", "", "theme:sakura");
    push_command(&mut v, "Show problems", "", "problems");
    push_command(&mut v, "Go to definition", "gd", "lsp_def");
    push_command(&mut v, "Peek definition", "gp", "lsp_peek");
    push_command(&mut v, "Format document", "Ctrl+Shift+I", "format");
    push_command(&mut v, "Code actions / Quick fix", "Ctrl+.", "code_action");
    push_command(&mut v, "Document symbols", "gO / Ctrl+Shift+O", "symbols");
    push_command(&mut v, "Workspace symbols", "", "workspace_symbols");
    push_command(&mut v, "Find in files", "Ctrl+Shift+F", "workspace_find");
    push_command(&mut v, "Split vertical", "Ctrl+W v", "split_v");
    push_command(&mut v, "Split horizontal", "Ctrl+W s", "split_h");
    push_command(&mut v, "Find files", "Ctrl+P", "files");
    push_command(&mut v, "Help", ":help", "help");
    v
}

// ── Problems ────────────────────────────────────────────────────────────────

pub open spec fn severity_letter(s: DiagnosticSeverity) -> char {
    match s {
        DiagnosticSeverity::Error => 'E',
        DiagnosticSeverity::Warning => 'W',
        DiagnosticSeverity::Info => 'I',
        DiagnosticSeverity::Hint => 'H',
    }
}

/// `L<row>:<col>  [<severity>] <message>`, row and column counted from one.
pub open spec fn problem_label(d: Diagnostic) -> Seq<char> {
    seq!['L'] + decimal((d.row + 1) as nat) + seq![':'] + decimal((d.col_start + 1) as nat) + seq![
        ' ',
        ' ',
        '[',
        severity_letter(d.severity),
        ']',
        ' ',
    ] + d.message@
}

fn problem_item(d: &Diagnostic) -> (it: PaletteItem)
    requires
        d.row < usize::MAX,
        d.col_start < usize::MAX,
    ensures
        it.label@ == problem_label(*d),
        it.detail@ == Seq::<char>::empty(),
        it.action == (PaletteAction::Goto { row: d.row, col: d.col_start }),
{
    let mut v: Vec<char> = Vec::new();
    v.push('L');
    crate::text::push_decimal(&mut v, d.row + 1);
    v.push(':');
    crate::text::push_decimal(&mut v, d.col_start + 1);
    v.push(' ');
    v.push(' ');
    v.push('[');
    let sev = match d.severity {
        DiagnosticSeverity::Error => 'E',
        DiagnosticSeverity::Warning => 'W',
        DiagnosticSeverity::Info => 'I',
        DiagnosticSeverity::Hint => 'H',
    };
    v.push(sev);
    v.push(']');
    v.push(' ');
    let mut label = string_of(v.as_slice());
    push_str(&mut label, d.message.as_str());
    assert(label@ =~= problem_label(*d));
    PaletteItem { label, detail: String::new(), action: PaletteAction::Goto { row: d.row, col: d.col_start } }
}

/// A placeholder row for an empty list.
fn placeholder(label: &'static str, detail: &'static str) -> (it: PaletteItem)
    ensures
        it.label@ == label@,
        it.detail@ == detail@,
        it.action == PaletteAction::Command("noop"),
{
    PaletteItem { label: own(label), detail: own(detail), action: PaletteAction::Command("noop") }
}

// ── The palette ─────────────────────────────────────────────────────────────

/// Insert `i` into the ranked list `f` of matches among the first `i`
/// items, keeping it ranked.
fn insert_ranked(f: &mut Vec<usize>, scores: &Vec<i128>, i: usize, s: i128, Ghost(items): Ghost<Seq<PaletteItem>>, Ghost(q): Ghost<Seq<char>>)
    requires
        ranked(items, q, old(f)@, i as int),
        i < items.len(),
        item_score(items, q, i as int) == Some(s as int),
        i <= scores@.len(),
        forall|j: int| 0 <= j < i && item_score(items, q, j) is Some ==> item_score(items, q, j) == Some(
            #[trigger] scores@[j] as int,
        ),
    ensures
        ranked(items, q, final(f)@, i + 1),
{
    let mut p: usize = 0;
    while p < f.len() && scores[f[p]] >= s
        invariant
            p <= f@.len(),
            f@ == old(f)@,
            ranked(items, q, f@, i as int),
            i < items.len(),
            item_score(items, q, i as int) == Some(s as int),
            i <= scores@.len(),
            forall|j: int| 0 <= j < i && item_score(items, q, j) is Some ==> item_score(items, q, j) == Some(
                #[trigger] scores@[j] as int,
            ),
            forall|a: int| 0 <= a < p ==> ranks_before(items, q, #[trigger] f@[a] as int, i as int),
        decreases f@.len() - p,
    {
        assert(f@[p as int] < i);
        p += 1;
    }
    if p < f.len() {
        assert(f@[p as int] < i);
        assert(ranks_before(items, q, i as int, f@[p as int] as int));
    }
    let ghost before = f@;
    f.insert(p, i);
    proof {
        let g = f@;
        assert forall|a: int, b: int| 0 <= a < b < g.len() implies ranks_before(
            items,
            q,
            #[trigger] g[a] as int,
            #[trigger] g[b] as int,
        ) by {
            if b < p {
                assert(g[a] == before[a] && g[b] == before[b]);
            } else if b == p {
                assert(g[a] == before[a]);
            } else if a < p {
                assert(g[a] == before[a] && g[b] == before[b - 1]);
            } else if a == p {
                assert(g[b] == before[b - 1]);
                if b - 1 > p {
                    assert(ranks_before(items, q, before[p as int] as int, before[b - 1] as int));
                }
            } else {
                assert(g[a] == before[a - 1] && g[b] == before[b - 1]);
            }
        }
        assert forall|k: int| 0 <= k < g.len() implies (#[trigger] g[k]) < i + 1 && item_score(
            items,
            q,
            g[k] as int,
        ) is Some by {
            if k < p {
                assert(g[k] == before[k]);
            } else if k > p {
                assert(g[k] == before[k - 1]);
            }
        }
        assert forall|j: int| 0 <= j < i + 1 && item_score(items, q, j) is Some implies g.contains(
            j as usize,
        ) by {
            if j == i {
                assert(g[p as int] == i);
            } else {
                assert(before.contains(j as usize));
                let k = choose|k: int| 0 <= k < before.len() && before[k] == j as usize;
                if k < p {
                    assert(g[k] == j as usize);
                } else {
                    assert(g[k + 1] == j as usize);
                }
            }
        }
    }
}

impl Palette {
    pub fn new() -> (p: Self)
        ensures
            !p.open,
            p.kind == PaletteKind::Commands,
            p.query@ == Seq::<char>::empty(),
            p.items@ == Seq::<PaletteItem>::empty(),
            p.filtered@ == Seq::<usize>::empty(),
            p.selected == 0,
            p.opened_at is None,
            !p.anim_pending,
    {
        Palette {
            open: false,
            kind: PaletteKind::Commands,
            query: String::new(),
            items: Vec::new(),
            filtered: Vec::new(),
            selected: 0,
            opened_at: None,
            anim_pending: false,
        }
    }

    pub fn close(&mut self)
        ensures
            !final(self).open,
            final(self).kind == old(self).kind,
            final(self).query@ == Seq::<char>::empty(),
            final(self).items@ == Seq::<PaletteItem>::empty(),
            final(self).filtered@ == Seq::<usize>::empty(),
            final(self).selected == 0,
            final(self).opened_at is None,
            !final(self).anim_pending,
    {
        self.open = false;
        self.query = String::new();
        self.items = Vec::new();
        self.filtered = Vec::new();
        self.selected = 0;
        self.opened_at = None;
        self.anim_pending = false;
    }

    /// Rank the items against the query.
    pub fn refilter(&mut self)
        ensures
            filtered_ok(final(self).items@, final(self).query@, final(self).filtered@),
            final(self).selected == clamp_sel(old(self).selected, final(self).filtered@.len() as int),
            final(self).items@ == old(self).items@,
            final(self).query@ == old(self).query@,
            final(self).open == old(self).open,
            final(self).kind == old(self).kind,
            final(self).opened_at == old(self).opened_at,
            final(self).anim_pending == old(self).anim_pending,
    {
        let ql = to_lower(self.query.as_str());
        let n = self.items.len();
        let mut f: Vec<usize> = Vec::new();
        if chars_of(ql.as_str()).len() == 0 {
            let mut i: usize = 0;
            while i < n
                invariant
                    i <= n,
                    n == self.items@.len(),
                    f@ == Seq::new(i as nat, |k: int| k as usize),
                decreases n - i,
            {
                f.push(i);
                assert(f@ =~= Seq::new((i + 1) as nat, |k: int| k as usize));
                i += 1;
            }
        } else {
            let ghost items = self.items@;
            let ghost q = ql@;
            let mut scores: Vec<i128> = Vec::new();
            let mut i: usize = 0;
            while i < n
                invariant
                    i <= n,
                    n == items.len(),
                    items == self.items@,
                    q == ql@,
                    scores@.len() == i,
                    ranked(items, q, f@, i as int),
                    forall|j: int| 0 <= j < i && item_score(items, q, j) is Some ==> item_score(items, q, j)
                        == Some(#[trigger] scores@[j] as int),
                decreases n - i,
            {
                let it = &self.items[i];
                let mut text = own(it.label.as_str());
                push_char(&mut text, ' ');
                push_str(&mut text, it.detail.as_str());
                assert(text@ =~= items[i as int].label@ + seq![' '] + items[i as int].detail@);
                let hay = to_lower(text.as_str());
                assert(hay@ == hay_of(items[i as int]));
                let sc = fuzzy_score(hay.as_str(), ql.as_str());
                let ghost prev_scores = scores@;
                scores.push(match sc { Some(s) => s, None => 0 });
                proof {
                    assert forall|j: int| 0 <= j < i && item_score(items, q, j) is Some implies item_score(
                        items,
                        q,
                        j,
                    ) == Some(#[trigger] scores@[j] as int) by {
                        assert(scores@[j] == prev_scores[j]);
                    }
                }
                match sc {
                    Some(s) => {
                        insert_ranked(&mut f, &scores, i, s, Ghost(items), Ghost(q));
                    },
                    None => {
                        proof {
                            assert forall|j: int| 0 <= j < i + 1 && item_score(items, q, j) is Some implies f@.contains(
                                j as usize,
                            ) by {
                                if j < i {
                                }
                            }
                            assert forall|k: int| 0 <= k < f@.len() implies (#[trigger] f@[k]) < i + 1
                                && item_score(items, q, f@[k] as int) is Some by {
                            }
                        }
                    },
                }
                proof {
                    assert forall|j: int| 0 <= j < i + 1 && item_score(items, q, j) is Some implies item_score(
                        items,
                        q,
                        j,
                    ) == Some(#[trigger] scores@[j] as int) by {
                        if j == i {
                            assert(scores@[j] == (match sc { Some(s) => s, None => 0 }));
                        }
                    }
                }
                i += 1;
            }
        }
        self.filtered = f;
        if self.selected >= self.filtered.len() {
            self.selected = if self.filtered.len() == 0 { 0 } else { self.filtered.len() - 1 };
        }
    }

    fn reopen(&mut self, kind: PaletteKind, items: Vec<PaletteItem>)
        ensures
            final(self).open,
            final(self).kind == kind,
            final(self).query@ == Seq::<char>::empty(),
            final(self).items@ == items@,
            final(self).anim_pending,
            final(self).opened_at is None,
            filtered_ok(final(self).items@, final(self).query@, final(self).filtered@),
            final(self).selected == clamp_sel(old(self).selected, final(self).filtered@.len() as int),
    {
        self.open = true;
        self.kind = kind;
        self.query = String::new();
        self.anim_pending = true;
        self.opened_at = None;
        self.items = items;
        self.refilter();
    }

    /// Open on the built-in commands.
    pub fn open_commands(&mut self)
        ensures
            final(self).open,
            final(self).kind == PaletteKind::Commands,
            final(self).query@ == Seq::<char>::empty(),
            final(self).anim_pending,
            final(self).opened_at is None,
            final(self).items@.len() == builtin_spec().len(),
            forall|k: int| 0 <= k < final(self).items@.len() ==> command_item_ok(
                #[trigger] final(self).items@[k],
                builtin_spec()[k],
            ),
            filtered_ok(final(self).items@, final(self).query@, final(self).filtered@),
            final(self).selected == clamp_sel(old(self).selected, final(self).filtered@.len() as int),
    {
        let items = builtin_commands();
        self.reopen(PaletteKind::Commands, items);
    }

    /// Open on the project's files, gathered by the caller in display order.
    pub fn open_files(&mut self, files: Vec<PaletteItem>)
        ensures
            final(self).open,
            final(self).kind == PaletteKind::Files,
            final(self).query@ == Seq::<char>::empty(),
            final(self).anim_pending,
            final(self).items@ == files@,
            filtered_ok(final(self).items@, final(self).query@, final(self).filtered@),
            final(self).selected == clamp_sel(old(self).selected, final(self).filtered@.len() as int),
    {
        self.reopen(PaletteKind::Files, files);
    }

    /// Open on the diagnostics, one row each; a placeholder row when there
    /// are none.
    pub fn open_problems(&mut self, diags: &[Diagnostic])
        requires
            forall|k: int| 0 <= k < diags@.len() ==> (#[trigger] diags@[k]).row < usize::MAX
                && diags@[k].col_start < usize::MAX,
        ensures
            final(self).open,
            final(self).kind == PaletteKind::Problems,
            final(self).query@ == Seq::<char>::empty(),
            final(self).anim_pending,
            diags@.len() == 0 ==> final(self).items@.len() == 1 && final(self).items@[0].label@ == "No diagnostics"@
                && final(self).items@[0].detail@ == Seq::<char>::empty() && final(self).items@[0].action
                == PaletteAction::Command("noop"),
            diags@.len() > 0 ==> final(self).items@.len() == diags@.len() && forall|k: int|
                0 <= k < diags@.len() ==> {
                    &&& (#[trigger] final(self).items@[k]).label@ == problem_label(diags@[k])
                    &&& final(self).items@[k].detail@ == Seq::<char>::empty()
                    &&& final(self).items@[k].action == (PaletteAction::Goto {
                        row: diags@[k].row,
                        col: diags@[k].col_start,
                    })
                },
            filtered_ok(final(self).items@, final(self).query@, final(self).filtered@),
            final(self).selected == clamp_sel(old(self).selected, final(self).filtered@.len() as int),
    {
        let mut items: Vec<PaletteItem> = Vec::new();
        let mut i: usize = 0;
        while i < diags.len()
            invariant
                i <= diags@.len(),
                forall|k: int| 0 <= k < diags@.len() ==> (#[trigger] diags@[k]).row < usize::MAX
                    && diags@[k].col_start < usize::MAX,
                items@.len() == i,
                forall|k: int| 0 <= k < i ==> {
                    &&& (#[trigger] items@[k]).label@ == problem_label(diags@[k])
                    &&& items@[k].detail@ == Seq::<char>::empty()
                    &&& items@[k].action == (PaletteAction::Goto { row: diags@[k].row, col: diags@[k].col_start })
                },
            decreases diags@.len() - i,
        {
            let it = problem_item(&diags[i]);
            items.push(it);
            i += 1;
        }
        if items.len() == 0 {
            items.push(placeholder("No diagnostics", ""));
            proof {
                reveal_strlit("");
            }
        }
        self.reopen(PaletteKind::Problems, items);
    }

    /// Open on document or workspace symbols; a placeholder row when there
    /// are none.
    pub fn open_symbols(&mut self, items: Vec<PaletteItem>)
        ensures
            final(self).open,
            final(self).kind == PaletteKind::Symbols,
            final(self).query@ == Seq::<char>::empty(),
            final(self).anim_pending,
            items@.len() > 0 ==> final(self).items@ == items@,
            items@.len() == 0 ==> final(self).items@.len() == 1 && final(self).items@[0].label@ == "No symbols"@
                && final(self).items@[0].detail@ == "LSP may not support documentSymbol"@
                && final(self).items@[0].action == PaletteAction::Command("noop"),
            filtered_ok(final(self).items@, final(self).query@, final(self).filtered@),
            final(self).selected == clamp_sel(old(self).selected, final(self).filtered@.len() as int),
    {
        let mut items = items;
        if items.len() == 0 {
            items.push(placeholder("No symbols", "LSP may not support documentSymbol"));
        }
        self.reopen(PaletteKind::Symbols, items);
    }

    /// Open on code actions; a placeholder row when there are none.
    pub fn open_code_actions(&mut self, items: Vec<PaletteItem>)
        ensures
            final(self).open,
            final(self).kind == PaletteKind::CodeActions,
            final(self).query@ == Seq::<char>::empty(),
            final(self).anim_pending,
            items@.len() > 0 ==> final(self).items@ == items@,
            items@.len() == 0 ==> final(self).items@.len() == 1 && final(self).items@[0].label@
                == "No code actions"@ && final(self).items@[0].detail@ == Seq::<char>::empty()
                && final(self).items@[0].action == PaletteAction::Command("noop"),
            filtered_ok(final(self).items@, final(self).query@, final(self).filtered@),
            final(self).selected == clamp_sel(old(self).selected, final(self).filtered@.len() as int),
    {
        let mut items = items;
        if items.len() == 0 {
            items.push(placeholder("No code actions", ""));
            proof {
                reveal_strlit("");
            }
        }
        self.reopen(PaletteKind::CodeActions, items);
    }

    /// Type a character into the query.
    pub fn push_char(&mut self, c: char)
        ensures
            final(self).query@ == old(self).query@.push(c),
            final(self).items@ == old(self).items@,
            filtered_ok(final(self).items@, final(self).query@, final(self).filtered@),
            final(self).selected == clamp_sel(old(self).selected, final(self).filtered@.len() as int),
    {
        push_char(&mut self.query, c);
        self.refilter();
    }

    /// Delete the query's last character.
    pub fn pop_char(&mut self)
        ensures
            final(self).query@ == if old(self).query@.len() > 0 {
                old(self).query@.drop_last()
            } else {
                old(self).query@
            },
            final(self).items@ == old(self).items@,
            filtered_ok(final(self).items@, final(self).query@, final(self).filtered@),
            final(self).selected == clamp_sel(old(self).selected, final(self).filtered@.len() as int),
    {
        let cs = chars_of(self.query.as_str());
        if cs.len() > 0 {
            let kept = crate::text::slice_vec(cs.as_slice(), 0, cs.len() - 1);
            self.query = string_of(kept.as_slice());
            assert(self.query@ =~= old(self).query@.drop_last());
        }
        self.refilter();
    }

    /// Select the next match, wrapping.
    pub fn move_down(&mut self)
        ensures
            final(self).filtered@ == old(self).filtered@,
            final(self).selected == if old(self).filtered@.len() > 0 {
                ((old(self).selected + 1) % (old(self).filtered@.len() as int)) as usize
            } else {
                old(self).selected
            },
    {
        let n = self.filtered.len();
        if n > 0 {
            let c = self.selected;
            proof {
                vstd::arithmetic::div_mod::lemma_add_mod_noop(c as int, 1, n as int);
                vstd::arithmetic::div_mod::lemma_mod_bound(c as int, n as int);
                vstd::arithmetic::div_mod::lemma_mod_bound((c % n) as int + 1, n as int);
                if n > 1 {
                    vstd::arithmetic::div_mod::lemma_small_mod(1, n as nat);
                }
            }
            self.selected = (c % n + 1) % n;
        }
    }

    /// Select the previous match, wrapping.
    pub fn move_up(&mut self)
        ensures
            final(self).filtered@ == old(self).filtered@,
            final(self).selected == if old(self).filtered@.len() > 0 {
                if old(self).selected == 0 {
                    (old(self).filtered@.len() - 1) as usize
                } else {
                    (old(self).selected - 1) as usize
                }
            } else {
                old(self).selected
            },
    {
        let n = self.filtered.len();
        if n > 0 {
            if self.selected == 0 {
                self.selected = n - 1;
            } else {
                self.selected = self.selected - 1;
            }
        }
    }

    /// The action of the selected match.
    pub fn selected_action(&self) -> (r: Option<&PaletteAction>)
        requires
            self.selected < self.filtered@.len() ==> self.filtered@[self.selected as int] < self.items@.len(),
        ensures
            match r {
                Some(a) => self.selected < self.filtered@.len() && *a == self.items@[self.filtered@[self.selected as int] as int].action,
                None => self.selected >= self.filtered@.len(),
            },
    {
        if self.selected >= self.filtered.len() {
            return None;
        }
        let idx = self.filtered[self.selected];
        Some(&self.items[idx].action)
    }

    /// The palette's title for its kind.
    pub fn title(&self) -> (t: &'static str)
        ensures
            t == match self.kind {
                PaletteKind::Files => " Open file ",
                PaletteKind::Commands => " Commands ",
                PaletteKind::Problems => " Problems ",
                PaletteKind::Symbols => " Symbols ",
                PaletteKind::CodeActions => " Code actions ",
            },
    {
        match self.kind {
            PaletteKind::Files => " Open file ",
            PaletteKind::Commands => " Commands ",
            PaletteKind::Problems => " Problems ",
            PaletteKind::Symbols => " Symbols ",
            PaletteKind::CodeActions => " Code actions ",
        }
    }
}

impl Default for Palette {
    fn default() -> (p: Self)
        ensures
            !p.open,
            p.kind == PaletteKind::Commands,
            p.query@ == Seq::<char>::empty(),
            p.items@ == Seq::<PaletteItem>::empty(),
            p.filtered@ == Seq::<usize>::empty(),
            p.selected == 0,
            p.opened_at is None,
            !p.anim_pending,
    {
        Palette::new()
    }
}

/// A ranked list is in strictly descending rank, so no item is listed
/// twice, and every match is listed.
pub proof fn law_ranked_is_a_ranking(items: Seq<PaletteItem>, q: Seq<char>, f: Seq<usize>)
    requires
        ranked(items, q, f, items.len() as int),
    ensures
        forall|a: int, b: int| 0 <= a < b < f.len() ==> f[a] != f[b],
        forall|i: usize| i < items.len() ==> (item_score(items, q, i as int) is Some <==> f.contains(i)),
{
    assert forall|a: int, b: int| 0 <= a < b < f.len() implies f[a] != f[b] by {
        assert(ranks_before(items, q, f[a] as int, f[b] as int));
    }
    assert forall|i: usize| i < items.len() implies (item_score(items, q, i as int) is Some <==> f.contains(i))
        by {
        if f.contains(i) {
            let k = choose|k: int| 0 <= k < f.len() && f[k] == i;
            assert(item_score(items, q, f[k] as int) is Some);
        }
    }
}

/// The characters of `nd` from `k` on appear in `h` from `hi` on, in order
/// and not necessarily side by side.
pub open spec fn in_order(nd: Seq<char>, k: int, h: Seq<char>, hi: int) -> bool
    decreases nd.len() - k, h.len() - hi,
{
    if k < 0 || k >= nd.len() {
        true
    } else if hi < 0 || hi >= h.len() {
        false
    } else if h[hi] == nd[k] {
        in_order(nd, k + 1, h, hi + 1)
    } else {
        in_order(nd, k, h, hi + 1)
    }
}

proof fn lemma_in_order_skip(nd: Seq<char>, k: int, h: Seq<char>, hi: int, at: int)
    requires
        0 <= k < nd.len(),
        0 <= hi <= at <= h.len(),
        forall|j: int| hi <= j < at ==> h[j] != nd[k],
    ensures
        in_order(nd, k, h, hi) == in_order(nd, k, h, at),
    decreases at - hi,
{
    if hi < at {
        lemma_in_order_skip(nd, k, h, hi + 1, at);
    }
}

proof fn lemma_steps_in_order(h: Seq<char>, nd: Seq<char>, base: int, k: int, hi: int, prev: Option<int>)
    requires
        0 <= k,
        0 <= hi,
    ensures
        fuzzy_steps(h, nd, base, k, hi, prev) is Some <==> in_order(nd, k, h, hi),
    decreases nd.len() - k, h.len() - hi,
{
    if k < nd.len() {
        lemma_find_from(h, nd[k], hi);
        match find_from(h, nd[k], hi) {
            None => {
                if hi <= h.len() {
                    lemma_in_order_skip(nd, k, h, hi, h.len() as int);
                }
            },
            Some(at) => {
                lemma_in_order_skip(nd, k, h, hi, at);
                lemma_steps_in_order(h, nd, base, k + 1, at + 1, Some(at));
            },
        }
    }
}

/// A needle scores in a haystack exactly when its characters appear there
/// in order.
pub proof fn law_score_means_in_order(hay: Seq<char>, nd: Seq<char>)
    ensures
        fuzzy_spec(hay, nd) is Some <==> in_order(nd, 0, hay, 0),
{
    if nd.len() > 0 {
        lemma_steps_in_order(hay, nd, base_of(hay), 0, 0, None);
    }
}

/// After a refilter with a query that is not empty once lowercased, the
/// list holds each item at most once, and holds an item exactly when the
/// lowercased query's characters appear in order in the item's text.
pub proof fn law_refilter_keeps_in_order_matches(items: Seq<PaletteItem>, query: Seq<char>, f: Seq<usize>)
    requires
        filtered_ok(items, query, f),
        lowercase(query).len() > 0,
        items.len() <= usize::MAX,
    ensures
        forall|a: int, b: int| 0 <= a < b < f.len() ==> f[a] != f[b],
        forall|i: int| 0 <= i < items.len() ==> (f.contains(i as usize) <==> in_order(lowercase(query), 0, hay_of(#[trigger] items[i]), 0)),
{
    let q = lowercase(query);
    assert(ranked(items, q, f, items.len() as int));
    assert forall|i: int| 0 <= i < items.len() implies (f.contains(i as usize) <==> in_order(q, 0, hay_of(#[trigger] items[i]), 0)) by {
        law_score_means_in_order(hay_of(items[i]), q);
        assert(item_score(items, q, i) == fuzzy_spec(hay_of(items[i]), q));
        if f.contains(i as usize) {
            let k = choose|k: int| 0 <= k < f.len() && f[k] == i as usize;
            assert(item_score(items, q, f[k] as int) is Some);
            assert(f[k] as int == i);
        }
        if item_score(items, q, i) is Some {
            assert(f.contains(i as usize));
        }
    }
    assert forall|a: int, b: int| 0 <= a < b < f.len() implies f[a] != f[b] by {
        assert(ranks_before(items, q, f[a] as int, f[b] as int));
    }
}

} // verus!
