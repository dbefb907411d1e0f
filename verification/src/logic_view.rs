//! What a Logic View pane is looking at: one file's logic rows, as far as
//! they have been opened, what is selected, and the parse the rows were read
//! from. The parse and the text it was read from travel together.
//!
//! A rebuild after an edit opens again, by name and depth, what was open
//! before it, and keeps the selection on the row of the same name.

use vstd::prelude::*;
use crate::lang::{Lang, find_lang, name_spec};
use crate::logic::{
    LogicKind, LogicRow, LogicTree, LogicRuntime, outline, expand, collapse, row_at, rows_in_order, has_table, by_start,
    outline_fns, outline_row, rows_ok, holds, outer, can_expand, opened_rows, innermost, lemma_innermost_unique,
};
use crate::syntax::SyntaxTree;
use crate::media::{extension, extension_of};
use crate::text::{own, push_str, chars_of, string_of, str_eq, indent_cols};

verus! {

/// What the caller could make of the file's text.
pub enum Parse {
    /// A parse of exactly that text.
    Tree(SyntaxTree),
    /// No grammar could be built for the language.
    NoGrammar,
    /// The grammar did not parse the text.
    Failed,
}

/// One pane's view of one file.
pub struct LogicSession {
    pub path: String,
    pub lang: Lang,
    /// The rows, as deep as they have been opened.
    pub tree: LogicTree,
    /// The row the reader is on.
    pub selected: usize,
    /// Why there is nothing to show, when there is nothing to show.
    pub note: Option<String>,
    /// The text the rows were read from.
    pub src: Vec<char>,
    /// The parse of that text, kept for opening rows.
    pub ts: Option<SyntaxTree>,
}

/// The extension of `path`, or nothing.
pub open spec fn ext_or_empty(path: Seq<char>) -> Seq<char> {
    match extension_of(path) {
        Some(e) => e,
        None => Seq::empty(),
    }
}

/// `rows` are the file's functions, closed, in the order they start.
pub open spec fn outline_of(rows: Seq<LogicRow>, t: SyntaxTree, src: Seq<char>, lang: Lang) -> bool {
    rows.len() == outline_fns(t, lang).len() && exists|p: Seq<int>|
        by_start(t, outline_fns(t, lang), p) && forall|k: int|
            0 <= k < rows.len() ==> outline_row(#[trigger] rows[k], t, src, lang, outline_fns(t, lang)[p[k]] as int)
}

/// The piece of `s` after `row` line feeds, up to the next one; `None` when
/// `s` has fewer lines.
pub open spec fn nth_line(s: Seq<char>, row: nat) -> Option<Seq<char>>
    decreases s.len(),
{
    match crate::git::first_index(s, '\n', 0) {
        Some(k) => if row == 0 {
            Some(s.take(k))
        } else if 0 <= k < s.len() {
            nth_line(s.skip(k + 1), (row - 1) as nat)
        } else {
            None
        },
        None => if row == 0 { Some(s) } else { None },
    }
}

/// Where the guide of row `index` goes: the indentation of the line the row
/// starts on; nothing for a row of one line or a line the text lacks.
pub open spec fn guide_spec(rows: Seq<LogicRow>, src: Seq<char>, index: int, tab: nat) -> Option<nat> {
    if !(0 <= index < rows.len()) || rows[index].end_row <= rows[index].start_row {
        None
    } else {
        match nth_line(src, rows[index].start_row as nat) {
            Some(line) => Some(indent_cols(line, tab, 0, 0)),
            None => None,
        }
    }
}

/// A run of source rows for the editor to mark.
#[derive(Debug, Clone, Copy, PartialEq, Eq, Structural)]
pub struct LogicMark {
    pub start_row: usize,
    pub end_row: usize,
    /// Visual column of the guide: the node's own indentation.
    pub col: usize,
    /// The reader is pointing at this.
    pub selected: bool,
    /// The program is stopped inside this.
    pub runtime: bool,
}

impl LogicSession {
    /// The text the rows were read from.
    pub open spec fn text(&self) -> Seq<char> {
        self.src@
    }

    /// The parse the rows were read from.
    pub open spec fn parse(&self) -> Option<SyntaxTree> {
        self.ts
    }

    /// A kept parse holds together.
    pub open spec fn wf(&self) -> bool {
        self.parse() matches Some(t) ==> t.wf()
    }

    /// What a rebuild from `text` and `parse` leaves: the note for each way
    /// there can be nothing to show, or the outline of the parse.
    pub open spec fn rebuilt(
        s: LogicSession,
        path: String,
        lang0: Lang,
        sel0: usize,
        text: Seq<char>,
        parse: Parse,
    ) -> bool {
        &&& s.text() == text
        &&& s.path == path
        &&& rebuilt_parts(s.tree.rows@, s.note, s.lang, s.parse(), s.selected, path, lang0, sel0, text, parse)
    }
}

/// What a rebuild from `text` and `parse` leaves in the rows, the note, the
/// language, the kept parse and the selection.
pub open spec fn rebuilt_parts(
    rows: Seq<LogicRow>,
    note: Option<String>,
    lang: Lang,
    kept: Option<SyntaxTree>,
    selected: usize,
    path: String,
    lang0: Lang,
    sel0: usize,
    text: Seq<char>,
    parse: Parse,
) -> bool {
        let ext = ext_or_empty(path@);
        &&& (match find_lang(ext, 0) {
            None => {
                &&& note matches Some(n) && n@ == "No logic table for ."@ + ext
                &&& rows.len() == 0
                &&& kept is None
                &&& lang == lang0
                &&& selected == sel0
            },
            Some(l) => {
                &&& lang == l
                &&& (if !has_table(l) {
                    &&& note matches Some(n) && n@ == name_spec(l)@ + " has no control flow to read"@
                    &&& rows.len() == 0
                    &&& kept is None
                    &&& selected == sel0
                } else {
                    match parse {
                        Parse::NoGrammar => {
                            &&& note matches Some(n) && n@ == "Grammar unavailable"@
                            &&& rows.len() == 0
                            &&& kept is None
                            &&& selected == sel0
                        },
                        Parse::Failed => {
                            &&& note matches Some(n) && n@ == "This file did not parse"@
                            &&& rows.len() == 0
                            &&& kept is None
                            &&& selected == sel0
                        },
                        Parse::Tree(t) => {
                            &&& kept == Some(t)
                            &&& (note is None ==> rows.len() > 0 && outline_of(rows, t, text, l))
                            &&& (note matches Some(n) ==> n@ == "No functions in this file"@ && rows.len()
                                == 0)
                            &&& selected == (if sel0 < rows.len() {
                                sel0
                            } else if rows.len() > 0 {
                                (rows.len() - 1) as usize
                            } else {
                                0
                            })
                        },
                    }
                })
            },
        })
    }

impl LogicSession {
    /// Read `text` as the logic of the file at `path`; `parse` is what the
    /// caller made of that exact text.
    pub fn open(path: &str, text: &str, parse: Parse) -> (s: LogicSession)
        requires
            parse matches Parse::Tree(t) ==> t.wf(),
        ensures
            s.wf(),
            LogicSession::rebuilt(s, s.path, Lang::Rust, 0, text@, parse),
            s.path@ == path@,
    {
        let mut s = LogicSession {
            path: own(path),
            lang: Lang::Rust,
            tree: LogicTree { rows: Vec::new() },
            selected: 0,
            note: None,
            src: Vec::new(),
            ts: None,
        };
        s.rebuild(text, parse);
        s
    }

    /// Whether this session is still about `text`.
    pub fn is_current(&self, text: &str) -> (b: bool)
        ensures
            b == (self.text() == text@),
    {
        let t = chars_of(text);
        crate::text::chars_eq(self.src.as_slice(), t.as_slice())
    }

    fn rebuild(&mut self, text: &str, parse: Parse)
        requires
            parse matches Parse::Tree(t) ==> t.wf(),
        ensures
            final(self).wf(),
            LogicSession::rebuilt(*final(self), old(self).path, old(self).lang, old(self).selected, text@, parse),
    {
        self.src = chars_of(text);
        self.tree = LogicTree { rows: Vec::new() };
        self.ts = None;
        self.note = None;
        let ext: Vec<char> = match extension(self.path.as_str()) {
            Some(e) => e,
            None => Vec::new(),
        };
        assert(ext@ == ext_or_empty(self.path@));
        let ext_s = string_of(ext.as_slice());
        let lang = match Lang::from_ext(ext_s.as_str()) {
            Some(l) => l,
            None => {
                let mut n = own("No logic table for .");
                push_str(&mut n, ext_s.as_str());
                self.note = Some(n);
                return;
            },
        };
        self.lang = lang;
        if crate::logic::grammar_for(lang).is_none() {
            let mut n = own(lang.name());
            push_str(&mut n, " has no control flow to read");
            self.note = Some(n);
            return;
        }
        let t = match parse {
            Parse::Tree(t) => t,
            Parse::NoGrammar => {
                self.note = Some(own("Grammar unavailable"));
                return;
            },
            Parse::Failed => {
                self.note = Some(own("This file did not parse"));
                return;
            },
        };
        match outline(&t, &self.src, lang) {
            Some(lt) => {
                if lt.rows.len() > 0 {
                    self.tree = lt;
                } else {
                    self.note = Some(own("No functions in this file"));
                }
            },
            None => {
                self.note = Some(own("No functions in this file"));
            },
        }
        self.ts = Some(t);
        let n = self.tree.rows.len();
        if self.selected >= n {
            self.selected = if n > 0 { n - 1 } else { 0 };
        }
    }

    /// Open or close the row at `index`. Returns whether anything moved.
    pub fn toggle(&mut self, index: usize) -> (moved: bool)
        requires
            old(self).wf(),
        ensures
            final(self).wf(),
            final(self).text() == old(self).text(),
            final(self).parse() == old(self).parse(),
            final(self).selected == old(self).selected,
            index >= old(self).tree.rows@.len() ==> !moved && final(self).tree == old(self).tree,
            index < old(self).tree.rows@.len() && old(self).tree.rows@[index as int].expanded ==> {
                let rows = old(self).tree.rows@;
                let end = crate::logic::subtree_end(rows, rows[index as int].depth, index + 1);
                &&& moved
                &&& final(self).tree.rows@ == rows.take(index as int).push(
                    LogicRow { expanded: false, ..rows[index as int] },
                ) + rows.skip(end)
            },
            index < old(self).tree.rows@.len() && !old(self).tree.rows@[index as int].expanded ==> match old(
                self,
            ).parse() {
                Some(t) => moved == can_expand(old(self).tree.rows@, index, t, old(self).lang),
                None => !moved,
            },
            !moved ==> final(self).tree.rows@ == old(self).tree.rows@,
            index < old(self).tree.rows@.len() && !old(self).tree.rows@[index as int].expanded && moved ==> opened_rows(
                old(self).tree.rows@,
                final(self).tree.rows@,
                index,
            ),
    {
        if index >= self.tree.rows.len() {
            return false;
        }
        if self.tree.rows[index].expanded {
            return collapse(&mut self.tree, index);
        }
        self.expand(index)
    }

    fn expand(&mut self, index: usize) -> (moved: bool)
        requires
            old(self).wf(),
        ensures
            final(self).wf(),
            final(self).text() == old(self).text(),
            final(self).parse() == old(self).parse(),
            final(self).selected == old(self).selected,
            final(self).lang == old(self).lang,
            final(self).note == old(self).note,
            final(self).path == old(self).path,
            final(self).tree.rows@.len() >= old(self).tree.rows@.len(),
            match old(self).parse() {
                Some(t) => moved == can_expand(old(self).tree.rows@, index, t, old(self).lang),
                None => !moved,
            },
            !moved ==> final(self).tree.rows@ == old(self).tree.rows@,
            moved ==> opened_rows(old(self).tree.rows@, final(self).tree.rows@, index),
    {
        match &self.ts {
            Some(t) => expand(&mut self.tree, index, t, &self.src, self.lang),
            None => false,
        }
    }

    pub fn rows(&self) -> (r: &[LogicRow])
        ensures
            r@ == self.tree.rows@,
    {
        self.tree.rows.as_slice()
    }

    /// The source line the selected row starts on.
    pub fn selected_line(&self) -> (r: Option<usize>)
        ensures
            r == (if self.selected < self.tree.rows@.len() {
                Some(self.tree.rows@[self.selected as int].start_row)
            } else {
                None
            }),
    {
        if self.selected < self.tree.rows.len() {
            Some(self.tree.rows[self.selected].start_row)
        } else {
            None
        }
    }

    /// Where to draw the guide for the row at `index`, as a visual column:
    /// the indentation of the line the row starts on. Nothing for a row of
    /// one line.
    pub fn guide_col(&self, index: usize, tab_width: usize) -> (r: Option<usize>)
        requires
            self.text().len() * (tab_width + 1) < usize::MAX,
        ensures
            match r {
                Some(c) => guide_spec(self.tree.rows@, self.text(), index as int, tab_width as nat) == Some(c as nat),
                None => guide_spec(self.tree.rows@, self.text(), index as int, tab_width as nat) is None,
            },
    {
        if index >= self.tree.rows.len() {
            return None;
        }
        let row = &self.tree.rows[index];
        if row.end_row <= row.start_row {
            return None;
        }
        let (from, to) = match line_span(&self.src, row.start_row) {
            Some(span) => span,
            None => {
                return None;
            },
        };
        let ghost line = self.src@.subrange(from as int, to as int);
        let mut col: usize = 0;
        let mut i: usize = from;
        let mut stop = false;
        proof {
            assert(line.len() <= self.src@.len());
        }
        while i < to && !stop
            invariant
                from <= i <= to <= self.src@.len(),
                line == self.src@.subrange(from as int, to as int),
                self.src@.len() * (tab_width + 1) < usize::MAX,
                col <= (i - from) * (if tab_width == 0 { 1 } else { tab_width }),
                !stop ==> indent_cols(line, tab_width as nat, (i - from) as int, col as nat) == indent_cols(
                    line,
                    tab_width as nat,
                    0,
                    0,
                ),
                stop ==> col == indent_cols(line, tab_width as nat, 0, 0),
            decreases to - i + (if stop { 0int } else { 1int }),
        {
            let c = self.src[i];
            let step_max: usize = if tab_width == 0 { 1 } else { tab_width };
            proof {
                assert((i - from) * step_max + step_max == (i - from + 1) * step_max) by (nonlinear_arith);
                assert((i - from + 1) * step_max <= self.src@.len() * (tab_width + 1)) by (nonlinear_arith)
                    requires
                        i - from + 1 <= self.src@.len(),
                        step_max <= tab_width + 1,
                ;
            }
            if c == ' ' {
                col = col + 1;
                i += 1;
            } else if c == '\t' {
                let m = if tab_width == 0 { 1 } else { tab_width };
                col = col + (tab_width - col % m);
                i += 1;
            } else {
                stop = true;
            }
        }
        Some(col)
    }

    /// Point the view at the row the source line `line` belongs to, opening
    /// nothing. Returns whether the selection moved.
    pub fn follow_source(&mut self, line: usize) -> (moved: bool)
        ensures
            final(self).tree == old(self).tree,
            final(self).text() == old(self).text(),
            final(self).parse() == old(self).parse(),
            final(self).lang == old(self).lang,
            final(self).note == old(self).note,
            final(self).path == old(self).path,
            !rows_ok(old(self).tree.rows@) ==> !moved && final(self).selected == old(self).selected,
            rows_ok(old(self).tree.rows@) ==> {
                let rows = old(self).tree.rows@;
                if moved {
                    &&& final(self).selected != old(self).selected
                    &&& innermost_at(rows, final(self).selected as int, line)
                } else {
                    &&& final(self).selected == old(self).selected
                    &&& (forall|j: int| !holds(rows, j, line)) || innermost_at(rows, old(self).selected as int, line)
                }
            },
    {
        if !rows_in_order(&self.tree) {
            return false;
        }
        match row_at(&self.tree, line) {
            Some(i) => {
                if i != self.selected {
                    self.selected = i;
                    true
                } else {
                    false
                }
            },
            None => false,
        }
    }

    /// Follow the caret at source line `line`: open the function it is in,
    /// when that is a closed function that can be opened, and point at the
    /// row that holds it.
    pub fn follow_caret(&mut self, line: usize) -> (moved: bool)
        requires
            old(self).wf(),
        ensures
            final(self).wf(),
            final(self).text() == old(self).text(),
            final(self).parse() == old(self).parse(),
            final(self).lang == old(self).lang,
            final(self).note == old(self).note,
            final(self).path == old(self).path,
            match caret_opens(*old(self), line) {
                Some(i) => opened_rows(old(self).tree.rows@, final(self).tree.rows@, i),
                None => final(self).tree.rows@ == old(self).tree.rows@,
            },
            followed(final(self).tree.rows@, old(self).selected, final(self).selected, line),
            moved == (caret_opens(*old(self), line) is Some || final(self).selected != old(self).selected),
    {
        let ghost rows0 = self.tree.rows@;
        let ghost sel0 = self.selected;
        let mut opened = false;
        if rows_in_order(&self.tree) {
            match row_at(&self.tree, line) {
                Some(i) => {
                    proof {
                        assert(innermost(rows0, i as int, line));
                        let c = choose|c: int| innermost(rows0, c, line);
                        lemma_innermost_unique(rows0, i as int, c, line);
                    }
                    let row = &self.tree.rows[i];
                    if row.kind == LogicKind::Entry && row.expandable && !row.expanded {
                        opened = self.expand(i);
                    }
                },
                None => {
                    proof {
                        if exists|c: int| innermost(rows0, c, line) {
                            let c = choose|c: int| innermost(rows0, c, line);
                            assert(holds(rows0, c, line));
                        }
                    }
                },
            }
        }
        proof {
            if opened {
                let i = caret_opens(*old(self), line)->0;
                assert(self.tree.rows@[i as int].expanded != rows0[i as int].expanded);
            }
        }
        let followed = self.follow_source(line);
        followed || opened
    }

    /// What the editor should draw: the selection, then, when the debugger's
    /// panel allows it, each branch and loop the program is inside, outermost
    /// first, but not the function itself.
    pub fn marks(&self, rt: &LogicRuntime, runtime_allowed: bool, tab_width: usize) -> (v: Vec<LogicMark>)
        requires
            self.text().len() * (tab_width + 1) < usize::MAX,
        ensures
            v@ == marks_spec(self.tree.rows@, self.text(), self.selected as int, rt.enclosing@, runtime_allowed, tab_width as nat),
    {
        let mut out: Vec<LogicMark> = Vec::new();
        if self.selected < self.tree.rows.len() {
            let row = &self.tree.rows[self.selected];
            let col = match self.guide_col(self.selected, tab_width) {
                Some(c) => c,
                None => 0,
            };
            out.push(LogicMark { start_row: row.start_row, end_row: row.end_row, col, selected: true, runtime: false });
        }
        let ghost head = out@;
        if !runtime_allowed {
            return out;
        }
        let mut k: usize = 0;
        while k < rt.enclosing.len()
            invariant
                k <= rt.enclosing@.len(),
                self.text().len() * (tab_width + 1) < usize::MAX,
                out@ == head + runtime_marks(self.tree.rows@, self.text(), rt.enclosing@.take(k as int), tab_width as nat),
            decreases rt.enclosing@.len() - k,
        {
            let i = rt.enclosing[k];
            let ghost before = out@;
            proof {
                assert(rt.enclosing@.take(k + 1).drop_last() =~= rt.enclosing@.take(k as int));
                assert(rt.enclosing@.take(k + 1).last() == i);
            }
            if i < self.tree.rows.len() {
                let row = &self.tree.rows[i];
                if row.kind != LogicKind::Entry {
                    let col = match self.guide_col(i, tab_width) {
                        Some(c) => c,
                        None => 0,
                    };
                    out.push(LogicMark { start_row: row.start_row, end_row: row.end_row, col, selected: false, runtime: true });
                }
            }
            assert(out@ =~= head + runtime_marks(self.tree.rows@, self.text(), rt.enclosing@.take(k + 1), tab_width as nat));
            k += 1;
        }
        assert(rt.enclosing@.take(k as int) =~= rt.enclosing@);
        out
    }
}

/// Row `i` is the innermost holding `line`.
pub open spec fn innermost_at(rows: Seq<LogicRow>, i: int, line: usize) -> bool {
    holds(rows, i, line) && forall|j: int| holds(rows, j, line) && j != i ==> outer(rows, j, i)
}

/// The guide column of row `i`, 0 where there is none.
pub open spec fn mark_col(rows: Seq<LogicRow>, src: Seq<char>, i: int, tab: nat) -> nat {
    match guide_spec(rows, src, i, tab) {
        Some(c) => c,
        None => 0,
    }
}

/// The runtime marks for the rows `ids`: those that exist and are not a
/// function's entry.
pub open spec fn runtime_marks(rows: Seq<LogicRow>, src: Seq<char>, ids: Seq<usize>, tab: nat) -> Seq<LogicMark>
    decreases ids.len(),
{
    if ids.len() == 0 {
        Seq::empty()
    } else {
        let i = ids.last() as int;
        let rest = runtime_marks(rows, src, ids.drop_last(), tab);
        if 0 <= i < rows.len() && rows[i].kind != LogicKind::Entry {
            rest.push(
                LogicMark {
                    start_row: rows[i].start_row,
                    end_row: rows[i].end_row,
                    col: mark_col(rows, src, i, tab) as usize,
                    selected: false,
                    runtime: true,
                },
            )
        } else {
            rest
        }
    }
}

/// The marks: the selected row's, then the runtime ones when allowed.
pub open spec fn marks_spec(
    rows: Seq<LogicRow>,
    src: Seq<char>,
    selected: int,
    enclosing: Seq<usize>,
    allowed: bool,
    tab: nat,
) -> Seq<LogicMark> {
    let head = if 0 <= selected < rows.len() {
        seq![
            LogicMark {
                start_row: rows[selected].start_row,
                end_row: rows[selected].end_row,
                col: mark_col(rows, src, selected, tab) as usize,
                selected: true,
                runtime: false,
            },
        ]
    } else {
        Seq::empty()
    };
    if allowed { head + runtime_marks(rows, src, enclosing, tab) } else { head }
}

/// Where line `row` of `s` lies: from its first character to the line feed
/// that ends it, or the end.
fn line_span(s: &Vec<char>, row: usize) -> (r: Option<(usize, usize)>)
    ensures
        match r {
            Some((a, b)) => a <= b <= s@.len() && nth_line(s@, row as nat) == Some(s@.subrange(a as int, b as int)),
            None => nth_line(s@, row as nat) is None,
        },
{
    let mut start: usize = 0;
    let mut left: usize = row;
    let mut i: usize = 0;
    assert(s@.skip(0) =~= s@);
    loop
        invariant
            start <= i <= s@.len(),
            start == i,
            nth_line(s@.skip(start as int), left as nat) == nth_line(s@, row as nat),
        decreases s@.len() - i + left,
    {
        let ghost rest = s@.skip(start as int);
        let mut k: usize = start;
        while k < s.len() && s[k] != '\n'
            invariant
                start <= k <= s@.len(),
                rest == s@.skip(start as int),
                crate::git::first_index(rest, '\n', (k - start) as int) == crate::git::first_index(rest, '\n', 0),
            decreases s@.len() - k,
        {
            k += 1;
        }
        if k >= s.len() {
            assert(crate::git::first_index(rest, '\n', 0) is None);
            if left == 0 {
                assert(rest =~= s@.subrange(start as int, s@.len() as int));
                return Some((start, s.len()));
            }
            return None;
        }
        assert(crate::git::first_index(rest, '\n', 0) == Some((k - start) as int));
        if left == 0 {
            assert(rest.take((k - start) as int) =~= s@.subrange(start as int, k as int));
            return Some((start, k));
        }
        assert(rest.skip((k - start) + 1) =~= s@.skip(k + 1));
        start = k + 1;
        i = k + 1;
        left = left - 1;
    }
}


/// The first row from `k` on whose label is `label`.
pub open spec fn first_labelled(rows: Seq<LogicRow>, label: Seq<char>, k: int) -> Option<int>
    decreases rows.len() - k,
{
    if k < 0 || k >= rows.len() {
        None
    } else if rows[k].label@ == label {
        Some(k)
    } else {
        first_labelled(rows, label, k + 1)
    }
}

/// The selection after a refresh: the first row with the label the selected
/// row had, when there was one and a row still has it; else where the
/// rebuild left it.
pub open spec fn reselected(rows: Seq<LogicRow>, old_label: Option<Seq<char>>, rebuilt_sel: usize) -> usize {
    match old_label {
        Some(l) => match first_labelled(rows, l, 0) {
            Some(i) => i as usize,
            None => rebuilt_sel,
        },
        None => rebuilt_sel,
    }
}

impl LogicSession {
    /// Read the file again when its text changed, opening again, by name and
    /// depth, what was open and keeping the selection on the row of the same
    /// name.
    pub fn refresh(&mut self, text: &str, parse: Parse)
        requires
            old(self).wf(),
            parse matches Parse::Tree(t) ==> t.wf(),
        ensures
            final(self).wf(),
            refreshed(*old(self), *final(self), text@, parse),
    {
        if self.is_current(text) {
            return;
        }
        let mut open: Vec<(String, usize)> = Vec::new();
        let mut i: usize = 0;
        while i < self.tree.rows.len()
            invariant
                i <= self.tree.rows@.len(),
            decreases self.tree.rows@.len() - i,
        {
            if self.tree.rows[i].expanded {
                open.push((self.tree.rows[i].label.clone(), self.tree.rows[i].depth));
            }
            i += 1;
        }
        let selected: Option<String> = if self.selected < self.tree.rows.len() {
            Some(self.tree.rows[self.selected].label.clone())
        } else {
            None
        };
        let ghost old_label: Option<Seq<char>> = crate::search::opt_view(selected);
        self.rebuild(text, parse);
        let ghost rows0 = self.tree.rows@;
        let ghost sel = self.selected;
        self.reopen(&open);
        match selected {
            Some(label) => {
                let mut k: usize = 0;
                let mut found = false;
                while k < self.tree.rows.len() && !found
                    invariant
                        k <= self.tree.rows@.len(),
                        !found ==> first_labelled(self.tree.rows@, label@, k as int) == first_labelled(
                            self.tree.rows@,
                            label@,
                            0,
                        ),
                        found ==> first_labelled(self.tree.rows@, label@, 0) == Some(k as int),
                    decreases self.tree.rows@.len() - k + (if found { 0int } else { 1int }),
                {
                    if str_eq(self.tree.rows[k].label.as_str(), label.as_str()) {
                        found = true;
                    } else {
                        k += 1;
                    }
                }
                if found {
                    self.selected = k;
                }
            },
            None => {},
        }
    }

    /// Open again what a rebuild closed: every row, as the rows grow, whose
    /// label and depth are in `open`.
    fn reopen(&mut self, open: &Vec<(String, usize)>)
        requires
            old(self).wf(),
        ensures
            final(self).wf(),
            final(self).tree.rows@.len() >= old(self).tree.rows@.len(),
            final(self).text() == old(self).text(),
            final(self).parse() == old(self).parse(),
            final(self).selected == old(self).selected,
            final(self).lang == old(self).lang,
            final(self).note == old(self).note,
            final(self).path == old(self).path,
            old(self).parse() is None ==> final(self).tree.rows@ == old(self).tree.rows@,
            forall|j: int|
                0 <= j < final(self).tree.rows@.len() && #[trigger] wanted(final(self).tree.rows@[j], open@) ==> match final(self).parse() {
                    Some(t) => !can_expand(final(self).tree.rows@, j as usize, t, final(self).lang),
                    None => true,
                },
    {
        let mut i: usize = 0;
        while i < self.tree.rows.len()
            invariant
                self.wf(),
                self.tree.rows@.len() >= old(self).tree.rows@.len(),
                self.text() == old(self).text(),
                self.parse() == old(self).parse(),
                self.selected == old(self).selected,
                self.lang == old(self).lang,
                self.note == old(self).note,
                self.path == old(self).path,
                old(self).parse() is None ==> self.tree.rows@ == old(self).tree.rows@,
                i <= self.tree.rows@.len(),
                forall|j: int|
                    0 <= j < i && #[trigger] wanted(self.tree.rows@[j], open@) ==> match self.parse() {
                        Some(t) => !can_expand(self.tree.rows@, j as usize, t, self.lang),
                        None => true,
                    },
            decreases usize::MAX - i,
        {
            let mut found = false;
            let mut k: usize = 0;
            while k < open.len() && !found
                invariant
                    k <= open@.len(),
                    i < self.tree.rows@.len(),
                    !found ==> forall|q: int| 0 <= q < k ==> !key_is(#[trigger] open@[q], self.tree.rows@[i as int]),
                    found ==> k < open@.len() && key_is(open@[k as int], self.tree.rows@[i as int]),
                decreases open@.len() - k + (if found { 0int } else { 1int }),
            {
                if open[k].1 == self.tree.rows[i].depth && str_eq(open[k].0.as_str(), self.tree.rows[i].label.as_str()) {
                    found = true;
                } else {
                    k += 1;
                }
            }
            let ghost before = self.tree.rows@;
            proof {
                if found {
                    assert(wanted(before[i as int], open@));
                } else {
                    assert(!wanted(before[i as int], open@));
                }
            }
            if found {
                let moved = self.expand(i);
                proof {
                    let rows = self.tree.rows@;
                    if moved {
                        assert forall|j: int| 0 <= j < i implies rows[j] == before[j] by {
                            assert(rows.take(i as int)[j] == before.take(i as int)[j]);
                        }
                        assert(rows[i as int].expanded);
                    }
                }
            }
            i += 1;
        }
    }
}

/// A row's label and depth are the pair `key`.
pub open spec fn key_is(key: (String, usize), row: LogicRow) -> bool {
    key.1 == row.depth && key.0@ == row.label@
}

/// A row whose label and depth are among `open`.
pub open spec fn wanted(row: LogicRow, open: Seq<(String, usize)>) -> bool {
    exists|k: int| 0 <= k < open.len() && key_is(#[trigger] open[k], row)
}

/// The row the caret at `line` opens: the innermost row holding the line,
/// when the rows are in order and that row is a closed function that can be
/// opened.
pub open spec fn caret_opens(s: LogicSession, line: usize) -> Option<usize> {
    let rows = s.tree.rows@;
    if rows_ok(rows) && exists|i: int| innermost(rows, i, line) {
        let i = choose|i: int| innermost(rows, i, line);
        let r = rows[i];
        if r.kind == LogicKind::Entry && r.expandable && !r.expanded && match s.parse() {
            Some(t) => can_expand(rows, i as usize, t, s.lang),
            None => false,
        } {
            Some(i as usize)
        } else {
            None
        }
    } else {
        None
    }
}

/// Following `line` over `rows` moved the selection from `sel0` to `sel`:
/// onto the innermost row holding the line, or nowhere when the selection
/// is already there, no row holds the line, or the rows are out of order.
pub open spec fn followed(rows: Seq<LogicRow>, sel0: usize, sel: usize, line: usize) -> bool {
    if !rows_ok(rows) {
        sel == sel0
    } else if sel != sel0 {
        innermost_at(rows, sel as int, line)
    } else {
        (forall|j: int| !holds(rows, j, line)) || innermost_at(rows, sel0 as int, line)
    }
}

/// The sessions the open Logic View panes use, keyed by path, the oldest
/// dropped first past eight.
pub struct LogicViews {
    pub sessions: Vec<LogicSession>,
}

/// How many sessions are kept.
pub const MAX_SESSIONS: usize = 8;

impl LogicViews {
    pub fn new() -> (v: LogicViews)
        ensures
            v.sessions@.len() == 0,
    {
        LogicViews { sessions: Vec::new() }
    }

    /// Every kept session's parse holds together.
    pub open spec fn wf(&self) -> bool {
        forall|i: int| 0 <= i < self.sessions@.len() ==> (#[trigger] self.sessions@[i]).wf()
    }

    /// The index of the session for `path`, refreshed against `text`; a new
    /// one is opened (dropping the oldest when eight are kept) when there is
    /// none.
    pub fn get(&mut self, path: &str, text: &str, parse: Parse) -> (i: usize)
        requires
            old(self).wf(),
            parse matches Parse::Tree(t) ==> t.wf(),
        ensures
            final(self).wf(),
            i < final(self).sessions@.len() <= MAX_SESSIONS || i < final(self).sessions@.len() == old(self).sessions@.len(),
            final(self).sessions@[i as int].path@ == path@,
            final(self).sessions@[i as int].text() == text@,
            (exists|j: int| 0 <= j < old(self).sessions@.len() && (#[trigger] old(self).sessions@[j]).path@ == path@)
                ==> final(self).sessions@.len() == old(self).sessions@.len(),
    {
        let mut k: usize = 0;
        while k < self.sessions.len()
            invariant
                k <= self.sessions@.len(),
                self.sessions@ == old(self).sessions@,
                old(self).wf(),
                parse matches Parse::Tree(t) ==> t.wf(),
                forall|j: int| 0 <= j < k ==> (#[trigger] self.sessions@[j]).path@ != path@,
            decreases self.sessions@.len() - k,
        {
            if str_eq(self.sessions[k].path.as_str(), path) {
                let mut s = self.sessions.remove(k);
                assert(s == old(self).sessions@[k as int]);
                s.refresh(text, parse);
                self.sessions.insert(k, s);
                proof {
                    assert forall|j: int| 0 <= j < self.sessions@.len() implies (#[trigger] self.sessions@[j]).wf() by {
                        if j != k {
                            assert(self.sessions@[j] == old(self).sessions@[j]);
                        }
                    }
                    assert(old(self).sessions@[k as int].path@ == path@);
                }
                return k;
            }
            k += 1;
        }
        if self.sessions.len() >= MAX_SESSIONS {
            self.sessions.remove(0);
        }
        let s = LogicSession::open(path, text, parse);
        self.sessions.push(s);
        proof {
            assert forall|j: int| 0 <= j < self.sessions@.len() implies (#[trigger] self.sessions@[j]).wf() by {
                if j < self.sessions@.len() - 1 {
                    if old(self).sessions@.len() >= MAX_SESSIONS {
                        assert(self.sessions@[j] == old(self).sessions@[j + 1]);
                    } else {
                        assert(self.sessions@[j] == old(self).sessions@[j]);
                    }
                }
            }
        }
        self.sessions.len() - 1
    }

    /// The session for `path`, if there is one, building nothing.
    pub fn peek(&self, path: &str) -> (r: Option<&LogicSession>)
        ensures
            match r {
                Some(s) => s.path@ == path@ && exists|j: int|
                    0 <= j < self.sessions@.len() && self.sessions@[j] == *s && forall|q: int|
                        0 <= q < j ==> (#[trigger] self.sessions@[q]).path@ != path@,
                None => forall|j: int| 0 <= j < self.sessions@.len() ==> (#[trigger] self.sessions@[j]).path@ != path@,
            },
    {
        let mut k: usize = 0;
        while k < self.sessions.len()
            invariant
                k <= self.sessions@.len(),
                forall|j: int| 0 <= j < k ==> (#[trigger] self.sessions@[j]).path@ != path@,
            decreases self.sessions@.len() - k,
        {
            if str_eq(self.sessions[k].path.as_str(), path) {
                return Some(&self.sessions[k]);
            }
            k += 1;
        }
        None
    }

    /// Drop every session for `path`.
    pub fn forget(&mut self, path: &str)
        requires
            old(self).wf(),
        ensures
            final(self).wf(),
            final(self).sessions@.len() <= old(self).sessions@.len(),
            forall|j: int| 0 <= j < final(self).sessions@.len() ==> (#[trigger] final(self).sessions@[j]).path@ != path@,
            forall|j: int|
                0 <= j < old(self).sessions@.len() && (#[trigger] old(self).sessions@[j]).path@ != path@ ==> exists|q: int|
                    0 <= q < final(self).sessions@.len() && final(self).sessions@[q] == old(self).sessions@[j],
    {
        let mut k: usize = 0;
        while k < self.sessions.len()
            invariant
                k <= self.sessions@.len(),
                self.wf(),
                self.sessions@.len() <= old(self).sessions@.len(),
                forall|j: int| 0 <= j < k ==> (#[trigger] self.sessions@[j]).path@ != path@,
                forall|j: int|
                    0 <= j < old(self).sessions@.len() && (#[trigger] old(self).sessions@[j]).path@ != path@ ==> exists|q: int|
                        0 <= q < self.sessions@.len() && self.sessions@[q] == old(self).sessions@[j],
            decreases self.sessions@.len() - k,
        {
            if str_eq(self.sessions[k].path.as_str(), path) {
                let ghost before = self.sessions@;
                self.sessions.remove(k);
                proof {
                    assert forall|j: int|
                        0 <= j < old(self).sessions@.len() && (#[trigger] old(self).sessions@[j]).path@ != path@ implies exists|q: int|
                            0 <= q < self.sessions@.len() && self.sessions@[q] == old(self).sessions@[j] by {
                        let q0 = choose|q: int| 0 <= q < before.len() && before[q] == old(self).sessions@[j];
                        if q0 < k {
                            assert(self.sessions@[q0] == before[q0]);
                        } else {
                            assert(q0 != k);
                            assert(self.sessions@[q0 - 1] == before[q0]);
                        }
                    }
                    assert forall|j: int| 0 <= j < self.sessions@.len() implies (#[trigger] self.sessions@[j]).wf() by {
                        if j < k {
                            assert(self.sessions@[j] == before[j]);
                        } else {
                            assert(self.sessions@[j] == before[j + 1]);
                        }
                    }
                }
            } else {
                k += 1;
            }
        }
    }
}

/// A parse that `parse_text` could give for a file at `path`: no grammar
/// exactly when the path names no language or one whose grammar is not
/// built in, and a tree only when it is well formed.
pub open spec fn parse_fits(p: Parse, path: Seq<char>) -> bool {
    &&& (match find_lang(ext_or_empty(path), 0) {
        None => p is NoGrammar,
        Some(l) => (p is NoGrammar <==> !crate::grammar::linked(l)),
    })
    &&& (p matches Parse::Tree(t) ==> t.wf())
}

/// The language the extension of `path` names.
fn lang_of_path(path: &str) -> (r: Option<Lang>)
    ensures
        r == find_lang(ext_or_empty(path@), 0),
{
    let ext: Vec<char> = match extension(path) {
        Some(e) => e,
        None => Vec::new(),
    };
    let ext_s = string_of(ext.as_slice());
    Lang::from_ext(ext_s.as_str())
}

impl LogicSession {
    /// Open a session on the file at `path` holding `text`, parsed with the
    /// grammar of the path's language.
    pub fn open_text(path: &str, text: &str) -> (s: LogicSession)
        ensures
            s.wf(),
            s.path@ == path@,
            exists|p: Parse| parse_fits(p, path@) && #[trigger] LogicSession::rebuilt(s, s.path, Lang::Rust, 0, text@, p),
    {
        let p = crate::parse::parse_text(lang_of_path(path), text);
        let s = LogicSession::open(path, text, p);
        assert(parse_fits(p, path@) && LogicSession::rebuilt(s, s.path, Lang::Rust, 0, text@, p));
        s
    }
}

/// What a refresh of `p` with `text` and `parse` leaves in `q`: nothing
/// changes when the text is the same; else the rows are rebuilt, what was
/// open opened again, and the selection kept on the row of the same name.
pub open spec fn refreshed(p: LogicSession, q: LogicSession, text: Seq<char>, parse: Parse) -> bool {
    &&& (p.text() == text ==> q == p)
    &&& (p.text() != text ==> exists|rows0: Seq<LogicRow>, sel: usize|
        {
            &&& rebuilt_parts(
                rows0,
                q.note,
                q.lang,
                q.parse(),
                sel,
                p.path,
                p.lang,
                p.selected,
                text,
                parse,
            )
            &&& q.tree.rows@.len() >= rows0.len()
            &&& q.selected == reselected(
                q.tree.rows@,
                if p.selected < p.tree.rows@.len() {
                    Some(p.tree.rows@[p.selected as int].label@)
                } else {
                    None
                },
                sel,
            )
        })
    &&& q.text() == text
    &&& q.path == p.path
}

impl LogicSession {
    /// Refresh the session for `text`, parsed with the grammar of the
    /// session's path.
    pub fn refresh_text(&mut self, text: &str)
        requires
            old(self).wf(),
        ensures
            final(self).wf(),
            exists|p: Parse| parse_fits(p, old(self).path@) && #[trigger] refreshed(*old(self), *final(self), text@, p),
    {
        let p = crate::parse::parse_text(lang_of_path(self.path.as_str()), text);
        let ghost s0 = *self;
        self.refresh(text, p);
        assert(parse_fits(p, s0.path@) && refreshed(s0, *self, text@, p));
    }
}

} // verus!
