//! The GUI's caret and editing commands.
//!
//! They drive the selection set and keep the buffer's cursor on the primary
//! head, so a caret is an empty selection and Shift+Arrow extends by moving
//! only the head. Vertical motion remembers the column it aims for, so a
//! short line in between does not lose it.
//!
//! Edits map over every selection, last first in the document, so an edit
//! never shifts a selection that is still to be processed; a non-empty
//! selection is replaced by what is typed.

use vstd::prelude::*;
use crate::app::{App, EditRun, last_row, row_len, clamp_pos, doc_end, primary_of, snap, file_ext_spec};
use crate::buffer::{Position, line_of, off_of, pos_at, newline_insert, lemma_pos_bound, lemma_line_bounds,
    lemma_last_le_range, lemma_last_le_monotone};
use crate::position::pos_le;
use crate::selection::{Selection, SelectionSet, sel_start, sel_end, normalised, caret_at, span};
use crate::lang::{Lang, find_lang};
use crate::text::{is_space, is_alnum, char_is_space, char_is_alnum, chars_of, string_of};
use crate::search::SearchState;

verus! {

/// A caret motion, whether it moves the caret or extends the selection.
#[derive(Clone, Copy, Debug, PartialEq, Eq, Structural)]
pub enum Motion {
    Left,
    Right,
    Up,
    Down,
    PageUp,
    PageDown,
    WordLeft,
    WordRight,
    LineStart,
    LineEnd,
    DocStart,
    DocEnd,
}

pub open spec fn vertical(m: Motion) -> bool {
    m == Motion::Up || m == Motion::Down || m == Motion::PageUp || m == Motion::PageDown
}

impl Motion {
    /// Up, down and the page motions keep a goal column; the others set a
    /// new one.
    pub fn is_vertical(self) -> (b: bool)
        ensures
            b == vertical(self),
    {
        match self {
            Motion::Up | Motion::Down | Motion::PageUp | Motion::PageDown => true,
            _ => false,
        }
    }
}

/// A character's class for word motion: 0 blank, 1 word, 2 punctuation.
pub open spec fn class_of(c: char) -> int {
    if is_space(c) {
        0
    } else if is_alnum(c) || c == '_' {
        1
    } else {
        2
    }
}

/// The end of the run of class `k` in `l` that starts at `i`.
pub open spec fn run_end(l: Seq<char>, i: int, k: int) -> int
    decreases l.len() - i,
{
    if 0 <= i < l.len() && class_of(l[i]) == k {
        run_end(l, i + 1, k)
    } else {
        i
    }
}

/// The start of the run of class `k` in `l` that ends at `i`.
pub open spec fn run_start(l: Seq<char>, i: int, k: int) -> int
    decreases i,
{
    if 0 < i <= l.len() && class_of(l[i - 1]) == k {
        run_start(l, i - 1, k)
    } else {
        i
    }
}

/// One word forward from `c`: past the run the caret is on, then past the
/// blanks after it; at a line's end, to the next line's start.
pub open spec fn word_right(t: Seq<char>, c: Position) -> Position {
    let l = line_of(t, c.row as int);
    if c.col >= l.len() {
        if c.row < last_row(t) {
            Position { row: (c.row + 1) as usize, col: 0 }
        } else {
            c
        }
    } else {
        let k = class_of(l[c.col as int]);
        let j = if k == 0 { c.col as int } else { run_end(l, c.col as int, k) };
        Position { row: c.row, col: run_end(l, j, 0) as usize }
    }
}

/// One word back from `c`: past the blanks before it, then to the start of
/// the run before them; at a line's start, to the previous line's end.
pub open spec fn word_left(t: Seq<char>, c: Position) -> Position {
    let l = line_of(t, c.row as int);
    if c.col == 0 {
        if c.row > 0 {
            Position { row: (c.row - 1) as usize, col: row_len(t, c.row - 1) as usize }
        } else {
            c
        }
    } else {
        let j = run_start(l, c.col as int, 0);
        let j2 = if j > 0 { run_start(l, j, class_of(l[j - 1])) } else { 0 };
        Position { row: c.row, col: j2 as usize }
    }
}

/// Where a motion other than a vertical one lands from `from`. Characters
/// are stepped one at a time; a step past a line's end or start crosses to
/// the next or previous line.
pub open spec fn motion_target_spec(t: Seq<char>, from: Position, m: Motion) -> Position {
    let c = clamp_pos(t, from);
    match m {
        Motion::Left => if c.col > 0 {
            Position { row: c.row, col: (c.col - 1) as usize }
        } else if c.row > 0 {
            Position { row: (c.row - 1) as usize, col: row_len(t, c.row - 1) as usize }
        } else {
            c
        },
        Motion::Right => if c.col < row_len(t, c.row as int) {
            Position { row: c.row, col: (c.col + 1) as usize }
        } else if c.row < last_row(t) {
            Position { row: (c.row + 1) as usize, col: 0 }
        } else {
            c
        },
        Motion::WordLeft => word_left(t, c),
        Motion::WordRight => word_right(t, c),
        Motion::LineStart => Position { row: c.row, col: 0 },
        Motion::LineEnd => Position { row: c.row, col: row_len(t, c.row as int) as usize },
        Motion::DocStart => Position { row: 0, col: 0 },
        Motion::DocEnd => doc_end(t),
        _ => from,
    }
}

/// `n` rows up or down from `from`, aiming for column `goal_x` (or the
/// current column when there is none yet): the new head, and the goal
/// column to carry on.
pub open spec fn vertical_target_spec(t: Seq<char>, from: Position, goal_x: Option<usize>, up: bool, n: nat) -> (
    Position,
    usize,
) {
    let goal = match goal_x {
        Some(g) => g,
        None => from.col,
    };
    let row = if up {
        if from.row >= n { from.row - n } else { 0 }
    } else {
        if from.row + n <= last_row(t) { from.row + n } else { last_row(t) }
    };
    let len = row_len(t, row);
    (Position { row: row as usize, col: (if goal <= len { goal as int } else { len }) as usize }, goal)
}

/// Rows a page motion travels: a screenful less one line of overlap, or 20
/// before the window is sized.
pub open spec fn page_rows_spec(viewport_rows: usize) -> nat {
    if viewport_rows > 1 { (viewport_rows - 1) as nat } else { 20 }
}

/// Where `m` takes the primary head of `a`, and the goal column to keep.
pub open spec fn apply_motion_spec(a: App, m: Motion) -> (Position, Option<usize>) {
    let s = primary_of(a.sel);
    let t = a.buffer.chars();
    if vertical(m) {
        let n = if m == Motion::Up || m == Motion::Down { 1nat } else { page_rows_spec(a.viewport_rows) };
        let up = m == Motion::Up || m == Motion::PageUp;
        let (p, g) = vertical_target_spec(t, s.head, s.goal_x, up, n);
        (p, Some(g))
    } else {
        (motion_target_spec(t, s.head, m), None)
    }
}

fn class_of_exec(c: char) -> (k: u8)
    ensures
        k == class_of(c),
{
    if char_is_space(c) {
        0
    } else if char_is_alnum(c) || c == '_' {
        1
    } else {
        2
    }
}

fn run_end_exec(l: &[char], i: usize, k: u8) -> (j: usize)
    requires
        i <= l@.len(),
    ensures
        j == run_end(l@, i as int, k as int),
        i <= j <= l@.len(),
{
    let mut j = i;
    while j < l.len() && class_of_exec(l[j]) == k
        invariant
            i <= j <= l@.len(),
            run_end(l@, j as int, k as int) == run_end(l@, i as int, k as int),
        decreases l@.len() - j,
    {
        j += 1;
    }
    j
}

fn run_start_exec(l: &[char], i: usize, k: u8) -> (j: usize)
    requires
        i <= l@.len(),
    ensures
        j == run_start(l@, i as int, k as int),
        j <= i,
{
    let mut j = i;
    while j > 0 && class_of_exec(l[j - 1]) == k
        invariant
            j <= i <= l@.len(),
            run_start(l@, j as int, k as int) == run_start(l@, i as int, k as int),
        decreases j,
    {
        j -= 1;
    }
    j
}

impl App {
    /// The last row, and the length of `row`.
    fn last_row_exec(&self) -> (r: usize)
        requires
            self.buffer.wf(),
        ensures
            r == last_row(self.buffer.chars()),
    {
        proof {
            lemma_pos_bound(self.buffer.chars(), self.buffer.chars().len() as int);
        }
        self.buffer.line_count() - 1
    }

    fn row_len_exec(&self, row: usize) -> (n: usize)
        ensures
            n == row_len(self.buffer.chars(), row as int),
    {
        self.buffer.line_chars(row).len()
    }

    /// Where a motion other than a vertical one lands from `from`.
    fn motion_target(&self, from: Position, motion: Motion) -> (p: Position)
        requires
            self.buffer.wf(),
        ensures
            p == motion_target_spec(self.buffer.chars(), from, motion),
    {
        let ghost t = self.buffer.chars();
        let c = self.clamp_to_document(from);
        let last = self.last_row_exec();
        match motion {
            Motion::Left => {
                if c.col > 0 {
                    Position { row: c.row, col: c.col - 1 }
                } else if c.row > 0 {
                    Position { row: c.row - 1, col: self.row_len_exec(c.row - 1) }
                } else {
                    c
                }
            },
            Motion::Right => {
                let len = self.row_len_exec(c.row);
                if c.col < len {
                    Position { row: c.row, col: c.col + 1 }
                } else if c.row < last {
                    Position { row: c.row + 1, col: 0 }
                } else {
                    c
                }
            },
            Motion::WordLeft => {
                if c.col == 0 {
                    if c.row > 0 {
                        Position { row: c.row - 1, col: self.row_len_exec(c.row - 1) }
                    } else {
                        c
                    }
                } else {
                    let l = self.buffer.line_chars(c.row);
                    let j = run_start_exec(l.as_slice(), c.col, 0);
                    let j2 = if j > 0 {
                        let k = class_of_exec(l[j - 1]);
                        run_start_exec(l.as_slice(), j, k)
                    } else {
                        0
                    };
                    Position { row: c.row, col: j2 }
                }
            },
            Motion::WordRight => {
                let l = self.buffer.line_chars(c.row);
                if c.col >= l.len() {
                    if c.row < last {
                        Position { row: c.row + 1, col: 0 }
                    } else {
                        c
                    }
                } else {
                    let k = class_of_exec(l[c.col]);
                    let j = if k == 0 { c.col } else { run_end_exec(l.as_slice(), c.col, k) };
                    Position { row: c.row, col: run_end_exec(l.as_slice(), j, 0) }
                }
            },
            Motion::LineStart => Position { row: c.row, col: 0 },
            Motion::LineEnd => Position { row: c.row, col: self.row_len_exec(c.row) },
            Motion::DocStart => Position::zero(),
            Motion::DocEnd => Position { row: last, col: self.row_len_exec(last) },
            _ => from,
        }
    }

    /// `n` rows up or down from `from`, keeping the goal column.
    fn vertical_target(&self, from: Position, goal_x: Option<usize>, up: bool, n: usize) -> (r: (Position, usize))
        requires
            self.buffer.wf(),
        ensures
            r == vertical_target_spec(self.buffer.chars(), from, goal_x, up, n as nat),
    {
        let goal = match goal_x {
            Some(g) => g,
            None => from.col,
        };
        let last = self.last_row_exec();
        let row = if up {
            if from.row >= n { from.row - n } else { 0 }
        } else {
            if from.row <= last && n <= last - from.row { from.row + n } else { last }
        };
        let len = self.row_len_exec(row);
        (Position { row, col: if goal <= len { goal } else { len } }, goal)
    }

    /// Rows a page motion travels.
    fn page_rows(&self) -> (n: usize)
        ensures
            n == page_rows_spec(self.viewport_rows),
    {
        if self.viewport_rows > 1 {
            self.viewport_rows - 1
        } else {
            20
        }
    }

    /// Where `motion` takes the primary head, and the goal column to keep.
    fn apply_motion(&self, motion: Motion) -> (r: (Position, Option<usize>))
        requires
            self.buffer.wf(),
        ensures
            r == apply_motion_spec(*self, motion),
    {
        let s = self.sel.primary();
        if motion.is_vertical() {
            let n = match motion {
                Motion::Up | Motion::Down => 1,
                _ => self.page_rows(),
            };
            let up = match motion {
                Motion::Up | Motion::PageUp => true,
                _ => false,
            };
            let (p, g) = self.vertical_target(s.head, s.goal_x, up, n);
            (p, Some(g))
        } else {
            (self.motion_target(s.head, motion), None)
        }
    }

    /// Move the caret (no Shift): any selection collapses. From a
    /// selection, Left and Right land on its near or far edge and go no
    /// further.
    pub fn caret_move(&mut self, motion: Motion)
        requires
            old(self).wf(),
        ensures
            final(self).wf(),
            final(self).buffer.chars() == old(self).buffer.chars(),
            final(self).edit_run == EditRun::Idle,
            final(self).undo_stack == old(self).undo_stack,
            final(self).redo_stack == old(self).redo_stack,
            final(self).filename == old(self).filename,
            ({
                let s = primary_of(old(self).sel);
                let p = old(self).sel.prim();
                let collapse = s.anchor != s.head && (motion == Motion::Left || motion == Motion::Right);
                let next = if collapse {
                    let e = if motion == Motion::Left { sel_start(s) } else { sel_end(s) };
                    Selection { anchor: e, head: e, goal_x: None }
                } else {
                    let (h, g) = apply_motion_spec(*old(self), motion);
                    Selection { anchor: h, head: h, goal_x: g }
                };
                &&& (final(self).sel.sels(), final(self).sel.prim()) == normalised(
                    old(self).sel.sels().update(p, next),
                    p,
                )
                &&& final(self).buffer.caret() == next.head
            }),
    {
        self.edit_run = EditRun::Idle;
        let s = self.sel.primary();
        if !s.is_empty() {
            match motion {
                Motion::Left => {
                    let c = s.collapsed_to_start();
                    self.sel.set_primary(c);
                    self.buffer.set_cursor(c.head);
                    return;
                },
                Motion::Right => {
                    let c = s.collapsed_to_end();
                    self.sel.set_primary(c);
                    self.buffer.set_cursor(c.head);
                    return;
                },
                _ => {},
            }
        }
        let (head, goal) = self.apply_motion(motion);
        self.sel.set_primary(Selection { anchor: head, head, goal_x: goal });
        self.buffer.set_cursor(head);
    }

    /// Extend the selection (Shift): the anchor stays and only the head
    /// moves.
    pub fn caret_extend(&mut self, motion: Motion)
        requires
            old(self).wf(),
        ensures
            final(self).wf(),
            final(self).buffer.chars() == old(self).buffer.chars(),
            final(self).edit_run == EditRun::Idle,
            final(self).undo_stack == old(self).undo_stack,
            final(self).redo_stack == old(self).redo_stack,
            final(self).filename == old(self).filename,
            ({
                let s = primary_of(old(self).sel);
                let p = old(self).sel.prim();
                let (h, g) = apply_motion_spec(*old(self), motion);
                &&& (final(self).sel.sels(), final(self).sel.prim()) == normalised(
                    old(self).sel.sels().update(p, Selection { anchor: s.anchor, head: h, goal_x: g }),
                    p,
                )
                &&& final(self).buffer.caret() == h
            }),
    {
        self.edit_run = EditRun::Idle;
        let s = self.sel.primary();
        let (head, goal) = self.apply_motion(motion);
        self.sel.set_primary(Selection { anchor: s.anchor, head, goal_x: goal });
        self.buffer.set_cursor(head);
    }
}


// ── Edits over every selection ─────────────────────────────────────────────

/// `t` without the characters from `a` to `b`.
pub open spec fn cut(t: Seq<char>, a: Position, b: Position) -> Seq<char> {
    t.subrange(0, off_of(t, a)) + t.subrange(off_of(t, b), t.len() as int)
}

/// `t` with `ins` put in at offset `at`.
pub open spec fn spliced(t: Seq<char>, at: int, ins: Seq<char>) -> Seq<char> {
    t.subrange(0, at) + ins + t.subrange(at, t.len() as int)
}

/// `t` with what `s` spans removed; a caret removes nothing.
pub open spec fn cleared(t: Seq<char>, s: Selection) -> Seq<char> {
    if s.anchor == s.head { t } else { cut(t, sel_start(s), sel_end(s)) }
}

/// The edit a command makes at each selection.
#[derive(Clone, Copy, Debug, PartialEq, Eq, Structural)]
pub enum EditKind {
    /// Replace the selection with the typed text.
    Type,
    /// Return, with smart indentation.
    Newline,
    /// Backspace.
    Back,
    /// Forward delete.
    Forward,
}

/// One selection's edit of `t`: the new text and where its caret ends.
pub open spec fn step_spec(t: Seq<char>, s: Selection, kind: EditKind, text: Seq<char>, auto: bool) -> (
    Seq<char>,
    Position,
) {
    let h = s.head;
    match kind {
        EditKind::Type => {
            let t1 = cleared(t, s);
            let a = off_of(t1, sel_start(s));
            let t2 = spliced(t1, a, text);
            (t2, pos_at(t2, a + text.len()))
        },
        EditKind::Newline => {
            let t1 = cleared(t, s);
            let a = off_of(t1, sel_start(s));
            let ins = newline_insert(t1, a, text, auto);
            let t2 = spliced(t1, a, ins);
            (t2, pos_at(t2, a + ins.len()))
        },
        EditKind::Back => if s.anchor != s.head {
            (cut(t, sel_start(s), sel_end(s)), sel_start(s))
        } else if h.col > 0 {
            let p = Position { row: h.row, col: (h.col - 1) as usize };
            (cut(t, p, h), p)
        } else if h.row > 0 {
            let p = Position { row: (h.row - 1) as usize, col: row_len(t, h.row - 1) as usize };
            (cut(t, p, h), p)
        } else {
            (t, h)
        },
        EditKind::Forward => if s.anchor != s.head {
            (cut(t, sel_start(s), sel_end(s)), sel_start(s))
        } else if h.col < row_len(t, h.row as int) {
            (cut(t, h, Position { row: h.row, col: (h.col + 1) as usize }), h)
        } else if h.row < last_row(t) {
            (cut(t, h, Position { row: (h.row + 1) as usize, col: 0 }), h)
        } else {
            (t, h)
        },
    }
}

/// The text after editing selections `k..` of `sels`, last first, and the
/// caret each of them left (the origin for those not yet edited).
pub open spec fn edit_from(t: Seq<char>, sels: Seq<Selection>, k: int, kind: EditKind, text: Seq<char>, auto: bool) -> (
    Seq<char>,
    Seq<Position>,
)
    decreases sels.len() - k,
{
    if k < 0 || k >= sels.len() {
        (t, Seq::new(sels.len(), |i: int| Position { row: 0, col: 0 }))
    } else {
        let r = edit_from(t, sels, k + 1, kind, text, auto);
        let st = step_spec(r.0, sels[k], kind, text, auto);
        (st.0, r.1.update(k, st.1))
    }
}

proof fn lemma_edit_from_len(t: Seq<char>, sels: Seq<Selection>, k: int, kind: EditKind, text: Seq<char>, auto: bool)
    ensures
        edit_from(t, sels, k, kind, text, auto).1.len() == sels.len(),
    decreases sels.len() - k,
{
    if !(k < 0 || k >= sels.len()) {
        lemma_edit_from_len(t, sels, k + 1, kind, text, auto);
    }
}

/// What the carets left by an edit normalise to, the one at `p` primary.
pub open spec fn caret_set(heads: Seq<Position>, p: int) -> (Seq<Selection>, int) {
    normalised(Seq::new(heads.len(), |i: int| caret_at(heads[i])), p)
}

/// An edit of kind `kind` begins a new undo step unless the last edit was
/// of the same kind; the step holds the document from before the edit.
pub open spec fn grouped(old: App, new: App, kind: EditRun) -> bool {
    &&& new.edit_run == kind
    &&& old.edit_run != kind ==> {
        &&& new.undo_stack@.len() == old.undo_stack@.len() + 1
        &&& new.undo_stack@.drop_last() == old.undo_stack@
        &&& snap(new.undo_stack@.last()) == old.doc()
        &&& new.redo_stack@.len() == 0
    }
    &&& old.edit_run == kind ==> new.undo_stack == old.undo_stack && new.redo_stack == old.redo_stack
}

/// `new` is `old` with every selection edited by `kind`, last first, and
/// carets left where the edits ended.
pub open spec fn edited_all(old: App, new: App, kind: EditKind, text: Seq<char>, auto: bool) -> bool {
    let r = edit_from(old.buffer.chars(), old.sel.sels(), 0, kind, text, auto);
    &&& new.buffer.chars() == r.0
    &&& (new.sel.sels(), new.sel.prim()) == caret_set(r.1, old.sel.prim())
    &&& new.synced()
}

/// Two typed edits in a row leave one undo step, holding the document from
/// before the first.
pub proof fn law_typing_run_is_one_undo_step(a: App, b: App, c: App)
    requires
        a.edit_run != EditRun::Insert,
        grouped(a, b, EditRun::Insert),
        grouped(b, c, EditRun::Insert),
    ensures
        c.undo_stack@.len() == a.undo_stack@.len() + 1,
        c.undo_stack@.drop_last() == a.undo_stack@,
        snap(c.undo_stack@.last()) == a.doc(),
{
}

// ── Auto-pairing ──────────────────────────────────────────────────────────

/// The closer an opener pairs with.
pub open spec fn closer_for(c: char) -> Option<char> {
    if c == '(' {
        Some(')')
    } else if c == '[' {
        Some(']')
    } else if c == '{' {
        Some('}')
    } else if c == '"' || c == '\'' || c == '`' {
        Some(c)
    } else {
        None
    }
}

pub open spec fn bracket_close(c: char) -> bool {
    c == ')' || c == ']' || c == '}'
}

pub open spec fn quote(c: char) -> bool {
    c == '"' || c == '\'' || c == '`'
}

/// The character at column `col` of `l`, if there is one.
pub open spec fn char_at_col(l: Seq<char>, col: int) -> Option<char> {
    if 0 <= col < l.len() { Some(l[col]) } else { None }
}

/// A single caret, and `text` a single character.
pub open spec fn single_key(a: App, text: Seq<char>) -> bool {
    &&& text.len() == 1
    &&& a.sel.sels().len() == 1
    &&& primary_of(a.sel).anchor == primary_of(a.sel).head
}

/// Typing `text` steps over the same closer or quote right after the caret.
pub open spec fn pair_skip(a: App, text: Seq<char>) -> bool {
    let c = primary_of(a.sel).head;
    let l = line_of(a.buffer.chars(), c.row as int);
    &&& single_key(a, text)
    &&& bracket_close(text[0]) || quote(text[0])
    &&& char_at_col(l, c.col as int) == Some(text[0])
}

/// Typing `text` opens a pair: an opener where it reads as opening one (at a
/// line's end, or before a blank, a closer or a quote), and a quote never
/// right after a letter or digit.
pub open spec fn pair_open(a: App, text: Seq<char>) -> bool {
    let c = primary_of(a.sel).head;
    let l = line_of(a.buffer.chars(), c.row as int);
    let next = char_at_col(l, c.col as int);
    let prev = char_at_col(l, c.col - 1);
    let ch = text[0];
    &&& single_key(a, text)
    &&& !pair_skip(a, text)
    &&& closer_for(ch) is Some
    &&& match next {
        None => true,
        Some(n) => is_space(n) || bracket_close(n) || quote(n),
    }
    &&& !quote(ch) || match prev {
        None => true,
        Some(p) => !is_alnum(p),
    }
}

/// An empty pair: an opener right before its own closer.
pub open spec fn empty_pair(prev: Option<char>, next: Option<char>) -> bool {
    match (prev, next) {
        (Some(p), Some(n)) => closer_for(p) == Some(n),
        _ => false,
    }
}

/// Backspace with a single caret between an empty pair.
pub open spec fn pair_back(a: App) -> bool {
    let c = primary_of(a.sel).head;
    let l = line_of(a.buffer.chars(), c.row as int);
    &&& a.sel.sels().len() == 1
    &&& primary_of(a.sel).anchor == primary_of(a.sel).head
    &&& c.col > 0
    &&& empty_pair(char_at_col(l, c.col - 1), char_at_col(l, c.col as int))
}

/// Whether Return indents in the file named `name`: every language but
/// Markdown, and any file no language claims.
pub open spec fn auto_indent_for(name: Option<String>) -> bool {
    match file_ext_spec(name) {
        Some(e) => match find_lang(e, 0) {
            Some(l) => l != Lang::Markdown,
            None => true,
        },
        None => true,
    }
}

fn closer_exec(c: char) -> (r: Option<char>)
    ensures
        r == closer_for(c),
{
    if c == '(' {
        Some(')')
    } else if c == '[' {
        Some(']')
    } else if c == '{' {
        Some('}')
    } else if c == '"' || c == '\'' || c == '`' {
        Some(c)
    } else {
        None
    }
}

fn char_at_exec(l: &[char], col: usize) -> (r: Option<char>)
    ensures
        r == char_at_col(l@, col as int),
{
    if col < l.len() {
        Some(l[col])
    } else {
        None
    }
}

impl App {
    /// Start a new undo step unless this edit continues a run of `kind`.
    fn begin_run(&mut self, kind: EditRun)
        requires
            old(self).wf(),
        ensures
            final(self).wf(),
            grouped(*old(self), *final(self), kind),
            final(self).buffer == old(self).buffer,
            final(self).sel == old(self).sel,
            final(self).filename == old(self).filename,
    {
        if self.edit_run != kind {
            self.push_undo();
            self.edit_run = kind;
        }
    }

    /// One selection's edit.
    fn edit_one(&mut self, s: Selection, kind: EditKind, text: &str, auto: bool) -> (h: Position)
        requires
            old(self).wf(),
            kind == EditKind::Type ==> old(self).buffer.chars().len() + text@.len() < usize::MAX,
        ensures
            final(self).wf(),
            (final(self).buffer.chars(), h) == step_spec(old(self).buffer.chars(), s, kind, text@, auto),
            final(self).sel == old(self).sel,
            final(self).undo_stack == old(self).undo_stack,
            final(self).redo_stack == old(self).redo_stack,
            final(self).edit_run == old(self).edit_run,
            final(self).filename == old(self).filename,
            final(self).buffer.chars().len() <= old(self).buffer.chars().len() + (if kind == EditKind::Type {
                text@.len() as int
            } else {
                usize::MAX as int
            }),
    {
        let ghost t = self.buffer.chars();
        match kind {
            EditKind::Type | EditKind::Newline => {
                let start = s.start();
                if !s.is_empty() {
                    let end = s.end();
                    proof {
                        lemma_last_le_range(t, end, t.len() as int);
                        lemma_last_le_range(t, start, t.len() as int);
                    }
                    self.buffer.delete_range(start, end);
                    assert(self.buffer.chars().len() <= t.len());
                }
                assert(self.buffer.chars().len() <= t.len());
                self.buffer.set_cursor(start);
                proof {
                    lemma_last_le_range(self.buffer.chars(), start, self.buffer.chars().len() as int);
                }
                match kind {
                    EditKind::Type => self.buffer.insert_str(text),
                    _ => self.buffer.insert_newline_smart(text, auto),
                }
                self.buffer.cursor()
            },
            EditKind::Back => {
                if !s.is_empty() {
                    let (a, b) = s.range();
                    self.buffer.delete_range(a, b);
                    a
                } else {
                    let h = s.head;
                    if h.col > 0 {
                        let p = Position { row: h.row, col: h.col - 1 };
                        self.buffer.delete_range(p, h);
                        p
                    } else if h.row > 0 {
                        let p = Position { row: h.row - 1, col: self.buffer.line_chars(h.row - 1).len() };
                        self.buffer.delete_range(p, h);
                        p
                    } else {
                        h
                    }
                }
            },
            EditKind::Forward => {
                if !s.is_empty() {
                    let (a, b) = s.range();
                    self.buffer.delete_range(a, b);
                    a
                } else {
                    let h = s.head;
                    let len = self.buffer.line_chars(h.row).len();
                    proof {
                        lemma_line_bounds(t, h.row as int);
                        lemma_pos_bound(t, t.len() as int);
                    }
                    let n = self.buffer.line_count();
                    if h.col < len {
                        self.buffer.delete_range(h, Position { row: h.row, col: h.col + 1 });
                    } else if h.row < n - 1 {
                        self.buffer.delete_range(h, Position { row: h.row + 1, col: 0 });
                    }
                    h
                }
            },
        }
    }

    /// Edit every selection by `kind`, last first, then leave a caret where
    /// each edit ended.
    fn edit_each(&mut self, kind: EditKind, text: &str, auto: bool)
        requires
            old(self).wf(),
            kind == EditKind::Type ==> old(self).buffer.chars().len() + old(self).sel.sels().len() * text@.len()
                < usize::MAX,
        ensures
            final(self).wf(),
            edited_all(*old(self), *final(self), kind, text@, auto),
            final(self).undo_stack == old(self).undo_stack,
            final(self).redo_stack == old(self).redo_stack,
            final(self).edit_run == old(self).edit_run,
            final(self).filename == old(self).filename,
    {
        let ghost t0 = self.buffer.chars();
        let ghost sels = self.sel.sels();
        let ghost sel0 = self.sel;
        let ghost u0 = self.undo_stack;
        let ghost r0 = self.redo_stack;
        let ghost run0 = self.edit_run;
        let ghost f0 = self.filename;
        let ghost m = text@.len();
        let n = self.sel.len();
        let mut heads: Vec<Position> = Vec::new();
        let mut z: usize = 0;
        while z < n
            invariant
                z <= n,
                heads@ == Seq::new(z as nat, |i: int| Position { row: 0, col: 0 }),
            decreases n - z,
        {
            heads.push(Position::zero());
            z += 1;
        }
        assert(heads@ =~= edit_from(t0, sels, n as int, kind, text@, auto).1);
        let mut i: usize = n;
        while i > 0
            invariant
                i <= n,
                n == sels.len(),
                self.sel == sel0,
                self.sel.sels() == sels,
                self.undo_stack == u0,
                self.redo_stack == r0,
                self.edit_run == run0,
                self.filename == f0,
                self.wf(),
                (self.buffer.chars(), heads@) == edit_from(t0, sels, i as int, kind, text@, auto),
                kind == EditKind::Type ==> self.buffer.chars().len() + i * m <= t0.len() + n * m,
                kind == EditKind::Type ==> t0.len() + n * m < usize::MAX,
                m == text@.len(),
            decreases i,
        {
            i -= 1;
            let s = self.sel.all()[i];
            proof {
                if kind == EditKind::Type {
                    assert((i + 1) * m == i * m + m) by (nonlinear_arith);
                    assert(i * m >= 0) by (nonlinear_arith);
                }
            }
            proof {
                lemma_edit_from_len(t0, sels, i + 1, kind, text@, auto);
            }
            let h = self.edit_one(s, kind, text, auto);
            heads.set(i, h);
        }
        let p = self.sel.primary_index();
        proof {
            lemma_edit_from_len(t0, sels, 0, kind, text@, auto);
        }
        let ghost hs = heads@;
        self.sel = SelectionSet::carets(heads.as_slice(), p);
        assert(hs.len() == n && n > 0);
        assert(Seq::new(hs.len(), |k: int| caret_at(hs[k])) =~= Seq::new(
            hs.len(),
            |k: int| Selection { anchor: hs[k], head: hs[k], goal_x: None },
        ));
        let c = self.sel.primary().head;
        self.buffer.set_cursor(c);
    }
}

// ── Word selection ─────────────────────────────────────────────────────────

/// Part of an identifier.
pub open spec fn word_char(c: char) -> bool {
    is_alnum(c) || c == '_'
}

/// `b` belongs to the same word as `a`: both identifier characters or both
/// punctuation, and never a blank.
pub open spec fn same_class(a: char, b: char) -> bool {
    word_char(a) == word_char(b) && !is_space(b)
}

pub open spec fn scan_back(l: Seq<char>, i: int, here: char) -> int
    decreases i,
{
    if 0 < i <= l.len() && same_class(here, l[i - 1]) {
        scan_back(l, i - 1, here)
    } else {
        i
    }
}

pub open spec fn scan_fwd(l: Seq<char>, i: int, here: char) -> int
    decreases l.len() - i,
{
    if 0 <= i < l.len() && same_class(here, l[i]) {
        scan_fwd(l, i + 1, here)
    } else {
        i
    }
}

/// The word under `p` as an exclusive span: identifier characters form one
/// word, a run of punctuation another, and a blank none.
pub open spec fn word_range_spec(t: Seq<char>, p: Position) -> Option<(Position, Position)> {
    let l = line_of(t, p.row as int);
    if l.len() == 0 {
        None
    } else {
        let col = if p.col < l.len() { p.col as int } else { l.len() - 1 };
        if is_space(l[col]) {
            None
        } else {
            let here = l[col];
            Some(
                (
                    Position { row: p.row, col: scan_back(l, col, here) as usize },
                    Position { row: p.row, col: scan_fwd(l, col + 1, here) as usize },
                ),
            )
        }
    }
}

fn same_class_exec(a: char, b: char) -> (r: bool)
    ensures
        r == same_class(a, b),
{
    let wa = char_is_alnum(a) || a == '_';
    let wb = char_is_alnum(b) || b == '_';
    wa == wb && !char_is_space(b)
}

impl App {
    /// Bracket and quote pairing at a single caret. Takes the keystroke when
    /// it steps over the same closer right after the caret, or when an
    /// opener inserts its closer and leaves the caret between them.
    fn try_auto_pair(&mut self, text: &str) -> (took: bool)
        requires
            old(self).wf(),
            old(self).buffer.chars().len() + 2 < usize::MAX,
        ensures
            final(self).wf(),
            took == (pair_skip(*old(self), text@) || pair_open(*old(self), text@)),
            !took ==> *final(self) == *old(self),
            pair_skip(*old(self), text@) ==> skipped_over(*old(self), *final(self)),
            pair_open(*old(self), text@) ==> paired(*old(self), *final(self), text@[0]),
            final(self).filename == old(self).filename,
    {
        let cs = chars_of(text);
        if cs.len() != 1 {
            return false;
        }
        let ch = cs[0];
        if self.sel.len() != 1 || !self.sel.primary().is_empty() {
            return false;
        }
        let caret = self.sel.primary().head;
        let line = self.buffer.line_chars(caret.row);
        proof {
            lemma_line_bounds(self.buffer.chars(), caret.row as int);
        }
        let next = char_at_exec(line.as_slice(), caret.col);
        let prev = if caret.col > 0 { char_at_exec(line.as_slice(), caret.col - 1) } else { None };
        let is_close = ch == ')' || ch == ']' || ch == '}';
        let is_quote = ch == '"' || ch == '\'' || ch == '`';
        let next_same = match next {
            Some(n) => n == ch,
            None => false,
        };
        if (is_close || is_quote) && next_same {
            let to = Position { row: caret.row, col: caret.col + 1 };
            self.sel = SelectionSet::single(Selection::caret(to));
            self.buffer.set_cursor(to);
            self.edit_run = EditRun::Idle;
            return true;
        }
        match closer_exec(ch) {
            Some(close) => {
                let context_ok = match next {
                    None => true,
                    Some(n) => char_is_space(n) || n == ')' || n == ']' || n == '}' || n == '"' || n == '\''
                        || n == '`',
                };
                let quote_ok = !is_quote || match prev {
                    None => true,
                    Some(p) => !char_is_alnum(p),
                };
                if context_ok && quote_ok {
                    self.begin_run(EditRun::Insert);
                    self.buffer.set_cursor(caret);
                    self.buffer.insert_char_pair(ch, close);
                    let head = self.buffer.cursor();
                    self.sel = SelectionSet::single(Selection::caret(head));
                    true
                } else {
                    false
                }
            },
            None => false,
        }
    }

    /// Type `text` at every caret, replacing what each selection spans.
    /// A single typed opener or closer at a single caret pairs instead (see
    /// `pair_open` and `pair_skip`). A run of typing is one undo step.
    pub fn gui_insert_text(&mut self, text: &str)
        requires
            old(self).wf(),
            old(self).buffer.chars().len() + old(self).sel.sels().len() * text@.len() + 1 < usize::MAX,
        ensures
            final(self).wf(),
            final(self).filename == old(self).filename,
            text@.len() == 0 ==> *final(self) == *old(self),
            text@.len() > 0 && pair_skip(*old(self), text@) ==> skipped_over(*old(self), *final(self)),
            text@.len() > 0 && pair_open(*old(self), text@) ==> paired(*old(self), *final(self), text@[0]),
            text@.len() > 0 && !pair_skip(*old(self), text@) && !pair_open(*old(self), text@) ==> {
                &&& edited_all(*old(self), *final(self), EditKind::Type, text@, false)
                &&& grouped(*old(self), *final(self), EditRun::Insert)
            },
    {
        let cs = chars_of(text);
        if cs.len() == 0 {
            return;
        }
        let n = self.sel.len();
        proof {
            let m = text@.len();
            assert(n * m >= 1) by (nonlinear_arith)
                requires
                    n >= 1,
                    m >= 1,
            ;
        }
        if self.try_auto_pair(text) {
            return;
        }
        self.begin_run(EditRun::Insert);
        self.edit_each(EditKind::Type, text, false);
    }

    /// Return at every caret, replacing what each selection spans. The
    /// line's indentation is carried down, and one `indent_unit` added
    /// after a block opener, except in a file whose language does not
    /// indent (Markdown). Always its own undo step.
    pub fn gui_insert_newline(&mut self, indent_unit: &str)
        requires
            old(self).wf(),
        ensures
            final(self).wf(),
            final(self).filename == old(self).filename,
            final(self).edit_run == EditRun::Idle,
            final(self).undo_stack@.len() == old(self).undo_stack@.len() + 1,
            final(self).undo_stack@.drop_last() == old(self).undo_stack@,
            snap(final(self).undo_stack@.last()) == old(self).doc(),
            final(self).redo_stack@.len() == 0,
            edited_all(*old(self), *final(self), EditKind::Newline, indent_unit@, auto_indent_for(old(self).filename)),
    {
        let auto = match self.file_extension() {
            Some(e) => {
                let es = string_of(e.as_slice());
                match Lang::from_ext(es.as_str()) {
                    Some(l) => l.auto_indents(),
                    None => true,
                }
            },
            None => true,
        };
        self.push_undo();
        self.edit_run = EditRun::Idle;
        self.edit_each(EditKind::Newline, indent_unit, auto);
    }

    /// Backspace: delete what each selection spans, or the character before
    /// each caret, joining lines at a line's start. With a single caret
    /// between an empty pair, both halves go. A run of deleting is one undo
    /// step.
    pub fn gui_delete_backward(&mut self)
        requires
            old(self).wf(),
        ensures
            final(self).wf(),
            final(self).filename == old(self).filename,
            grouped(*old(self), *final(self), EditRun::Delete),
            pair_back(*old(self)) ==> {
                let c = primary_of(old(self).sel).head;
                let from = Position { row: c.row, col: (c.col - 1) as usize };
                &&& final(self).buffer.chars() == cut(
                    old(self).buffer.chars(),
                    from,
                    Position { row: c.row, col: (c.col + 1) as usize },
                )
                &&& final(self).sel.sels() == seq![caret_at(from)]
                &&& final(self).sel.prim() == 0
                &&& final(self).synced()
            },
            !pair_back(*old(self)) ==> edited_all(*old(self), *final(self), EditKind::Back, Seq::empty(), false),
    {
        if self.sel.len() == 1 && self.sel.primary().is_empty() {
            let c = self.sel.primary().head;
            if c.col > 0 {
                let line = self.buffer.line_chars(c.row);
                proof {
                    lemma_line_bounds(self.buffer.chars(), c.row as int);
                }
                let prev = char_at_exec(line.as_slice(), c.col - 1);
                let next = char_at_exec(line.as_slice(), c.col);
                let empty = match (prev, next) {
                    (Some(p), Some(n)) => match closer_exec(p) {
                        Some(q) => q == n,
                        None => false,
                    },
                    _ => false,
                };
                if empty {
                    self.begin_run(EditRun::Delete);
                    let from = Position { row: c.row, col: c.col - 1 };
                    self.buffer.delete_range(from, Position { row: c.row, col: c.col + 1 });
                    self.sel = SelectionSet::single(Selection::caret(from));
                    self.buffer.set_cursor(from);
                    return;
                }
            }
        }
        self.begin_run(EditRun::Delete);
        proof {
            reveal_strlit("");
            assert(""@ =~= Seq::<char>::empty());
        }
        self.edit_each(EditKind::Back, "", false);
    }

    /// Forward delete: delete what each selection spans, or the character
    /// after each caret, joining the next line at a line's end. A run of
    /// deleting is one undo step.
    pub fn gui_delete_forward(&mut self)
        requires
            old(self).wf(),
        ensures
            final(self).wf(),
            final(self).filename == old(self).filename,
            grouped(*old(self), *final(self), EditRun::Delete),
            edited_all(*old(self), *final(self), EditKind::Forward, Seq::empty(), false),
    {
        self.begin_run(EditRun::Delete);
        proof {
            reveal_strlit("");
            assert(""@ =~= Seq::<char>::empty());
        }
        self.edit_each(EditKind::Forward, "", false);
    }

    /// Select the word under `pos`, moved onto the document (a
    /// double-click); on a blank, just place the caret there.
    pub fn select_word_gui(&mut self, pos: Position)
        requires
            old(self).wf(),
        ensures
            final(self).wf(),
            final(self).buffer.chars() == old(self).buffer.chars(),
            final(self).undo_stack == old(self).undo_stack,
            final(self).redo_stack == old(self).redo_stack,
            final(self).filename == old(self).filename,
            ({
                let c = clamp_pos(old(self).buffer.chars(), pos);
                match word_range_spec(old(self).buffer.chars(), c) {
                    Some((a, b)) => final(self).sel.sels() == seq![span(a, b)] && final(self).buffer.caret() == b
                        && final(self).edit_run == old(self).edit_run,
                    None => final(self).sel.sels() == seq![caret_at(c)] && final(self).buffer.caret() == c
                        && final(self).edit_run == EditRun::Idle,
                }
            }),
            final(self).sel.prim() == 0,
            final(self).synced(),
    {
        let c = self.clamp_to_document(pos);
        let l = self.buffer.line_chars(c.row);
        if l.len() > 0 {
            let col = if c.col < l.len() { c.col } else { l.len() - 1 };
            let here = l[col];
            if !char_is_space(here) {
                let mut start = col;
                while start > 0 && same_class_exec(here, l[start - 1])
                    invariant
                        start <= col < l@.len(),
                        scan_back(l@, start as int, here) == scan_back(l@, col as int, here),
                    decreases start,
                {
                    start -= 1;
                }
                let mut end = col + 1;
                while end < l.len() && same_class_exec(here, l[end])
                    invariant
                        col < end <= l@.len(),
                        scan_fwd(l@, end as int, here) == scan_fwd(l@, col + 1, here),
                    decreases l@.len() - end,
                {
                    end += 1;
                }
                let a = Position { row: c.row, col: start };
                let b = Position { row: c.row, col: end };
                self.sel = SelectionSet::single(Selection::new(a, b));
                self.buffer.set_cursor(b);
                return;
            }
        }
        self.caret_place(c);
    }
}

/// `new` is `old` after typing steps over the character after the caret.
pub open spec fn skipped_over(old: App, new: App) -> bool {
    let c = primary_of(old.sel).head;
    let to = Position { row: c.row, col: (c.col + 1) as usize };
    &&& new.buffer.chars() == old.buffer.chars()
    &&& new.sel.sels() == seq![caret_at(to)]
    &&& new.sel.prim() == 0
    &&& new.synced()
    &&& new.edit_run == EditRun::Idle
    &&& new.undo_stack == old.undo_stack
    &&& new.redo_stack == old.redo_stack
}

/// `new` is `old` after typing the opener `ch`: it and its closer are in,
/// with the caret between them.
pub open spec fn paired(old: App, new: App, ch: char) -> bool {
    let t = old.buffer.chars();
    let at = off_of(t, primary_of(old.sel).head);
    let t2 = spliced(t, at, seq![ch, closer_for(ch)->0]);
    &&& new.buffer.chars() == t2
    &&& new.sel.sels() == seq![caret_at(pos_at(t2, at + 1))]
    &&& new.sel.prim() == 0
    &&& new.synced()
    &&& grouped(old, new, EditRun::Insert)
}

// ── Find and replace, in the file on screen ────────────────────────────────

/// `a + b`, stopping at the largest column.
pub open spec fn sat_add(a: usize, b: nat) -> usize {
    if a + b > usize::MAX { usize::MAX } else { (a + b) as usize }
}

fn sat_add_exec(a: usize, b: usize) -> (r: usize)
    ensures
        r == sat_add(a, b as nat),
{
    if a > usize::MAX - b { usize::MAX } else { a + b }
}

/// The matches a replace-all takes, in order: each one, unless it starts on
/// the row of the last one taken before that one ends (`width` long).
pub open spec fn kept_matches(m: Seq<Position>, width: nat) -> Seq<Position>
    decreases m.len(),
{
    if m.len() == 0 {
        Seq::empty()
    } else {
        let a = kept_matches(m.drop_last(), width);
        let p = m.last();
        if a.len() > 0 && a.last().row == p.row && p.col < a.last().col + width {
            a
        } else {
            a.push(p)
        }
    }
}

/// The text with the `width` characters at `at` cut and `with` typed where
/// they were.
pub open spec fn spliced_at(t: Seq<char>, at: Position, width: nat, with: Seq<char>) -> Seq<char> {
    let a = off_of(t, at);
    let b = off_of(t, Position { row: at.row, col: sat_add(at.col, width) });
    let mid = t.subrange(0, a) + t.subrange(b, t.len() as int);
    if with.len() == 0 {
        mid
    } else {
        let c = off_of(mid, at);
        mid.subrange(0, c) + with + mid.subrange(c, mid.len() as int)
    }
}

/// Every match in `ps` replaced, the last first.
pub open spec fn spliced_all(t: Seq<char>, ps: Seq<Position>, width: nat, with: Seq<char>) -> Seq<char>
    decreases ps.len(),
{
    if ps.len() == 0 {
        t
    } else {
        spliced_all(spliced_at(t, ps.last(), width, with), ps.drop_last(), width, with)
    }
}

/// The lines of `t`.
pub open spec fn doc_lines(t: Seq<char>) -> Seq<Seq<char>> {
    Seq::new(crate::buffer::line_count_of(t) as nat, |r: int| line_of(t, r))
}

/// The matches of `pat` in `t`.
pub open spec fn rematched(t: Seq<char>, pat: Seq<char>) -> Seq<Position> {
    crate::search::collect_spec(doc_lines(t), pat, crate::buffer::line_count_of(t))
}

/// The first match from `k` on at or after `p`; 0 when there is none.
pub open spec fn first_at_or_after(m: Seq<Position>, p: Position, k: int) -> int
    decreases m.len() - k,
{
    if k < 0 || k >= m.len() {
        0
    } else if pos_le(p, m[k]) {
        k
    } else {
        first_at_or_after(m, p, k + 1)
    }
}

/// Where the caret lands after the matches are gathered again: on the
/// current match, or at `after` when there are none.
pub open spec fn landing(m: Seq<Position>, cur: int, after: Position) -> Position {
    if 0 <= cur < m.len() { m[cur] } else { after }
}

/// After a replace ending at `edited` with `with_len` characters: the
/// matches gathered again from the new text, the first at or after the
/// replacement current, the caret alone on it.
pub open spec fn regathered(a: App, before: App, edited: Position, with_len: nat) -> bool {
    let t = a.buffer.chars();
    let pat = before.search.pattern.unwrap()@;
    let after = Position { row: edited.row, col: sat_add(edited.col, with_len) };
    let m = rematched(t, pat);
    let cur = first_at_or_after(m, after, 0);
    &&& a.search.matches@ == m
    &&& a.search.current == cur
    &&& a.buffer.caret() == landing(m, cur, after)
    &&& a.sel.sels() == seq![caret_at(landing(m, cur, after))]
    &&& a.sel.prim() == 0
    &&& a.search.pattern == before.search.pattern
    &&& a.search.replace_input == before.search.replace_input
    &&& a.search.input == before.search.input
}

/// The undo step a replace records and what it leaves alone.
pub open spec fn replace_bookkeeping(a: App, before: App) -> bool {
    &&& a.undo_stack@.len() == before.undo_stack@.len() + 1
    &&& a.undo_stack@.drop_last() == before.undo_stack@
    &&& snap(a.undo_stack@.last()) == before.doc()
    &&& a.redo_stack@.len() == 0
    &&& a.edit_run == EditRun::Idle
    &&& a.filename == before.filename
    &&& a.tab_width == before.tab_width
    &&& a.yank_buffer == before.yank_buffer
}

impl App {
    /// Cut the `width` characters at `at` and type `with` there.
    fn splice_match(&mut self, at: Position, width: usize, with: &str)
        requires
            old(self).wf(),
            old(self).buffer.chars().len() + with@.len() < usize::MAX,
        ensures
            final(self).wf(),
            final(self).buffer.chars() == spliced_at(old(self).buffer.chars(), at, width as nat, with@),
            final(self).buffer.chars().len() <= old(self).buffer.chars().len() + with@.len(),
            final(self).undo_stack == old(self).undo_stack,
            final(self).redo_stack == old(self).redo_stack,
            final(self).edit_run == old(self).edit_run,
            final(self).filename == old(self).filename,
            final(self).tab_width == old(self).tab_width,
            final(self).yank_buffer == old(self).yank_buffer,
            final(self).search == old(self).search,
            final(self).message == old(self).message,
    {
        let end = Position { row: at.row, col: sat_add_exec(at.col, width) };
        let ghost t = self.buffer.chars();
        proof {
            lemma_last_le_monotone(t, at, end, t.len() as int);
            lemma_last_le_range(t, end, t.len() as int);
            lemma_last_le_range(t, at, t.len() as int);
        }
        self.buffer.delete_range(at, end);
        assert(self.buffer.chars().len() <= t.len());
        self.buffer.set_cursor(at);
        proof {
            lemma_last_le_range(self.buffer.chars(), at, self.buffer.chars().len() as int);
        }
        if !with.is_empty() {
            self.buffer.insert_str(with);
        }
    }

    /// Gather the matches again and land on the first one at or after the
    /// replacement that ended at `edited` with `with_len` characters.
    fn recollect_matches(&mut self, edited: Position, with_len: usize)
        requires
            old(self).wf(),
            old(self).search.pattern matches Some(p) && p@.len() > 0,
        ensures
            final(self).wf(),
            regathered(*final(self), *old(self), edited, with_len as nat),
            final(self).buffer.chars() == old(self).buffer.chars(),
            final(self).undo_stack == old(self).undo_stack,
            final(self).redo_stack == old(self).redo_stack,
            final(self).edit_run == old(self).edit_run,
            final(self).filename == old(self).filename,
            final(self).tab_width == old(self).tab_width,
            final(self).yank_buffer == old(self).yank_buffer,
            final(self).message == old(self).message,
    {
        let pattern = match &self.search.pattern {
            Some(p) => p.clone(),
            None => {
                return;
            },
        };
        let lines = self.buffer.lines();
        let m = SearchState::collect(lines.as_slice(), pattern.as_str());
        proof {
            let t = self.buffer.chars();
            assert(crate::search::line_texts(lines@) =~= doc_lines(t));
        }
        let after = Position { row: edited.row, col: sat_add_exec(edited.col, with_len) };
        let mut k: usize = 0;
        let mut found = false;
        while k < m.len() && !found
            invariant
                k <= m@.len(),
                !found ==> first_at_or_after(m@, after, k as int) == first_at_or_after(m@, after, 0),
                found ==> k == first_at_or_after(m@, after, 0) && k < m@.len(),
            decreases m@.len() - k + (if found { 0int } else { 1int }),
        {
            if after.le(&m[k]) {
                found = true;
            } else {
                k += 1;
            }
        }
        let cur = if found { k } else { 0 };
        let land = if cur < m.len() { m[cur] } else { after };
        self.search.matches = m;
        self.search.current = cur;
        self.buffer.set_cursor(land);
        self.sel = SelectionSet::single(Selection::caret(land));
    }

    /// Replace the match the caret is on and move to the next. False, with
    /// nothing changed, when there is no pattern or no current match.
    pub fn replace_current(&mut self) -> (done: bool)
        requires
            old(self).wf(),
            old(self).buffer.chars().len() + old(self).search.replace_input@.len() < usize::MAX,
        ensures
            final(self).wf(),
            ({
                let o = *old(self);
                let ok = o.search.pattern matches Some(p) && p@.len() > 0 && o.search.current < o.search.matches@.len();
                &&& done == ok
                &&& !ok ==> *final(self) == o
                &&& ok ==> {
                    let at = o.search.matches@[o.search.current as int];
                    let width = o.search.pattern.unwrap()@.len();
                    &&& regathered(*final(self), o, at, o.search.replace_input@.len())
                    &&& final(self).buffer.chars() == spliced_at(o.buffer.chars(), at, width, o.search.replace_input@)
                    &&& replace_bookkeeping(*final(self), o)
                    &&& final(self).message == o.message
                }
            }),
    {
        let pattern = match &self.search.pattern {
            Some(p) => p.clone(),
            None => {
                return false;
            },
        };
        if pattern.as_str().is_empty() {
            return false;
        }
        if self.search.current >= self.search.matches.len() {
            return false;
        }
        let at = self.search.matches[self.search.current];
        let with = self.search.replace_input.clone();
        let width = chars_of(pattern.as_str()).len();
        let with_len = chars_of(with.as_str()).len();
        self.push_undo();
        self.edit_run = EditRun::Idle;
        self.splice_match(at, width, with.as_str());
        self.recollect_matches(at, with_len);
        true
    }

    /// Replace every match in the buffer as one edit, the last first, and
    /// say how many. A match overlapping the one before it on its row is
    /// left, so no text is consumed twice.
    pub fn replace_all_in_buffer(&mut self) -> (n: usize)
        requires
            old(self).wf(),
            old(self).buffer.chars().len() + old(self).search.matches@.len() * old(self).search.replace_input@.len()
                < usize::MAX,
        ensures
            final(self).wf(),
            ({
                let o = *old(self);
                let ok = o.search.pattern matches Some(p) && p@.len() > 0 && o.search.matches@.len() > 0;
                &&& !ok ==> n == 0 && *final(self) == o
                &&& ok ==> {
                    let width = o.search.pattern.unwrap()@.len();
                    let kept = kept_matches(o.search.matches@, width);
                    let w = o.search.replace_input@;
                    &&& n == kept.len()
                    &&& n > 0
                    &&& final(self).buffer.chars() == spliced_all(o.buffer.chars(), kept, width, w)
                    &&& regathered(*final(self), o, kept.last(), w.len())
                    &&& replace_bookkeeping(*final(self), o)
                    &&& final(self).message@ == "Replaced "@ + crate::text::decimal(n as nat)
                }
            }),
    {
        let pattern = match &self.search.pattern {
            Some(p) => p.clone(),
            None => {
                return 0;
            },
        };
        if pattern.as_str().is_empty() {
            return 0;
        }
        let with = self.search.replace_input.clone();
        let width = chars_of(pattern.as_str()).len();
        let with_len = chars_of(with.as_str()).len();
        let ghost ms = self.search.matches@;
        let mut accepted: Vec<Position> = Vec::new();
        let mut i: usize = 0;
        while i < self.search.matches.len()
            invariant
                i <= ms.len(),
                ms == self.search.matches@,
                accepted@ == kept_matches(ms.take(i as int), width as nat),
                accepted@.len() <= i,
            decreases ms.len() - i,
        {
            let m = self.search.matches[i];
            assert(ms.take(i + 1).drop_last() =~= ms.take(i as int));
            let skip = match accepted.last() {
                Some(prev) => prev.row == m.row && m.col >= prev.col && m.col - prev.col < width
                    || prev.row == m.row && m.col < prev.col,
                None => false,
            };
            if !skip {
                accepted.push(m);
            }
            i += 1;
        }
        assert(ms.take(i as int) =~= ms);
        if accepted.len() == 0 {
            proof {
                if ms.len() > 0 {
                    lemma_kept_nonempty(ms, width as nat);
                }
            }
            return 0;
        }
        let ghost kept = accepted@;
        let ghost t0 = self.buffer.chars();
        let ghost o = *self;
        self.push_undo();
        self.edit_run = EditRun::Idle;
        let n = accepted.len();
        proof {
            assert(n * with_len <= ms.len() * with_len) by (nonlinear_arith)
                requires
                    n <= ms.len(),
            ;
        }
        let mut k: usize = n;
        assert(kept.take(n as int) =~= kept);
        while k > 0
            invariant
                k <= n == kept.len(),
                accepted@ == kept,
                self.wf(),
                with@.len() == with_len,
                self.buffer.chars().len() + k * with_len < usize::MAX,
                spliced_all(self.buffer.chars(), kept.take(k as int), width as nat, with@) == spliced_all(
                    t0,
                    kept,
                    width as nat,
                    with@,
                ),
                replace_bookkeeping(*self, o),
                self.search == o.search,
                self.message == o.message,
            decreases k,
        {
            proof {
                assert(k * with_len == (k - 1) * with_len + with_len) by (nonlinear_arith)
                    requires
                        k >= 1,
                ;
                assert((k - 1) * with_len >= 0) by (nonlinear_arith)
                    requires
                        k >= 1,
                ;
            }
            k -= 1;
            let ghost before = self.buffer.chars();
            self.splice_match(accepted[k], width, with.as_str());
            proof {
                let tk = kept.take(k + 1);
                assert(tk.last() == kept[k as int]);
                assert(tk.drop_last() =~= kept.take(k as int));
            }
        }
        assert(kept.take(0) =~= Seq::<Position>::empty());
        let last = accepted[n - 1];
        self.recollect_matches(last, with_len);
        let mut msg = crate::text::own("Replaced ");
        let count = crate::text::decimal_string(n);
        crate::text::push_str(&mut msg, count.as_str());
        self.message = msg;
        n
    }
}

proof fn lemma_kept_nonempty(m: Seq<Position>, width: nat)
    requires
        m.len() > 0,
    ensures
        kept_matches(m, width).len() > 0,
    decreases m.len(),
{
    if m.len() > 1 {
        lemma_kept_nonempty(m.drop_last(), width);
    }
}



// ── Line comments ───────────────────────────────────────────────────────────

/// The last row a selection's comment reaches: one that ends at the start
/// of a later row stops on the row before.
pub open spec fn comment_stop(s: Selection) -> int {
    let (a, b) = (sel_start(s), sel_end(s));
    if b.row > a.row && b.col == 0 { b.row - 1 } else { b.row as int }
}

/// Row `r` is one a selection touches, within the document's `last` row.
pub open spec fn touched(sels: Seq<Selection>, last: int, r: int) -> bool {
    exists|i: int|
        0 <= i < sels.len() && sel_start(#[trigger] sels[i]).row <= r && r <= comment_stop(sels[i]) && r <= last
}

/// A line with nothing but white space.
pub open spec fn blank(line: Seq<char>) -> bool {
    crate::text::trimmed(line).len() == 0
}

/// The line, past its leading white space, starts with `token`.
pub open spec fn commented(line: Seq<char>, token: Seq<char>) -> bool {
    crate::text::has_prefix(line.skip(crate::text::lead_spaces(line) as int), token)
}

/// Every row in `rows` is blank or commented.
pub open spec fn all_commented(t: Seq<char>, rows: Seq<usize>, token: Seq<char>) -> bool {
    forall|k: int| 0 <= k < rows.len() ==> blank(line_of(t, #[trigger] rows[k] as int)) || commented(line_of(t, rows[k] as int), token)
}

/// Some row in `rows` is not blank.
pub open spec fn any_content(t: Seq<char>, rows: Seq<usize>) -> bool {
    exists|k: int| 0 <= k < rows.len() && !blank(line_of(t, #[trigger] rows[k] as int))
}

/// The shallowest indentation among the rows that are not blank, from the
/// `k`-th on; `best` so far.
pub open spec fn min_indent(t: Seq<char>, rows: Seq<usize>, tab: nat, k: int, best: Option<nat>) -> Option<nat>
    decreases rows.len() - k,
{
    if k < 0 || k >= rows.len() {
        best
    } else {
        let line = line_of(t, rows[k] as int);
        let b = if blank(line) {
            best
        } else {
            let v = crate::text::indent_cols(line, tab, 0, 0);
            match best {
                Some(x) => Some(if v < x { v } else { x }),
                None => Some(v),
            }
        };
        min_indent(t, rows, tab, k + 1, b)
    }
}

/// Row `row` commented: `token` and a space where its indentation reaches
/// column `col`; a blank row only when it is the one row.
pub open spec fn comment_at(t: Seq<char>, row: int, token: Seq<char>, col: nat, alone: bool, tab: nat) -> Seq<char> {
    let line = line_of(t, row);
    if blank(line) && !alone {
        t
    } else {
        let at = crate::text::char_col_spec(line, col, tab, 0, 0);
        let off = off_of(t, Position { row: row as usize, col: at as usize });
        t.subrange(0, off) + token + seq![' '] + t.subrange(off, t.len() as int)
    }
}

/// Row `row` uncommented: `token` and one space after it taken away, when
/// the row starts with it.
pub open spec fn uncomment_at(t: Seq<char>, row: int, token: Seq<char>) -> Seq<char> {
    let line = line_of(t, row);
    let indent = crate::text::lead_spaces(line);
    let rest = line.skip(indent as int);
    if !crate::text::has_prefix(rest, token) {
        t
    } else {
        let width = token.len() + (if rest.len() > token.len() && rest[token.len() as int] == ' ' { 1nat } else { 0 });
        let a = off_of(t, Position { row: row as usize, col: indent as usize });
        let b = off_of(t, Position { row: row as usize, col: (indent + width) as usize });
        t.subrange(0, a) + t.subrange(b, t.len() as int)
    }
}

/// The rows of `rows`, first to last, commented.
pub open spec fn commented_rows(t: Seq<char>, rows: Seq<usize>, token: Seq<char>, col: nat, alone: bool, tab: nat) -> Seq<char>
    decreases rows.len(),
{
    if rows.len() == 0 {
        t
    } else {
        comment_at(commented_rows(t, rows.drop_last(), token, col, alone, tab), rows.last() as int, token, col, alone, tab)
    }
}

/// The rows of `rows`, first to last, uncommented.
pub open spec fn uncommented_rows(t: Seq<char>, rows: Seq<usize>, token: Seq<char>) -> Seq<char>
    decreases rows.len(),
{
    if rows.len() == 0 {
        t
    } else {
        uncomment_at(uncommented_rows(t, rows.drop_last(), token), rows.last() as int, token)
    }
}

/// A position kept inside the text: its row at most the last, its column
/// at most the byte length of its row's line.
pub open spec fn kept_inside(t: Seq<char>, p: Position) -> Position {
    let last = crate::buffer::line_count_of(t) - 1;
    let len = crate::text::utf8_len(line_of(t, p.row as int));
    Position { row: if p.row <= last { p.row } else { last as usize }, col: if p.col <= len { p.col } else { len as usize } }
}

/// Each selection kept inside the text.
pub open spec fn kept_sels(t: Seq<char>, s: Seq<Selection>) -> Seq<Selection> {
    s.map_values(|x: Selection| Selection { anchor: kept_inside(t, x.anchor), head: kept_inside(t, x.head), goal_x: None })
}

/// The rows the selections touch, once each, in order.
pub open spec fn touched_rows(sels: Seq<Selection>, last: int) -> Seq<usize> {
    Seq::new((last + 1) as nat, |q: int| q as usize).filter(|q: usize| touched(sels, last, q as int))
}

/// Room for commenting every row of a text of `len` characters with a
/// token of `tok` characters, measured in indentation columns of width
/// `tab`.
pub open spec fn comment_room(len: nat, tok: nat, tab: nat) -> bool {
    (len + (len + 1) * (tok + 1)) * (tab + 1) < usize::MAX
}

impl App {
    /// Every row a selection touches, once each, in order.
    fn comment_rows(&self) -> (rows: Vec<usize>)
        requires
            self.wf(),
        ensures
            rows@ == touched_rows(self.sel.sels(), crate::buffer::line_count_of(self.buffer.chars()) - 1),
            rows@.len() <= crate::buffer::line_count_of(self.buffer.chars()),
    {
        let n = self.buffer.line_count();
        let last = n - 1;
        let sels = self.sel.all();
        let mut rows: Vec<usize> = Vec::new();
        let mut r: usize = 0;
        let ghost ss = self.sel.sels();
        let ghost pred = |q: usize| touched(ss, last as int, q as int);
        assert(Seq::new(0, |q: int| q as usize).filter(pred) =~= Seq::<usize>::empty());
        while r <= last
            invariant
                sels@ == ss,
                ss == self.sel.sels(),
                last == crate::buffer::line_count_of(self.buffer.chars()) - 1,
                last < usize::MAX,
                r <= last + 1,
                pred == (|q: usize| touched(ss, last as int, q as int)),
                rows@ == Seq::new(r as nat, |q: int| q as usize).filter(pred),
                rows@.len() <= r,
            decreases last + 1 - r,
        {
            let mut hit = false;
            let mut i: usize = 0;
            while i < sels.len() && !hit
                invariant
                    sels@ == ss,
                    r <= last,
                    i <= sels@.len(),
                    !hit ==> forall|k: int| 0 <= k < i ==> !(sel_start(#[trigger] ss[k]).row <= r && r <= comment_stop(ss[k])),
                    hit ==> touched(ss, last as int, r as int),
                decreases sels@.len() - i + (if hit { 0int } else { 1int }),
            {
                let a = sels[i].start();
                let b = sels[i].end();
                let stop_ok = if b.row > a.row && b.col == 0 { r < b.row } else { r <= b.row };
                if a.row <= r && stop_ok {
                    hit = true;
                } else {
                    i += 1;
                }
            }
            proof {
                let s0 = Seq::new(r as nat, |q: int| q as usize);
                let s1 = Seq::new((r + 1) as nat, |q: int| q as usize);
                assert(s1 =~= s0.push(r));
                s0.lemma_filter_push(r, pred);
                if !hit && touched(ss, last as int, r as int) {
                    let w = choose|w: int| 0 <= w < ss.len() && sel_start(#[trigger] ss[w]).row <= r && r <= comment_stop(ss[w]) && r <= last;
                    assert(!(sel_start(ss[w]).row <= r && r <= comment_stop(ss[w])));
                }
            }
            if hit {
                rows.push(r);
            }
            r += 1;
        }
        rows
    }

    /// Put `token` and a space where the indentation of row `row` reaches
    /// column `col`; a blank row only when it is the one row.
    fn comment_row(&mut self, row: usize, token: &str, col: usize, alone: bool)
        requires
            old(self).wf(),
            old(self).buffer.chars().len() + token@.len() + 1 < usize::MAX,
            old(self).buffer.chars().len() * (old(self).tab_width + 1) < usize::MAX,
        ensures
            final(self).wf(),
            final(self).buffer.chars() == comment_at(old(self).buffer.chars(), row as int, token@, col as nat, alone, old(self).tab_width as nat),
            final(self).buffer.chars().len() <= old(self).buffer.chars().len() + token@.len() + 1,
            final(self).sel == old(self).sel,
            final(self).undo_stack == old(self).undo_stack,
            final(self).redo_stack == old(self).redo_stack,
            final(self).edit_run == old(self).edit_run,
            final(self).filename == old(self).filename,
            final(self).tab_width == old(self).tab_width,
            final(self).yank_buffer == old(self).yank_buffer,
            final(self).search == old(self).search,
            final(self).message == old(self).message,
            final(self).viewport_rows == old(self).viewport_rows,
    {
        let line = self.buffer.line_chars(row);
        proof {
            lemma_line_bounds(self.buffer.chars(), row as int);
            assert(line@.len() * (self.tab_width + 1) <= self.buffer.chars().len() * (self.tab_width + 1)) by (nonlinear_arith)
                requires
                    line@.len() <= self.buffer.chars().len(),
            ;
        }
        let t = crate::text::trim_chars(line.as_slice());
        if t.len() == 0 && !alone {
            return;
        }
        let at = crate::text::char_col_for_visual(line.as_slice(), col, self.tab_width);
        self.buffer.set_cursor(Position { row, col: at });
        let mut ins = crate::text::own(token);
        crate::text::push_char(&mut ins, ' ');
        proof {
            lemma_last_le_range(self.buffer.chars(), Position { row, col: at }, self.buffer.chars().len() as int);
        }
        self.buffer.insert_str(ins.as_str());
    }

    /// Take `token`, and one space after it, off the start of row `row`
    /// when the row starts with it.
    fn uncomment_row(&mut self, row: usize, token: &str)
        requires
            old(self).wf(),
        ensures
            final(self).wf(),
            final(self).buffer.chars() == uncomment_at(old(self).buffer.chars(), row as int, token@),
            final(self).buffer.chars().len() <= old(self).buffer.chars().len(),
            final(self).sel == old(self).sel,
            final(self).undo_stack == old(self).undo_stack,
            final(self).redo_stack == old(self).redo_stack,
            final(self).edit_run == old(self).edit_run,
            final(self).filename == old(self).filename,
            final(self).tab_width == old(self).tab_width,
            final(self).yank_buffer == old(self).yank_buffer,
            final(self).search == old(self).search,
            final(self).message == old(self).message,
            final(self).viewport_rows == old(self).viewport_rows,
    {
        let line = self.buffer.line_chars(row);
        let rest = crate::text::trim_start_chars(line.as_slice());
        let tok = chars_of(token);
        if !crate::text::starts_with(rest.as_slice(), tok.as_slice()) {
            return;
        }
        let indent = line.len() - rest.len();
        let mut width = tok.len();
        if rest.len() > tok.len() && rest[tok.len()] == ' ' {
            width = width + 1;
        }
        let a = Position { row, col: indent };
        let b = Position { row, col: indent + width };
        let ghost t = self.buffer.chars();
        proof {
            lemma_last_le_monotone(t, a, b, t.len() as int);
            lemma_last_le_range(t, b, t.len() as int);
            lemma_last_le_range(t, a, t.len() as int);
        }
        self.buffer.delete_range(a, b);
    }
}

/// Toggling takes the comment off: every row is blank or commented, and
/// some row is not blank. A block commented only in part is commented.
pub open spec fn uncommenting(t: Seq<char>, rows: Seq<usize>, token: Seq<char>) -> bool {
    all_commented(t, rows, token) && any_content(t, rows)
}

/// Where a comment goes: the shallowest indentation of a row that is not
/// blank, column 0 when every row is blank.
pub open spec fn comment_col(t: Seq<char>, rows: Seq<usize>, tab: nat) -> nat {
    match min_indent(t, rows, tab, 0, None) {
        Some(v) => v,
        None => 0,
    }
}

/// The text once the comment on `rows` is toggled.
pub open spec fn toggled(t: Seq<char>, rows: Seq<usize>, token: Seq<char>, tab: nat) -> Seq<char> {
    if uncommenting(t, rows, token) {
        uncommented_rows(t, rows, token)
    } else {
        commented_rows(t, rows, token, comment_col(t, rows, tab), rows.len() == 1, tab)
    }
}

/// Everything but the buffer is the same in `a` and `b`.
pub open spec fn same_but_buffer(a: App, b: App) -> bool {
    &&& a.sel == b.sel
    &&& a.edit_run == b.edit_run
    &&& a.undo_stack == b.undo_stack
    &&& a.redo_stack == b.redo_stack
    &&& a.filename == b.filename
    &&& a.tab_width == b.tab_width
    &&& a.yank_buffer == b.yank_buffer
    &&& a.message == b.message
    &&& a.viewport_rows == b.viewport_rows
    &&& a.search == b.search
}

/// Lines of a text number at most one more than its characters.
proof fn lemma_line_count_bound(t: Seq<char>)
    ensures
        1 <= crate::buffer::line_count_of(t) <= t.len() + 1,
{
    lemma_pos_bound(t, t.len() as int);
}

/// A line with the comment put in: `token` and a space where its
/// indentation reaches column `col`; a blank line is left alone unless it
/// is the one row.
pub open spec fn commented_line(l: Seq<char>, token: Seq<char>, col: nat, alone: bool, tab: nat) -> Seq<char> {
    if blank(l) && !alone {
        l
    } else {
        let at = crate::text::char_col_spec(l, col, tab, 0, 0);
        l.subrange(0, at as int) + token + seq![' '] + l.subrange(at as int, l.len() as int)
    }
}

/// A line with the comment taken out: `token`, and one space after it,
/// when the line past its indentation starts with it.
pub open spec fn uncommented_line(l: Seq<char>, token: Seq<char>) -> Seq<char> {
    let indent = crate::text::lead_spaces(l);
    let rest = l.skip(indent as int);
    if !crate::text::has_prefix(rest, token) {
        l
    } else {
        let width = token.len() + (if rest.len() > token.len() && rest[token.len() as int] == ' ' { 1nat } else { 0 });
        l.subrange(0, indent as int) + l.subrange((indent + width) as int, l.len() as int)
    }
}

/// A line comment token: not empty, not starting with white space, and
/// without a newline.
pub open spec fn comment_token(token: Seq<char>) -> bool {
    &&& token.len() > 0
    &&& !crate::text::is_space(token[0])
    &&& forall|i: int| 0 <= i < token.len() ==> token[i] != '\n'
}

/// Rows of `t` in strictly increasing order.
pub open spec fn rows_of(t: Seq<char>, rows: Seq<usize>) -> bool {
    &&& forall|i: int, j: int| 0 <= i < j < rows.len() ==> rows[i] < rows[j]
    &&& forall|i: int| 0 <= i < rows.len() ==> rows[i] < crate::buffer::line_count_of(t)
}

/// Strictly increasing rows below `n` number at most `n`.
proof fn lemma_rows_len(rows: Seq<usize>, n: int)
    requires
        0 <= n,
        forall|i: int, j: int| 0 <= i < j < rows.len() ==> rows[i] < rows[j],
        forall|i: int| 0 <= i < rows.len() ==> rows[i] < n,
    ensures
        rows.len() <= n,
    decreases rows.len(),
{
    if rows.len() > 0 {
        let last = rows.last();
        let init = rows.drop_last();
        assert forall|i: int| 0 <= i < init.len() implies init[i] < last by {
            assert(rows[i] < rows[rows.len() - 1]);
        }
        lemma_rows_len(init, last as int);
        assert(rows[rows.len() - 1] < n);
    }
}

/// Commenting row `row` changes that line alone.
proof fn lemma_comment_step(t: Seq<char>, row: int, token: Seq<char>, col: nat, alone: bool, tab: nat)
    requires
        t.len() + token.len() + 1 <= usize::MAX,
        0 <= row < crate::buffer::line_count_of(t),
        forall|i: int| 0 <= i < token.len() ==> token[i] != '\n',
    ensures
        ({
            let u = comment_at(t, row, token, col, alone, tab);
            &&& crate::buffer::line_count_of(u) == crate::buffer::line_count_of(t)
            &&& u.len() <= t.len() + token.len() + 1
            &&& line_of(u, row) == commented_line(line_of(t, row), token, col, alone, tab)
            &&& forall|q: int| 0 <= q < crate::buffer::line_count_of(t) && q != row ==> #[trigger] line_of(u, q) == line_of(t, q)
        }),
{
    let line = line_of(t, row);
    if !(blank(line) && !alone) {
        let at = crate::text::char_col_spec(line, col, tab, 0, 0);
        crate::text::lemma_char_col(line, col, tab, 0, 0);
        crate::buffer::lemma_line_layout(t, row);
        crate::buffer::lemma_in_line(t, row, at as int);
        let off = crate::buffer::line_start(t, row) + at;
        let s = token + seq![' '];
        assert(comment_at(t, row, token, col, alone, tab) =~= t.subrange(0, off) + s + t.subrange(off, t.len() as int));
        crate::buffer::lemma_insert_in_line(t, off, s);
        assert(commented_line(line, token, col, alone, tab) =~= line.subrange(0, at as int) + s + line.subrange(at as int, line.len() as int));
    }
}

/// Uncommenting row `row` changes that line alone.
proof fn lemma_uncomment_step(t: Seq<char>, row: int, token: Seq<char>)
    requires
        t.len() <= usize::MAX,
        0 <= row < crate::buffer::line_count_of(t),
    ensures
        ({
            let u = uncomment_at(t, row, token);
            &&& crate::buffer::line_count_of(u) == crate::buffer::line_count_of(t)
            &&& u.len() <= t.len()
            &&& line_of(u, row) == uncommented_line(line_of(t, row), token)
            &&& forall|q: int| 0 <= q < crate::buffer::line_count_of(t) && q != row ==> #[trigger] line_of(u, q) == line_of(t, q)
        }),
{
    let line = line_of(t, row);
    let indent = crate::text::lead_spaces(line);
    let rest = line.skip(indent as int);
    crate::text::lemma_blank_iff(line);
    if crate::text::has_prefix(rest, token) {
        let width = token.len() + (if rest.len() > token.len() && rest[token.len() as int] == ' ' { 1nat } else { 0 });
        crate::buffer::lemma_line_layout(t, row);
        crate::buffer::lemma_delete_in_line(t, row, indent as int, (indent + width) as int);
    }
}

/// Commenting the rows, first to last, comments each of their lines and
/// leaves the others.
proof fn lemma_commented_rows(t: Seq<char>, rows: Seq<usize>, token: Seq<char>, col: nat, alone: bool, tab: nat)
    requires
        rows_of(t, rows),
        t.len() + rows.len() * (token.len() + 1) <= usize::MAX,
        forall|i: int| 0 <= i < token.len() ==> token[i] != '\n',
    ensures
        ({
            let u = commented_rows(t, rows, token, col, alone, tab);
            &&& crate::buffer::line_count_of(u) == crate::buffer::line_count_of(t)
            &&& u.len() <= t.len() + rows.len() * (token.len() + 1)
            &&& forall|q: int| 0 <= q < crate::buffer::line_count_of(t) ==> #[trigger] line_of(u, q) == (if rows.contains(q as usize) {
                commented_line(line_of(t, q), token, col, alone, tab)
            } else {
                line_of(t, q)
            })
        }),
    decreases rows.len(),
{
    let k = token.len() + 1;
    if rows.len() == 0 {
        assert forall|q: int| 0 <= q < crate::buffer::line_count_of(t) implies !#[trigger] rows.contains(q as usize) by {}
    } else {
        let init = rows.drop_last();
        let r = rows.last();
        assert(init.len() * k + k == rows.len() * k) by (nonlinear_arith)
            requires
                init.len() + 1 == rows.len(),
        ;
        assert(init.len() * k >= 0) by (nonlinear_arith)
            requires
                k >= 0,
        ;
        lemma_commented_rows(t, init, token, col, alone, tab);
        let v = commented_rows(t, init, token, col, alone, tab);
        lemma_comment_step(v, r as int, token, col, alone, tab);
        assert forall|i: int| 0 <= i < init.len() implies init[i] != r by {
            assert(rows[i] < rows[rows.len() - 1]);
        }
        assert forall|q: int| 0 <= q < crate::buffer::line_count_of(t) && q != r implies #[trigger] rows.contains(q as usize) == init.contains(q as usize) by {
            if rows.contains(q as usize) {
                let i = choose|i: int| 0 <= i < rows.len() && rows[i] == q as usize;
                assert(init[i] == q as usize);
            }
            if init.contains(q as usize) {
                let i = choose|i: int| 0 <= i < init.len() && init[i] == q as usize;
                assert(rows[i] == q as usize);
            }
        }
        assert(rows[rows.len() - 1] == r);
        assert(rows.contains(r));
        assert(!init.contains(r));
    }
}

/// Uncommenting the rows, first to last, uncomments each of their lines and
/// leaves the others.
proof fn lemma_uncommented_rows(t: Seq<char>, rows: Seq<usize>, token: Seq<char>)
    requires
        rows_of(t, rows),
        t.len() <= usize::MAX,
    ensures
        ({
            let u = uncommented_rows(t, rows, token);
            &&& crate::buffer::line_count_of(u) == crate::buffer::line_count_of(t)
            &&& u.len() <= t.len()
            &&& forall|q: int| 0 <= q < crate::buffer::line_count_of(t) ==> #[trigger] line_of(u, q) == (if rows.contains(q as usize) {
                uncommented_line(line_of(t, q), token)
            } else {
                line_of(t, q)
            })
        }),
    decreases rows.len(),
{
    if rows.len() == 0 {
        assert forall|q: int| 0 <= q < crate::buffer::line_count_of(t) implies !#[trigger] rows.contains(q as usize) by {}
    } else {
        let init = rows.drop_last();
        let r = rows.last();
        lemma_uncommented_rows(t, init, token);
        let v = uncommented_rows(t, init, token);
        lemma_uncomment_step(v, r as int, token);
        assert forall|i: int| 0 <= i < init.len() implies init[i] != r by {
            assert(rows[i] < rows[rows.len() - 1]);
        }
        assert forall|q: int| 0 <= q < crate::buffer::line_count_of(t) && q != r implies #[trigger] rows.contains(q as usize) == init.contains(q as usize) by {
            if rows.contains(q as usize) {
                let i = choose|i: int| 0 <= i < rows.len() && rows[i] == q as usize;
                assert(init[i] == q as usize);
            }
            if init.contains(q as usize) {
                let i = choose|i: int| 0 <= i < init.len() && init[i] == q as usize;
                assert(rows[i] == q as usize);
            }
        }
        assert(rows[rows.len() - 1] == r);
        assert(rows.contains(r));
        assert(!init.contains(r));
    }
}

/// A commented line is blank or commented, is not blank when something
/// was put in it, and uncommenting gives the line back.
proof fn lemma_comment_line_back(l: Seq<char>, token: Seq<char>, col: nat, alone: bool, tab: nat)
    requires
        comment_token(token),
    ensures
        ({
            let c = commented_line(l, token, col, alone, tab);
            &&& uncommented_line(c, token) == l
            &&& blank(c) || commented(c, token)
            &&& !(blank(l) && !alone) ==> !blank(c)
        }),
{
    if blank(l) && !alone {
        crate::text::lemma_blank_iff(l);
        assert(l.skip(crate::text::lead_spaces(l) as int).len() == 0);
    } else {
        let at = crate::text::char_col_spec(l, col, tab, 0, 0);
        crate::text::lemma_char_col(l, col, tab, 0, 0);
        let pre = l.subrange(0, at as int);
        let post = l.subrange(at as int, l.len() as int);
        let y = token + seq![' '] + post;
        let c = commented_line(l, token, col, alone, tab);
        assert(c =~= pre + y);
        assert forall|i: int| 0 <= i < pre.len() implies crate::text::is_space(#[trigger] pre[i]) by {
            assert(pre[i] == l[i]);
        }
        crate::text::lemma_lead_concat(pre, y);
        assert(y[0] == token[0]);
        assert(crate::text::lead_spaces(y) == 0);
        crate::text::lemma_blank_iff(c);
        assert(c.skip(at as int) =~= y);
        assert(y.take(token.len() as int) =~= token);
        assert(y[token.len() as int] == ' ');
        assert(uncommented_line(c, token) =~= pre + post);
        assert(pre + post =~= l);
    }
}

/// Toggling the comment on rows it comments, then toggling again, gives
/// the text back: a block commented only in part becomes wholly
/// commented, and the second toggle restores it.
pub proof fn law_comment_toggle_restores(t: Seq<char>, rows: Seq<usize>, token: Seq<char>, tab: nat)
    requires
        comment_room(t.len(), token.len(), tab),
        comment_token(token),
        rows_of(t, rows),
        !uncommenting(t, rows, token),
    ensures
        toggled(toggled(t, rows, token, tab), rows, token, tab) == t,
{
    let n = crate::buffer::line_count_of(t);
    let col = comment_col(t, rows, tab);
    let alone = rows.len() == 1;
    let tl = token.len();
    lemma_line_count_bound(t);
    lemma_rows_len(rows, n);
    assert(t.len() + rows.len() * (tl + 1) <= usize::MAX) by (nonlinear_arith)
        requires
            rows.len() <= t.len() + 1,
            (t.len() + (t.len() + 1) * (tl + 1)) * (tab + 1) < usize::MAX,
    ;
    lemma_commented_rows(t, rows, token, col, alone, tab);
    let u = commented_rows(t, rows, token, col, alone, tab);
    assert(toggled(t, rows, token, tab) == u);
    assert forall|q: int| 0 <= q < n && #[trigger] rows.contains(q as usize) implies {
        let c = line_of(u, q);
        &&& uncommented_line(c, token) == line_of(t, q)
        &&& blank(c) || commented(c, token)
        &&& !(blank(line_of(t, q)) && !alone) ==> !blank(c)
    } by {
        lemma_comment_line_back(line_of(t, q), token, col, alone, tab);
    }
    assert(all_commented(u, rows, token)) by {
        assert forall|k: int| 0 <= k < rows.len() implies blank(line_of(u, #[trigger] rows[k] as int)) || commented(line_of(u, rows[k] as int), token) by {
            assert(rows.contains(rows[k]));
        }
    }
    if uncommenting(u, rows, token) {
        lemma_uncommented_rows(u, rows, token);
        let w = uncommented_rows(u, rows, token);
        assert forall|q: int| 0 <= q < n implies #[trigger] line_of(w, q) == line_of(t, q) by {}
        crate::buffer::lemma_same_lines(w, t);
    } else {
        assert forall|q: int| 0 <= q < n implies #[trigger] line_of(u, q) == line_of(t, q) by {
            if rows.contains(q as usize) {
                let k = choose|k: int| 0 <= k < rows.len() && rows[k] == q as usize;
                assert(!(!blank(line_of(u, rows[k] as int))));
            }
        }
        crate::buffer::lemma_same_lines(u, t);
    }
}

impl App {
    /// A position kept inside the text.
    fn keep_inside(&self, p: Position) -> (q: Position)
        requires
            self.wf(),
        ensures
            q == kept_inside(self.buffer.chars(), p),
    {
        proof {
            lemma_line_count_bound(self.buffer.chars());
        }
        let last = self.buffer.line_count() - 1;
        let line = self.buffer.line_chars(p.row);
        let col = utf8_len_capped(line.as_slice(), p.col);
        Position { row: if p.row <= last { p.row } else { last }, col }
    }

    /// Every selection kept inside the text, the primary where it was, and
    /// the caret on its head.
    fn sync_after_comment(&mut self)
        requires
            old(self).wf(),
        ensures
            final(self).wf(),
            final(self).buffer.chars() == old(self).buffer.chars(),
            (final(self).sel.sels(), final(self).sel.prim()) == normalised(
                kept_sels(old(self).buffer.chars(), old(self).sel.sels()),
                old(self).sel.prim(),
            ),
            final(self).synced(),
            final(self).undo_stack == old(self).undo_stack,
            final(self).redo_stack == old(self).redo_stack,
            final(self).edit_run == old(self).edit_run,
            final(self).filename == old(self).filename,
            final(self).tab_width == old(self).tab_width,
            final(self).yank_buffer == old(self).yank_buffer,
            final(self).search == old(self).search,
            final(self).message == old(self).message,
            final(self).viewport_rows == old(self).viewport_rows,
    {
        let ghost t = self.buffer.chars();
        let sels = self.sel.all();
        let mut out: Vec<Selection> = Vec::new();
        let mut i: usize = 0;
        while i < sels.len()
            invariant
                self.wf(),
                self.buffer.chars() == t,
                i <= sels@.len(),
                out@.len() == i,
                forall|k: int| 0 <= k < i ==> #[trigger] out@[k] == (Selection {
                    anchor: kept_inside(t, sels@[k].anchor),
                    head: kept_inside(t, sels@[k].head),
                    goal_x: None,
                }),
            decreases sels@.len() - i,
        {
            let a = self.keep_inside(sels[i].anchor);
            let h = self.keep_inside(sels[i].head);
            out.push(Selection { anchor: a, head: h, goal_x: None });
            i += 1;
        }
        assert(out@ =~= kept_sels(t, self.sel.sels()));
        let primary = self.sel.primary_index();
        self.sel = SelectionSet::spans(out, primary);
        let head = self.sel.primary().head;
        self.buffer.set_cursor(head);
    }

    /// Whether every row is blank or commented, and whether some row is not
    /// blank.
    fn survey_rows(&self, rows: &Vec<usize>, token: &[char]) -> (r: (bool, bool))
        ensures
            r.0 == all_commented(self.buffer.chars(), rows@, token@),
            r.1 == any_content(self.buffer.chars(), rows@),
    {
        let ghost t = self.buffer.chars();
        let mut all = true;
        let mut any = false;
        let mut k: usize = 0;
        while k < rows.len()
            invariant
                t == self.buffer.chars(),
                k <= rows@.len(),
                all == (forall|j: int| 0 <= j < k ==> blank(line_of(t, #[trigger] rows@[j] as int)) || commented(line_of(t, rows@[j] as int), token@)),
                any == (exists|j: int| 0 <= j < k && !blank(line_of(t, #[trigger] rows@[j] as int))),
            decreases rows@.len() - k,
        {
            let line = self.buffer.line_chars(rows[k]);
            let body = crate::text::trim_chars(line.as_slice());
            if body.len() != 0 {
                any = true;
                let rest = crate::text::trim_start_chars(line.as_slice());
                if !crate::text::starts_with(rest.as_slice(), token) {
                    all = false;
                }
            }
            proof {
                if !all {
                    if forall|j: int| 0 <= j < k + 1 ==> blank(line_of(t, #[trigger] rows@[j] as int)) || commented(line_of(t, rows@[j] as int), token@) {
                        assert(blank(line_of(t, rows@[k as int] as int)) || commented(line_of(t, rows@[k as int] as int), token@));
                    }
                }
                if any {
                    if body@.len() == 0 {
                        let w = choose|j: int| 0 <= j < k && !blank(line_of(t, #[trigger] rows@[j] as int));
                        assert(0 <= w < k + 1 && !blank(line_of(t, rows@[w] as int)));
                    } else {
                        assert(!blank(line_of(t, rows@[k as int] as int)));
                    }
                }
            }
            k += 1;
        }
        (all, any)
    }

    /// The shallowest indentation of a row that is not blank, 0 when every
    /// row is blank.
    fn shallowest(&self, rows: &Vec<usize>) -> (c: usize)
        requires
            self.buffer.chars().len() * (self.tab_width + 1) < usize::MAX,
        ensures
            c == comment_col(self.buffer.chars(), rows@, self.tab_width as nat),
    {
        let ghost t = self.buffer.chars();
        let ghost tab = self.tab_width as nat;
        let mut found = false;
        let mut best: usize = 0;
        let mut k: usize = 0;
        while k < rows.len()
            invariant
                t == self.buffer.chars(),
                tab == self.tab_width,
                t.len() * (tab + 1) < usize::MAX,
                k <= rows@.len(),
                min_indent(t, rows@, tab, 0, None) == min_indent(t, rows@, tab, k as int, if found { Some(best as nat) } else { None }),
            decreases rows@.len() - k,
        {
            let line = self.buffer.line_chars(rows[k]);
            proof {
                lemma_line_bounds(t, rows@[k as int] as int);
                assert(line@.len() * (tab + 1) <= t.len() * (tab + 1)) by (nonlinear_arith)
                    requires
                        line@.len() <= t.len(),
                ;
            }
            let body = crate::text::trim_chars(line.as_slice());
            if body.len() != 0 {
                let v = crate::text::visual_indent(line.as_slice(), self.tab_width);
                if !found || v < best {
                    best = v;
                }
                found = true;
            }
            k += 1;
        }
        if found { best } else { 0 }
    }

    /// Comment or uncomment every row a selection touches, with the file
    /// type's line comment `line_comment`.
    ///
    /// With no line comment the status line says so and nothing else
    /// changes. Rows are uncommented only when every one is blank or
    /// commented and some one is not blank; otherwise each row that is not
    /// blank (a blank one only when it is the one row) gets the token and a
    /// space at the shallowest indentation among them. The edit is one undo
    /// step, the selections are kept inside the text, and the caret follows
    /// the primary head.
    pub fn toggle_line_comment(&mut self, line_comment: Option<&str>) -> (done: bool)
        requires
            old(self).wf(),
            (match line_comment {
                Some(tok) => comment_room(old(self).buffer.chars().len(), tok@.len(), old(self).tab_width as nat),
                None => true,
            }),
        ensures
            final(self).wf(),
            done == (line_comment is Some && touched_rows(old(self).sel.sels(), last_row(old(self).buffer.chars())).len() > 0),
            line_comment is None ==> {
                &&& final(self).message@ == "No line comment in this file type"@
                &&& final(self).buffer == old(self).buffer
                &&& final(self).sel == old(self).sel
                &&& final(self).undo_stack == old(self).undo_stack
                &&& final(self).redo_stack == old(self).redo_stack
                &&& final(self).edit_run == old(self).edit_run
            },
            line_comment is Some && !done ==> *final(self) == *old(self),
            done ==> {
                let t = old(self).buffer.chars();
                let rows = touched_rows(old(self).sel.sels(), last_row(t));
                let u = toggled(t, rows, line_comment.unwrap()@, old(self).tab_width as nat);
                &&& final(self).buffer.chars() == u
                &&& final(self).undo_stack@.len() == old(self).undo_stack@.len() + 1
                &&& final(self).undo_stack@.drop_last() == old(self).undo_stack@
                &&& snap(final(self).undo_stack@.last()) == old(self).doc()
                &&& final(self).redo_stack@.len() == 0
                &&& final(self).edit_run == EditRun::Idle
                &&& (final(self).sel.sels(), final(self).sel.prim()) == normalised(kept_sels(u, old(self).sel.sels()), old(self).sel.prim())
                &&& final(self).synced()
                &&& final(self).message == old(self).message
            },
            final(self).filename == old(self).filename,
            final(self).tab_width == old(self).tab_width,
            final(self).yank_buffer == old(self).yank_buffer,
            final(self).search == old(self).search,
            final(self).viewport_rows == old(self).viewport_rows,
    {
        let token = match line_comment {
            Some(tok) => tok,
            None => {
                self.message = crate::text::own("No line comment in this file type");
                return false;
            },
        };
        let rows = self.comment_rows();
        if rows.len() == 0 {
            return false;
        }
        let ghost t0 = self.buffer.chars();
        let ghost tab = self.tab_width as nat;
        let ghost tl = token@.len();
        let tok = chars_of(token);
        let (all, any) = self.survey_rows(&rows, tok.as_slice());
        proof {
            lemma_line_count_bound(t0);
            assert(t0.len() * (tab + 1) <= (t0.len() + (t0.len() + 1) * (tl + 1)) * (tab + 1)) by (nonlinear_arith)
                requires
                    tl >= 0,
                    tab >= 0,
            ;
        }
        self.push_undo();
        self.edit_run = EditRun::Idle;
        let ghost mid = *self;
        if all && any {
            let mut k: usize = 0;
            while k < rows.len()
                invariant
                    self.wf(),
                    same_but_buffer(*self, mid),
                    k <= rows@.len(),
                    self.buffer.chars() == uncommented_rows(t0, rows@.take(k as int), token@),
                decreases rows@.len() - k,
            {
                self.uncomment_row(rows[k], token);
                assert(rows@.take(k + 1).drop_last() =~= rows@.take(k as int));
                k += 1;
            }
            assert(rows@.take(rows@.len() as int) =~= rows@);
        } else {
            let col = self.shallowest(&rows);
            let alone = rows.len() == 1;
            let mut k: usize = 0;
            while k < rows.len()
                invariant
                    self.wf(),
                    same_but_buffer(*self, mid),
                    tab == self.tab_width,
                    tl == token@.len(),
                    k <= rows@.len(),
                    rows@.len() <= t0.len() + 1,
                    comment_room(t0.len(), tl, tab),
                    self.buffer.chars() == commented_rows(t0, rows@.take(k as int), token@, col as nat, alone, tab),
                    self.buffer.chars().len() <= t0.len() + k * (tl + 1),
                decreases rows@.len() - k,
            {
                let ghost len = self.buffer.chars().len();
                proof {
                    let b = t0.len() + (t0.len() + 1) * (tl + 1);
                    assert(len + tl + 1 <= b) by (nonlinear_arith)
                        requires
                            b == t0.len() + (t0.len() + 1) * (tl + 1),
                            len <= t0.len() + k * (tl + 1),
                            k + 1 <= t0.len() + 1,
                            tl >= 0,
                    ;
                    assert(b <= b * (tab + 1) && len * (tab + 1) <= b * (tab + 1)) by (nonlinear_arith)
                        requires
                            len <= b,
                            tab >= 0,
                            b >= 0,
                    ;
                }
                self.comment_row(rows[k], token, col, alone);
                proof {
                    assert(rows@.take(k + 1).drop_last() =~= rows@.take(k as int));
                    assert(k * (tl + 1) + tl + 1 == (k + 1) * (tl + 1)) by (nonlinear_arith);
                }
                k += 1;
            }
            assert(rows@.take(rows@.len() as int) =~= rows@);
        }
        self.sync_after_comment();
        true
    }
}

/// `min(utf8_len(s), cap)`.
fn utf8_len_capped(s: &[char], cap: usize) -> (n: usize)
    ensures
        n as nat == (if crate::text::utf8_len(s@) <= cap { crate::text::utf8_len(s@) } else { cap as nat }),
{
    if crate::text::utf8_at_least(s, cap) {
        return cap;
    }
    let mut acc: usize = 0;
    let mut i: usize = 0;
    while i < s.len()
        invariant
            i <= s@.len(),
            acc == crate::text::utf8_len(s@.take(i as int)),
            crate::text::utf8_len(s@) < cap,
        decreases s@.len() - i,
    {
        proof {
            crate::text::lemma_utf8_grows(s@, (i + 1) as nat);
            assert(s@.take(i + 1).drop_last() =~= s@.take(i as int));
        }
        let c = s[i] as u32;
        let w: usize = if c < 0x80 { 1 } else if c < 0x800 { 2 } else if c < 0x10000 { 3 } else { 4 };
        acc = acc + w;
        i += 1;
    }
    assert(s@.take(i as int) =~= s@);
    acc
}

proof fn lemma_scan_fwd(l: Seq<char>, i: int, here: char)
    requires
        0 <= i <= l.len(),
    ensures
        i <= scan_fwd(l, i, here) <= l.len(),
        forall|j: int| i <= j < scan_fwd(l, i, here) ==> same_class(here, #[trigger] l[j]),
        scan_fwd(l, i, here) < l.len() ==> !same_class(here, l[scan_fwd(l, i, here)]),
    decreases l.len() - i,
{
    if i < l.len() && same_class(here, l[i]) {
        lemma_scan_fwd(l, i + 1, here);
    }
}

proof fn lemma_scan_back(l: Seq<char>, i: int, here: char)
    requires
        0 <= i <= l.len(),
    ensures
        0 <= scan_back(l, i, here) <= i,
        forall|j: int| scan_back(l, i, here) <= j < i ==> same_class(here, #[trigger] l[j]),
        scan_back(l, i, here) > 0 ==> !same_class(here, l[scan_back(l, i, here) - 1]),
    decreases i,
{
    if 0 < i && same_class(here, l[i - 1]) {
        lemma_scan_back(l, i - 1, here);
    }
}

/// Double-clicking a character of an identifier (a letter, a digit or a
/// numeral in Unicode, or an underscore) selects the whole identifier on
/// that line: the span holds the clicked character, every character in it
/// is alphanumeric or an underscore and not blank, and the characters on
/// either side of it are not (or are blank).
pub proof fn law_double_click_takes_whole_identifier(t: Seq<char>, p: Position)
    requires
        p.col < line_of(t, p.row as int).len(),
        line_of(t, p.row as int).len() <= usize::MAX,
        is_alnum(line_of(t, p.row as int)[p.col as int]) || line_of(t, p.row as int)[p.col as int] == '_',
        !is_space(line_of(t, p.row as int)[p.col as int]),
    ensures
        word_range_spec(t, p) matches Some((a, b)) && {
            let l = line_of(t, p.row as int);
            &&& a.row == p.row && b.row == p.row
            &&& a.col <= p.col < b.col <= l.len()
            &&& forall|j: int| a.col <= j < b.col ==> (is_alnum(#[trigger] l[j]) || l[j] == '_') && !is_space(l[j])
            &&& a.col > 0 ==> !(is_alnum(l[a.col - 1]) || l[a.col - 1] == '_') || is_space(l[a.col - 1])
            &&& b.col < l.len() ==> !(is_alnum(l[b.col as int]) || l[b.col as int] == '_') || is_space(l[b.col as int])
        },
{
    let l = line_of(t, p.row as int);
    let col = p.col as int;
    let here = l[col];
    lemma_scan_back(l, col, here);
    lemma_scan_fwd(l, col + 1, here);
}

} // verus!
