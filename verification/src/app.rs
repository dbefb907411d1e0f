//! The editor state the GUI commands drive: one document, the selections
//! over it, the undo history, and what file it is.
//!
//! The buffer's cursor is kept on the primary selection's head by every
//! command, so a caret is an empty selection and the rest of the editor can
//! keep reading the cursor.

use vstd::prelude::*;
use crate::buffer::{Buffer, Position, off_of, pos_at, line_of, line_count_of, lemma_pos_bound, lemma_last_le_range,
    lemma_last_le_monotone, lemma_line_bounds};
use crate::position::{pos_le, pos_lt};
use crate::selection::{Selection, SelectionSet, sel_start, sel_end, caret_at, span};
use crate::text::{slice_vec, string_of, to_ascii_lower, lower_ascii_seq};
use crate::media::{extension, extension_of};
use crate::search::SearchState;

verus! {

/// The kind of edit the last keystrokes made, so that a run of the same kind
/// is undone as one step.
#[derive(Clone, Copy, Debug, PartialEq, Eq, Structural)]
pub enum EditRun {
    /// No run in progress: the next edit starts a new undo step.
    Idle,
    Insert,
    Delete,
}

/// A saved state of the document: its text and caret.
#[derive(Debug)]
pub struct Snapshot {
    pub text: Vec<char>,
    pub cursor: Position,
}

/// What a snapshot holds, as values.
pub open spec fn snap(s: Snapshot) -> (Seq<char>, Position) {
    (s.text@, s.cursor)
}

/// One editor window over one document.
pub struct App {
    pub buffer: Buffer,
    /// The selections the caret commands drive; the buffer's cursor follows
    /// the primary head.
    pub sel: SelectionSet,
    pub edit_run: EditRun,
    pub undo_stack: Vec<Snapshot>,
    pub redo_stack: Vec<Snapshot>,
    /// The file on screen, if it has one.
    pub filename: Option<String>,
    pub tab_width: usize,
    /// What the last copy took.
    pub yank_buffer: Option<String>,
    /// The status line.
    pub message: String,
    /// Rows the viewport shows; 0 until the window is sized.
    pub viewport_rows: usize,
    /// The find bar: pattern, matches and the replacement.
    pub search: SearchState,
}

/// The last row of `t`.
pub open spec fn last_row(t: Seq<char>) -> int {
    line_count_of(t) - 1
}

/// The length of row `row` of `t`.
pub open spec fn row_len(t: Seq<char>, row: int) -> int {
    line_of(t, row).len() as int
}

/// `p` moved onto the document: the row at most the last, the column at most
/// that row's length.
pub open spec fn clamp_pos(t: Seq<char>, p: Position) -> Position {
    let row = if p.row <= last_row(t) { p.row as int } else { last_row(t) };
    let len = row_len(t, row);
    Position { row: row as usize, col: (if p.col <= len { p.col as int } else { len }) as usize }
}

/// The end of the document.
pub open spec fn doc_end(t: Seq<char>) -> Position {
    Position { row: last_row(t) as usize, col: row_len(t, last_row(t)) as usize }
}

/// The primary selection of a set.
pub open spec fn primary_of(s: SelectionSet) -> Selection {
    s.sels()[s.prim()]
}

/// The inclusive form of the exclusive range `[a, b)`: the last position
/// that is still inside it.
pub open spec fn inclusive_end(t: Seq<char>, b: Position) -> Position {
    if b.col > 0 {
        Position { row: b.row, col: (b.col - 1) as usize }
    } else {
        Position { row: (b.row - 1) as usize, col: row_len(t, b.row - 1) as usize }
    }
}

/// The text between two positions.
pub open spec fn text_between(t: Seq<char>, a: Position, b: Position) -> Seq<char> {
    t.subrange(off_of(t, a), off_of(t, b))
}

/// The extension of a file name, lowercased.
pub open spec fn file_ext_spec(name: Option<String>) -> Option<Seq<char>> {
    match name {
        Some(n) => match extension_of(n@) {
            Some(e) => Some(lower_ascii_seq(e)),
            None => None,
        },
        None => None,
    }
}

impl App {
    /// Sizes stay within what an offset can count.
    pub open spec fn wf(&self) -> bool {
        &&& self.buffer.wf()
        &&& forall|i: int| 0 <= i < self.undo_stack@.len() ==> #[trigger] self.undo_stack@[i].text@.len() < usize::MAX
        &&& forall|i: int| 0 <= i < self.redo_stack@.len() ==> #[trigger] self.redo_stack@[i].text@.len() < usize::MAX
    }

    /// The document as values: its text and caret.
    pub open spec fn doc(&self) -> (Seq<char>, Position) {
        (self.buffer.chars(), self.buffer.caret())
    }

    /// The caret follows the primary head.
    pub open spec fn synced(&self) -> bool {
        self.buffer.caret() == primary_of(self.sel).head
    }

    /// An empty document with a caret at its start.
    pub fn new() -> (a: App)
        ensures
            a.wf(),
            a.buffer.chars().len() == 0,
            a.buffer.caret() == (Position { row: 0, col: 0 }),
            a.sel.sels() == seq![caret_at(Position { row: 0, col: 0 })],
            a.sel.prim() == 0,
            a.edit_run == EditRun::Idle,
            a.undo_stack@.len() == 0,
            a.redo_stack@.len() == 0,
            a.filename is None,
            a.yank_buffer is None,
    {
        proof {
            reveal_strlit("");
        }
        let b = Buffer::from_string("");
        App {
            buffer: b,
            sel: SelectionSet::new(),
            edit_run: EditRun::Idle,
            undo_stack: Vec::new(),
            redo_stack: Vec::new(),
            filename: None,
            tab_width: 4,
            yank_buffer: None,
            message: String::new(),
            viewport_rows: 0,
            search: SearchState::default(),
        }
    }

    /// The current document as a snapshot.
    fn snapshot(&self) -> (s: Snapshot)
        ensures
            snap(s) == self.doc(),
    {
        let v = self.buffer.text_chars();
        Snapshot { text: slice_vec(v.as_slice(), 0, v.len()), cursor: self.buffer.cursor() }
    }

    /// Save the document for undo; what could be redone is forgotten.
    pub fn push_undo(&mut self)
        requires
            old(self).wf(),
        ensures
            final(self).wf(),
            final(self).undo_stack@.len() == old(self).undo_stack@.len() + 1,
            final(self).undo_stack@.drop_last() == old(self).undo_stack@,
            snap(final(self).undo_stack@.last()) == old(self).doc(),
            final(self).redo_stack@.len() == 0,
            final(self).buffer == old(self).buffer,
            final(self).sel == old(self).sel,
            final(self).edit_run == old(self).edit_run,
            final(self).filename == old(self).filename,
            final(self).search == old(self).search,
            final(self).message == old(self).message,
            final(self).tab_width == old(self).tab_width,
            final(self).yank_buffer == old(self).yank_buffer,
            final(self).viewport_rows == old(self).viewport_rows,
    {
        let s = self.snapshot();
        self.undo_stack.push(s);
        self.redo_stack = Vec::new();
        assert(self.undo_stack@.drop_last() =~= old(self).undo_stack@);
    }

    /// Put a saved document back, caret and selection with it.
    fn restore(&mut self, s: Snapshot)
        requires
            old(self).wf(),
            s.text@.len() < usize::MAX,
        ensures
            final(self).doc() == snap(s),
            final(self).sel.sels() == seq![caret_at(s.cursor)],
            final(self).sel.prim() == 0,
            final(self).edit_run == EditRun::Idle,
            final(self).undo_stack == old(self).undo_stack,
            final(self).redo_stack == old(self).redo_stack,
            final(self).filename == old(self).filename,
            final(self).wf(),
    {
        let cursor = s.cursor;
        self.buffer.replace_all(s.text, true);
        self.buffer.set_cursor(cursor);
        self.sel = SelectionSet::single(Selection::caret(cursor));
        self.edit_run = EditRun::Idle;
    }

    /// Step back to the last saved document; the current one can be redone.
    pub fn undo(&mut self) -> (done: bool)
        requires
            old(self).wf(),
        ensures
            final(self).wf(),
            done == (old(self).undo_stack@.len() > 0),
            done ==> undone(*old(self), *final(self)),
            !done ==> final(self).doc() == old(self).doc() && final(self).redo_stack == old(self).redo_stack,
    {
        if self.undo_stack.len() == 0 {
            return false;
        }
        let s = self.undo_stack.pop().unwrap();
        let cur = self.snapshot();
        self.redo_stack.push(cur);
        self.restore(s);
        assert(self.redo_stack@.drop_last() =~= old(self).redo_stack@);
        true
    }

    /// Step forward again to the document the last undo left.
    pub fn redo(&mut self) -> (done: bool)
        requires
            old(self).wf(),
        ensures
            final(self).wf(),
            done == (old(self).redo_stack@.len() > 0),
            done ==> redone(*old(self), *final(self)),
            !done ==> final(self).doc() == old(self).doc() && final(self).undo_stack == old(self).undo_stack,
    {
        if self.redo_stack.len() == 0 {
            return false;
        }
        let s = self.redo_stack.pop().unwrap();
        let cur = self.snapshot();
        self.undo_stack.push(cur);
        self.restore(s);
        assert(self.undo_stack@.drop_last() =~= old(self).undo_stack@);
        true
    }

    /// `pos` moved onto the document.
    pub fn clamp_to_document(&self, pos: Position) -> (p: Position)
        requires
            self.buffer.wf(),
        ensures
            p == clamp_pos(self.buffer.chars(), pos),
    {
        let n = self.buffer.line_count();
        proof {
            lemma_pos_bound(self.buffer.chars(), self.buffer.chars().len() as int);
        }
        let last = n - 1;
        let row = if pos.row <= last { pos.row } else { last };
        let len = self.buffer.line_chars(row).len();
        let col = if pos.col <= len { pos.col } else { len };
        Position { row, col }
    }

    /// Place a single caret at `pos`, moved onto the document (a plain
    /// click); other carets go.
    pub fn caret_place(&mut self, pos: Position)
        requires
            old(self).wf(),
        ensures
            final(self).wf(),
            final(self).buffer.chars() == old(self).buffer.chars(),
            final(self).sel.sels() == seq![caret_at(clamp_pos(old(self).buffer.chars(), pos))],
            final(self).sel.prim() == 0,
            final(self).synced(),
            final(self).edit_run == EditRun::Idle,
            final(self).undo_stack == old(self).undo_stack,
            final(self).redo_stack == old(self).redo_stack,
            final(self).filename == old(self).filename,
    {
        self.edit_run = EditRun::Idle;
        let clamped = self.clamp_to_document(pos);
        self.sel = SelectionSet::single(Selection::caret(clamped));
        self.buffer.set_cursor(clamped);
    }

    /// Extend the primary selection's head to `pos` (a drag, or
    /// Shift+Click); its anchor stays.
    pub fn caret_drag_to(&mut self, pos: Position)
        requires
            old(self).wf(),
        ensures
            final(self).wf(),
            final(self).buffer.chars() == old(self).buffer.chars(),
            (final(self).sel.sels(), final(self).sel.prim()) == crate::selection::normalised(
                old(self).sel.sels().update(
                    old(self).sel.prim(),
                    span(primary_of(old(self).sel).anchor, clamp_pos(old(self).buffer.chars(), pos)),
                ),
                old(self).sel.prim(),
            ),
            final(self).buffer.caret() == clamp_pos(old(self).buffer.chars(), pos),
            final(self).edit_run == EditRun::Idle,
            final(self).undo_stack == old(self).undo_stack,
            final(self).redo_stack == old(self).redo_stack,
            final(self).filename == old(self).filename,
    {
        self.edit_run = EditRun::Idle;
        let clamped = self.clamp_to_document(pos);
        let anchor = self.sel.primary().anchor;
        self.sel.set_primary(Selection::new(anchor, clamped));
        self.buffer.set_cursor(clamped);
    }

    /// Add a caret at `pos` (a Cmd-click); it becomes the primary.
    pub fn caret_add(&mut self, pos: Position)
        requires
            old(self).wf(),
        ensures
            final(self).wf(),
            final(self).buffer.chars() == old(self).buffer.chars(),
            (final(self).sel.sels(), final(self).sel.prim()) == crate::selection::normalised(
                old(self).sel.sels().push(caret_at(clamp_pos(old(self).buffer.chars(), pos))),
                old(self).sel.sels().len() as int,
            ),
            final(self).synced(),
            final(self).edit_run == EditRun::Idle,
            final(self).undo_stack == old(self).undo_stack,
            final(self).redo_stack == old(self).redo_stack,
            final(self).filename == old(self).filename,
    {
        self.edit_run = EditRun::Idle;
        let clamped = self.clamp_to_document(pos);
        self.sel.add(Selection::caret(clamped));
        let h = self.sel.primary().head;
        self.buffer.set_cursor(h);
    }

    /// Keep only a caret at the primary head (Escape).
    pub fn caret_collapse(&mut self)
        requires
            old(self).wf(),
        ensures
            final(self).wf(),
            final(self).buffer.chars() == old(self).buffer.chars(),
            final(self).sel.sels() == seq![caret_at(primary_of(old(self).sel).head)],
            final(self).sel.prim() == 0,
            final(self).synced(),
            final(self).undo_stack == old(self).undo_stack,
            final(self).redo_stack == old(self).redo_stack,
            final(self).filename == old(self).filename,
            final(self).edit_run == old(self).edit_run,
    {
        self.sel.collapse_to_primary_caret();
        let h = self.sel.primary().head;
        self.buffer.set_cursor(h);
    }

    /// Select the whole document.
    pub fn select_all_gui(&mut self)
        requires
            old(self).wf(),
        ensures
            final(self).wf(),
            final(self).buffer.chars() == old(self).buffer.chars(),
            final(self).sel.sels() == seq![
                span(Position { row: 0, col: 0 }, doc_end(old(self).buffer.chars())),
            ],
            final(self).sel.prim() == 0,
            final(self).synced(),
            final(self).undo_stack == old(self).undo_stack,
            final(self).redo_stack == old(self).redo_stack,
            final(self).filename == old(self).filename,
            final(self).edit_run == old(self).edit_run,
    {
        let n = self.buffer.line_count();
        proof {
            lemma_pos_bound(self.buffer.chars(), self.buffer.chars().len() as int);
        }
        let last = n - 1;
        let end = Position { row: last, col: self.buffer.line_chars(last).len() };
        self.sel = SelectionSet::single(Selection::new(Position::zero(), end));
        self.buffer.set_cursor(end);
    }

    /// A caret at the buffer's cursor, after something else moved it.
    pub fn sync_sel_to_cursor(&mut self)
        requires
            old(self).wf(),
        ensures
            final(self).wf(),
            final(self).buffer == old(self).buffer,
            final(self).sel.sels() == seq![caret_at(old(self).buffer.caret())],
            final(self).sel.prim() == 0,
            final(self).synced(),
            final(self).undo_stack == old(self).undo_stack,
            final(self).redo_stack == old(self).redo_stack,
    {
        let c = self.buffer.cursor();
        self.sel = SelectionSet::single(Selection::caret(c));
    }

    /// The primary selection as an ordered exclusive range, or `None` for a
    /// bare caret.
    pub fn gui_selection_range(&self) -> (r: Option<(Position, Position)>)
        ensures
            r == (if primary_of(self.sel).anchor == primary_of(self.sel).head {
                None
            } else {
                Some((sel_start(primary_of(self.sel)), sel_end(primary_of(self.sel))))
            }),
    {
        let s = self.sel.primary();
        if s.is_empty() {
            None
        } else {
            Some(s.range())
        }
    }

    /// The primary selection spans something.
    pub fn has_selection(&self) -> (b: bool)
        ensures
            b == (primary_of(self.sel).anchor != primary_of(self.sel).head),
    {
        !self.sel.primary().is_empty()
    }

    /// The primary selection as an inclusive range: its start and the last
    /// position inside it. `None` for a bare caret.
    pub fn selected_range(&self) -> (r: Option<(Position, Position)>)
        requires
            self.buffer.wf(),
        ensures
            r == (if primary_of(self.sel).anchor == primary_of(self.sel).head {
                None
            } else {
                Some(
                    (
                        sel_start(primary_of(self.sel)),
                        inclusive_end(self.buffer.chars(), sel_end(primary_of(self.sel))),
                    ),
                )
            }),
    {
        let s = self.sel.primary();
        if s.is_empty() {
            return None;
        }
        let (a, b) = s.range();
        let e = if b.col > 0 {
            Position { row: b.row, col: b.col - 1 }
        } else {
            let prev = b.row - 1;
            Position { row: prev, col: self.buffer.line_chars(prev).len() }
        };
        Some((a, e))
    }

    /// Copy the primary selection into the yank buffer; a bare caret copies
    /// nothing and leaves it as it was.
    pub fn clipboard_copy(&mut self)
        requires
            old(self).wf(),
        ensures
            final(self).wf(),
            final(self).buffer == old(self).buffer,
            final(self).sel == old(self).sel,
            primary_of(old(self).sel).anchor == primary_of(old(self).sel).head ==> final(self).yank_buffer
                == old(self).yank_buffer,
            primary_of(old(self).sel).anchor != primary_of(old(self).sel).head ==> final(self).yank_buffer is Some
                && final(self).yank_buffer->0@ == text_between(
                old(self).buffer.chars(),
                sel_start(primary_of(old(self).sel)),
                sel_end(primary_of(old(self).sel)),
            ),
            final(self).undo_stack == old(self).undo_stack,
            final(self).redo_stack == old(self).redo_stack,
    {
        let s = self.sel.primary();
        if s.is_empty() {
            return;
        }
        let (a, b) = s.range();
        let oa = self.buffer.position_to_offset(a);
        let ob = self.buffer.position_to_offset(b);
        proof {
            lemma_last_le_monotone(self.buffer.chars(), a, b, self.buffer.chars().len() as int);
            lemma_last_le_range(self.buffer.chars(), b, self.buffer.chars().len() as int);
        }
        let v = slice_vec(self.buffer.text_chars().as_slice(), oa, ob);
        self.yank_buffer = Some(string_of(v.as_slice()));
    }

    /// The heads of every selection but the primary, in document order.
    pub fn secondary_caret_positions(&self) -> (v: Vec<Position>)
        ensures
            v@ == secondary_heads(self.sel.sels(), self.sel.prim()),
    {
        let all = self.sel.all();
        let p = self.sel.primary_index();
        let mut v: Vec<Position> = Vec::new();
        let mut i: usize = 0;
        while i < all.len()
            invariant
                i <= all@.len(),
                all@ == self.sel.sels(),
                p == self.sel.prim(),
                v@ == heads_skipping(all@, p as int, i as int),
            decreases all@.len() - i,
        {
            if i != p {
                v.push(all[i].head);
            }
            i += 1;
        }
        v
    }

    /// The extension of the file on screen, lowercased.
    pub fn file_extension(&self) -> (r: Option<Vec<char>>)
        ensures
            match r {
                Some(e) => file_ext_spec(self.filename) == Some(e@),
                None => file_ext_spec(self.filename) is None,
            },
    {
        match &self.filename {
            Some(name) => match extension(name.as_str()) {
                Some(e) => Some(to_ascii_lower(e.as_slice())),
                None => None,
            },
            None => None,
        }
    }
}

/// Heads of `s[..i]` other than index `p`.
pub open spec fn heads_skipping(s: Seq<Selection>, p: int, i: int) -> Seq<Position>
    decreases i,
{
    if i <= 0 {
        Seq::empty()
    } else if i - 1 == p {
        heads_skipping(s, p, i - 1)
    } else {
        heads_skipping(s, p, i - 1).push(s[i - 1].head)
    }
}

/// Heads of every selection of `s` but the one at `p`.
pub open spec fn secondary_heads(s: Seq<Selection>, p: int) -> Seq<Position> {
    heads_skipping(s, p, s.len() as int)
}

/// `new` is `old` after an undo: the last saved document is back, caret and
/// a single caret selection with it, and what was on screen can be redone.
pub open spec fn undone(old: App, new: App) -> bool {
    &&& new.doc() == snap(old.undo_stack@.last())
    &&& new.undo_stack@ == old.undo_stack@.drop_last()
    &&& new.redo_stack@.drop_last() == old.redo_stack@
    &&& new.redo_stack@.len() == old.redo_stack@.len() + 1
    &&& snap(new.redo_stack@.last()) == old.doc()
    &&& new.sel.sels() == seq![caret_at(new.buffer.caret())]
    &&& new.edit_run == EditRun::Idle
}

/// `new` is `old` after a redo: the mirror image of an undo.
pub open spec fn redone(old: App, new: App) -> bool {
    &&& new.doc() == snap(old.redo_stack@.last())
    &&& new.redo_stack@ == old.redo_stack@.drop_last()
    &&& new.undo_stack@.drop_last() == old.undo_stack@
    &&& new.undo_stack@.len() == old.undo_stack@.len() + 1
    &&& snap(new.undo_stack@.last()) == old.doc()
    &&& new.sel.sels() == seq![caret_at(new.buffer.caret())]
    &&& new.edit_run == EditRun::Idle
}

/// Undoing and then redoing gives back the document that was on screen, and
/// the undo history it had.
pub proof fn law_redo_after_undo(a: App, b: App, c: App)
    requires
        a.undo_stack@.len() > 0,
        undone(a, b),
        redone(b, c),
    ensures
        c.doc() == a.doc(),
        c.redo_stack@ == a.redo_stack@,
        c.undo_stack@.len() == a.undo_stack@.len(),
        c.undo_stack@.drop_last() == a.undo_stack@.drop_last(),
        snap(c.undo_stack@.last()) == snap(a.undo_stack@.last()),
{
}

/// Redoing and then undoing gives back the document that was on screen.
pub proof fn law_undo_after_redo(a: App, b: App, c: App)
    requires
        a.redo_stack@.len() > 0,
        redone(a, b),
        undone(b, c),
    ensures
        c.doc() == a.doc(),
        c.undo_stack@ == a.undo_stack@,
        c.redo_stack@.len() == a.redo_stack@.len(),
        c.redo_stack@.drop_last() == a.redo_stack@.drop_last(),
        snap(c.redo_stack@.last()) == snap(a.redo_stack@.last()),
{
}

} // verus!
