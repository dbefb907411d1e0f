use vstd::prelude::*;

verus! {

/// A location in a document: a zero-based line and a zero-based character
/// column on that line. Columns count characters, not bytes.
#[derive(Clone, Copy, Debug, PartialEq, Eq, Structural, PartialOrd, Ord, Hash, Default)]
pub struct Position {
    pub row: usize,
    pub col: usize,
}

/// Document order: earlier row first, then earlier column.
pub open spec fn pos_lt(a: Position, b: Position) -> bool {
    a.row < b.row || (a.row == b.row && a.col < b.col)
}

pub open spec fn pos_le(a: Position, b: Position) -> bool {
    a.row < b.row || (a.row == b.row && a.col <= b.col)
}

pub open spec fn pos_min(a: Position, b: Position) -> Position {
    if pos_le(a, b) { a } else { b }
}

pub open spec fn pos_max(a: Position, b: Position) -> Position {
    if pos_le(a, b) { b } else { a }
}

impl Position {
    pub fn new(row: usize, col: usize) -> (p: Position)
        ensures
            p.row == row,
            p.col == col,
    {
        Position { row, col }
    }

    pub fn zero() -> (p: Position)
        ensures
            p.row == 0,
            p.col == 0,
    {
        Position { row: 0, col: 0 }
    }

    /// `self` comes no later than `other` in document order.
    pub fn le(&self, other: &Position) -> (b: bool)
        ensures
            b == pos_le(*self, *other),
    {
        self.row < other.row || (self.row == other.row && self.col <= other.col)
    }

    /// `self` comes strictly before `other` in document order.
    pub fn lt(&self, other: &Position) -> (b: bool)
        ensures
            b == pos_lt(*self, *other),
    {
        self.row < other.row || (self.row == other.row && self.col < other.col)
    }

    pub fn same(&self, other: &Position) -> (b: bool)
        ensures
            b == (*self == *other),
    {
        self.row == other.row && self.col == other.col
    }
}

/// Document order is total and transitive.
pub proof fn lemma_pos_order(a: Position, b: Position, c: Position)
    ensures
        pos_le(a, b) || pos_le(b, a),
        pos_le(a, b) && pos_le(b, a) ==> a == b,
        pos_le(a, b) && pos_le(b, c) ==> pos_le(a, c),
        pos_lt(a, b) <==> (pos_le(a, b) && a != b),
{
}

} // verus!
