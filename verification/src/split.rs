//! The editor's split tree, as far as the library keeps it: which pane sits
//! where, and which document each pane shows.

use vstd::prelude::*;
use crate::position::Position;

verus! {

/// Names an open document.
#[derive(Debug, Clone, Copy, PartialEq, Eq, Structural, Hash, Default)]
pub struct BufferId(pub u64);

/// Names a pane of the split tree.
#[derive(Debug, Clone, Copy, PartialEq, Eq, Structural, Hash)]
pub struct PaneId(pub u64);

/// The direction a split stacks its two sides in.
#[derive(Debug, Clone, Copy, PartialEq, Eq, Structural)]
pub enum Axis {
    /// Side by side.
    Col,
    /// One above the other.
    Row,
}

/// The arrangement of panes: a single pane, or two arrangements split
/// along an axis.
#[derive(Debug)]
pub enum Layout {
    Leaf(PaneId),
    Split(Axis, Box<Layout>, Box<Layout>),
}

/// A pane: the document it shows and where it was scrolled and placed.
#[derive(Debug, Clone, Copy, PartialEq, Eq, Structural)]
pub struct Pane {
    pub id: PaneId,
    pub doc: BufferId,
    pub scroll: usize,
    pub cursor: Position,
}

/// The panes a layout names, left to right.
pub open spec fn leaves(l: Layout) -> Seq<PaneId>
    decreases l,
{
    match l {
        Layout::Leaf(p) => seq![p],
        Layout::Split(_, a, b) => leaves(*a) + leaves(*b),
    }
}

impl Layout {
    /// How many panes the layout holds.
    pub fn pane_count(&self) -> (n: usize)
        requires
            leaves(*self).len() <= usize::MAX,
        ensures
            n == leaves(*self).len(),
        decreases *self,
    {
        match self {
            Layout::Leaf(_) => 1,
            Layout::Split(_, a, b) => {
                let x = a.pane_count();
                let y = b.pane_count();
                x + y
            },
        }
    }
}

} // verus!
