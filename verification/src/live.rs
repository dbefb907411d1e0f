//! What a live reload did to a band of rows.

use vstd::prelude::*;

verus! {

/// Blue arrived, red left, and "changed" is the same lines saying something
/// else: did it grow, shrink, or move?
#[derive(Debug, Clone, Copy, PartialEq, Eq, Structural)]
pub enum LiveKind {
    Changed,
    Added,
    Removed,
}

impl LiveKind {
    /// The kind's number on the wire: 0 changed, 1 added, 2 removed.
    pub fn code(self) -> (n: u8)
        ensures
            n == match self {
                LiveKind::Changed => 0u8,
                LiveKind::Added => 1u8,
                LiveKind::Removed => 2u8,
            },
    {
        match self {
            LiveKind::Changed => 0,
            LiveKind::Added => 1,
            LiveKind::Removed => 2,
        }
    }
}

} // verus!
