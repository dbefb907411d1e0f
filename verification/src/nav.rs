//! The jump list behind Back and Forward: where the caret was before each
//! go-to-definition or search jump.

use vstd::prelude::*;
use crate::position::Position;
use crate::text::{str_eq, own};

verus! {

/// A place to come back to. The file is named by its path.
#[derive(Clone, Debug)]
pub struct Jump {
    pub pos: Position,
    pub scroll: usize,
    pub path: Option<String>,
}

/// A jump as a value.
pub open spec fn jview(j: Jump) -> (Position, usize, Option<Seq<char>>) {
    (
        j.pos,
        j.scroll,
        match j.path {
            Some(p) => Some(p@),
            None => None,
        },
    )
}

/// Most jumps kept.
pub const MAX_JUMPS: usize = 100;

impl Jump {
    /// A copy with the same position, scroll and path.
    pub fn copy(&self) -> (j: Jump)
        ensures
            jview(j) == jview(*self),
    {
        Jump {
            pos: self.pos,
            scroll: self.scroll,
            path: match &self.path {
                Some(p) => Some(own(p.as_str())),
                None => None,
            },
        }
    }

    /// Same position and path.
    fn same_place(&self, other: &Jump) -> (b: bool)
        ensures
            b == (jview(*self).0 == jview(*other).0 && jview(*self).2 == jview(*other).2),
    {
        if !(self.pos == other.pos) {
            return false;
        }
        match (&self.path, &other.path) {
            (Some(a), Some(b)) => str_eq(a.as_str(), b.as_str()),
            (None, None) => true,
            _ => false,
        }
    }
}

/// What `push` makes of entries `e` at index `i`: drop the forward history,
/// skip a jump to where the last entry already is, keep the newest
/// `MAX_JUMPS`, and point at the newest.
pub open spec fn push_spec(
    e: Seq<(Position, usize, Option<Seq<char>>)>,
    i: int,
    j: (Position, usize, Option<Seq<char>>),
) -> (Seq<(Position, usize, Option<Seq<char>>)>, int) {
    let e1 = if i + 1 < e.len() { e.take(i + 1) } else { e };
    if e1.len() > 0 && e1.last().0 == j.0 && e1.last().2 == j.2 {
        (e1, i)
    } else {
        let e2 = e1.push(j);
        let e3 = if e2.len() > MAX_JUMPS { e2.skip(e2.len() - MAX_JUMPS) } else { e2 };
        (e3, e3.len() - 1)
    }
}

/// What `back` makes of entries `e` at index `i`, given where the caret is
/// now: at the newest entry, remember the present place first (unless it is
/// already there), then step one back. The jump to restore, if any.
pub open spec fn back_spec(
    e: Seq<(Position, usize, Option<Seq<char>>)>,
    i: int,
    cur: (Position, usize, Option<Seq<char>>),
) -> (Seq<(Position, usize, Option<Seq<char>>)>, int, Option<(Position, usize, Option<Seq<char>>)>) {
    if e.len() == 0 {
        (e, i, None)
    } else {
        let (e1, i1) = if i + 1 >= e.len() && e.last().0 != cur.0 {
            (e.push(cur), e.len() as int)
        } else {
            (e, i)
        };
        if i1 == 0 {
            (e1, i1, None)
        } else {
            (e1, i1 - 1, Some(e1[i1 - 1]))
        }
    }
}

/// What `forward` makes of entries `e` at index `i`.
pub open spec fn forward_spec(e: Seq<(Position, usize, Option<Seq<char>>)>, i: int) -> (
    int,
    Option<(Position, usize, Option<Seq<char>>)>,
) {
    if i + 1 >= e.len() {
        (i, None)
    } else {
        (i + 1, Some(e[i + 1]))
    }
}

/// The recorded jumps and where in them Back and Forward stand.
#[derive(Clone, Debug)]
pub struct JumpList {
    entries: Vec<Jump>,
    /// The current entry; jumps move relative to it.
    index: usize,
}

impl JumpList {
    /// The index is in range, or zero for an empty list.
    pub closed spec fn wf(&self) -> bool {
        if self.entries@.len() == 0 {
            self.index == 0
        } else {
            self.index < self.entries@.len()
        }
    }

    /// The entries, oldest first.
    pub closed spec fn view(&self) -> Seq<(Position, usize, Option<Seq<char>>)> {
        self.entries@.map_values(|j: Jump| jview(j))
    }

    pub closed spec fn at(&self) -> int {
        self.index as int
    }

    pub fn new() -> (l: Self)
        ensures
            l.wf(),
            l.view() == Seq::<(Position, usize, Option<Seq<char>>)>::empty(),
            l.at() == 0,
    {
        let l = JumpList { entries: Vec::new(), index: 0 };
        assert(l.view() =~= Seq::<(Position, usize, Option<Seq<char>>)>::empty());
        l
    }

    /// Record the place a jump leaves from (call before moving).
    pub fn push(&mut self, jump: Jump)
        requires
            old(self).wf(),
        ensures
            final(self).wf(),
            (final(self).view(), final(self).at()) == push_spec(old(self).view(), old(self).at(), jview(jump)),
    {
        let ghost e = self.view();
        let ghost jv = jview(jump);
        let len0 = self.entries.len();
        if self.index + 1 < len0 {
            let keep = self.index + 1;
            let mut entries = Vec::new();
            std::mem::swap(&mut entries, &mut self.entries);
            entries.truncate(keep);
            self.entries = entries;
            assert(self.view() =~= e.take(keep as int));
        }
        let ghost e1 = self.view();
        let n = self.entries.len();
        if n > 0 && self.entries[n - 1].same_place(&jump) {
            return;
        }
        let mut entries = Vec::new();
        std::mem::swap(&mut entries, &mut self.entries);
        entries.push(jump);
        assert(entries@.map_values(|j: Jump| jview(j)) =~= e1.push(jv));
        if entries.len() > MAX_JUMPS {
            let drop = entries.len() - MAX_JUMPS;
            let tail = entries.split_off(drop);
            entries = tail;
            assert(entries@.map_values(|j: Jump| jview(j)) =~= e1.push(jv).skip(e1.push(jv).len() - MAX_JUMPS));
        }
        self.index = entries.len() - 1;
        self.entries = entries;
    }

    /// Step back. At the newest entry the present place is remembered first,
    /// so Forward can return to it.
    pub fn back(&mut self, current: Jump) -> (r: Option<Jump>)
        requires
            old(self).wf(),
        ensures
            final(self).wf(),
            ({
                let (e, i, got) = back_spec(old(self).view(), old(self).at(), jview(current));
                &&& final(self).view() == e
                &&& final(self).at() == i
                &&& match r {
                    Some(j) => got == Some(jview(j)),
                    None => got is None,
                }
            }),
    {
        let ghost e = self.view();
        if self.entries.len() == 0 {
            return None;
        }
        if self.index + 1 >= self.entries.len() {
            let n = self.entries.len();
            if !(self.entries[n - 1].pos == current.pos) {
                let mut entries = Vec::new();
                std::mem::swap(&mut entries, &mut self.entries);
                entries.push(current);
                self.entries = entries;
                self.index = self.entries.len() - 1;
                assert(self.view() =~= e.push(jview(current)));
            }
        }
        if self.index == 0 {
            return None;
        }
        self.index -= 1;
        Some(self.entries[self.index].copy())
    }

    /// Step forward, if a later entry exists.
    pub fn forward(&mut self) -> (r: Option<Jump>)
        requires
            old(self).wf(),
        ensures
            final(self).wf(),
            final(self).view() == old(self).view(),
            ({
                let (i, got) = forward_spec(old(self).view(), old(self).at());
                &&& final(self).at() == i
                &&& match r {
                    Some(j) => got == Some(jview(j)),
                    None => got is None,
                }
            }),
    {
        let n = self.entries.len();
        if self.index + 1 >= n {
            return None;
        }
        self.index += 1;
        Some(self.entries[self.index].copy())
    }

    pub fn len(&self) -> (n: usize)
        ensures
            n == self.view().len(),
    {
        self.entries.len()
    }
}

impl Default for JumpList {
    fn default() -> (l: Self)
        ensures
            l.wf(),
            l.view() == Seq::<(Position, usize, Option<Seq<char>>)>::empty(),
            l.at() == 0,
    {
        JumpList::new()
    }
}

/// Back then Forward comes back: when Back restored a jump, Forward then
/// restores the entry Back left from, and the list stays as Back left it.
pub proof fn law_back_then_forward(
    e: Seq<(Position, usize, Option<Seq<char>>)>,
    i: int,
    cur: (Position, usize, Option<Seq<char>>),
)
    requires
        0 <= i,
        e.len() == 0 || i < e.len(),
    ensures
        ({
            let (e1, i1, got) = back_spec(e, i, cur);
            got is Some ==> forward_spec(e1, i1) == (i1 + 1, Some(e1[i1 + 1]))
        }),
        e.len() > 0 && i + 1 >= e.len() && e.last().0 != cur.0 ==> forward_spec(
            back_spec(e, i, cur).0,
            back_spec(e, i, cur).1,
        ).1 == Some(cur),
{
}

} // verus!
