//! Layout tabs: a whole arrangement of panes folded into one tab of the tab
//! strip, shown either as its documents' chips grouped together or as one
//! chip carrying the layout's name.

use vstd::prelude::*;
use crate::split::{BufferId, Layout, Pane};
use crate::text::{own, push_str, decimal_string, str_eq, decimal, digits_value, digit_char, digit_val};

verus! {

/// How a folded layout presents itself in the tab strip.
#[derive(Debug, Clone, Copy, PartialEq, Eq, Structural)]
pub enum LayoutStyle {
    /// Its documents keep their own chips, inside one container.
    Grouped,
    /// One chip carrying the layout's name.
    Unified,
}

impl LayoutStyle {
    /// The other style.
    pub fn toggled(self) -> (s: Self)
        ensures
            s != self,
    {
        match self {
            LayoutStyle::Grouped => LayoutStyle::Unified,
            LayoutStyle::Unified => LayoutStyle::Grouped,
        }
    }
}

/// A folded layout.
#[derive(Debug)]
pub struct LayoutTab {
    /// Shares the id space of tabs.
    pub id: u64,
    pub name: String,
    /// The arrangement, each leaf naming a pane of `panes`.
    pub tree: Layout,
    /// The panes the tree names, as they were when folded.
    pub panes: Vec<Pane>,
    /// The documents folded, in reading order.
    pub docs: Vec<BufferId>,
    pub style: LayoutStyle,
}

impl LayoutTab {
    /// Whether `doc` is folded into this layout.
    pub fn holds(&self, doc: BufferId) -> (b: bool)
        ensures
            b == self.docs@.contains(doc),
    {
        let mut i: usize = 0;
        while i < self.docs.len()
            invariant
                i <= self.docs@.len(),
                forall|j: int| 0 <= j < i ==> self.docs@[j] != doc,
            decreases self.docs@.len() - i,
        {
            if self.docs[i] == doc {
                assert(self.docs@[i as int] == doc);
                return true;
            }
            i += 1;
        }
        false
    }
}

/// The name `layout n`.
pub open spec fn layout_label(n: nat) -> Seq<char> {
    "layout "@ + decimal(n)
}

/// Some layout of `names` is called `layout n`.
pub open spec fn name_taken(names: Seq<LayoutTab>, n: nat) -> bool {
    exists|k: int| 0 <= k < names.len() && (#[trigger] names[k]).name@ == layout_label(n)
}

proof fn lemma_digit_roundtrip(d: nat)
    requires
        d < 10,
    ensures
        digit_val(digit_char(d)) == d,
{
}

/// Reading the digits of `n` gives `n` back.
proof fn lemma_decimal_value(n: nat)
    ensures
        digits_value(decimal(n)) == n,
    decreases n,
{
    let d = decimal(n);
    if n < 10 {
        lemma_digit_roundtrip(n);
        assert(d.drop_last() =~= Seq::<char>::empty());
        assert(digits_value(d.drop_last()) == 0);
        assert(d.last() == digit_char(n));
        assert(digits_value(d) == digits_value(d.drop_last()) * 10 + digit_val(d.last()));
    } else {
        lemma_decimal_value(n / 10);
        lemma_digit_roundtrip(n % 10);
        assert(d.drop_last() =~= decimal(n / 10));
        assert(d.last() == digit_char(n % 10));
        assert(digits_value(d) == digits_value(d.drop_last()) * 10 + digit_val(d.last()));
        assert(digits_value(d) == (n / 10) * 10 + n % 10);
        vstd::arithmetic::div_mod::lemma_fundamental_div_mod(n as int, 10);
    }
}

/// The number a label names, read back from its digits.
spec fn label_number(s: Seq<char>) -> nat {
    digits_value(s.skip(7))
}

proof fn lemma_label_number(n: nat)
    ensures
        label_number(layout_label(n)) == n,
{
    reveal_strlit("layout ");
    assert(layout_label(n).skip(7) =~= decimal(n));
    lemma_decimal_value(n);
}

/// When `layout 1` to `layout n` are all taken, there are at least `n`
/// layouts.
proof fn lemma_taken_bound(names: Seq<LayoutTab>, n: nat)
    requires
        forall|m: nat| 1 <= m <= n ==> name_taken(names, m),
    ensures
        n <= names.len(),
{
    let idx = vstd::set_lib::set_int_range(0, names.len() as int);
    let f = |k: int| label_number(names[k].name@) as int;
    vstd::set_lib::lemma_int_range(0, names.len() as int);
    let img = idx.map(f);
    vstd::set_lib::lemma_map_size_bound(idx, img, f);
    let want = vstd::set_lib::set_int_range(1, n as int + 1);
    vstd::set_lib::lemma_int_range(1, n as int + 1);
    assert forall|m: int| want.contains(m) implies img.contains(m) by {
        assert(name_taken(names, m as nat));
        let k = choose|k: int| 0 <= k < names.len() && (#[trigger] names[k]).name@ == layout_label(m as nat);
        lemma_label_number(m as nat);
        assert(idx.contains(k));
        assert(f(k) == m);
    }
    vstd::set_lib::lemma_len_subset(want, img);
}

/// The lowest `layout N` name that no layout of `existing` has.
pub fn next_name(existing: &[LayoutTab]) -> (s: String)
    requires
        existing@.len() < usize::MAX,
    ensures
        exists|n: nat| {
            &&& 1 <= n <= existing@.len() + 1
            &&& s@ == layout_label(n)
            &&& !name_taken(existing@, n)
            &&& forall|m: nat| 1 <= m < n ==> name_taken(existing@, m)
        },
{
    let mut n: usize = 1;
    loop
        invariant
            1 <= n <= existing@.len() + 1,
            existing@.len() < usize::MAX,
            forall|m: nat| 1 <= m < n ==> name_taken(existing@, m),
        decreases existing@.len() + 1 - n,
    {
        let mut candidate = own("layout ");
        let digits = decimal_string(n);
        push_str(&mut candidate, digits.as_str());
        let mut taken = false;
        let mut k: usize = 0;
        while k < existing.len()
            invariant
                k <= existing@.len(),
                candidate@ == layout_label(n as nat),
                taken == exists|j: int| 0 <= j < k && (#[trigger] existing@[j]).name@ == layout_label(n as nat),
            decreases existing@.len() - k,
        {
            if str_eq(existing[k].name.as_str(), candidate.as_str()) {
                taken = true;
            }
            k += 1;
        }
        if !taken {
            return candidate;
        }
        proof {
            lemma_taken_bound(existing@, n as nat);
        }
        n += 1;
    }
}

} // verus!
