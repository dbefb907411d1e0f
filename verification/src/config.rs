//! The user's settings that the library's logic reads: for now the key
//! bindings the user has moved off their shipped chords.

use vstd::prelude::*;
use crate::text::{str_eq, own};

verus! {

/// The index of an entry whose key is `k`.
pub open spec fn index_of_key(s: Seq<(String, String)>, k: Seq<char>) -> int {
    choose|i: int| 0 <= i < s.len() && s[i].0@ == k
}

/// Entries read as a map from key to value.
pub open spec fn pairs_map(s: Seq<(String, String)>) -> Map<Seq<char>, Seq<char>> {
    Map::new(
        |k: Seq<char>| exists|i: int| 0 <= i < s.len() && s[i].0@ == k,
        |k: Seq<char>| s[index_of_key(s, k)].1@,
    )
}

/// No key occurs twice.
pub open spec fn keys_distinct(s: Seq<(String, String)>) -> bool {
    forall|i: int, j: int| 0 <= i < j < s.len() ==> (#[trigger] s[i]).0@ != (#[trigger] s[j]).0@
}

proof fn lemma_index_unique(s: Seq<(String, String)>, k: Seq<char>, j: int)
    requires
        keys_distinct(s),
        0 <= j < s.len(),
        s[j].0@ == k,
    ensures
        index_of_key(s, k) == j,
        pairs_map(s).contains_key(k),
        pairs_map(s)[k] == s[j].1@,
{
    let c = index_of_key(s, k);
    assert(0 <= c < s.len() && s[c].0@ == k);
    if c < j {
        assert(s[c].0@ != s[j].0@);
    } else if c > j {
        assert(s[j].0@ != s[c].0@);
    }
}

/// Key bindings the user has changed: command id to chord notation.
#[derive(Debug)]
pub struct Keybindings {
    entries: Vec<(String, String)>,
}

impl Keybindings {
    #[verifier::type_invariant]
    spec fn well_formed(self) -> bool {
        keys_distinct(self.entries@)
    }

    /// The bindings as a map from command id to chord.
    pub closed spec fn view(&self) -> Map<Seq<char>, Seq<char>> {
        pairs_map(self.entries@)
    }

    pub fn new() -> (r: Self)
        ensures
            r.view() == Map::<Seq<char>, Seq<char>>::empty(),
    {
        let r = Keybindings { entries: Vec::new() };
        assert(r.view() =~= Map::<Seq<char>, Seq<char>>::empty());
        r
    }

    fn find(&self, k: &str) -> (r: Option<usize>)
        ensures
            match r {
                Some(i) => i < self.entries@.len() && self.entries@[i as int].0@ == k@,
                None => forall|i: int| 0 <= i < self.entries@.len() ==> (#[trigger] self.entries@[i]).0@ != k@,
            },
    {
        let mut i: usize = 0;
        while i < self.entries.len()
            invariant
                i <= self.entries@.len(),
                forall|j: int| 0 <= j < i ==> (#[trigger] self.entries@[j]).0@ != k@,
            decreases self.entries@.len() - i,
        {
            if str_eq(self.entries[i].0.as_str(), k) {
                return Some(i);
            }
            i += 1;
        }
        None
    }

    /// The chord stored for `k`.
    pub fn get(&self, k: &str) -> (r: Option<&String>)
        ensures
            match r {
                Some(v) => self.view().contains_key(k@) && v@ == self.view()[k@],
                None => !self.view().contains_key(k@),
            },
    {
        proof {
            use_type_invariant(self);
        }
        match self.find(k) {
            Some(i) => {
                proof {
                    lemma_index_unique(self.entries@, k@, i as int);
                }
                Some(&self.entries[i].1)
            },
            None => None,
        }
    }

    /// Store `v` for `k`, replacing what was there.
    pub fn insert(&mut self, k: String, v: String)
        ensures
            final(self).view() == old(self).view().insert(k@, v@),
    {
        proof {
            use_type_invariant(&*self);
        }
        let ghost s = self.entries@;
        let mut entries = Vec::new();
        std::mem::swap(&mut entries, &mut self.entries);
        match self.find_in(&entries, k.as_str()) {
            Some(i) => {
                entries.set(i, (k, v));
                proof {
                    let t = entries@;
                    assert(keys_distinct(t)) by {
                        assert forall|a: int, b: int| 0 <= a < b < t.len() implies (#[trigger] t[a]).0@ != (
                        #[trigger] t[b]).0@ by {
                            if a != i && b != i {
                                assert(t[a] == s[a] && t[b] == s[b]);
                            } else if a == i {
                                assert(t[b] == s[b]);
                            } else {
                                assert(t[a] == s[a]);
                            }
                        }
                    }
                    assert forall|key: Seq<char>| pairs_map(t).contains_key(key) == pairs_map(s).insert(
                        k@,
                        v@,
                    ).contains_key(key) by {
                        if key == k@ {
                            assert(t[i as int].0@ == k@);
                        }
                        if pairs_map(s).insert(k@, v@).contains_key(key) && key != k@ {
                            let j = index_of_key(s, key);
                            assert(s[j].0@ != s[i as int].0@);
                            assert(t[j] == s[j]);
                        }
                        if pairs_map(t).contains_key(key) {
                            let j = index_of_key(t, key);
                            if j != i {
                                assert(t[j] == s[j]);
                            }
                        }
                    }
                    assert forall|key: Seq<char>| #[trigger] pairs_map(t).contains_key(key) implies pairs_map(
                        t,
                    )[key] == pairs_map(s).insert(k@, v@)[key] by {
                        let j = index_of_key(t, key);
                        lemma_index_unique(t, key, j);
                        if j != i {
                            assert(t[j] == s[j]);
                            lemma_index_unique(s, key, j);
                        }
                    }
                    assert(pairs_map(t) =~= pairs_map(s).insert(k@, v@));
                }
            },
            None => {
                entries.push((k, v));
                proof {
                    let t = entries@;
                    assert(keys_distinct(t)) by {
                        assert forall|a: int, b: int| 0 <= a < b < t.len() implies (#[trigger] t[a]).0@ != (
                        #[trigger] t[b]).0@ by {
                            assert(t[a] == s[a]);
                            if b < s.len() {
                                assert(t[b] == s[b]);
                            }
                        }
                    }
                    assert forall|key: Seq<char>| pairs_map(t).contains_key(key) == pairs_map(s).insert(
                        k@,
                        v@,
                    ).contains_key(key) by {
                        if pairs_map(s).contains_key(key) {
                            let j = index_of_key(s, key);
                            assert(t[j] == s[j]);
                        }
                        if key == k@ {
                            assert(t[s.len() as int].0@ == k@);
                        }
                        if pairs_map(t).contains_key(key) {
                            let j = index_of_key(t, key);
                            if j < s.len() {
                                assert(t[j] == s[j]);
                            }
                        }
                    }
                    assert forall|key: Seq<char>| #[trigger] pairs_map(t).contains_key(key) implies pairs_map(
                        t,
                    )[key] == pairs_map(s).insert(k@, v@)[key] by {
                        let j = index_of_key(t, key);
                        lemma_index_unique(t, key, j);
                        if j < s.len() {
                            assert(t[j] == s[j]);
                            lemma_index_unique(s, key, j);
                        }
                    }
                    assert(pairs_map(t) =~= pairs_map(s).insert(k@, v@));
                }
            },
        }
        self.entries = entries;
    }

    fn find_in(&self, entries: &Vec<(String, String)>, k: &str) -> (r: Option<usize>)
        ensures
            match r {
                Some(i) => i < entries@.len() && entries@[i as int].0@ == k@,
                None => forall|i: int| 0 <= i < entries@.len() ==> (#[trigger] entries@[i]).0@ != k@,
            },
    {
        let mut i: usize = 0;
        while i < entries.len()
            invariant
                i <= entries@.len(),
                forall|j: int| 0 <= j < i ==> (#[trigger] entries@[j]).0@ != k@,
            decreases entries@.len() - i,
        {
            if str_eq(entries[i].0.as_str(), k) {
                return Some(i);
            }
            i += 1;
        }
        None
    }

    /// Forget the chord stored for `k`, if any.
    pub fn remove(&mut self, k: &str)
        ensures
            final(self).view() == old(self).view().remove(k@),
    {
        proof {
            use_type_invariant(&*self);
        }
        let ghost s = self.entries@;
        match self.find(k) {
            Some(i) => {
                let mut entries = Vec::new();
                std::mem::swap(&mut entries, &mut self.entries);
                entries.remove(i);
                proof {
                    let t = entries@;
                    assert(t == s.remove(i as int));
                    assert(keys_distinct(t)) by {
                        assert forall|a: int, b: int| 0 <= a < b < t.len() implies (#[trigger] t[a]).0@ != (
                        #[trigger] t[b]).0@ by {
                            let aa = if a < i { a } else { a + 1 };
                            let bb = if b < i { b } else { b + 1 };
                            assert(t[a] == s[aa] && t[b] == s[bb]);
                        }
                    }
                    assert forall|key: Seq<char>| pairs_map(t).contains_key(key) == pairs_map(s).remove(
                        k@,
                    ).contains_key(key) by {
                        if pairs_map(s).remove(k@).contains_key(key) {
                            let j = index_of_key(s, key);
                            assert(j != i);
                            let jj = if j < i { j } else { j - 1 };
                            assert(t[jj] == s[j]);
                        }
                        if pairs_map(t).contains_key(key) {
                            let j = index_of_key(t, key);
                            let jj = if j < i { j } else { j + 1 };
                            assert(t[j] == s[jj]);
                            if key == k@ {
                                assert(s[i as int].0@ == s[jj].0@);
                            }
                        }
                    }
                    assert forall|key: Seq<char>| #[trigger] pairs_map(t).contains_key(key) implies pairs_map(
                        t,
                    )[key] == pairs_map(s).remove(k@)[key] by {
                        let j = index_of_key(t, key);
                        lemma_index_unique(t, key, j);
                        let jj = if j < i { j } else { j + 1 };
                        assert(t[j] == s[jj]);
                        lemma_index_unique(s, key, jj);
                    }
                    assert(pairs_map(t) =~= pairs_map(s).remove(k@));
                }
                self.entries = entries;
            },
            None => {
                proof {
                    assert(pairs_map(s) =~= pairs_map(s).remove(k@));
                }
            },
        }
    }

    /// Forget every stored chord.
    pub fn clear(&mut self)
        ensures
            final(self).view() == Map::<Seq<char>, Seq<char>>::empty(),
    {
        self.entries = Vec::new();
        assert(pairs_map(self.entries@) =~= Map::<Seq<char>, Seq<char>>::empty());
    }

    /// Nothing stored.
    pub fn is_empty(&self) -> (b: bool)
        ensures
            b == (self.view() == Map::<Seq<char>, Seq<char>>::empty()),
    {
        if self.entries.len() == 0 {
            assert(pairs_map(self.entries@) =~= Map::<Seq<char>, Seq<char>>::empty());
            true
        } else {
            assert(pairs_map(self.entries@).contains_key(self.entries@[0].0@));
            false
        }
    }

    /// How many commands carry an override.
    pub fn len(&self) -> (n: usize)
        ensures
            n == self.view().dom().len(),
    {
        proof {
            use_type_invariant(self);
            lemma_pairs_len(self.entries@);
        }
        self.entries.len()
    }
}

proof fn lemma_pairs_len(s: Seq<(String, String)>)
    requires
        keys_distinct(s),
    ensures
        pairs_map(s).dom().finite(),
        pairs_map(s).dom().len() == s.len(),
    decreases s.len(),
{
    if s.len() == 0 {
        assert(pairs_map(s).dom() =~= Set::<Seq<char>>::empty());
    } else {
        let d = s.drop_last();
        assert(keys_distinct(d)) by {
            assert forall|a: int, b: int| 0 <= a < b < d.len() implies (#[trigger] d[a]).0@ != (
            #[trigger] d[b]).0@ by {
                assert(d[a] == s[a] && d[b] == s[b]);
            }
        }
        lemma_pairs_len(d);
        let k = s.last().0@;
        assert(pairs_map(s).dom() =~= pairs_map(d).dom().insert(k)) by {
            assert forall|key: Seq<char>| pairs_map(s).dom().contains(key) implies pairs_map(d).dom().insert(
                k,
            ).contains(key) by {
                let j = index_of_key(s, key);
                if j < d.len() {
                    assert(d[j] == s[j]);
                }
            }
            assert forall|key: Seq<char>| pairs_map(d).dom().contains(key) implies pairs_map(s).dom().contains(
                key,
            ) by {
                let j = index_of_key(d, key);
                assert(d[j] == s[j]);
            }
            assert(s[s.len() - 1].0@ == k);
        }
        assert(!pairs_map(d).dom().contains(k)) by {
            if pairs_map(d).dom().contains(k) {
                let j = index_of_key(d, k);
                assert(d[j] == s[j]);
                assert(s[j].0@ != s[s.len() - 1].0@);
            }
        }
    }
}

impl Default for Keybindings {
    fn default() -> (r: Self)
        ensures
            r.view() == Map::<Seq<char>, Seq<char>>::empty(),
    {
        Keybindings::new()
    }
}

/// The user's configuration, as far as the library reads it.
#[derive(Debug)]
pub struct Config {
    /// Command id to chord, for commands moved off their shipped chord.
    pub keybindings: Keybindings,
}

impl Default for Config {
    fn default() -> (r: Self)
        ensures
            r.keybindings.view() == Map::<Seq<char>, Seq<char>>::empty(),
    {
        Config { keybindings: Keybindings::new() }
    }
}

} // verus!
