//! A small map keyed by text, kept as pairs with distinct keys in order of insertion.
use vstd::prelude::*;

use crate::text_eq::str_eq;

verus! {

pub open spec fn distinct_keys<V>(e: Seq<(String, V)>) -> bool {
    forall|i: int, j: int| 0 <= i < j < e.len() ==> #[trigger] e[i].0@ != #[trigger] e[j].0@
}

proof fn lemma_unique<V>(e: Seq<(String, V)>, a: int, b: int)
    requires
        distinct_keys(e),
        0 <= a < e.len(),
        0 <= b < e.len(),
        e[a].0@ == e[b].0@,
    ensures
        a == b,
{
    if a < b {
        assert(e[a].0@ != e[b].0@);
    } else if b < a {
        assert(e[b].0@ != e[a].0@);
    }
}

/// The value stored under `key` in the pairs `e`.
pub open spec fn lookup<V>(e: Seq<(String, V)>, key: Seq<char>) -> Option<V> {
    if exists|i: int| 0 <= i < e.len() && #[trigger] e[i].0@ == key {
        Some(e[choose|i: int| 0 <= i < e.len() && #[trigger] e[i].0@ == key].1)
    } else {
        None
    }
}

/// A map from text keys to values.
#[derive(Debug)]
pub struct TextMap<V> {
    entries: Vec<(String, V)>,
}

impl<V> TextMap<V> {
    #[verifier::type_invariant]
    spec fn keys_distinct(self) -> bool {
        distinct_keys(self.entries@)
    }

    /// The stored pairs, whose keys are distinct.
    pub closed spec fn spec_entries(self) -> Seq<(String, V)> {
        if distinct_keys(self.entries@) {
            self.entries@
        } else {
            seq![]
        }
    }

    pub open spec fn spec_get(self, key: Seq<char>) -> Option<V> {
        lookup(self.spec_entries(), key)
    }

    pub open spec fn spec_len(self) -> nat {
        self.spec_entries().len()
    }

    pub fn new() -> (r: TextMap<V>)
        ensures
            r.spec_len() == 0,
            forall|k: Seq<char>| #[trigger] r.spec_get(k) is None,
    {
        let r = TextMap { entries: Vec::new() };
        assert(distinct_keys(r.entries@));
        r
    }

    /// The number of keys.
    pub fn len(&self) -> (r: usize)
        ensures
            r == self.spec_len(),
    {
        proof {
            use_type_invariant(self);
        }
        self.entries.len()
    }

    pub fn is_empty(&self) -> (r: bool)
        ensures
            r == (self.spec_len() == 0),
    {
        self.len() == 0
    }

    /// The value under `key`.
    pub fn get(&self, key: &str) -> (r: Option<&V>)
        ensures
            r matches Some(v) ==> self.spec_get(key@) == Some(*v),
            r is None ==> self.spec_get(key@) is None,
    {
        proof {
            use_type_invariant(self);
        }
        let ghost e = self.entries@;
        let mut i: usize = 0;
        while i < self.entries.len()
            invariant
                e == self.entries@,
                distinct_keys(e),
                i <= e.len(),
                forall|j: int| 0 <= j < i ==> #[trigger] e[j].0@ != key@,
            decreases e.len() - i,
        {
            if str_eq(self.entries[i].0.as_str(), key) {
                proof {
                    let c = choose|c: int| 0 <= c < e.len() && #[trigger] e[c].0@ == key@;
                    lemma_unique(e, c, i as int);
                }
                return Some(&self.entries[i].1);
            }
            i += 1;
        }
        None
    }

    /// Whether some value is stored under `key`.
    pub fn contains_key(&self, key: &str) -> (r: bool)
        ensures
            r == (self.spec_get(key@) is Some),
    {
        self.get(key).is_some()
    }

    /// Stores `value` under `key`, replacing what was there.
    pub fn insert(&mut self, key: String, value: V)
        ensures
            forall|k: Seq<char>|
                #[trigger] final(self).spec_get(k) == if k == key@ {
                    Some(value)
                } else {
                    old(self).spec_get(k)
                },
    {
        proof {
            use_type_invariant(&*self);
        }
        let ghost old_entries = self.entries@;
        let mut entries: Vec<(String, V)> = Vec::new();
        std::mem::swap(&mut self.entries, &mut entries);
        let mut i: usize = 0;
        while i < entries.len()
            invariant
                entries@ == old_entries,
                old_entries == old(self).entries@,
                self.entries@.len() == 0,
                distinct_keys(old_entries),
                i <= old_entries.len(),
                forall|j: int| 0 <= j < i ==> #[trigger] old_entries[j].0@ != key@,
            decreases old_entries.len() - i,
        {
            if str_eq(entries[i].0.as_str(), key.as_str()) {
                let ghost key_view = key@;
                let ghost value_copy = value;
                entries.set(i, (key, value));
                std::mem::swap(&mut self.entries, &mut entries);
                proof {
                    let e = self.entries@;
                    assert forall|a: int, b: int| 0 <= a < b < e.len() implies #[trigger] e[a].0@
                        != #[trigger] e[b].0@ by {
                        if a != i && b != i {
                            assert(e[a] == old_entries[a] && e[b] == old_entries[b]);
                        }
                    }
                    assert forall|k: Seq<char>| #[trigger] lookup(e, k) == if k == key_view {
                        Some(value_copy)
                    } else {
                        lookup(old_entries, k)
                    } by {
                        if k == key_view {
                            assert(e[i as int].0@ == k);
                            let c = choose|c: int| 0 <= c < e.len() && #[trigger] e[c].0@ == k;
                            lemma_unique(e, c, i as int);
                        } else if exists|c: int| 0 <= c < e.len() && #[trigger] e[c].0@ == k {
                            let c = choose|c: int| 0 <= c < e.len() && #[trigger] e[c].0@ == k;
                            assert(old_entries[c] == e[c]);
                            let d = choose|d: int|
                                0 <= d < old_entries.len() && #[trigger] old_entries[d].0@ == k;
                            lemma_unique(old_entries, c, d);
                        } else {
                            assert forall|c: int|
                                0 <= c < old_entries.len() implies #[trigger] old_entries[c].0@
                                != k by {
                                if c != i {
                                    assert(e[c] == old_entries[c]);
                                }
                            }
                        }
                    }
                }
                return;
            }
            i += 1;
        }
        let ghost key_view = key@;
        let ghost value_copy = value;
        entries.push((key, value));
        std::mem::swap(&mut self.entries, &mut entries);
        proof {
            let e = self.entries@;
            let n = old_entries.len() as int;
            assert forall|a: int, b: int| 0 <= a < b < e.len() implies #[trigger] e[a].0@
                != #[trigger] e[b].0@ by {
                if b == n {
                    assert(e[a] == old_entries[a]);
                } else {
                    assert(e[a] == old_entries[a] && e[b] == old_entries[b]);
                }
            }
            assert forall|k: Seq<char>| #[trigger] lookup(e, k) == if k == key_view {
                Some(value_copy)
            } else {
                lookup(old_entries, k)
            } by {
                if k == key_view {
                    assert(e[n].0@ == k);
                    let c = choose|c: int| 0 <= c < e.len() && #[trigger] e[c].0@ == k;
                    lemma_unique(e, c, n);
                } else if exists|c: int| 0 <= c < e.len() && #[trigger] e[c].0@ == k {
                    let c = choose|c: int| 0 <= c < e.len() && #[trigger] e[c].0@ == k;
                    assert(c != n);
                    assert(old_entries[c] == e[c]);
                    let d = choose|d: int|
                        0 <= d < old_entries.len() && #[trigger] old_entries[d].0@ == k;
                    lemma_unique(old_entries, c, d);
                } else {
                    assert forall|c: int|
                        0 <= c < old_entries.len() implies #[trigger] old_entries[c].0@ != k by {
                        assert(e[c] == old_entries[c]);
                    }
                }
            }
        }
    }
}

} // verus!
