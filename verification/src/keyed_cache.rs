//! Small caches keyed by summoner id (a hash map) or by name (pairs kept
//! in order): a write replaces what the key held, and a read gives back the
//! last write.

use vstd::prelude::*;

use crate::text::str_eq;
use std::collections::HashMap;

verus! {

/// What `entries` hold for `k`: the value of the last pair with that key.
pub open spec fn name_lookup<V>(entries: Seq<(String, V)>, k: Seq<char>) -> Option<V>
    decreases entries.len(),
{
    if entries.len() == 0 {
        None
    } else if entries.last().0@ == k {
        Some(entries.last().1)
    } else {
        name_lookup(entries.drop_last(), k)
    }
}

proof fn lemma_name_update<V>(s: Seq<(String, V)>, j: int, k: String, v: V, q: Seq<char>)
    requires
        0 <= j < s.len(),
        s[j].0@ == k@,
        forall|i: int| j < i < s.len() ==> s[i].0@ != k@,
    ensures
        name_lookup(s.update(j, (k, v)), q) == if q == k@ {
            Some(v)
        } else {
            name_lookup(s, q)
        },
    decreases s.len(),
{
    let t = s.update(j, (k, v));
    if j < s.len() - 1 {
        assert(t.drop_last() == s.drop_last().update(j, (k, v)));
        assert(t.last() == s.last());
        lemma_name_update(s.drop_last(), j, k, v, q);
    } else {
        assert(t.drop_last() == s.drop_last());
    }
}

/// A cache keyed by summoner id.
pub struct IdCache<V> {
    entries: HashMap<i64, V>,
}

impl<V> IdCache<V> {
    /// What the cache holds for `k`.
    pub closed spec fn get_spec(&self, k: i64) -> Option<V> {
        if self.entries@.contains_key(k) {
            Some(self.entries@[k])
        } else {
            None
        }
    }

    pub fn new() -> (r: IdCache<V>)
        ensures
            forall|k: i64| r.get_spec(k) is None,
    {
        IdCache { entries: HashMap::new() }
    }

    /// What the cache holds for `k`.
    pub fn get(&self, k: i64) -> (r: Option<&V>)
        ensures
            match self.get_spec(k) {
                Some(v) => r == Some(&v),
                None => r is None,
            },
    {
        broadcast use vstd::std_specs::hash::group_hash_axioms;
        self.entries.get(&k)
    }

    /// Writes `v` under `k`; every other key keeps what it held.
    pub fn insert(&mut self, k: i64, v: V)
        ensures
            forall|q: i64|
                #[trigger] final(self).get_spec(q) == if q == k {
                    Some(v)
                } else {
                    old(self).get_spec(q)
                },
    {
        broadcast use vstd::std_specs::hash::group_hash_axioms;
        self.entries.insert(k, v);
    }
}

proof fn lemma_name_last<V>(s: Seq<(String, V)>, j: int, k: Seq<char>)
    requires
        0 <= j < s.len(),
        s[j].0@ == k,
        forall|i: int| j < i < s.len() ==> s[i].0@ != k,
    ensures
        name_lookup(s, k) == Some(s[j].1),
    decreases s.len(),
{
    if j < s.len() - 1 {
        lemma_name_last(s.drop_last(), j, k);
    }
}

proof fn lemma_name_absent<V>(s: Seq<(String, V)>, k: Seq<char>)
    requires
        forall|i: int| 0 <= i < s.len() ==> s[i].0@ != k,
    ensures
        name_lookup(s, k) is None,
    decreases s.len(),
{
    if s.len() > 0 {
        lemma_name_absent(s.drop_last(), k);
    }
}

/// A cache keyed by a string.
pub struct NameCache<V> {
    entries: Vec<(String, V)>,
}

impl<V> NameCache<V> {
    /// What the cache holds for `k`.
    pub closed spec fn get_spec(&self, k: Seq<char>) -> Option<V> {
        name_lookup(self.entries@, k)
    }

    pub fn new() -> (r: NameCache<V>)
        ensures
            forall|k: Seq<char>| r.get_spec(k) is None,
    {
        NameCache { entries: Vec::new() }
    }

    fn last_index(&self, k: &str) -> (r: Option<usize>)
        ensures
            match r {
                Some(j) => j < self.entries@.len() && self.entries@[j as int].0@ == k@ && forall|i: int|
                    j < i < self.entries@.len() ==> self.entries@[i].0@ != k@,
                None => forall|i: int| 0 <= i < self.entries@.len() ==> self.entries@[i].0@ != k@,
            },
    {
        let mut j: usize = self.entries.len();
        while j > 0
            invariant
                j <= self.entries@.len(),
                forall|i: int| j <= i < self.entries@.len() ==> self.entries@[i].0@ != k@,
            decreases j,
        {
            if str_eq(self.entries[j - 1].0.as_str(), k) {
                return Some(j - 1);
            }
            j = j - 1;
        }
        None
    }

    /// What the cache holds for `k`.
    pub fn get(&self, k: &str) -> (r: Option<&V>)
        ensures
            match self.get_spec(k@) {
                Some(v) => r == Some(&v),
                None => r is None,
            },
    {
        match self.last_index(k) {
            Some(j) => {
                proof {
                    lemma_name_last(self.entries@, j as int, k@);
                }
                Some(&self.entries[j].1)
            },
            None => {
                proof {
                    lemma_name_absent(self.entries@, k@);
                }
                None
            },
        }
    }

    /// Writes `v` under `k`; every other key keeps what it held.
    pub fn insert(&mut self, k: String, v: V)
        ensures
            forall|q: Seq<char>|
                #[trigger] final(self).get_spec(q) == if q == k@ {
                    Some(v)
                } else {
                    old(self).get_spec(q)
                },
    {
        match self.last_index(k.as_str()) {
            Some(j) => {
                proof {
                    assert forall|q: Seq<char>| #[trigger] name_lookup(self.entries@.update(j as int, (k, v)), q) == if q == k@ {
                        Some(v)
                    } else {
                        name_lookup(self.entries@, q)
                    } by {
                        lemma_name_update(self.entries@, j as int, k, v, q);
                    }
                }
                self.entries.set(j, (k, v));
            },
            None => {
                let ghost before = self.entries@;
                let ghost key = k@;
                self.entries.push((k, v));
                proof {
                    assert(self.entries@.drop_last() == before);
                    assert(self.entries@.last().0@ == key);
                }
            },
        }
    }
}

} // verus!
