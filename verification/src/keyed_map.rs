//! A map from string keys to values that keeps its entries in ascending key
//! order, as the baseline and rule tables are read and walked.

use vstd::prelude::*;

use crate::text::{compare_keys, key_lt, lemma_key_order, KeyOrder};

verus! {

/// Keys that ascend strictly in `key_lt` order (so none occurs twice).
pub open spec fn keys_ascending(keys: Seq<Seq<char>>) -> bool {
    forall|i: int, j: int| 0 <= i < j < keys.len() ==> key_lt(#[trigger] keys[i], #[trigger] keys[j])
}

/// The value stored under `key`, if any, among parallel key and value sequences.
pub open spec fn lookup<V>(keys: Seq<Seq<char>>, values: Seq<V>, key: Seq<char>) -> Option<V> {
    if keys.contains(key) {
        Some(values[keys.index_of(key)])
    } else {
        None
    }
}

/// A map with string keys, walked in ascending key order.
#[derive(Debug)]
pub struct KeyedMap<V: View> {
    entries: Vec<(String, V)>,
}

impl<V: View> KeyedMap<V> {
    /// The keys, in the order in which the map walks them.
    pub closed spec fn keys(&self) -> Seq<Seq<char>> {
        self.entries@.map_values(|e: (String, V)| e.0@)
    }

    /// The values, parallel to `keys`.
    pub closed spec fn values(&self) -> Seq<V::V> {
        self.entries@.map_values(|e: (String, V)| e.1@)
    }

    /// The value stored under `key`, if any.
    pub open spec fn spec_get(&self, key: Seq<char>) -> Option<V::V> {
        lookup(self.keys(), self.values(), key)
    }

    #[verifier::type_invariant]
    spec fn ascending(&self) -> bool {
        keys_ascending(self.keys())
    }

    /// Creates an empty map.
    pub fn new() -> (m: Self)
        ensures
            m.keys() == Seq::<Seq<char>>::empty(),
            m.values() == Seq::<V::V>::empty(),
    {
        let m = KeyedMap { entries: Vec::new() };
        assert(m.keys() =~= Seq::<Seq<char>>::empty());
        assert(m.values() =~= Seq::<V::V>::empty());
        m
    }

    /// The number of entries.
    pub fn len(&self) -> (n: usize)
        ensures
            n == self.keys().len(),
            n == self.values().len(),
    {
        self.entries.len()
    }

    /// The key of the `i`-th entry in ascending order.
    pub fn key_at(&self, i: usize) -> (k: &String)
        requires
            i < self.keys().len(),
        ensures
            k@ == self.keys()[i as int],
    {
        &self.entries[i].0
    }

    /// The value of the `i`-th entry in ascending key order.
    pub fn value_at(&self, i: usize) -> (v: &V)
        requires
            i < self.values().len(),
        ensures
            v@ == self.values()[i as int],
    {
        &self.entries[i].1
    }

    /// The keys ascend strictly; in particular no key occurs twice.
    pub fn keys_are_ascending(&self)
        ensures
            keys_ascending(self.keys()),
            self.keys().no_duplicates(),
            self.keys().len() == self.values().len(),
    {
        proof {
            use_type_invariant(self);
            assert forall|i: int, j: int|
                0 <= i < self.keys().len() && 0 <= j < self.keys().len() && i != j implies
                self.keys()[i] != self.keys()[j] by {
                lemma_key_order(self.keys()[i], self.keys()[j], self.keys()[j]);
            }
        }
    }

    /// Returns the value stored under `key`.
    pub fn get(&self, key: &str) -> (r: Option<&V>)
        ensures
            match r {
                Some(v) => self.spec_get(key@) == Some(v@),
                None => self.spec_get(key@) is None,
            },
    {
        proof {
            use_type_invariant(self);
        }
        let n = self.entries.len();
        let mut i: usize = 0;
        while i < n
            invariant
                n == self.entries@.len(),
                i <= n,
                keys_ascending(self.keys()),
                forall|j: int| 0 <= j < i ==> self.keys()[j] != key@,
            decreases n - i,
        {
            match compare_keys(self.entries[i].0.as_str(), key) {
                KeyOrder::Equal => {
                    proof {
                        self.lemma_index_of(i as int);
                    }
                    return Some(&self.entries[i].1);
                },
                _ => {},
            }
            i = i + 1;
        }
        assert(!self.keys().contains(key@));
        None
    }

    proof fn lemma_index_of(&self, i: int)
        requires
            keys_ascending(self.keys()),
            0 <= i < self.keys().len(),
        ensures
            self.keys().contains(self.keys()[i]),
            self.keys().index_of(self.keys()[i]) == i,
    {
        let k = self.keys()[i];
        assert(self.keys().contains(k));
        let j = self.keys().index_of(k);
        if j != i {
            if j < i {
                lemma_key_order(self.keys()[j], self.keys()[i], k);
            } else {
                lemma_key_order(self.keys()[i], self.keys()[j], k);
            }
        }
    }

    /// Stores `value` under `key`: an existing entry for the key has its value
    /// replaced; otherwise a new entry goes where the ascending order puts it.
    pub fn insert(&mut self, key: String, value: V)
        ensures
            final(self).spec_get(key@) == Some(value@),
            forall|k: Seq<char>| k != key@ ==> #[trigger] final(self).spec_get(k) == old(self).spec_get(k),
            keys_ascending(final(self).keys()),
            old(self).keys().contains(key@) ==> final(self).keys() == old(self).keys(),
            !old(self).keys().contains(key@) ==> final(self).keys().len() == old(self).keys().len() + 1,
    {
        proof {
            use_type_invariant(&*self);
        }
        let mut entries: Vec<(String, V)> = Vec::new();
        std::mem::swap(&mut entries, &mut self.entries);
        let ghost old_entries = entries@;
        let ghost ks = old_entries.map_values(|e: (String, V)| e.0@);
        let ghost vs = old_entries.map_values(|e: (String, V)| e.1@);
        let n = entries.len();
        let mut i: usize = 0;
        let mut found = false;
        let mut done = false;
        while !done && i < n
            invariant
                n == entries@.len(),
                entries@ == old_entries,
                i <= n,
                keys_ascending(ks),
                ks == old_entries.map_values(|e: (String, V)| e.0@),
                forall|j: int| 0 <= j < i ==> key_lt(#[trigger] ks[j], key@),
                done ==> i < n,
                done && found ==> ks[i as int] == key@,
                done && !found ==> key_lt(key@, ks[i as int]),
                !done ==> !found,
            decreases n - i + (if done { 0int } else { 1int }),
        {
            match compare_keys(entries[i].0.as_str(), key.as_str()) {
                KeyOrder::Less => {
                    i = i + 1;
                },
                KeyOrder::Equal => {
                    found = true;
                    done = true;
                },
                KeyOrder::Greater => {
                    done = true;
                },
            }
        }
        proof {
            assert forall|j: int| 0 <= j < n && !found implies #[trigger] ks[j] != key@ by {
                lemma_key_order(key@, key@, key@);
                if j < i {
                    assert(key_lt(ks[j], key@));
                } else {
                    assert(done);
                    if j > i {
                        assert(key_lt(ks[i as int], ks[j]));
                        lemma_key_order(key@, ks[i as int], ks[j]);
                    }
                }
            }
            assert forall|j: int| i <= j < n && !found implies key_lt(key@, #[trigger] ks[j]) by {
                if j > i {
                    assert(key_lt(ks[i as int], ks[j]));
                    lemma_key_order(key@, ks[i as int], ks[j]);
                }
            }
        }
        if found {
            let _old = entries.remove(i);
            entries.insert(i, (key, value));
            let ghost nks = entries@.map_values(|e: (String, V)| e.0@);
            let ghost nvs = entries@.map_values(|e: (String, V)| e.1@);
            assert(nks =~= ks);
            assert(nvs =~= vs.update(i as int, value@));
            self.entries = entries;
            proof {
                self.lemma_index_of(i as int);
                assert forall|k: Seq<char>| k != key@ implies #[trigger] self.spec_get(k) == lookup(ks, vs, k) by {
                    if ks.contains(k) {
                        let j = ks.index_of(k);
                        assert(self.keys()[j] == k);
                        self.lemma_index_of(j);
                    }
                }
            }
        } else {
            entries.insert(i, (key, value));
            let ghost nks = entries@.map_values(|e: (String, V)| e.0@);
            let ghost nvs = entries@.map_values(|e: (String, V)| e.1@);
            assert(nks =~= ks.insert(i as int, key@));
            assert(nvs =~= vs.insert(i as int, value@));
            proof {
                assert forall|a: int, b: int| 0 <= a < b < nks.len() implies key_lt(#[trigger] nks[a], #[trigger] nks[b]) by {
                    if b < i {
                        assert(nks[a] == ks[a] && nks[b] == ks[b]);
                    } else if a < i && b == i {
                        assert(nks[a] == ks[a]);
                    } else if a < i && b > i {
                        assert(nks[a] == ks[a]);
                        assert(nks[b] == ks[b - 1]);
                        lemma_key_order(ks[a], key@, ks[b - 1]);
                    } else if a == i {
                        assert(nks[b] == ks[b - 1]);
                    } else {
                        assert(nks[a] == ks[a - 1]);
                        assert(nks[b] == ks[b - 1]);
                    }
                }
            }
            self.entries = entries;
            proof {
                self.lemma_index_of(i as int);
                assert forall|k: Seq<char>| k != key@ implies #[trigger] self.spec_get(k) == lookup(ks, vs, k) by {
                    if ks.contains(k) {
                        let j = ks.index_of(k);
                        let nj = if j < i { j } else { j + 1 };
                        assert(self.keys()[nj] == k);
                        self.lemma_index_of(nj);
                    }
                    if self.keys().contains(k) {
                        let nj = self.keys().index_of(k);
                        assert(nj != i);
                        if nj < i {
                            assert(ks[nj] == k);
                        } else {
                            assert(ks[nj - 1] == k);
                        }
                    }
                }
            }
        }
    }
}

impl<V: View + Clone> Clone for KeyedMap<V> {
    /// A copy with the same keys in the same order, each value cloned.
    fn clone(&self) -> (c: Self)
        ensures
            c.keys() == self.keys(),
    {
        proof {
            use_type_invariant(self);
        }
        let n = self.entries.len();
        let mut entries: Vec<(String, V)> = Vec::new();
        let mut i: usize = 0;
        while i < n
            invariant
                n == self.entries@.len(),
                i <= n,
                entries@.len() == i,
                forall|j: int| 0 <= j < i ==> (#[trigger] entries@[j]).0@ == self.entries@[j].0@,
            decreases n - i,
        {
            let key = self.entries[i].0.clone();
            let value = self.entries[i].1.clone();
            entries.push((key, value));
            i = i + 1;
        }
        let ghost copied = entries@.map_values(|e: (String, V)| e.0@);
        assert(copied =~= self.keys());
        KeyedMap { entries }
    }
}

} // verus!
