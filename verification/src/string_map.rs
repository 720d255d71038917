//! A map keyed by strings, held as a vector of entries with distinct keys.

use vstd::prelude::*;
use vstd::string::*;

verus! {

spec fn keys_of<V>(e: Seq<(String, V)>) -> Seq<Seq<char>> {
    e.map_values(|x: (String, V)| x.0@)
}

/// A map from strings to values. Entries are kept in a vector; no key occurs
/// twice.
#[derive(Debug)]
pub struct StringMap<V> {
    entries: Vec<(String, V)>,
}

impl<V> StringMap<V> {
    /// The keys, in storage order.
    pub closed spec fn keys(&self) -> Seq<Seq<char>> {
        keys_of(self.entries@)
    }

    /// The values, in storage order (`values()[i]` belongs to `keys()[i]`).
    pub closed spec fn values(&self) -> Seq<V> {
        self.entries@.map_values(|e: (String, V)| e.1)
    }

    #[verifier::type_invariant]
    closed spec fn keys_distinct(&self) -> bool {
        self.keys().no_duplicates()
    }

    closed spec fn slot(&self, k: Seq<char>) -> int {
        choose|i: int| 0 <= i < self.keys().len() && self.keys()[i] == k
    }

    /// Facts that tie the storage order to the map.
    pub open spec fn enumerates(&self) -> bool {
        &&& self.keys().len() == self.values().len()
        &&& self.keys().no_duplicates()
        &&& forall|k: Seq<char>| #[trigger] self@.contains_key(k) <==> self.keys().contains(k)
        &&& forall|i: int| 0 <= i < self.keys().len() ==> #[trigger] self@[self.keys()[i]] == self.values()[i]
    }

    proof fn lemma_enumerates(&self)
        requires
            self.keys().no_duplicates(),
        ensures
            self.enumerates(),
    {
        assert forall|i: int| 0 <= i < self.keys().len() implies #[trigger] self@[self.keys()[i]] == self.values()[i] by {
            let k = self.keys()[i];
            assert(self.keys().contains(k));
            let j = self.slot(k);
            assert(self.keys()[j] == k);
        }
    }

    /// An empty map.
    pub fn new() -> (r: Self)
        ensures
            r@ == Map::<Seq<char>, V>::empty(),
            r.keys().len() == 0,
    {
        let r = StringMap { entries: Vec::new() };
        assert(r@ =~= Map::<Seq<char>, V>::empty());
        r
    }

    /// The number of entries; states how storage order enumerates the map.
    pub fn len(&self) -> (r: usize)
        ensures
            r == self.keys().len(),
            self.enumerates(),
    {
        proof {
            use_type_invariant(self);
            self.lemma_enumerates();
        }
        self.entries.len()
    }

    /// The key stored at position `i`.
    pub fn key_at(&self, i: usize) -> (r: &String)
        requires
            i < self.keys().len(),
        ensures
            r@ == self.keys()[i as int],
    {
        &self.entries[i].0
    }

    /// The value stored at position `i`.
    pub fn value_at(&self, i: usize) -> (r: &V)
        requires
            i < self.keys().len(),
        ensures
            *r == self.values()[i as int],
            *r == self@[self.keys()[i as int]],
    {
        proof {
            use_type_invariant(self);
            self.lemma_enumerates();
        }
        &self.entries[i].1
    }

    /// Position of `key`, if present.
    fn find(&self, key: &str) -> (r: Option<usize>)
        ensures
            r is Some <==> self.keys().contains(key@),
            r matches Some(i) ==> i < self.keys().len() && self.keys()[i as int] == key@,
    {
        let k = String::from_str(key);
        let mut i: usize = 0;
        while i < self.entries.len()
            invariant
                k@ == key@,
                i <= self.entries.len(),
                forall|j: int| 0 <= j < i ==> self.keys()[j] != key@,
            decreases self.entries.len() - i,
        {
            assert(self.keys()[i as int] == self.entries@[i as int].0@);
            if self.entries[i].0 == k {
                return Some(i);
            }
            i = i + 1;
        }
        proof {
            if self.keys().contains(key@) {
                let j = choose|j: int| 0 <= j < self.keys().len() && self.keys()[j] == key@;
                assert(self.keys()[j] != key@);
            }
        }
        None
    }

    /// Looks a key up.
    pub fn get(&self, key: &str) -> (r: Option<&V>)
        ensures
            r is Some <==> self@.contains_key(key@),
            r matches Some(v) ==> *v == self@[key@],
    {
        proof {
            use_type_invariant(self);
            self.lemma_enumerates();
        }
        match self.find(key) {
            Some(i) => Some(&self.entries[i].1),
            None => None,
        }
    }

    /// Whether a key is present.
    pub fn contains_key(&self, key: &str) -> (r: bool)
        ensures
            r == self@.contains_key(key@),
    {
        proof {
            use_type_invariant(self);
            self.lemma_enumerates();
        }
        self.find(key).is_some()
    }

    /// Binds `key` to `value`, replacing an earlier binding.
    pub fn insert(&mut self, key: String, value: V)
        ensures
            final(self)@ == old(self)@.insert(key@, value),
    {
        proof {
            use_type_invariant(&*self);
            self.lemma_enumerates();
        }
        let ghost old_keys = self.keys();
        let ghost old_values = self.values();
        let ghost old_map = self@;
        match self.find(key.as_str()) {
            Some(i) => {
                let mut entries: Vec<(String, V)> = Vec::new();
                std::mem::swap(&mut entries, &mut self.entries);
                entries.set(i, (key, value));
                proof {
                    assert(keys_of(entries@) =~= old_keys);
                }
                self.entries = entries;
                proof {
                    assert(self.keys() =~= old_keys);
                    assert(self.values() =~= old_values.update(i as int, value));
                    self.lemma_enumerates();
                    assert(self@ =~= old_map.insert(key@, value)) by {
                        assert forall|k: Seq<char>| #[trigger] self@.contains_key(k) implies self@[k] == old_map.insert(key@, value)[k] by {
                            let j = choose|j: int| 0 <= j < self.keys().len() && self.keys()[j] == k;
                            assert(self@[self.keys()[j]] == self.values()[j]);
                            if j != i {
                                assert(old_map[old_keys[j]] == old_values[j]);
                            }
                        }
                    }
                }
            },
            None => {
                let mut entries: Vec<(String, V)> = Vec::new();
                std::mem::swap(&mut entries, &mut self.entries);
                entries.push((key, value));
                proof {
                    assert(keys_of(entries@) =~= old_keys.push(key@));
                    assert(keys_of(entries@).no_duplicates()) by {
                        assert forall|a: int, b: int| 0 <= a < b < keys_of(entries@).len() implies keys_of(entries@)[a] != keys_of(entries@)[b] by {
                            if b == old_keys.len() {
                                assert(old_keys.contains(old_keys[a]));
                            }
                        }
                    }
                }
                self.entries = entries;
                proof {
                    assert(self.keys() =~= old_keys.push(key@));
                    assert(self.values() =~= old_values.push(value));
                    self.lemma_enumerates();
                    assert(self@ =~= old_map.insert(key@, value)) by {
                        assert forall|k: Seq<char>| #[trigger] self@.contains_key(k) implies old_map.insert(key@, value).contains_key(k) && self@[k] == old_map.insert(key@, value)[k] by {
                            let j = choose|j: int| 0 <= j < self.keys().len() && self.keys()[j] == k;
                            assert(self@[self.keys()[j]] == self.values()[j]);
                            if j < old_keys.len() {
                                assert(old_keys[j] == k);
                                assert(old_keys.contains(k));
                                assert(old_map[old_keys[j]] == old_values[j]);
                            }
                        }
                        assert forall|k: Seq<char>| #[trigger] old_map.insert(key@, value).contains_key(k) implies self@.contains_key(k) by {
                            if k == key@ {
                                assert(self.keys()[old_keys.len() as int] == k);
                            } else {
                                let j = choose|j: int| 0 <= j < old_keys.len() && old_keys[j] == k;
                                assert(self.keys()[j] == k);
                            }
                        }
                    }
                }
            },
        }
    }

    /// Removes the binding of `key`, giving back its value.
    pub fn remove(&mut self, key: &str) -> (r: Option<V>)
        ensures
            final(self)@ == old(self)@.remove(key@),
            r is Some <==> old(self)@.contains_key(key@),
            r matches Some(v) ==> v == old(self)@[key@],
    {
        proof {
            use_type_invariant(&*self);
            self.lemma_enumerates();
        }
        let ghost old_keys = self.keys();
        let ghost old_values = self.values();
        let ghost old_map = self@;
        match self.find(key) {
            Some(i) => {
                let mut entries: Vec<(String, V)> = Vec::new();
                std::mem::swap(&mut entries, &mut self.entries);
                let e = entries.remove(i);
                proof {
                    let ks = keys_of(entries@);
                    assert(ks =~= old_keys.remove(i as int));
                    assert(ks.no_duplicates()) by {
                        assert forall|a: int, b: int| 0 <= a < b < ks.len() implies ks[a] != ks[b] by {
                            let a0 = if a < i { a } else { a + 1 };
                            let b0 = if b < i { b } else { b + 1 };
                            assert(ks[a] == old_keys[a0]);
                            assert(ks[b] == old_keys[b0]);
                        }
                    }
                }
                self.entries = entries;
                proof {
                    assert(self.keys() =~= old_keys.remove(i as int));
                    assert(self.values() =~= old_values.remove(i as int));
                    self.lemma_enumerates();
                    assert(old_map[old_keys[i as int]] == old_values[i as int]);
                    assert(self@ =~= old_map.remove(key@)) by {
                        assert forall|k: Seq<char>| #[trigger] old_map.remove(key@).contains_key(k) implies self@.contains_key(k) by {
                            let j = choose|j: int| 0 <= j < old_keys.len() && old_keys[j] == k;
                            let j2 = if j < i { j } else { j - 1 };
                            assert(self.keys()[j2] == k);
                        }
                        assert forall|k: Seq<char>| #[trigger] self@.contains_key(k) implies old_map.remove(key@).contains_key(k) && self@[k] == old_map.remove(key@)[k] by {
                            let j = choose|j: int| 0 <= j < self.keys().len() && self.keys()[j] == k;
                            assert(self@[self.keys()[j]] == self.values()[j]);
                            let j0 = if j < i { j } else { j + 1 };
                            assert(old_keys[j0] == k);
                            assert(old_map[old_keys[j0]] == old_values[j0]);
                        }
                    }
                }
                Some(e.1)
            },
            None => {
                proof {
                    assert(self@ =~= old_map.remove(key@));
                }
                None
            },
        }
    }
}

impl<V> View for StringMap<V> {
    type V = Map<Seq<char>, V>;

    closed spec fn view(&self) -> Map<Seq<char>, V> {
        Map::new(|k: Seq<char>| self.keys().contains(k), |k: Seq<char>| self.values()[self.slot(k)])
    }
}

} // verus!
