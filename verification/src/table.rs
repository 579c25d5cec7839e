//! A small map that keeps its entries in the order of their arrival.
use vstd::prelude::*;

verus! {

/// A value that can stand as a key: copied freely and compared exactly.
pub trait Key: Copy {
    fn same(&self, other: &Self) -> (same: bool)
        ensures
            same == (*self == *other),
    ;
}

impl Key for u32 {
    fn same(&self, other: &Self) -> (same: bool) {
        *self == *other
    }
}

/// Whether no key stands twice.
pub open spec fn distinct_keys<K, V>(entries: Seq<(K, V)>) -> bool {
    forall|i: int, j: int|
        0 <= i < j < entries.len() ==> (#[trigger] entries[i]).0 != (#[trigger] entries[j]).0
}

/// Whether `key` stands in `entries`.
pub open spec fn holds_key<K, V>(entries: Seq<(K, V)>, key: K) -> bool {
    exists|i: int| 0 <= i < entries.len() && (#[trigger] entries[i]).0 == key
}

/// The place of `key` in `entries`.
pub open spec fn place_of<K, V>(entries: Seq<(K, V)>, key: K) -> int {
    choose|i: int| 0 <= i < entries.len() && (#[trigger] entries[i]).0 == key
}

/// The map that `entries` write down.
pub open spec fn entries_map<K, V>(entries: Seq<(K, V)>) -> Map<K, V> {
    Map::new(|key: K| holds_key(entries, key), |key: K| entries[place_of(entries, key)].1)
}

/// Entries in the order of their arrival, at most one for each key.
#[derive(Debug)]
pub struct Table<K: Key, V> {
    items: Vec<(K, V)>,
}

impl<K: Key, V> View for Table<K, V> {
    type V = Map<K, V>;

    open spec fn view(&self) -> Map<K, V> {
        entries_map(self.entries())
    }
}

proof fn lemma_entry<K, V>(entries: Seq<(K, V)>, at: int)
    requires
        distinct_keys(entries),
        0 <= at < entries.len(),
    ensures
        entries_map(entries).contains_key(entries[at].0),
        entries_map(entries)[entries[at].0] == entries[at].1,
        place_of(entries, entries[at].0) == at,
{
    assert(holds_key(entries, entries[at].0));
}

impl<K: Key, V> Table<K, V> {
    #[verifier::type_invariant]
    spec fn keys_are_distinct(self) -> bool {
        distinct_keys(self.items@)
    }

    /// The entries in order.
    pub closed spec fn entries(&self) -> Seq<(K, V)> {
        self.items@
    }

    pub fn new() -> (table: Self)
        ensures
            table.entries() == Seq::<(K, V)>::empty(),
            table@ == Map::<K, V>::empty(),
    {
        let table = Table { items: Vec::new() };
        assert(table@ =~= Map::<K, V>::empty());
        table
    }

    /// Every entry is what the map holds for its key, and no key stands twice.
    pub fn show_entries(&self)
        ensures
            distinct_keys(self.entries()),
            forall|i: int|
                0 <= i < self.entries().len() ==> {
                    &&& self@.contains_key((#[trigger] self.entries()[i]).0)
                    &&& self@[self.entries()[i].0] == self.entries()[i].1
                },
            forall|key: K| #[trigger]
                self@.contains_key(key) ==> holds_key(self.entries(), key),
    {
        proof {
            use_type_invariant(self);
            assert forall|i: int| 0 <= i < self.entries().len() implies {
                &&& self@.contains_key((#[trigger] self.entries()[i]).0)
                &&& self@[self.entries()[i].0] == self.entries()[i].1
            } by {
                lemma_entry(self.entries(), i);
            }
        }
    }

    pub fn len(&self) -> (len: usize)
        ensures
            len == self.entries().len(),
    {
        self.items.len()
    }

    pub fn is_empty(&self) -> (empty: bool)
        ensures
            empty == (self.entries().len() == 0),
            empty == (self@ == Map::<K, V>::empty()),
    {
        proof {
            use_type_invariant(self);
            if self.items@.len() == 0 {
                assert(self@ =~= Map::<K, V>::empty());
            } else {
                lemma_entry(self.items@, 0);
            }
        }
        self.items.len() == 0
    }

    /// The key of the entry at `at`.
    pub fn key_at(&self, at: usize) -> (key: K)
        requires
            at < self.entries().len(),
        ensures
            key == self.entries()[at as int].0,
            self@.contains_key(key),
            self@[key] == self.entries()[at as int].1,
    {
        proof {
            use_type_invariant(self);
            lemma_entry(self.items@, at as int);
        }
        self.items[at].0
    }

    /// The value of the entry at `at`.
    pub fn value_at(&self, at: usize) -> (value: &V)
        requires
            at < self.entries().len(),
        ensures
            *value == self.entries()[at as int].1,
            self@.contains_key(self.entries()[at as int].0),
            self@[self.entries()[at as int].0] == *value,
    {
        proof {
            use_type_invariant(self);
            lemma_entry(self.items@, at as int);
        }
        &self.items[at].1
    }

    /// The place of the entry for `key`.
    pub fn find(&self, key: &K) -> (found: Option<usize>)
        ensures
            match found {
                Some(at) => {
                    &&& at < self.entries().len()
                    &&& self.entries()[at as int].0 == *key
                    &&& self@.contains_key(*key)
                    &&& self@[*key] == self.entries()[at as int].1
                },
                None => !self@.contains_key(*key) && !holds_key(self.entries(), *key),
            },
    {
        proof {
            use_type_invariant(self);
        }
        let mut at: usize = 0;
        while at < self.items.len()
            invariant
                at <= self.items@.len(),
                distinct_keys(self.items@),
                forall|i: int| 0 <= i < at ==> (#[trigger] self.items@[i]).0 != *key,
            decreases self.items@.len() - at,
        {
            if self.items[at].0.same(key) {
                proof {
                    lemma_entry(self.items@, at as int);
                }
                return Some(at);
            }
            at = at + 1;
        }
        None
    }

    pub fn contains_key(&self, key: &K) -> (contains: bool)
        ensures
            contains == self@.contains_key(*key),
    {
        self.find(key).is_some()
    }

    pub fn get(&self, key: &K) -> (value: Option<&V>)
        ensures
            match value {
                Some(value) => self@.contains_key(*key) && self@[*key] == *value,
                None => !self@.contains_key(*key),
            },
    {
        match self.find(key) {
            Some(at) => Some(&self.items[at].1),
            None => None,
        }
    }

    /// Puts `value` under `key`: in the place of the entry that was there, or
    /// behind all others.
    pub fn insert(&mut self, key: K, value: V)
        ensures
            final(self)@ == old(self)@.insert(key, value),
            final(self).entries() == (if old(self)@.contains_key(key) {
                old(self).entries().update(place_of(old(self).entries(), key), (key, value))
            } else {
                old(self).entries().push((key, value))
            }),
    {
        let found = self.find(&key);
        let mut items: Vec<(K, V)> = Vec::new();
        proof {
            use_type_invariant(&*self);
        }
        std::mem::swap(&mut items, &mut self.items);
        let ghost before = items@;
        match found {
            Some(at) => {
                proof {
                    lemma_entry(before, at as int);
                }
                items[at] = (key, value);
                assert(items@ =~= before.update(at as int, (key, value)));
                proof {
                    assert forall|i: int, j: int| 0 <= i < j < items@.len() implies (
                    #[trigger] items@[i]).0 != (#[trigger] items@[j]).0 by {
                        assert(items@[i].0 == before[i].0);
                        assert(items@[j].0 == before[j].0);
                    }
                }
            },
            None => {
                items.push((key, value));
                assert(items@ =~= before.push((key, value)));
            },
        }
        proof {
            assert(distinct_keys(items@));
            let old_map = entries_map(before);
            let new_map = entries_map(items@);
            let at = match found {
                Some(at) => at as int,
                None => before.len() as int,
            };
            assert(items@[at] == (key, value));
            lemma_entry(items@, at);
            assert forall|k: K| #[trigger]
                new_map.contains_key(k) == old_map.insert(key, value).contains_key(k) by {
                if k != key {
                    if old_map.contains_key(k) {
                        let i = place_of(before, k);
                        assert(before[i].0 == k);
                        assert(items@[i].0 == k);
                    }
                    if new_map.contains_key(k) {
                        let i = place_of(items@, k);
                        assert(items@[i].0 == k);
                        assert(before[i].0 == k);
                    }
                }
            }
            assert forall|k: K| #[trigger] new_map.contains_key(k) implies new_map[k]
                == old_map.insert(key, value)[k] by {
                if k != key {
                    let i = place_of(items@, k);
                    assert(items@[i].0 == k);
                    assert(before[i] == items@[i]);
                    lemma_entry(before, i);
                    lemma_entry(items@, i);
                }
            }
            assert(new_map =~= old_map.insert(key, value));
        }
        self.items = items;
    }

    /// Replaces the value of the entry at `at`.
    pub fn set_at(&mut self, at: usize, value: V)
        requires
            at < old(self).entries().len(),
        ensures
            final(self).entries() == old(self).entries().update(
                at as int,
                (old(self).entries()[at as int].0, value),
            ),
            final(self)@ == old(self)@.insert(old(self).entries()[at as int].0, value),
    {
        let key = self.key_at(at);
        proof {
            use_type_invariant(&*self);
            lemma_entry(self.items@, at as int);
        }
        self.insert(key, value);
    }

    /// Takes the entry for `key` out; the others keep their order.
    pub fn remove(&mut self, key: &K) -> (removed: Option<V>)
        ensures
            final(self)@ == old(self)@.remove(*key),
            match removed {
                Some(value) => old(self)@.contains_key(*key) && old(self)@[*key] == value,
                None => !old(self)@.contains_key(*key),
            },
            final(self).entries() == (if old(self)@.contains_key(*key) {
                old(self).entries().remove(place_of(old(self).entries(), *key))
            } else {
                old(self).entries()
            }),
    {
        match self.find(key) {
            None => {
                assert(self@ =~= self@.remove(*key));
                None
            },
            Some(at) => Some(self.remove_at(at).1),
        }
    }

    /// Takes the entry at `at` out; the others keep their order.
    pub fn remove_at(&mut self, at: usize) -> (removed: (K, V))
        requires
            at < old(self).entries().len(),
        ensures
            removed == old(self).entries()[at as int],
            final(self).entries() == old(self).entries().remove(at as int),
            final(self)@ == old(self)@.remove(removed.0),
            old(self)@.contains_key(removed.0),
            old(self)@[removed.0] == removed.1,
            place_of(old(self).entries(), removed.0) == at,
    {
        let mut items: Vec<(K, V)> = Vec::new();
        proof {
            use_type_invariant(&*self);
        }
        std::mem::swap(&mut items, &mut self.items);
        let ghost before = items@;
        let removed = items.remove(at);
        proof {
            assert(items@ =~= before.remove(at as int));
            assert forall|i: int, j: int| 0 <= i < j < items@.len() implies (
            #[trigger] items@[i]).0 != (#[trigger] items@[j]).0 by {
                let p = if i < at {
                    i
                } else {
                    i + 1
                };
                let q = if j < at {
                    j
                } else {
                    j + 1
                };
                assert(items@[i] == before[p]);
                assert(items@[j] == before[q]);
            }
            lemma_entry(before, at as int);
            let old_map = entries_map(before);
            let new_map = entries_map(items@);
            assert forall|k: K| #[trigger]
                new_map.contains_key(k) == old_map.remove(removed.0).contains_key(k) by {
                if new_map.contains_key(k) {
                    let i = place_of(items@, k);
                    let p = if i < at {
                        i
                    } else {
                        i + 1
                    };
                    assert(items@[i] == before[p]);
                    assert(before[p].0 == k);
                    assert(before[at as int].0 != before[p].0);
                }
                if k != removed.0 && old_map.contains_key(k) {
                    let p = place_of(before, k);
                    assert(before[p].0 == k);
                    let i = if p < at {
                        p
                    } else {
                        p - 1
                    };
                    assert(items@[i] == before[p]);
                }
            }
            assert forall|k: K| #[trigger] new_map.contains_key(k) implies new_map[k]
                == old_map.remove(removed.0)[k] by {
                let i = place_of(items@, k);
                let p = if i < at {
                    i
                } else {
                    i + 1
                };
                assert(items@[i] == before[p]);
                lemma_entry(before, p);
                lemma_entry(items@, i);
            }
            assert(new_map =~= old_map.remove(removed.0));
        }
        self.items = items;
        removed
    }
}

impl<K: Key, V: Clone> Clone for Table<K, V> {
    fn clone(&self) -> (copy: Self)
        ensures
            copy.entries().len() == self.entries().len(),
            forall|i: int|
                0 <= i < self.entries().len() ==> {
                    &&& (#[trigger] copy.entries()[i]).0 == self.entries()[i].0
                    &&& cloned::<V>(self.entries()[i].1, copy.entries()[i].1)
                },
    {
        proof {
            use_type_invariant(self);
        }
        let mut items: Vec<(K, V)> = Vec::new();
        let mut at: usize = 0;
        while at < self.items.len()
            invariant
                at <= self.items@.len(),
                items@.len() == at,
                forall|i: int|
                    0 <= i < at ==> {
                        &&& (#[trigger] items@[i]).0 == self.items@[i].0
                        &&& cloned::<V>(self.items@[i].1, items@[i].1)
                    },
            decreases self.items@.len() - at,
        {
            let value = self.items[at].1.clone();
            items.push((self.items[at].0, value));
            at = at + 1;
        }
        proof {
            assert forall|i: int, j: int| 0 <= i < j < items@.len() implies (
            #[trigger] items@[i]).0 != (#[trigger] items@[j]).0 by {
                assert(self.items@[i].0 != self.items@[j].0);
            }
        }
        Table { items }
    }
}

/// Two tables with the same entries hold the same map.
pub proof fn law_entries_decide_the_map<K: Key, V>(left: Table<K, V>, right: Table<K, V>)
    requires
        left.entries() == right.entries(),
    ensures
        left@ == right@,
{
}

/// The map holds exactly the keys of the entries, each with the value that
/// stands beside it.
pub proof fn law_the_map_is_what_the_entries_say<K, V>(entries: Seq<(K, V)>, at: int, key: K)
    requires
        forall|i: int, j: int|
            0 <= i < j < entries.len() ==> (#[trigger] entries[i]).0 != (#[trigger] entries[j]).0,
        0 <= at < entries.len(),
    ensures
        entries_map(entries).contains_key(entries[at].0),
        entries_map(entries)[entries[at].0] == entries[at].1,
        entries_map(entries).contains_key(key) <==> exists|i: int|
            0 <= i < entries.len() && (#[trigger] entries[i]).0 == key,
{
    lemma_entry(entries, at);
}

} // verus!
