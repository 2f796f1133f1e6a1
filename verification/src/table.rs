//! A small keyed table: the store behind the registry.
//!
//! Entries live in a vector in which no key occurs twice; the table is read
//! as the map from each key to its value.

use vstd::prelude::*;
use crate::commitment::{same_hash, H256};

verus! {

/// A key of a [`Table`]: a plain value that can be compared at run time.
pub trait TableKey: Sized {
    /// Whether `self` and `other` are the same key.
    fn same(&self, other: &Self) -> (r: bool)
        ensures
            r == (*self == *other),
    ;
}

impl TableKey for u64 {
    fn same(&self, other: &Self) -> (r: bool) {
        *self == *other
    }
}

impl TableKey for H256 {
    fn same(&self, other: &Self) -> (r: bool) {
        same_hash(self, other)
    }
}

impl TableKey for (H256, u64) {
    fn same(&self, other: &Self) -> (r: bool) {
        self.1 == other.1 && self.0.same(&other.0)
    }
}

/// A table from keys to values.
#[derive(Clone, Debug, PartialEq, Eq)]
pub struct Table<K, V> {
    entries: Vec<(K, V)>,
}

impl<K, V> View for Table<K, V> {
    type V = Map<K, V>;

    closed spec fn view(&self) -> Map<K, V> {
        Map::new(
            |k: K| self.position(k) is Some,
            |k: K| self.entries@[self.position(k).unwrap()].1,
        )
    }
}

impl<K, V> Table<K, V> {
    /// Whether entry `i` exists and is stored under `k`.
    spec fn at(&self, i: int, k: K) -> bool {
        0 <= i < self.entries@.len() && self.entries@[i].0 == k
    }

    /// An index at which `k` is stored, if there is one.
    spec fn position(&self, k: K) -> Option<int> {
        if exists|i: int| self.at(i, k) {
            Some(choose|i: int| self.at(i, k))
        } else {
            None
        }
    }

    /// No key is stored twice.
    pub closed spec fn wf(&self) -> bool {
        forall|i: int, j: int|
            0 <= i < j < self.entries@.len() ==> self.entries@[i].0 != self.entries@[j].0
    }

    /// In a well-formed table the entry found under a key is the one the
    /// map speaks of.
    proof fn lemma_found(&self, i: int, k: K)
        requires
            self.wf(),
            self.at(i, k),
        ensures
            self@.contains_key(k),
            self@[k] == self.entries@[i].1,
            self.position(k) == Some(i),
    {
        let j = choose|j: int| self.at(j, k);
        assert(self.at(j, k));
        assert(i == j);
    }

    /// A table that differs from this one only in entry `i`, where it holds
    /// `value` under `key`, is this table with `value` stored under `key`,
    /// if entry `i` is the one in which this table holds `key`, or one more
    /// while this table does not hold `key`.
    proof fn lemma_stored(&self, after: Self, i: int, key: K, value: V)
        requires
            self.wf(),
            0 <= i < after.entries@.len(),
            after.entries@[i] == (key, value),
            after.entries@.len() == self.entries@.len() || (i == self.entries@.len()
                && after.entries@.len() == i + 1),
            i < self.entries@.len() ==> self.entries@[i].0 == key,
            forall|j: int|
                0 <= j < self.entries@.len() && j != i ==> after.entries@[j] == self.entries@[j],
            forall|j: int| 0 <= j < self.entries@.len() && j != i ==> self.entries@[j].0 != key,
        ensures
            after.wf(),
            after@ == self@.insert(key, value),
    {
        assert(after.wf());
        assert forall|k: K| #[trigger]
            after@.contains_key(k) == self@.insert(key, value).contains_key(k) && (
            after@.contains_key(k) ==> after@[k] == self@.insert(key, value)[k]) by {
            if k == key {
                after.lemma_found(i, k);
            } else if self@.contains_key(k) {
                let j = self.position(k).unwrap();
                assert(self.at(j, k));
                assert(after.at(j, k));
                after.lemma_found(j, k);
                self.lemma_found(j, k);
            } else if after@.contains_key(k) {
                let j = after.position(k).unwrap();
                assert(after.at(j, k));
                assert(self.at(j, k));
                self.lemma_found(j, k);
            }
        }
        assert(after@ =~= self@.insert(key, value));
    }

    /// A key that no entry holds is not in the map.
    proof fn lemma_absent(&self, k: K)
        requires
            forall|i: int| 0 <= i < self.entries@.len() ==> self.entries@[i].0 != k,
        ensures
            !self@.contains_key(k),
    {
        if exists|i: int| self.at(i, k) {
            let j = choose|j: int| self.at(j, k);
            assert(self.at(j, k));
        }
    }
}

impl<K: TableKey, V> Table<K, V> {
    /// The empty table.
    pub fn new() -> (table: Self)
        ensures
            table.wf(),
            table@ == Map::<K, V>::empty(),
    {
        let table = Table { entries: Vec::new() };
        proof {
            assert forall|k: K| !table@.contains_key(k) by {
                table.lemma_absent(k);
            }
            assert(table@ =~= Map::<K, V>::empty());
        }
        table
    }

    /// The index of the entry stored under `key`.
    fn find(&self, key: &K) -> (found: Option<usize>)
        requires
            self.wf(),
        ensures
            match found {
                Some(i) => self.at(i as int, *key),
                None => !self@.contains_key(*key),
            },
    {
        let mut i: usize = 0;
        while i < self.entries.len()
            invariant
                i <= self.entries@.len(),
                forall|j: int| 0 <= j < i ==> self.entries@[j].0 != *key,
            decreases self.entries@.len() - i,
        {
            if self.entries[i].0.same(key) {
                return Some(i);
            }
            i += 1;
        }
        proof {
            self.lemma_absent(*key);
        }
        None
    }

    /// Whether a value is stored under `key`.
    pub fn contains_key(&self, key: &K) -> (present: bool)
        requires
            self.wf(),
        ensures
            present == self@.contains_key(*key),
    {
        match self.find(key) {
            Some(i) => {
                proof {
                    self.lemma_found(i as int, *key);
                }
                true
            },
            None => false,
        }
    }

    /// The value stored under `key`.
    pub fn get(&self, key: &K) -> (value: Option<&V>)
        requires
            self.wf(),
        ensures
            match value {
                Some(v) => self@.contains_key(*key) && *v == self@[*key],
                None => !self@.contains_key(*key),
            },
    {
        match self.find(key) {
            Some(i) => {
                proof {
                    self.lemma_found(i as int, *key);
                }
                Some(&self.entries[i].1)
            },
            None => None,
        }
    }

    /// Stores `value` under `key`, in place of what was stored there.
    pub fn insert(&mut self, key: K, value: V)
        requires
            old(self).wf(),
        ensures
            final(self).wf(),
            final(self)@ == old(self)@.insert(key, value),
    {
        let ghost before = *self;
        match self.find(&key) {
            Some(i) => {
                self.entries[i] = (key, value);
                proof {
                    assert(self.entries@ == before.entries@.update(i as int, (key, value)));
                    before.lemma_stored(*self, i as int, key, value);
                }
            },
            None => {
                self.entries.push((key, value));
                proof {
                    let n = before.entries@.len() as int;
                    assert(self.entries@ == before.entries@.push((key, value)));
                    assert forall|i: int| 0 <= i < n implies before.entries@[i].0 != key by {
                        if before.entries@[i].0 == key {
                            assert(before.at(i, key));
                            before.lemma_found(i, key);
                        }
                    }
                    before.lemma_stored(*self, n, key, value);
                }
            },
        }
    }
}

} // verus!
