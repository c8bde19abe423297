//! An insertion-ordered table with unique keys, the container behind header
//! attributes, auxiliary schemas and per-record auxiliary values.

use vstd::prelude::*;
use crate::bytes::{bytes_eq, copy_slice};

verus! {

/// A key of a [`Table`]: compared and copied by its view.
pub trait Key: View + Sized {
    /// Whether two keys have the same view.
    fn same(&self, other: &Self) -> (same: bool)
        ensures
            same == (self@ == other@),
    ;

    /// A fresh key with the same view.
    fn dup(&self) -> (copy: Self)
        ensures
            copy@ == self@,
    ;
}

impl Key for Vec<u8> {
    fn same(&self, other: &Self) -> (same: bool) {
        bytes_eq(self.as_slice(), other.as_slice())
    }

    fn dup(&self) -> (copy: Self) {
        copy_slice(self.as_slice())
    }
}

impl Key for (Vec<u8>, u32) {
    fn same(&self, other: &Self) -> (same: bool) {
        let names = bytes_eq(self.0.as_slice(), other.0.as_slice());
        names && self.1 == other.1
    }

    fn dup(&self) -> (copy: Self) {
        (copy_slice(self.0.as_slice()), self.1)
    }
}

/// Keys with their values, in the order in which the keys first came.
#[derive(Debug)]
pub struct Table<K, V> {
    keys: Vec<K>,
    vals: Vec<V>,
}

impl<K: Key, V> Table<K, V> {
    /// The keys, by view, in insertion order.
    pub closed spec fn keys(&self) -> Seq<K::V> {
        self.keys@.map_values(|k: K| k@)
    }

    /// The values, in the order of their keys.
    pub closed spec fn vals(&self) -> Seq<V> {
        self.vals@
    }

    /// Every key has one value and no key occurs twice.
    pub closed spec fn wf(&self) -> bool {
        &&& self.keys@.len() == self.vals@.len()
        &&& self.keys().no_duplicates()
    }

    /// Whether `k` is a key of the table.
    pub open spec fn contains(&self, k: K::V) -> bool {
        self.keys().contains(k)
    }

    /// The position of key `k`.
    pub open spec fn index(&self, k: K::V) -> int {
        self.keys().index_of(k)
    }

    /// The value stored under key `k`.
    pub open spec fn value(&self, k: K::V) -> V {
        self.vals()[self.index(k)]
    }

    /// The table as a map from keys to values.
    pub open spec fn map(&self) -> Map<K::V, V> {
        Map::new(|k: K::V| self.contains(k), |k: K::V| self.value(k))
    }

    /// What well-formedness says in terms of the public accessors.
    pub proof fn lemma_wf(&self)
        requires
            self.wf(),
        ensures
            self.keys().len() == self.vals().len(),
            self.keys().no_duplicates(),
            forall|i: int| 0 <= i < self.keys().len() ==> self.contains(#[trigger] self.keys()[i]),
            forall|i: int| 0 <= i < self.keys().len() ==> self.index(#[trigger] self.keys()[i]) == i,
            forall|k: K::V| self.contains(k) ==> 0 <= #[trigger] self.index(k) < self.keys().len()
                && self.keys()[self.index(k)] == k,
    {
        let ks = self.keys();
        assert forall|i: int| 0 <= i < ks.len() implies self.contains(#[trigger] ks[i]) && self.index(
            ks[i],
        ) == i by {
            assert(ks.contains(ks[i]));
            ks.index_of_first_ensures(ks[i]);
            let j = ks.index_of(ks[i]);
            assert(0 <= j < ks.len() && ks[j] == ks[i]);
        }
        assert forall|k: K::V| self.contains(k) implies 0 <= #[trigger] self.index(k) < ks.len()
            && ks[self.index(k)] == k by {
            let j = ks.index_of(k);
            assert(0 <= j < ks.len() && ks[j] == k);
        }
    }

    /// An empty table.
    pub fn new() -> (table: Self)
        ensures
            table.wf(),
            table.keys() == Seq::<K::V>::empty(),
            table.vals() == Seq::<V>::empty(),
    {
        let table = Table { keys: Vec::new(), vals: Vec::new() };
        assert(table.keys() =~= Seq::<K::V>::empty());
        table
    }

    /// Number of keys.
    pub fn len(&self) -> (n: usize)
        ensures
            n == self.keys().len(),
            self.wf() ==> n == self.vals().len(),
    {
        self.keys.len()
    }

    /// Whether there are as many values as keys.
    pub fn is_balanced(&self) -> (balanced: bool)
        ensures
            balanced == (self.keys().len() == self.vals().len()),
            self.wf() ==> balanced,
    {
        self.keys.len() == self.vals.len()
    }

    /// Position of `key`, if it is in the table.
    pub fn position(&self, key: &K) -> (pos: Option<usize>)
        requires
            self.wf(),
        ensures
            pos.is_some() <==> self.contains(key@),
            pos matches Some(i) ==> i < self.keys().len() && self.keys()[i as int] == key@ && self.index(key@) == i,
    {
        let mut i: usize = 0;
        while i < self.keys.len()
            invariant
                self.wf(),
                i <= self.keys@.len(),
                forall|j: int| 0 <= j < i ==> self.keys()[j] != key@,
            decreases self.keys@.len() - i,
        {
            if self.keys[i].same(key) {
                proof {
                    self.lemma_wf();
                    assert(self.keys()[i as int] == key@);
                }
                return Some(i);
            }
            i += 1;
        }
        None
    }

    /// The key at position `i`.
    pub fn key_at(&self, i: usize) -> (key: &K)
        requires
            i < self.keys().len(),
        ensures
            key@ == self.keys()[i as int],
    {
        &self.keys[i]
    }

    /// The value at position `i`.
    pub fn val_at(&self, i: usize) -> (val: &V)
        requires
            i < self.vals().len(),
        ensures
            *val == self.vals()[i as int],
    {
        &self.vals[i]
    }

    /// The keys themselves, in insertion order.
    pub fn key_list(&self) -> (keys: &Vec<K>)
        requires
            self.wf(),
        ensures
            keys@.len() == self.keys().len(),
            forall|i: int| 0 <= i < keys@.len() ==> (#[trigger] keys@[i])@ == self.keys()[i],
    {
        &self.keys
    }

    /// Stores `val` under `key`: a key already present keeps its place and
    /// gets the new value, a new key goes to the end.
    pub fn insert(&mut self, key: K, val: V)
        requires
            old(self).wf(),
        ensures
            final(self).wf(),
            old(self).contains(key@) ==> final(self).keys() == old(self).keys() && final(self).vals()
                == old(self).vals().update(old(self).index(key@), val),
            !old(self).contains(key@) ==> final(self).keys() == old(self).keys().push(key@)
                && final(self).vals() == old(self).vals().push(val),
            final(self).map() == old(self).map().insert(key@, val),
    {
        let pos = self.position(&key);
        proof {
            self.lemma_wf();
        }
        match pos {
            Some(i) => {
                self.vals.set(i, val);
                proof {
                    self.lemma_wf();
                    assert(self.map() =~= old(self).map().insert(key@, val));
                }
            },
            None => {
                let ghost old_keys = self.keys();
                self.keys.push(key);
                self.vals.push(val);
                proof {
                    assert(self.keys() =~= old_keys.push(key@));
                    assert forall|i: int, j: int|
                        0 <= i < self.keys().len() && 0 <= j < self.keys().len() && i != j implies self.keys()[i]
                        != self.keys()[j] by {
                        if i < old_keys.len() {
                            assert(old_keys.contains(old_keys[i]));
                        }
                        if j < old_keys.len() {
                            assert(old_keys.contains(old_keys[j]));
                        }
                    }
                    self.lemma_wf();
                    assert forall|k: K::V| old(self).contains(k) implies self.contains(k) && self.value(k)
                        == old(self).value(k) by {
                        let j = old(self).index(k);
                        assert(self.keys()[j] == k);
                    }
                    assert(self.contains(key@)) by {
                        assert(self.keys()[old_keys.len() as int] == key@);
                    }
                    assert forall|k: K::V| self.contains(k) && k != key@ implies old(self).contains(k) by {
                        let j = self.index(k);
                        assert(old_keys[j] == k);
                    }
                    assert(self.map() =~= old(self).map().insert(key@, val));
                }
            },
        }
    }
}

} // verus!
