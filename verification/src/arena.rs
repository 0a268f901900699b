//! A dense arena: records packed in a vector, found through generational keys.

use vstd::prelude::*;
use crate::key::{is_regular_key, key_index, key_is_regular};
use crate::store::{
    key_table_entries, key_table_get, key_table_insert, key_table_new, key_table_remove,
    key_table_set, KeyTable,
};

verus! {

/// The number of records past which an arena takes no more.
pub const ARENA_LIMIT: usize = 0xffff_fffe;

/// Records of type `T`, each under a key of its own that stays valid until
/// the record is removed.
pub struct Arena<T> {
    index: KeyTable,
    keys: Vec<u64>,
    items: Vec<T>,
}

impl<T> View for Arena<T> {
    type V = Map<u64, T>;

    /// The records by key.
    closed spec fn view(&self) -> Map<u64, T> {
        Map::new(
            |k: u64| key_table_entries(self.index).dom().contains(k),
            |k: u64| self.items@[key_table_entries(self.index)[k] as int],
        )
    }
}

impl<T> Arena<T> {
    /// The index and the two vectors describe the same set of records.
    pub closed spec fn wf(&self) -> bool {
        let e = key_table_entries(self.index);
        &&& self.keys@.len() == self.items@.len()
        &&& self.keys@.len() <= ARENA_LIMIT
        &&& e.dom().finite()
        &&& e.dom().len() == self.keys@.len()
        &&& forall|k: u64| #[trigger]
            e.dom().contains(k) ==> e[k] < self.keys@.len() && self.keys@[e[k] as int] == k
                && key_is_regular(k)
        &&& forall|i: int|
            0 <= i < self.keys@.len() ==> e.dom().contains(#[trigger] self.keys@[i])
                && e[self.keys@[i]] == i
        &&& forall|k1: u64, k2: u64|
            #![trigger e.dom().contains(k1), e.dom().contains(k2)]
            e.dom().contains(k1) && e.dom().contains(k2) && key_index(k1) == key_index(k2) ==> k1
                == k2
    }

    /// The number of records.
    pub closed spec fn spec_len(&self) -> nat {
        self.keys@.len()
    }

    /// What well-formedness says of the keys: finitely many, each regular, no
    /// two on one position.
    pub proof fn lemma_keys(&self)
        requires
            self.wf(),
        ensures
            self@.dom().finite(),
            self@.dom().len() == self.spec_len(),
            self.spec_len() <= ARENA_LIMIT,
            forall|k: u64| #[trigger] self@.dom().contains(k) ==> key_is_regular(k),
            forall|k1: u64, k2: u64|
                #![trigger self@.dom().contains(k1), self@.dom().contains(k2)]
                self@.dom().contains(k1) && self@.dom().contains(k2) && key_index(k1) == key_index(
                    k2,
                ) ==> k1 == k2,
    {
        assert(self@.dom() =~= key_table_entries(self.index).dom());
    }

    /// An arena without records.
    pub fn new() -> (a: Arena<T>)
        ensures
            a.wf(),
            a@ == (Map::<u64, T>::empty()),
            a.spec_len() == 0,
    {
        let a = Arena { index: key_table_new(), keys: Vec::new(), items: Vec::new() };
        assert(a@ =~= Map::<u64, T>::empty());
        a
    }

    /// The number of records.
    pub fn len(&self) -> (n: usize)
        requires
            self.wf(),
        ensures
            n == self.spec_len(),
            n == self@.dom().len(),
    {
        proof {
            self.lemma_keys();
        }
        self.keys.len()
    }

    /// Whether a record lives under `key`.
    pub fn contains(&self, key: u64) -> (b: bool)
        requires
            self.wf(),
        ensures
            b == self@.dom().contains(key),
    {
        if !is_regular_key(key) {
            return false;
        }
        key_table_get(&self.index, key).is_some()
    }

    /// The record under `key`, if one lives there.
    pub fn get(&self, key: u64) -> (r: Option<&T>)
        requires
            self.wf(),
        ensures
            match r {
                Some(item) => self@.dom().contains(key) && *item == self@[key],
                None => !self@.dom().contains(key),
            },
    {
        if !is_regular_key(key) {
            return None;
        }
        match key_table_get(&self.index, key) {
            Some(pos) => Some(&self.items[pos as usize]),
            None => None,
        }
    }

    /// The record under a live key, to be changed in place.
    pub fn get_mut(&mut self, key: u64) -> (item: &mut T)
        requires
            old(self).wf(),
            old(self)@.dom().contains(key),
        ensures
            *item == old(self)@[key],
            final(self).wf(),
            final(self)@ == old(self)@.insert(key, *final(item)),
            final(self).spec_len() == old(self).spec_len(),
    {
        let pos = key_table_get(&self.index, key).unwrap();
        &mut self.items[pos as usize]
    }

    /// Stores a record and returns the key it lives under from now on.
    pub fn insert(&mut self, value: T) -> (key: u64)
        requires
            old(self).wf(),
            old(self).spec_len() < ARENA_LIMIT,
        ensures
            final(self).wf(),
            key_is_regular(key),
            !old(self)@.dom().contains(key),
            final(self)@ == old(self)@.insert(key, value),
            final(self).spec_len() == old(self).spec_len() + 1,
    {
        let ghost before = *self;
        let pos = self.keys.len();
        let key = key_table_insert(&mut self.index, pos as u64);
        self.keys.push(key);
        self.items.push(value);
        proof {
            assert(self@ =~= before@.insert(key, value));
        }
        key
    }

    /// Takes the record under `key` out, if one lives there.
    pub fn remove(&mut self, key: u64) -> (r: Option<T>)
        requires
            old(self).wf(),
        ensures
            final(self).wf(),
            r == (if old(self)@.dom().contains(key) {
                Some(old(self)@[key])
            } else {
                None
            }),
            final(self)@ == old(self)@.remove(key),
            final(self).spec_len() == old(self).spec_len() - (if old(self)@.dom().contains(key) {
                1int
            } else {
                0int
            }),
    {
        let ghost before = *self;
        if !is_regular_key(key) {
            proof {
                assert(self@ =~= before@.remove(key));
            }
            return None;
        }
        match key_table_remove(&mut self.index, key) {
            None => {
                proof {
                    assert(key_table_entries(self.index) =~= key_table_entries(before.index));
                    assert(self@ =~= before@.remove(key));
                }
                None
            },
            Some(pos) => {
                let pos = pos as usize;
                let last = self.keys.len() - 1;
                let item = self.items.swap_remove(pos);
                let _ = self.keys.swap_remove(pos);
                if pos != last {
                    let moved = self.keys[pos];
                    key_table_set(&mut self.index, moved, pos as u64);
                }
                proof {
                    let e0 = key_table_entries(before.index);
                    let e = key_table_entries(self.index);
                    assert(e.dom() =~= e0.dom().remove(key));
                    assert(self@ =~= before@.remove(key));
                }
                Some(item)
            },
        }
    }
}

} // verus!
