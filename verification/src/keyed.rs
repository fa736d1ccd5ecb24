//! Values filed under string keys.

use crate::concurrent::{
    dash_clear, dash_contains_key, dash_get, dash_insert, dash_is_empty, dash_keys, dash_len,
    dash_new, dash_remove, slots_of,
};
use dashmap::DashMap;
use vstd::prelude::*;

verus! {

/// Values filed under string keys. The values lie side by side in slots, and a `DashMap` says
/// which slot belongs to which key.
#[derive(Debug)]
pub struct KeyedStore<V> {
    index: DashMap<String, usize>,
    slots: Vec<(String, V)>,
}

impl<V> View for KeyedStore<V> {
    type V = Map<Seq<char>, V>;

    closed spec fn view(&self) -> Map<Seq<char>, V> {
        Map::new(
            |key: Seq<char>| slots_of(self.index).contains_key(key),
            |key: Seq<char>| self.slots@[slots_of(self.index)[key] as int].1,
        )
    }
}

impl<V> KeyedStore<V> {
    /// Each key of the index leads to the slot that carries it, and each slot is led to.
    pub closed spec fn wf(&self) -> bool {
        &&& slots_of(self.index).dom().finite()
        &&& forall|key: Seq<char>| #[trigger]
            slots_of(self.index).contains_key(key) ==> {
                &&& slots_of(self.index)[key] < self.slots@.len()
                &&& self.slots@[slots_of(self.index)[key] as int].0@ == key
            }
        &&& forall|i: int|
            0 <= i < self.slots@.len() ==> {
                &&& slots_of(self.index).contains_key(#[trigger] self.slots@[i].0@)
                &&& slots_of(self.index)[self.slots@[i].0@] == i
            }
    }

    /// A store that holds nothing.
    pub fn new() -> (store: Self)
        ensures
            store.wf(),
            store@ == Map::<Seq<char>, V>::empty(),
    {
        KeyedStore { index: dash_new(), slots: Vec::new() }
    }

    /// How many keys are filed.
    pub fn len(&self) -> (len: usize)
        ensures
            len == self@.dom().len(),
    {
        assert(self@.dom() =~= slots_of(self.index).dom());
        dash_len(&self.index)
    }

    /// Whether no key is filed.
    pub fn is_empty(&self) -> (empty: bool)
        ensures
            empty == (self@ == Map::<Seq<char>, V>::empty()),
    {
        proof {
            assert(self@.dom() =~= slots_of(self.index).dom());
            if self@ == Map::<Seq<char>, V>::empty() {
                assert(slots_of(self.index) =~= Map::<Seq<char>, usize>::empty());
            }
        }
        let empty = dash_is_empty(&self.index);
        assert(empty ==> self@ =~= Map::<Seq<char>, V>::empty());
        empty
    }

    /// Whether a value is filed under `key`.
    pub fn contains_key(&self, key: &str) -> (found: bool)
        ensures
            found == self@.contains_key(key@),
    {
        dash_contains_key(&self.index, key)
    }

    /// The value filed under `key`.
    pub fn get(&self, key: &str) -> (value: Option<&V>)
        requires
            self.wf(),
        ensures
            value == (if self@.contains_key(key@) {
                Some(&self@[key@])
            } else {
                None
            }),
    {
        match dash_get(&self.index, key) {
            Some(slot) => Some(&self.slots[slot].1),
            None => None,
        }
    }

    /// The value filed under `key`, to be changed in place.
    pub fn get_mut(&mut self, key: &str) -> (value: Option<&mut V>)
        requires
            old(self).wf(),
        ensures
            match value {
                Some(v) => {
                    &&& old(self)@.contains_key(key@)
                    &&& *v == old(self)@[key@]
                    &&& final(self).wf()
                    &&& final(self)@ == old(self)@.insert(key@, *final(v))
                },
                None => !old(self)@.contains_key(key@) && *final(self) == *old(self),
            },
    {
        match dash_get(&self.index, key) {
            Some(slot) => Some(&mut self.slots[slot].1),
            None => None,
        }
    }

    /// Files `value` under `key` and hands out the value that it replaced.
    pub fn insert(&mut self, key: &str, value: V) -> (replaced: Option<V>)
        requires
            old(self).wf(),
        ensures
            final(self).wf(),
            final(self)@ == old(self)@.insert(key@, value),
            replaced == (if old(self)@.contains_key(key@) {
                Some(old(self)@[key@])
            } else {
                None
            }),
    {
        match dash_get(&self.index, key) {
            Some(slot) => {
                self.slots.push((key.to_owned(), value));
                let old_slot = self.slots.swap_remove(slot);
                assert(self@ =~= old(self)@.insert(key@, value));
                Some(old_slot.1)
            },
            None => {
                let slot = self.slots.len();
                dash_insert(&mut self.index, key.to_owned(), slot);
                self.slots.push((key.to_owned(), value));
                assert(self@ =~= old(self)@.insert(key@, value));
                None
            },
        }
    }

    /// Takes `key` out and hands out the value that was filed under it.
    pub fn remove(&mut self, key: &str) -> (removed: Option<V>)
        requires
            old(self).wf(),
        ensures
            final(self).wf(),
            final(self)@ == old(self)@.remove(key@),
            removed == (if old(self)@.contains_key(key@) {
                Some(old(self)@[key@])
            } else {
                None
            }),
    {
        match dash_remove(&mut self.index, key) {
            Some(slot) => {
                let removed = self.slots.swap_remove(slot);
                if slot < self.slots.len() {
                    let moved = self.slots[slot].0.clone();
                    dash_insert(&mut self.index, moved, slot);
                }
                assert(self@ =~= old(self)@.remove(key@));
                Some(removed.1)
            },
            None => {
                assert(self@ =~= old(self)@.remove(key@));
                None
            },
        }
    }

    /// Takes every key out.
    pub fn clear(&mut self)
        ensures
            final(self).wf(),
            final(self)@ == Map::<Seq<char>, V>::empty(),
    {
        dash_clear(&mut self.index);
        self.slots.clear();
        assert(self@ =~= Map::<Seq<char>, V>::empty());
    }

    /// Each key, once, in no particular order.
    pub fn keys(&self) -> (keys: Vec<String>)
        ensures
            lists_domain(keys@, self@.dom()),
    {
        dash_keys(&self.index)
    }
}

/// Whether `keys` holds each member of `domain` once, and nothing else.
pub open spec fn lists_domain(keys: Seq<String>, domain: Set<Seq<char>>) -> bool {
    &&& forall|i: int, j: int|
        0 <= i < j < keys.len() ==> #[trigger] keys[i]@ != #[trigger] keys[j]@
    &&& forall|i: int| 0 <= i < keys.len() ==> domain.contains(#[trigger] keys[i]@)
    &&& forall|key: Seq<char>| #[trigger]
        domain.contains(key) ==> exists|i: int| 0 <= i < keys.len() && #[trigger] keys[i]@ == key
}

/// A list of the keys holds each of them once, and nothing else.
pub proof fn law_keys_are_listed_once(keys: Seq<String>, domain: Set<Seq<char>>, key: Seq<char>)
    requires
        lists_domain(keys, domain),
    ensures
        domain.contains(key) <==> exists|i: int| 0 <= i < keys.len() && #[trigger] keys[i]@ == key,
        forall|i: int, j: int|
            0 <= i < j < keys.len() ==> #[trigger] keys[i]@ != #[trigger] keys[j]@,
{
}

} // verus!
