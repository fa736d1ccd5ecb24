//! The `DashMap` that says in which slot the value of a key lies.

use dashmap::DashMap;
use vstd::prelude::*;

verus! {

/// The concurrent map of the `dashmap` crate; opaque, its contents are `slots_of`.
#[verifier::external_type_specification]
#[verifier::external_body]
#[verifier::reject_recursive_types(K)]
#[verifier::reject_recursive_types(V)]
#[verifier::reject_recursive_types(S)]
pub struct ExDashMap<K, V, S>(DashMap<K, V, S>);

/// What a map holds: the slot filed under each key.
pub uninterp spec fn slots_of(map: DashMap<String, usize>) -> Map<Seq<char>, usize>;

/// `DashMap::new`: a map that holds nothing.
#[verifier::external_body]
pub(crate) fn dash_new() -> (map: DashMap<String, usize>)
    ensures
        slots_of(map).is_empty(),
{
    DashMap::new()
}

/// `DashMap::insert`: files `slot` under `key` and hands out the slot it replaced.
#[verifier::external_body]
pub(crate) fn dash_insert(map: &mut DashMap<String, usize>, key: String, slot: usize) -> (replaced:
    Option<usize>)
    ensures
        slots_of(*final(map)) == slots_of(*old(map)).insert(key@, slot),
        replaced == (if slots_of(*old(map)).contains_key(key@) {
            Some(slots_of(*old(map))[key@])
        } else {
            None
        }),
{
    map.insert(key, slot)
}

/// `DashMap::remove`: takes `key` out and hands out the slot that was filed under it.
#[verifier::external_body]
pub(crate) fn dash_remove(map: &mut DashMap<String, usize>, key: &str) -> (removed: Option<usize>)
    ensures
        slots_of(*final(map)) == slots_of(*old(map)).remove(key@),
        removed == (if slots_of(*old(map)).contains_key(key@) {
            Some(slots_of(*old(map))[key@])
        } else {
            None
        }),
{
    map.remove(key).map(|entry| entry.1)
}

/// `DashMap::get`: the slot filed under `key`, copied out of the guard.
#[verifier::external_body]
pub(crate) fn dash_get(map: &DashMap<String, usize>, key: &str) -> (slot: Option<usize>)
    ensures
        slot == (if slots_of(*map).contains_key(key@) {
            Some(slots_of(*map)[key@])
        } else {
            None
        }),
{
    map.get(key).map(|entry| *entry.value())
}

/// `DashMap::contains_key`: whether something is filed under `key`.
#[verifier::external_body]
pub(crate) fn dash_contains_key(map: &DashMap<String, usize>, key: &str) -> (found: bool)
    ensures
        found == slots_of(*map).contains_key(key@),
{
    map.contains_key(key)
}

/// `DashMap::len`: the number of keys.
#[verifier::external_body]
pub(crate) fn dash_len(map: &DashMap<String, usize>) -> (len: usize)
    ensures
        len == slots_of(*map).dom().len(),
{
    map.len()
}

/// `DashMap::is_empty`: whether no key is filed.
#[verifier::external_body]
pub(crate) fn dash_is_empty(map: &DashMap<String, usize>) -> (empty: bool)
    ensures
        empty == slots_of(*map).is_empty(),
{
    map.is_empty()
}

/// `DashMap::clear`: takes every key out.
#[verifier::external_body]
pub(crate) fn dash_clear(map: &mut DashMap<String, usize>)
    ensures
        slots_of(*final(map)).is_empty(),
{
    map.clear()
}

/// `DashMap::iter`: a copy of each key, once, in no particular order.
#[verifier::external_body]
pub(crate) fn dash_keys(map: &DashMap<String, usize>) -> (keys: Vec<String>)
    ensures
        forall|i: int, j: int|
            0 <= i < j < keys@.len() ==> #[trigger] keys@[i]@ != #[trigger] keys@[j]@,
        forall|i: int| 0 <= i < keys@.len() ==> slots_of(*map).contains_key(#[trigger] keys@[i]@),
        forall|key: Seq<char>| #[trigger]
            slots_of(*map).contains_key(key) ==> exists|i: int|
                0 <= i < keys@.len() && #[trigger] keys@[i]@ == key,
{
    map.iter().map(|entry| entry.key().clone()).collect()
}

} // verus!
