//! The `LruCache` that keeps keys in the order of their last use.

use crate::text::without;
use lru::LruCache;
use std::num::NonZeroUsize;
use vstd::prelude::*;

verus! {

/// The cache of the `lru` crate; opaque, its keys are `recency` and its limit is `limit_of`.
#[verifier::external_type_specification]
#[verifier::external_body]
#[verifier::reject_recursive_types(K)]
#[verifier::reject_recursive_types(V)]
#[verifier::reject_recursive_types(S)]
pub struct ExLruCache<K, V, S>(LruCache<K, V, S>);

/// The hash builder with which the `lru` crate hashes keys.
#[verifier::external_type_specification]
#[verifier::external_body]
pub struct ExLruHasher(lru::DefaultHasher);

/// The keys of a cache, the least recently used first.
pub uninterp spec fn recency(cache: LruCache<String, ()>) -> Seq<Seq<char>>;

/// How many keys a cache holds at most.
pub uninterp spec fn limit_of(cache: LruCache<String, ()>) -> nat;

/// The largest limit for which a cache can be asked: beyond it the table that the `lru` crate
/// sets aside at the start would overflow the address space.
pub open spec fn within_address_space(limit: nat) -> bool {
    limit <= usize::MAX / 128
}

/// `LruCache::new`: a cache that holds nothing yet and at most `limit` keys. It sets aside room
/// for all of them at once, and panics where their number overflows the address space.
#[verifier::external_body]
pub(crate) fn lru_new(limit: usize) -> (cache: LruCache<String, ()>)
    requires
        limit > 0,
        within_address_space(limit as nat),
    ensures
        recency(cache).len() == 0,
        limit_of(cache) == limit,
{
    LruCache::new(NonZeroUsize::new(limit).unwrap())
}

/// `LruCache::len`: the number of keys.
#[verifier::external_body]
pub(crate) fn lru_len(cache: &LruCache<String, ()>) -> (len: usize)
    ensures
        len == recency(*cache).len(),
{
    cache.len()
}

/// `LruCache::put`: makes `key` the most recently used. A key that is new to a full cache takes
/// the place of the least recently used one.
#[verifier::external_body]
pub(crate) fn lru_put(cache: &mut LruCache<String, ()>, key: String)
    ensures
        recency(*final(cache)) == (if recency(*old(cache)).contains(key@) {
            without(recency(*old(cache)), key@).push(key@)
        } else if recency(*old(cache)).len() == limit_of(*old(cache)) {
            recency(*old(cache)).drop_first().push(key@)
        } else {
            recency(*old(cache)).push(key@)
        }),
        limit_of(*final(cache)) == limit_of(*old(cache)),
{
    cache.put(key, ());
}

/// `LruCache::promote`: makes `key` the most recently used, if it is there.
#[verifier::external_body]
pub(crate) fn lru_promote(cache: &mut LruCache<String, ()>, key: &str) -> (promoted: bool)
    ensures
        promoted == recency(*old(cache)).contains(key@),
        recency(*final(cache)) == (if promoted {
            without(recency(*old(cache)), key@).push(key@)
        } else {
            recency(*old(cache))
        }),
        limit_of(*final(cache)) == limit_of(*old(cache)),
{
    cache.promote(key)
}

/// `LruCache::pop`: takes `key` out, and says whether it was there.
#[verifier::external_body]
pub(crate) fn lru_pop(cache: &mut LruCache<String, ()>, key: &str) -> (popped: bool)
    ensures
        popped == recency(*old(cache)).contains(key@),
        recency(*final(cache)) == without(recency(*old(cache)), key@),
        limit_of(*final(cache)) == limit_of(*old(cache)),
{
    cache.pop(key).is_some()
}

/// `LruCache::pop_lru`: takes the least recently used key out.
#[verifier::external_body]
pub(crate) fn lru_pop_lru(cache: &mut LruCache<String, ()>) -> (popped: Option<String>)
    ensures
        match popped {
            Some(key) => {
                &&& recency(*old(cache)).len() > 0
                &&& key@ == recency(*old(cache)).first()
                &&& recency(*final(cache)) == recency(*old(cache)).drop_first()
            },
            None => {
                &&& recency(*old(cache)).len() == 0
                &&& recency(*final(cache)) == recency(*old(cache))
            },
        },
        limit_of(*final(cache)) == limit_of(*old(cache)),
{
    cache.pop_lru().map(|entry| entry.0)
}

/// `LruCache::clear`: takes every key out.
#[verifier::external_body]
pub(crate) fn lru_clear(cache: &mut LruCache<String, ()>)
    ensures
        recency(*final(cache)).len() == 0,
        limit_of(*final(cache)) == limit_of(*old(cache)),
{
    cache.clear()
}

} // verus!
