//! What a cache handler is.

use crate::error::CacheError;
use vstd::prelude::*;

verus! {

/// A store of bytes under string keys. A handler knows nothing of what the bytes mean: whoever
/// keeps values in it turns them into bytes first. Tags name groups of keys that can be
/// invalidated together; a handler that does not support them may ignore them.
///
/// What a call does is the handler's own affair: for each call it states a relation between the
/// handler before the call, the handler after it, the arguments and the result.
pub trait CacheHandler: Sized {
    /// The handler's own invariant.
    spec fn valid(&self) -> bool;

    /// Whether a lookup of `key` may answer `result` and leave `post`.
    spec fn may_get(
        pre: Self,
        post: Self,
        key: Seq<char>,
        result: Result<Option<Vec<u8>>, CacheError>,
    ) -> bool;

    /// Whether storing `value` under `key` with `tags` may answer `result` and leave `post`.
    spec fn may_set(
        pre: Self,
        post: Self,
        key: Seq<char>,
        value: Seq<u8>,
        ttl_secs: u64,
        tags: Seq<Seq<char>>,
        result: Result<(), CacheError>,
    ) -> bool;

    /// Whether invalidating `key` may answer `result` and leave `post`.
    spec fn may_invalidate(
        pre: Self,
        post: Self,
        key: Seq<char>,
        result: Result<(), CacheError>,
    ) -> bool;

    /// Whether invalidating every key with `tag` may answer `result` and leave `post`.
    spec fn may_invalidate_by_tag(
        pre: Self,
        post: Self,
        tag: Seq<char>,
        result: Result<(), CacheError>,
    ) -> bool;

    /// Whether dropping everything may answer `result` and leave `post`.
    spec fn may_clear(pre: Self, post: Self, result: Result<(), CacheError>) -> bool;

    /// Whether the handler may list `keys` as the ones it holds.
    spec fn may_list(&self, keys: Seq<String>) -> bool;

    /// The bytes stored under `key`, if they are there and have not expired.
    fn get(&mut self, key: &str) -> (result: Result<Option<Vec<u8>>, CacheError>)
        requires
            old(self).valid(),
        ensures
            final(self).valid(),
            Self::may_get(*old(self), *final(self), key@, result),
    ;

    /// Stores `value` under `key` for `ttl_secs` seconds.
    fn set(&mut self, key: &str, value: Vec<u8>, ttl_secs: u64) -> (result: Result<
        (),
        CacheError,
    >)
        requires
            old(self).valid(),
        ensures
            final(self).valid(),
            Self::may_set(
                *old(self),
                *final(self),
                key@,
                value@,
                ttl_secs,
                Seq::empty(),
                result,
            ),
    ;

    /// Stores `value` under `key` for `ttl_secs` seconds, as a member of each group in `tags`.
    fn set_with_tags(&mut self, key: &str, value: Vec<u8>, ttl_secs: u64, tags: &[String]) -> (result:
        Result<(), CacheError>)
        requires
            old(self).valid(),
        ensures
            final(self).valid(),
            Self::may_set(
                *old(self),
                *final(self),
                key@,
                value@,
                ttl_secs,
                crate::text::texts(tags@),
                result,
            ),
    ;

    /// Drops what is stored under `key`.
    fn invalidate(&mut self, key: &str) -> (result: Result<(), CacheError>)
        requires
            old(self).valid(),
        ensures
            final(self).valid(),
            Self::may_invalidate(*old(self), *final(self), key@, result),
    ;

    /// Drops what is stored under the keys of the group `tag`.
    fn invalidate_by_tag(&mut self, tag: &str) -> (result: Result<(), CacheError>)
        requires
            old(self).valid(),
        ensures
            final(self).valid(),
            Self::may_invalidate_by_tag(*old(self), *final(self), tag@, result),
    ;

    /// Drops everything.
    fn clear(&mut self) -> (result: Result<(), CacheError>)
        requires
            old(self).valid(),
        ensures
            final(self).valid(),
            Self::may_clear(*old(self), *final(self), result),
    ;

    /// The keys that the handler holds.
    fn get_all_keys(&self) -> (keys: Vec<String>)
        requires
            self.valid(),
        ensures
            self.may_list(keys@),
    ;
}

} // verus!
