//! A cache handler that keeps nothing.

use crate::error::CacheError;
use crate::handler::CacheHandler;
use vstd::prelude::*;

verus! {

/// A cache handler that keeps nothing: whatever is stored in it is gone at once.
#[derive(Debug, Default, Clone, Copy)]
pub struct NoOpCacheHandler;

impl CacheHandler for NoOpCacheHandler {
    open spec fn valid(&self) -> bool {
        true
    }

    open spec fn may_get(
        pre: Self,
        post: Self,
        key: Seq<char>,
        result: Result<Option<Vec<u8>>, CacheError>,
    ) -> bool {
        result == Ok::<Option<Vec<u8>>, CacheError>(None)
    }

    open spec fn may_set(
        pre: Self,
        post: Self,
        key: Seq<char>,
        value: Seq<u8>,
        ttl_secs: u64,
        tags: Seq<Seq<char>>,
        result: Result<(), CacheError>,
    ) -> bool {
        result is Ok
    }

    open spec fn may_invalidate(
        pre: Self,
        post: Self,
        key: Seq<char>,
        result: Result<(), CacheError>,
    ) -> bool {
        result is Ok
    }

    open spec fn may_invalidate_by_tag(
        pre: Self,
        post: Self,
        tag: Seq<char>,
        result: Result<(), CacheError>,
    ) -> bool {
        result is Ok
    }

    open spec fn may_clear(pre: Self, post: Self, result: Result<(), CacheError>) -> bool {
        result is Ok
    }

    open spec fn may_list(&self, keys: Seq<String>) -> bool {
        keys.len() == 0
    }

    fn get(&mut self, _key: &str) -> (result: Result<Option<Vec<u8>>, CacheError>)
        ensures
            Self::may_get(*old(self), *final(self), _key@, result),
    {
        Ok(None)
    }

    fn set(&mut self, _key: &str, _value: Vec<u8>, _ttl_secs: u64) -> (result: Result<
        (),
        CacheError,
    >)
        ensures
            Self::may_set(
                *old(self),
                *final(self),
                _key@,
                _value@,
                _ttl_secs,
                Seq::empty(),
                result,
            ),
    {
        Ok(())
    }

    fn set_with_tags(
        &mut self,
        _key: &str,
        _value: Vec<u8>,
        _ttl_secs: u64,
        _tags: &[String],
    ) -> (result: Result<(), CacheError>)
        ensures
            Self::may_set(
                *old(self),
                *final(self),
                _key@,
                _value@,
                _ttl_secs,
                crate::text::texts(_tags@),
                result,
            ),
    {
        Ok(())
    }

    fn invalidate(&mut self, _key: &str) -> (result: Result<(), CacheError>)
        ensures
            Self::may_invalidate(*old(self), *final(self), _key@, result),
    {
        Ok(())
    }

    fn invalidate_by_tag(&mut self, _tag: &str) -> (result: Result<(), CacheError>)
        ensures
            Self::may_invalidate_by_tag(*old(self), *final(self), _tag@, result),
    {
        Ok(())
    }

    fn clear(&mut self) -> (result: Result<(), CacheError>)
        ensures
            Self::may_clear(*old(self), *final(self), result),
    {
        Ok(())
    }

    fn get_all_keys(&self) -> (keys: Vec<String>)
        ensures
            self.may_list(keys@),
    {
        Vec::new()
    }
}

/// A handler that keeps nothing never fails, finds nothing under any key, whatever was stored
/// before, and lists no key.
pub proof fn law_nothing_is_kept(
    before: NoOpCacheHandler,
    after: NoOpCacheHandler,
    name: Seq<char>,
    value: Seq<u8>,
    ttl_secs: u64,
    tags: Seq<Seq<char>>,
    found: Result<Option<Vec<u8>>, CacheError>,
    done: Result<(), CacheError>,
    keys: Seq<String>,
)
    ensures
        NoOpCacheHandler::may_get(before, after, name, found) ==> (found matches Ok(None)),
        NoOpCacheHandler::may_set(before, after, name, value, ttl_secs, tags, done) ==> done is Ok,
        NoOpCacheHandler::may_invalidate(before, after, name, done) ==> done is Ok,
        NoOpCacheHandler::may_invalidate_by_tag(before, after, name, done) ==> done is Ok,
        NoOpCacheHandler::may_clear(before, after, done) ==> done is Ok,
        after.may_list(keys) ==> keys.len() == 0,
{
}

} // verus!
