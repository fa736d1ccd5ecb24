//! What a memory cache is for, said of its entries, of the order of their use and of what a lookup
//! finds.

use crate::clock::{nanos_of, span_between};
use crate::error::CacheError;
use crate::handler::CacheHandler;
use crate::memory::MemoryCacheHandler;
use crate::memory_view::{
    law_get_keeps_order, law_removed_keeps_order, law_set_keeps_order, law_untagged_keeps_order,
    new_entry, EntryView, MemoryView,
};
use crate::text::{
    lemma_filter_members, lemma_push_members, lemma_without_absent, lemma_without_members,
    lemma_without_no_duplicates, without,
};
use std::time::Instant;
use vstd::prelude::*;

verus! {

/// Whether `a` stands somewhere before `b`.
spec fn precedes<A>(s: Seq<A>, a: A, b: A) -> bool {
    exists|i: int, j: int| 0 <= i < j < s.len() && #[trigger] s[i] == a && #[trigger] s[j] == b
}

/// What stands before something else in a filtered sequence stands before it in the whole one.
proof fn lemma_filter_precedes<A>(s: Seq<A>, p: spec_fn(A) -> bool, i: int, j: int)
    requires
        0 <= i < j < s.filter(p).len(),
    ensures
        precedes(s, s.filter(p)[i], s.filter(p)[j]),
    decreases s.len(),
{
    reveal(Seq::filter);
    let rest = s.drop_last();
    let kept = rest.filter(p);
    if j < kept.len() {
        lemma_filter_precedes(rest, p, i, j);
        let (a, b) = choose|a: int, b: int|
            0 <= a < b < rest.len() && #[trigger] rest[a] == kept[i] && #[trigger] rest[b]
                == kept[j];
        assert(s[a] == kept[i] && s[b] == kept[j]);
    } else {
        lemma_filter_members(rest, p);
        assert(kept.contains(kept[i]));
        let a = rest.index_of(kept[i]);
        assert(s[a] == kept[i] && s[s.len() - 1] == s.last());
    }
}

/// Where nothing occurs twice, what stands before something else has the smaller index.
proof fn lemma_precedes_index<A>(s: Seq<A>, a: A, b: A)
    requires
        s.no_duplicates(),
        precedes(s, a, b),
    ensures
        s.index_of(a) < s.index_of(b),
{
    let (i, j) = choose|i: int, j: int|
        0 <= i < j < s.len() && #[trigger] s[i] == a && #[trigger] s[j] == b;
    assert(s.contains(a) && s.contains(b));
    assert(s[s.index_of(a)] == s[i]);
    assert(s[s.index_of(b)] == s[j]);
}

/// Two members of two sequences stand in the same order in both, if what stands before something
/// else in one stands before it in the other.
proof fn lemma_same_order<A>(whole: Seq<A>, part: Seq<A>, a: A, b: A)
    requires
        whole.no_duplicates(),
        part.no_duplicates(),
        part.contains(a),
        part.contains(b),
        part.index_of(a) < part.index_of(b) ==> precedes(whole, a, b),
        part.index_of(b) < part.index_of(a) ==> precedes(whole, b, a),
    ensures
        whole.index_of(a) < whole.index_of(b) <==> part.index_of(a) < part.index_of(b),
{
    if part.index_of(a) < part.index_of(b) {
        lemma_precedes_index(whole, a, b);
    } else if part.index_of(b) < part.index_of(a) {
        lemma_precedes_index(whole, b, a);
    } else {
        assert(part[part.index_of(a)] == a && part[part.index_of(b)] == b);
    }
}

/// What was used before something else stays so when another key is used.
proof fn lemma_used_precedes<A>(order: Seq<A>, key: A, a: A, b: A)
    requires
        order.no_duplicates(),
        a != key,
        b != key,
        without(order, key).push(key).contains(a),
        without(order, key).push(key).contains(b),
        without(order, key).push(key).index_of(a) < without(order, key).push(key).index_of(b),
    ensures
        precedes(order, a, b),
{
    let rest = without(order, key);
    let used = rest.push(key);
    let i = used.index_of(a);
    let j = used.index_of(b);
    assert(used[i] == a && used[j] == b);
    assert(j < rest.len());
    lemma_filter_precedes(order, |x: A| x != key, i, j);
}

/// A lookup finds the bytes that lie under the key, so long as they have not expired, and nothing
/// else.
pub proof fn law_found_is_what_lies_there(cache: MemoryView, key: Seq<char>, now: u128)
    ensures
        match cache.found(key, now) {
            Some(bytes) => {
                &&& cache.entries.contains_key(key)
                &&& cache.entries[key].bytes == bytes
                &&& cache.entries[key].expires_at matches Some(t) ==> now < t
            },
            None => cache.entries.contains_key(key) ==> cache.entries[key].expires_at is Some
                && now >= cache.entries[key].expires_at.unwrap(),
        },
{
}

/// What is stored, whatever its bytes, its groups and the cache, is found byte for byte until as
/// many seconds have passed as it was stored for, and not from then on; its key is then the one
/// used last, and carries the groups that were asked for.
pub proof fn law_stored_is_found(
    cache: MemoryView,
    key: Seq<char>,
    value: Seq<u8>,
    ttl_secs: u64,
    tags: Seq<Seq<char>>,
    stored: u128,
    now: u128,
)
    requires
        cache.wf(),
    ensures
        cache.after_set(key, new_entry(value, ttl_secs, tags, stored)).found(key, now) == if now
            < stored + ttl_secs * 1_000_000_000 {
            Some(value)
        } else {
            None
        },
        cache.after_set(key, new_entry(value, ttl_secs, tags, stored)).order.last() == key,
        cache.after_set(key, new_entry(value, ttl_secs, tags, stored)).entries.contains_key(key),
        cache.after_set(key, new_entry(value, ttl_secs, tags, stored)).entries[key].tags == tags,
        cache.after_set(key, new_entry(value, ttl_secs, tags, stored)).max_entries
            == cache.max_entries,
{
    law_set_keeps_order(cache, key, new_entry(value, ttl_secs, tags, stored));
}

/// Storing under a key leaves what lies under every other key as it is. The one exception is the
/// key that was not used for the longest time, which goes exactly if the cache is full. No other
/// key comes in, and there is never more than there is room for.
pub proof fn law_set_drops_the_oldest_alone(
    cache: MemoryView,
    key: Seq<char>,
    entry: EntryView,
    other: Seq<char>,
)
    requires
        cache.wf(),
        other != key,
    ensures
        ({
            let after = cache.after_set(key, entry);
            let goes = cache.order.len() == cache.max_entries && cache.order[0] == other;
            &&& after.entries.contains_key(other) <==> cache.entries.contains_key(other) && !goes
            &&& after.entries.contains_key(other) ==> after.entries[other] == cache.entries[other]
            &&& after.order.contains(other) <==> after.entries.contains_key(other)
            &&& after.order.no_duplicates()
            &&& after.order.len() <= cache.max_entries
        }),
{
    law_set_keeps_order(cache, key, entry);
}

/// Storing under a key leaves all the other keys that stay in the order in which they were used.
pub proof fn law_set_keeps_relative_order(
    cache: MemoryView,
    key: Seq<char>,
    entry: EntryView,
    a: Seq<char>,
    b: Seq<char>,
)
    requires
        cache.wf(),
        a != key,
        b != key,
        cache.after_set(key, entry).order.contains(a),
        cache.after_set(key, entry).order.contains(b),
    ensures
        cache.order.contains(a),
        cache.order.contains(b),
        cache.after_set(key, entry).order.index_of(a) < cache.after_set(key, entry).order.index_of(b)
            <==> cache.order.index_of(a) < cache.order.index_of(b),
{
    law_set_keeps_order(cache, key, entry);
    let after = cache.after_set(key, entry).order;
    let roomy = cache.with_room().order;
    assert(roomy.no_duplicates());
    lemma_without_members(roomy, key);
    lemma_push_members(without(roomy, key), key, a);
    lemma_push_members(without(roomy, key), key, b);
    assert forall|x: Seq<char>| roomy.contains(x) implies cache.order.contains(x) by {
        let i = roomy.index_of(x);
        if cache.victim() is Some {
            assert(cache.order[i + 1] == x);
        }
    }
    assert forall|x: Seq<char>, y: Seq<char>| #[trigger] precedes(roomy, x, y) implies precedes(
        cache.order,
        x,
        y,
    ) by {
        let (i, j) = choose|i: int, j: int|
            0 <= i < j < roomy.len() && #[trigger] roomy[i] == x && #[trigger] roomy[j] == y;
        if cache.victim() is Some {
            assert(cache.order[i + 1] == x && cache.order[j + 1] == y);
        }
    }
    if after.index_of(a) < after.index_of(b) {
        lemma_used_precedes(roomy, key, a, b);
    }
    if after.index_of(b) < after.index_of(a) {
        lemma_used_precedes(roomy, key, b, a);
    }
    lemma_same_order(cache.order, after, a, b);
}

/// A cache after one thing after another has been stored in it.
pub open spec fn after_sets(cache: MemoryView, stores: Seq<(Seq<char>, EntryView)>) -> MemoryView
    decreases stores.len(),
{
    if stores.len() == 0 {
        cache
    } else {
        after_sets(cache, stores.drop_last()).after_set(stores.last().0, stores.last().1)
    }
}

/// A cache that was empty, and in which things have only been stored, each under a key of its own,
/// holds the ones that were stored last, as many as there is room for, in the order in which they
/// were stored.
pub proof fn law_last_stored_are_held(cache: MemoryView, stores: Seq<(Seq<char>, EntryView)>)
    requires
        cache.wf(),
        cache.order.len() == 0,
        forall|i: int, j: int|
            0 <= i < j < stores.len() ==> (#[trigger] stores[i]).0 != (#[trigger] stores[j]).0,
    ensures
        ({
            let after = after_sets(cache, stores);
            let gone = if stores.len() > cache.max_entries {
                stores.len() - cache.max_entries
            } else {
                0
            };
            &&& after.wf()
            &&& after.max_entries == cache.max_entries
            &&& after.order.len() == stores.len() - gone
            &&& forall|i: int|
                0 <= i < after.order.len() ==> #[trigger] after.order[i] == stores[gone + i].0
                    && after.entries[after.order[i]] == stores[gone + i].1
        }),
    decreases stores.len(),
{
    if stores.len() > 0 {
        let earlier = stores.drop_last();
        let (key, entry) = stores.last();
        law_last_stored_are_held(cache, earlier);
        let before = after_sets(cache, earlier);
        law_set_keeps_order(before, key, entry);
        let roomy = before.with_room().order;
        assert(!roomy.contains(key)) by {
            if roomy.contains(key) {
                let i = roomy.index_of(key);
                let at = if before.victim() is Some {
                    i + 1
                } else {
                    i
                };
                assert(before.order[at] == key);
            }
        }
        lemma_without_absent(roomy, key);
        let after = after_sets(cache, stores);
        let gone = if stores.len() > cache.max_entries {
            stores.len() - cache.max_entries
        } else {
            0
        };
        assert forall|i: int| 0 <= i < after.order.len() implies #[trigger] after.order[i]
            == stores[gone + i].0 && after.entries[after.order[i]] == stores[gone + i].1 by {
            if i < roomy.len() {
                let at = if before.victim() is Some {
                    i + 1
                } else {
                    i
                };
                assert(before.order[at] == roomy[i]);
                assert(after.order[i] == roomy[i]);
                assert(before.order[at] != key);
                if before.victim() is Some {
                    assert(before.order[0] != before.order[at]);
                }
            }
        }
    }
}

/// A lookup changes no answer: what is found under any key at any later reading of the clock is
/// what would have been found without it, in whatever groups the entries are.
pub proof fn law_get_changes_no_answer(
    cache: MemoryView,
    key: Seq<char>,
    now: u128,
    asked: Seq<char>,
    later: u128,
)
    requires
        cache.wf(),
        now <= later,
    ensures
        cache.after_get(key, now).found(asked, later) == cache.found(asked, later),
{
}

/// A lookup leaves every entry as it is, in its groups and with its time, but for the one it asks
/// for where that has expired, which goes. A key that is found is then the one used last, and all
/// the others stay in the order in which they were used.
pub proof fn law_get_keeps_what_it_finds(
    cache: MemoryView,
    key: Seq<char>,
    now: u128,
    a: Seq<char>,
    b: Seq<char>,
)
    requires
        cache.wf(),
    ensures
        ({
            let after = cache.after_get(key, now);
            let expired = cache.entries.contains_key(key) && (cache.entries[key].expires_at matches
                Some(t) && now >= t);
            &&& after.entries.contains_key(a) <==> cache.entries.contains_key(a) && !(a == key
                && expired)
            &&& after.entries.contains_key(a) ==> after.entries[a] == cache.entries[a]
            &&& after.order.contains(a) <==> after.entries.contains_key(a)
            &&& after.max_entries == cache.max_entries
            &&& cache.found(key, now) is Some ==> after.order.len() == cache.order.len()
                && after.order.last() == key
            &&& a != key && b != key && cache.order.contains(a) && cache.order.contains(b) ==> (
            after.order.index_of(a) < after.order.index_of(b) <==> cache.order.index_of(a)
                < cache.order.index_of(b))
        }),
{
    let after = cache.after_get(key, now);
    law_get_keeps_order(cache, key, now);
    assert(after.order.contains(a) <==> after.entries.contains_key(a));
    assert(cache.order.contains(key) <==> cache.entries.contains_key(key));
    lemma_without_members(cache.order, key);
    lemma_without_no_duplicates(cache.order, key);
    if a != key && b != key && cache.order.contains(a) && cache.order.contains(b) {
        if cache.live(key, now) {
            lemma_push_members(without(cache.order, key), key, a);
            lemma_push_members(without(cache.order, key), key, b);
            if after.order.index_of(a) < after.order.index_of(b) {
                lemma_used_precedes(cache.order, key, a, b);
            }
            if after.order.index_of(b) < after.order.index_of(a) {
                lemma_used_precedes(cache.order, key, b, a);
            }
            lemma_same_order(cache.order, after.order, a, b);
        } else {
            lemma_order_without(cache.order, key, a, b);
        }
    }
}

/// Filtering a sequence in which nothing occurs twice leaves what stays in its order.
proof fn lemma_kept_order<A>(s: Seq<A>, p: spec_fn(A) -> bool, a: A, b: A)
    requires
        s.no_duplicates(),
        s.filter(p).contains(a),
        s.filter(p).contains(b),
    ensures
        s.index_of(a) < s.index_of(b) <==> s.filter(p).index_of(a) < s.filter(p).index_of(b),
{
    crate::text::lemma_filter_no_duplicates(s, p);
    let kept = s.filter(p);
    let i = kept.index_of(a);
    let j = kept.index_of(b);
    assert(kept[i] == a && kept[j] == b);
    if i < j {
        lemma_filter_precedes(s, p, i, j);
    }
    if j < i {
        lemma_filter_precedes(s, p, j, i);
    }
    lemma_same_order(s, kept, a, b);
}

/// Leaving one item out of a sequence in which nothing occurs twice leaves the others in their
/// order.
proof fn lemma_order_without<A>(s: Seq<A>, item: A, a: A, b: A)
    requires
        s.no_duplicates(),
        without(s, item).contains(a),
        without(s, item).contains(b),
    ensures
        s.index_of(a) < s.index_of(b) <==> without(s, item).index_of(a) < without(s, item).index_of(
            b,
        ),
{
    lemma_kept_order(s, |x: A| x != item, a, b);
}

/// Two lookups of one key at one reading of the clock, or at any later one before the entry
/// expires, find the same.
pub proof fn law_get_finds_again(cache: MemoryView, key: Seq<char>, now: u128, later: u128)
    requires
        cache.wf(),
        now <= later,
        cache.entries.contains_key(key),
        cache.entries[key].expires_at matches Some(t) ==> later < t,
    ensures
        cache.found(key, now) == Some(cache.entries[key].bytes),
        cache.after_get(key, now).found(key, later) == Some(cache.entries[key].bytes),
{
}

/// Dropping a key drops it and nothing else: every other entry stays as it is, and the keys stay
/// in the order in which they were used.
pub proof fn law_drop_takes_one_key(
    cache: MemoryView,
    key: Seq<char>,
    a: Seq<char>,
    b: Seq<char>,
    now: u128,
)
    requires
        cache.wf(),
    ensures
        ({
            let after = cache.removed(key);
            &&& after.entries.contains_key(a) <==> cache.entries.contains_key(a) && a != key
            &&& after.entries.contains_key(a) ==> after.entries[a] == cache.entries[a]
            &&& after.order.contains(a) <==> after.entries.contains_key(a)
            &&& after.max_entries == cache.max_entries
            &&& after.found(key, now) is None
            &&& a != key ==> after.found(a, now) == cache.found(a, now)
            &&& a != key && b != key && cache.order.contains(a) && cache.order.contains(b) ==> (
            after.order.index_of(a) < after.order.index_of(b) <==> cache.order.index_of(a)
                < cache.order.index_of(b))
        }),
{
    law_removed_keeps_order(cache, key);
    let after = cache.removed(key);
    assert(after.order.contains(a) <==> after.entries.contains_key(a));
    lemma_without_members(cache.order, key);
    if a != key && b != key && cache.order.contains(a) && cache.order.contains(b) {
        lemma_order_without(cache.order, key, a, b);
    }
}

/// Dropping a group drops the keys whose entries carry its tag and nothing else: every other entry
/// stays as it is, and the keys stay in the order in which they were used.
pub proof fn law_group_drop_takes_the_group(
    cache: MemoryView,
    tag: Seq<char>,
    a: Seq<char>,
    b: Seq<char>,
    now: u128,
)
    requires
        cache.wf(),
    ensures
        ({
            let after = cache.untagged(tag);
            let goes = cache.entries.contains_key(a) && cache.entries[a].tags.contains(tag);
            &&& after.entries.contains_key(a) <==> cache.entries.contains_key(a) && !goes
            &&& after.entries.contains_key(a) ==> after.entries[a] == cache.entries[a]
            &&& after.order.contains(a) <==> after.entries.contains_key(a)
            &&& after.max_entries == cache.max_entries
            &&& goes ==> after.found(a, now) is None
            &&& !goes ==> after.found(a, now) == cache.found(a, now)
            &&& after.order.contains(a) && after.order.contains(b) ==> (after.order.index_of(a)
                < after.order.index_of(b) <==> cache.order.index_of(a) < cache.order.index_of(b))
        }),
{
    law_untagged_keeps_order(cache, tag);
    let after = cache.untagged(tag);
    assert(after.order.contains(a) <==> after.entries.contains_key(a));
    if after.order.contains(a) && after.order.contains(b) {
        lemma_kept_order(cache.order, |key: Seq<char>| !cache.tagged(key, tag), a, b);
    }
}

/// A key that is stored with tags goes with each group it was stored with, and with no other, even
/// where it was in other groups before.
pub proof fn law_stored_goes_with_its_groups(
    cache: MemoryView,
    key: Seq<char>,
    value: Seq<u8>,
    ttl_secs: u64,
    tags: Seq<Seq<char>>,
    stored: u128,
    tag: Seq<char>,
    now: u128,
)
    requires
        cache.wf(),
    ensures
        cache.after_set(key, new_entry(value, ttl_secs, tags, stored)).untagged(tag).found(key, now)
            == if tags.contains(tag) || now >= stored + ttl_secs * 1_000_000_000 {
            None
        } else {
            Some(value)
        },
{
    law_stored_is_found(cache, key, value, ttl_secs, tags, stored, now);
}

/// An emptied cache holds no key, and as much room as before.
pub proof fn law_emptied_holds_nothing(cache: MemoryView, key: Seq<char>, now: u128)
    ensures
        !cache.emptied().entries.contains_key(key),
        cache.emptied().order.len() == 0,
        cache.emptied().found(key, now) is None,
        cache.emptied().max_entries == cache.max_entries,
{
}

/// A lookup in a cache in memory never fails. It hands out the bytes that lie under the key, if
/// they have not expired at the reading of the clock, leaves every other entry as it is, and the
/// entry it found too.
pub proof fn law_handler_get(
    before: MemoryCacheHandler,
    after: MemoryCacheHandler,
    key: Seq<char>,
    result: Result<Option<Vec<u8>>, CacheError>,
    other: Seq<char>,
)
    requires
        before.wf(),
        MemoryCacheHandler::may_get(before, after, key, result),
    ensures
        exists|now: u128|
            {
                &&& #[trigger] before.reads(now)
                &&& match result {
                    Ok(Some(bytes)) => {
                        &&& before@.entries.contains_key(key)
                        &&& before@.entries[key].bytes == bytes@
                        &&& before@.entries[key].expires_at matches Some(t) ==> now < t
                        &&& after@.entries.contains_key(key)
                        &&& after@.entries[key] == before@.entries[key]
                    },
                    Ok(None) => {
                        &&& !after@.entries.contains_key(key)
                        &&& before@.entries.contains_key(key) ==> before@.entries[key].expires_at
                            is Some && now >= before@.entries[key].expires_at.unwrap()
                    },
                    Err(_) => false,
                }
            },
        other != key ==> after@.entries.contains_key(other) == before@.entries.contains_key(other)
            && (before@.entries.contains_key(other) ==> after@.entries[other]
            == before@.entries[other]),
        after@.max_entries == before@.max_entries,
        after.started_at() == before.started_at(),
{
    before.law_in_order();
    let now = choose|now: u128|
        {
            &&& before.reads(now)
            &&& result matches Ok(found) && crate::memory::seen(found)
                == #[trigger] before@.found(key, now)
            &&& after@ == before@.after_get(key, now)
        };
    assert(before.reads(now));
    law_found_is_what_lies_there(before@, key, now);
    law_get_keeps_what_it_finds(before@, key, now, key, key);
    law_get_keeps_what_it_finds(before@, key, now, other, other);
}

/// What is put in a cache in memory is handed out byte for byte, by the first lookup and by every
/// other one, until as many seconds have passed on the clock as it was put for; storing never
/// fails.
pub proof fn law_handler_set_then_get(
    before: MemoryCacheHandler,
    between: MemoryCacheHandler,
    after: MemoryCacheHandler,
    key: Seq<char>,
    value: Seq<u8>,
    ttl_secs: u64,
    tags: Seq<Seq<char>>,
    stored: Result<(), CacheError>,
    result: Result<Option<Vec<u8>>, CacheError>,
)
    requires
        before.wf(),
        between.wf(),
        MemoryCacheHandler::may_set(before, between, key, value, ttl_secs, tags, stored),
        MemoryCacheHandler::may_get(between, after, key, result),
    ensures
        stored is Ok,
        exists|put: u128, read: u128|
            {
                &&& #[trigger] before.reads(put)
                &&& #[trigger] between.reads(read)
                &&& match result {
                    Ok(Some(bytes)) => bytes@ == value && read < put + ttl_secs * 1_000_000_000,
                    Ok(None) => read >= put + ttl_secs * 1_000_000_000,
                    Err(_) => false,
                }
            },
{
    before.law_in_order();
    let put = choose|put: u128|
        {
            &&& before.reads(put)
            &&& between@ == before@.after_set(
                key,
                #[trigger] new_entry(value, ttl_secs, tags, put),
            )
        };
    let read = choose|now: u128|
        {
            &&& between.reads(now)
            &&& result matches Ok(found) && crate::memory::seen(found)
                == #[trigger] between@.found(key, now)
            &&& after@ == between@.after_get(key, now)
        };
    law_stored_is_found(before@, key, value, ttl_secs, tags, put, read);
    assert(before.reads(put) && between.reads(read));
}

/// Storing in a cache in memory leaves every other key as it is, but for the one that was not used
/// for the longest time, which goes exactly if the cache is full; the others stay in the order in
/// which they were used.
pub proof fn law_handler_set_keeps_others(
    before: MemoryCacheHandler,
    after: MemoryCacheHandler,
    key: Seq<char>,
    value: Seq<u8>,
    ttl_secs: u64,
    tags: Seq<Seq<char>>,
    stored: Result<(), CacheError>,
    a: Seq<char>,
    b: Seq<char>,
)
    requires
        before.wf(),
        MemoryCacheHandler::may_set(before, after, key, value, ttl_secs, tags, stored),
        a != key,
        b != key,
    ensures
        stored is Ok,
        after@.entries.contains_key(key),
        after@.entries[key].bytes == value,
        after@.entries[key].tags == tags,
        after@.order.last() == key,
        after@.entries.contains_key(a) <==> before@.entries.contains_key(a) && !(
        before@.order.len() == before@.max_entries && before@.order[0] == a),
        after@.entries.contains_key(a) ==> after@.entries[a] == before@.entries[a],
        after@.order.contains(a) && after@.order.contains(b) ==> (after@.order.index_of(a)
            < after@.order.index_of(b) <==> before@.order.index_of(a) < before@.order.index_of(b)),
        after@.max_entries == before@.max_entries,
        after.started_at() == before.started_at(),
{
    before.law_in_order();
    let put = choose|put: u128|
        {
            &&& before.reads(put)
            &&& after@ == before@.after_set(key, #[trigger] new_entry(value, ttl_secs, tags, put))
        };
    let entry = new_entry(value, ttl_secs, tags, put);
    law_stored_is_found(before@, key, value, ttl_secs, tags, put, put);
    law_set_keeps_order(before@, key, entry);
    law_set_drops_the_oldest_alone(before@, key, entry, a);
    if after@.order.contains(a) && after@.order.contains(b) {
        law_set_keeps_relative_order(before@, key, entry, a, b);
    }
}

/// Dropping a key, a group or everything never fails in a cache in memory, and takes away what it
/// names and nothing else.
pub proof fn law_handler_drops(
    before: MemoryCacheHandler,
    after: MemoryCacheHandler,
    name: Seq<char>,
    result: Result<(), CacheError>,
    other: Seq<char>,
)
    ensures
        MemoryCacheHandler::may_invalidate(before, after, name, result) ==> {
            &&& result is Ok
            &&& after@.entries.contains_key(other) <==> before@.entries.contains_key(other) && other
                != name
            &&& after@.entries.contains_key(other) ==> after@.entries[other]
                == before@.entries[other]
            &&& after@.max_entries == before@.max_entries
            &&& after.started_at() == before.started_at()
        },
        MemoryCacheHandler::may_invalidate_by_tag(before, after, name, result) ==> {
            &&& result is Ok
            &&& after@.entries.contains_key(other) <==> before@.entries.contains_key(other)
                && !before@.entries[other].tags.contains(name)
            &&& after@.entries.contains_key(other) ==> after@.entries[other]
                == before@.entries[other]
            &&& after@.max_entries == before@.max_entries
            &&& after.started_at() == before.started_at()
        },
        MemoryCacheHandler::may_clear(before, after, result) ==> {
            &&& result is Ok
            &&& !after@.entries.contains_key(other)
            &&& after@.order.len() == 0
            &&& after@.max_entries == before@.max_entries
            &&& after.started_at() == before.started_at()
        },
{
}

/// A cache in memory lists every key it holds, each of them once, and no other.
pub proof fn law_handler_lists_its_keys(cache: MemoryCacheHandler, keys: Seq<String>)
    requires
        cache.may_list(keys),
    ensures
        forall|i: int, j: int|
            0 <= i < j < keys.len() ==> #[trigger] keys[i]@ != #[trigger] keys[j]@,
        forall|i: int| 0 <= i < keys.len() ==> cache@.entries.contains_key(#[trigger] keys[i]@),
        forall|key: Seq<char>| #[trigger]
            cache@.entries.contains_key(key) ==> exists|i: int|
                0 <= i < keys.len() && #[trigger] keys[i]@ == key,
{
}

/// The clock of a cache reads the nanoseconds from the start of the cache to a point in time that
/// the machine's clock gave as the present, and the start is such a point too.
pub proof fn law_readings_are_of_the_clock(cache: MemoryCacheHandler, now: u128)
    ensures
        cache.reads(now) ==> exists|at: Instant|
            call_ensures(std::time::Instant::now, (), at) && now == nanos_of(
                #[trigger] span_between(cache.started_at(), at),
            ),
        cache.started_by_clock() ==> call_ensures(std::time::Instant::now, (), cache.started_at()),
{
    if cache.reads(now) {
        let at = choose|at: Instant|
            call_ensures(std::time::Instant::now, (), at) && now
                == #[trigger] crate::clock::nanos_between(cache.started_at(), at);
        assert(now == nanos_of(span_between(cache.started_at(), at)));
    }
}

} // verus!
