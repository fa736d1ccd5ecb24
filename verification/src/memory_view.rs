//! What a memory cache does, as a function on the entries it holds and the order of their use.

use crate::text::{
    excluding, lemma_excluding_push, lemma_filter_agree, lemma_filter_all, lemma_filter_members,
    lemma_filter_no_duplicates, lemma_push_members, lemma_push_no_duplicates, lemma_without_absent,
    lemma_without_members, lemma_without_no_duplicates, without,
};
use vstd::prelude::*;

verus! {

/// How many nanoseconds a second has.
pub const NANOS_PER_SEC: u128 = 1_000_000_000;

/// What is stored under a key, as the contracts see it.
pub struct EntryView {
    /// The stored bytes.
    pub bytes: Seq<u8>,
    /// The clock reading from which on the entry has expired; none for one that never does.
    pub expires_at: Option<u128>,
    /// The groups that the key belongs to.
    pub tags: Seq<Seq<char>>,
}

impl EntryView {
    /// Whether the entry has expired at the clock reading `now`.
    pub open spec fn expired(self, now: u128) -> bool {
        self.expires_at matches Some(t) && now >= t
    }
}

/// The clock reading from which on an entry stored at `now` for `ttl_secs` seconds has expired:
/// none where the sum is beyond every reading, so that the entry never expires.
pub open spec fn deadline(now: u128, ttl_secs: u64) -> Option<u128> {
    if now + ttl_secs * NANOS_PER_SEC <= u128::MAX {
        Some((now + ttl_secs * NANOS_PER_SEC) as u128)
    } else {
        None
    }
}

/// The entry that storing `value` at the clock reading `now` makes.
pub open spec fn new_entry(
    value: Seq<u8>,
    ttl_secs: u64,
    tags: Seq<Seq<char>>,
    now: u128,
) -> EntryView {
    EntryView { bytes: value, expires_at: deadline(now, ttl_secs), tags }
}

/// A memory cache as the contracts see it.
pub struct MemoryView {
    /// What is stored under each key.
    pub entries: Map<Seq<char>, EntryView>,
    /// The keys, the least recently used first.
    pub order: Seq<Seq<char>>,
    /// How many entries are held at most.
    pub max_entries: nat,
}

impl MemoryView {
    /// The order lists each key once, and there is room for every entry.
    pub open spec fn wf(self) -> bool {
        &&& self.order.no_duplicates()
        &&& forall|key: Seq<char>| #[trigger]
            self.order.contains(key) <==> self.entries.contains_key(key)
        &&& self.order.len() <= self.max_entries
        &&& self.max_entries >= 1
    }

    /// Whether a lookup of `key` at the clock reading `now` finds something.
    pub open spec fn live(self, key: Seq<char>, now: u128) -> bool {
        self.entries.contains_key(key) && !self.entries[key].expired(now)
    }

    /// What a lookup of `key` at the clock reading `now` finds.
    pub open spec fn found(self, key: Seq<char>, now: u128) -> Option<Seq<u8>> {
        if self.live(key, now) {
            Some(self.entries[key].bytes)
        } else {
            None
        }
    }

    /// The cache without `key`.
    pub open spec fn removed(self, key: Seq<char>) -> Self {
        MemoryView {
            entries: self.entries.remove(key),
            order: without(self.order, key),
            ..self
        }
    }

    /// The cache after a lookup: what was found is the most recently used, what has expired is
    /// gone.
    pub open spec fn after_get(self, key: Seq<char>, now: u128) -> Self {
        if self.live(key, now) {
            MemoryView { order: without(self.order, key).push(key), ..self }
        } else {
            self.removed(key)
        }
    }

    /// The key that makes room before anything is stored: the least recently used one of a full
    /// cache.
    pub open spec fn victim(self) -> Option<Seq<char>> {
        if self.order.len() >= self.max_entries && self.order.len() > 0 {
            Some(self.order.first())
        } else {
            None
        }
    }

    /// The cache after `victim` has made room.
    pub open spec fn with_room(self) -> Self {
        match self.victim() {
            Some(key) => MemoryView {
                entries: self.entries.remove(key),
                order: self.order.drop_first(),
                ..self
            },
            None => self,
        }
    }

    /// The cache after `entry` has been stored under `key`.
    pub open spec fn after_set(self, key: Seq<char>, entry: EntryView) -> Self {
        let roomy = self.with_room();
        MemoryView {
            entries: roomy.entries.insert(key, entry),
            order: without(roomy.order, key).push(key),
            ..self
        }
    }

    /// Whether `key` is held and belongs to the group `tag`.
    pub open spec fn tagged(self, key: Seq<char>, tag: Seq<char>) -> bool {
        self.entries.contains_key(key) && self.entries[key].tags.contains(tag)
    }

    /// The cache without the keys of the group `tag`.
    pub open spec fn untagged(self, tag: Seq<char>) -> Self {
        MemoryView {
            entries: self.entries.remove_keys(Set::new(|key: Seq<char>| self.tagged(key, tag))),
            order: self.order.filter(|key: Seq<char>| !self.tagged(key, tag)),
            ..self
        }
    }

    /// The cache without any of `keys`.
    pub open spec fn removed_all(self, keys: Seq<Seq<char>>) -> Self {
        MemoryView {
            entries: self.entries.remove_keys(keys.to_set()),
            order: excluding(self.order, keys),
            ..self
        }
    }

    /// The cache with nothing in it.
    pub open spec fn emptied(self) -> Self {
        MemoryView { entries: Map::empty(), order: Seq::empty(), ..self }
    }
}

/// Taking a key out keeps a cache in order.
pub proof fn law_removed_keeps_order(cache: MemoryView, key: Seq<char>)
    requires
        cache.wf(),
    ensures
        cache.removed(key).wf(),
        !cache.entries.contains_key(key) ==> cache.removed(key) == cache,
{
    lemma_without_members(cache.order, key);
    lemma_without_no_duplicates(cache.order, key);
    if !cache.entries.contains_key(key) {
        assert(!cache.order.contains(key));
        lemma_without_absent(cache.order, key);
        assert(cache.entries.remove(key) =~= cache.entries);
    }
}

/// A lookup keeps a cache in order.
pub proof fn law_get_keeps_order(cache: MemoryView, key: Seq<char>, now: u128)
    requires
        cache.wf(),
    ensures
        cache.after_get(key, now).wf(),
{
    law_removed_keeps_order(cache, key);
    if cache.live(key, now) {
        lemma_used(cache.order, key);
        assert(cache.order.contains(key));
    }
}

/// A key that has just been used comes last, and the others keep their order.
proof fn lemma_used(order: Seq<Seq<char>>, key: Seq<char>)
    requires
        order.no_duplicates(),
    ensures
        without(order, key).push(key).no_duplicates(),
        forall|k: Seq<char>| #[trigger]
            without(order, key).push(key).contains(k) <==> order.contains(k) || k == key,
        without(order, key).len() == order.len() - if order.contains(key) {
            1int
        } else {
            0
        },
{
    lemma_without_members(order, key);
    lemma_without_no_duplicates(order, key);
    lemma_push_no_duplicates(without(order, key), key);
    assert forall|k: Seq<char>| #[trigger]
        without(order, key).push(key).contains(k) <==> order.contains(k) || k == key by {
        lemma_push_members(without(order, key), key, k);
    }
}

/// Storing something keeps a cache in order: what is stored is the most recently used, and there
/// is still room for every entry.
pub proof fn law_set_keeps_order(cache: MemoryView, key: Seq<char>, entry: EntryView)
    requires
        cache.wf(),
    ensures
        cache.after_set(key, entry).wf(),
        cache.after_set(key, entry).order.last() == key,
{
    let roomy = cache.with_room();
    assert(roomy.order.no_duplicates());
    assert forall|k: Seq<char>| #[trigger] roomy.order.contains(k) <==> roomy.entries.contains_key(
        k,
    ) by {
        if cache.victim() is Some {
            let rest = cache.order.drop_first();
            assert(cache.order.contains(k) <==> cache.entries.contains_key(k));
            if rest.contains(k) {
                let i = rest.index_of(k);
                assert(cache.order[i + 1] == k);
            }
            if cache.order.contains(k) && k != cache.order.first() {
                let i = cache.order.index_of(k);
                assert(rest[i - 1] == k);
            }
        }
    }
    lemma_used(roomy.order, key);
    assert(roomy.order.len() < cache.max_entries);
}

/// Taking out no key changes nothing.
pub(crate) proof fn lemma_removed_none(cache: MemoryView)
    ensures
        cache.removed_all(Seq::empty()) == cache,
{
    let none = Seq::<Seq<char>>::empty();
    lemma_filter_all(cache.order, |key: Seq<char>| !none.contains(key));
    assert(cache.entries.remove_keys(none.to_set()) =~= cache.entries);
}

/// Taking out one key after others is taking out all of them.
pub(crate) proof fn lemma_removed_one_more(
    cache: MemoryView,
    keys: Seq<Seq<char>>,
    key: Seq<char>,
)
    ensures
        cache.removed_all(keys).removed(key) == cache.removed_all(keys.push(key)),
{
    let more = keys.push(key);
    assert forall|k: Seq<char>| #[trigger] more.contains(k) <==> keys.contains(k) || k == key by {
        lemma_push_members(keys, key, k);
    }
    lemma_excluding_push(cache.order, keys, key);
    assert(cache.entries.remove_keys(keys.to_set()).remove(key) =~= cache.entries.remove_keys(
        more.to_set(),
    ));
}

/// Taking out the keys of a group is dropping the group.
pub(crate) proof fn lemma_removed_group(cache: MemoryView, keys: Seq<Seq<char>>, tag: Seq<char>)
    requires
        cache.wf(),
        forall|key: Seq<char>| #[trigger] keys.contains(key) <==> cache.tagged(key, tag),
    ensures
        cache.removed_all(keys) == cache.untagged(tag),
{
    lemma_filter_agree(
        cache.order,
        |key: Seq<char>| !keys.contains(key),
        |key: Seq<char>| !cache.tagged(key, tag),
    );
    let group = Set::new(|key: Seq<char>| cache.tagged(key, tag));
    assert(keys.to_set() =~= group);
}

/// Dropping a group keeps a cache in order.
pub proof fn law_untagged_keeps_order(cache: MemoryView, tag: Seq<char>)
    requires
        cache.wf(),
    ensures
        cache.untagged(tag).wf(),
{
    let keep = |key: Seq<char>| !cache.tagged(key, tag);
    lemma_filter_members(cache.order, keep);
    lemma_filter_no_duplicates(cache.order, keep);
}

/// What is stored is found so long as it has not expired, whatever the cache held before.
pub proof fn law_set_is_found(cache: MemoryView, key: Seq<char>, entry: EntryView)
    ensures
        forall|now: u128| #[trigger]
            cache.after_set(key, entry).found(key, now) == if entry.expired(now) {
                None
            } else {
                Some(entry.bytes)
            },
{
}

/// What is stored for some seconds has not expired before they have passed, and has from then on.
/// What is stored for no time at all is never found.
pub proof fn law_expires_after_its_time(
    value: Seq<u8>,
    ttl_secs: u64,
    tags: Seq<Seq<char>>,
    stored: u128,
    now: u128,
)
    requires
        stored <= now,
    ensures
        new_entry(value, ttl_secs, tags, stored).expired(now) <==> now - stored >= ttl_secs
            * NANOS_PER_SEC,
        ttl_secs == 0 ==> new_entry(value, ttl_secs, tags, stored).expired(now),
{
}

/// Storing something touches no other key but the one that makes room for it.
pub proof fn law_set_keeps_others(
    cache: MemoryView,
    key: Seq<char>,
    entry: EntryView,
    other: Seq<char>,
)
    requires
        other != key,
        cache.victim() != Some(other),
    ensures
        cache.after_set(key, entry).entries.contains_key(other)
            == cache.entries.contains_key(other),
        cache.entries.contains_key(other) ==> cache.after_set(key, entry).entries[other]
            == cache.entries[other],
{
}

/// A full cache makes room by dropping the key that was not used for the longest time; a cache
/// that is not full drops nothing.
pub proof fn law_least_recently_used_makes_room(
    cache: MemoryView,
    key: Seq<char>,
    entry: EntryView,
)
    requires
        cache.wf(),
    ensures
        cache.order.len() < cache.max_entries ==> cache.victim() is None,
        cache.order.len() == cache.max_entries ==> cache.victim() == Some(cache.order.first()),
        forall|victim: Seq<char>|
            cache.victim() == Some(victim) && victim != key ==> !#[trigger] cache.after_set(
                key,
                entry,
            ).entries.contains_key(victim),
{
}

/// A key that has just been found does not make room for the next one, unless there is room for
/// one only.
pub proof fn law_just_used_stays(
    cache: MemoryView,
    used: Seq<char>,
    now: u128,
    key: Seq<char>,
    entry: EntryView,
)
    requires
        cache.wf(),
        cache.max_entries >= 2,
        cache.live(used, now),
        key != used,
    ensures
        cache.after_get(used, now).after_set(key, entry).entries.contains_key(used),
        cache.after_get(used, now).after_set(key, entry).entries[used] == cache.entries[used],
{
    law_get_keeps_order(cache, used, now);
    let after = cache.after_get(used, now);
    assert(after.order.last() == used);
    if after.victim() == Some(used) {
        assert(after.order[0] == after.order[after.order.len() - 1]);
    }
    law_set_keeps_others(after, key, entry, used);
}

/// A key that has been dropped is not found, every other key stays as it is, and dropping it
/// once more changes nothing.
pub proof fn law_removed_is_not_found(
    cache: MemoryView,
    key: Seq<char>,
    other: Seq<char>,
    now: u128,
)
    requires
        cache.wf(),
    ensures
        cache.removed(key).found(key, now) is None,
        other != key ==> cache.removed(key).found(other, now) == cache.found(other, now),
        cache.removed(key).removed(key) == cache.removed(key),
{
    law_removed_keeps_order(cache, key);
    law_removed_keeps_order(cache.removed(key), key);
}

/// Dropping a group drops the keys that belong to it, and leaves every other key as it is.
pub proof fn law_group_is_dropped(cache: MemoryView, tag: Seq<char>, key: Seq<char>, now: u128)
    ensures
        cache.untagged(tag).found(key, now) == if cache.tagged(key, tag) {
            None
        } else {
            cache.found(key, now)
        },
{
}

/// A key that is stored anew belongs to the groups that it is stored with, and to no others.
pub proof fn law_groups_are_replaced(
    cache: MemoryView,
    key: Seq<char>,
    entry: EntryView,
    tag: Seq<char>,
)
    ensures
        cache.after_set(key, entry).tagged(key, tag) <==> entry.tags.contains(tag),
{
}

/// A cache never holds more entries than it has room for.
pub proof fn law_never_too_many(cache: MemoryView)
    requires
        cache.wf(),
    ensures
        cache.entries.dom().finite(),
        cache.entries.dom().len() <= cache.max_entries,
{
    cache.order.unique_seq_to_set();
    assert(cache.order.to_set() =~= cache.entries.dom());
}

/// A lookup changes nothing but the order of use, unless what it comes to has expired.
pub proof fn law_get_keeps_entries(cache: MemoryView, key: Seq<char>, now: u128)
    ensures
        cache.after_get(key, now).entries == if cache.live(key, now) {
            cache.entries
        } else {
            cache.entries.remove(key)
        },
{
}

/// An emptied cache finds nothing, and is in order.
pub proof fn law_emptied_finds_nothing(cache: MemoryView, key: Seq<char>, now: u128)
    requires
        cache.wf(),
    ensures
        cache.emptied().wf(),
        cache.emptied().found(key, now) is None,
{
}

} // verus!
