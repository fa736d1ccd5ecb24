//! A cache handler that keeps everything in memory.

use crate::clock::{nanos_between, nanos_from};
use crate::error::CacheError;
use crate::handler::CacheHandler;
use crate::keyed::{lists_domain, KeyedStore};
use crate::memory_view::{
    law_get_keeps_order, law_removed_keeps_order, law_set_keeps_order, lemma_removed_group,
    lemma_removed_none, lemma_removed_one_more, new_entry, EntryView, MemoryView, NANOS_PER_SEC,
};
use crate::recency::{
    limit_of, lru_clear, lru_len, lru_new, lru_pop, lru_pop_lru, lru_promote, lru_put, recency,
    within_address_space,
};
use crate::text::{
    lemma_push_members, lemma_texts_push, lemma_without_absent, lemma_without_members, texts,
    without,
};
use lru::LruCache;
use std::time::Instant;
use vstd::prelude::*;

verus! {

/// How a memory cache is set up.
#[derive(Debug)]
pub struct MemoryConfig {
    /// How many entries it holds at most; at least one is always held.
    pub max_entries: usize,
    /// For how many seconds entries are meant to be kept. The cache does not go by it: whoever
    /// stores an entry says how long it is kept.
    pub default_ttl: u64,
}

impl Clone for MemoryConfig {
    fn clone(&self) -> (copy: Self)
        ensures
            copy == *self,
    {
        MemoryConfig { max_entries: self.max_entries, default_ttl: self.default_ttl }
    }
}

impl Default for MemoryConfig {
    fn default() -> (config: Self)
        ensures
            config.max_entries == 1000,
            config.default_ttl == 31536000,
    {
        MemoryConfig { max_entries: 1000, default_ttl: 31536000 }
    }
}

/// What is stored under a key.
#[derive(Debug)]
struct MemEntry {
    bytes: Vec<u8>,
    expires_at: Option<u128>,
    tags: Vec<String>,
}

impl View for MemEntry {
    type V = EntryView;

    closed spec fn view(&self) -> EntryView {
        EntryView { bytes: self.bytes@, expires_at: self.expires_at, tags: texts(self.tags@) }
    }
}

/// The keys filed under each tag.
spec fn keys_by_tag(index: Map<Seq<char>, Vec<String>>) -> Map<Seq<char>, Seq<Seq<char>>> {
    index.map_values(|keys: Vec<String>| texts(keys@))
}

/// What is stored under each key.
spec fn entry_views(cache: Map<Seq<char>, MemEntry>) -> Map<Seq<char>, EntryView> {
    cache.map_values(|entry: MemEntry| entry@)
}

/// Whether a key is filed under a tag.
spec fn files(index: Map<Seq<char>, Seq<Seq<char>>>, tag: Seq<char>, key: Seq<char>) -> bool {
    index.contains_key(tag) && index[tag].contains(key)
}

/// Whether an entry carries a tag.
spec fn carries(entries: Map<Seq<char>, EntryView>, key: Seq<char>, tag: Seq<char>) -> bool {
    entries.contains_key(key) && entries[key].tags.contains(tag)
}

/// The index files exactly the keys whose entries carry a tag, and keeps no tag without a key.
spec fn index_agrees(
    index: Map<Seq<char>, Seq<Seq<char>>>,
    entries: Map<Seq<char>, EntryView>,
) -> bool {
    &&& forall|tag: Seq<char>, key: Seq<char>| #[trigger]
        files(index, tag, key) <==> carries(entries, key, tag)
    &&& forall|tag: Seq<char>| #[trigger] index.contains_key(tag) ==> index[tag].len() > 0
}

/// `after` is `before` with `key` no longer filed under any of `tags`; a tag that has no key left
/// is gone.
spec fn unfiled(
    before: Map<Seq<char>, Seq<Seq<char>>>,
    after: Map<Seq<char>, Seq<Seq<char>>>,
    key: Seq<char>,
    tags: Seq<Seq<char>>,
) -> bool {
    &&& forall|tag: Seq<char>| #[trigger]
        after.contains_key(tag) <==> before.contains_key(tag) && (tags.contains(tag) ==> without(
            before[tag],
            key,
        ).len() > 0)
    &&& forall|tag: Seq<char>| #[trigger]
        after.contains_key(tag) ==> after[tag] == if tags.contains(tag) {
            without(before[tag], key)
        } else {
            before[tag]
        }
}

/// `after` is `before` with `key` also filed under each of `tags`.
spec fn filed(
    before: Map<Seq<char>, Seq<Seq<char>>>,
    after: Map<Seq<char>, Seq<Seq<char>>>,
    key: Seq<char>,
    tags: Seq<Seq<char>>,
) -> bool {
    &&& forall|tag: Seq<char>, k: Seq<char>| #[trigger]
        files(after, tag, k) <==> files(before, tag, k) || (k == key && tags.contains(tag))
    &&& forall|tag: Seq<char>| #[trigger]
        after.contains_key(tag) ==> after[tag].len() > 0 || (before.contains_key(tag) && after[tag]
            == before[tag])
}

/// Once the key of an entry is no longer filed under its tags, the index agrees with the entries
/// without that one.
proof fn lemma_unfiled_agrees(
    before: Map<Seq<char>, Seq<Seq<char>>>,
    after: Map<Seq<char>, Seq<Seq<char>>>,
    entries: Map<Seq<char>, EntryView>,
    key: Seq<char>,
)
    requires
        index_agrees(before, entries),
        entries.contains_key(key),
        unfiled(before, after, key, entries[key].tags),
    ensures
        index_agrees(after, entries.remove(key)),
{
    let tags = entries[key].tags;
    let rest = entries.remove(key);
    assert forall|tag: Seq<char>, k: Seq<char>| #[trigger]
        files(after, tag, k) <==> carries(rest, k, tag) by {
        assert(files(before, tag, k) <==> carries(entries, k, tag));
        assert(files(before, tag, key) <==> carries(entries, key, tag));
        if before.contains_key(tag) {
            lemma_without_members(before[tag], key);
            if files(before, tag, k) && k != key && tags.contains(tag) {
                assert(without(before[tag], key).contains(k));
                assert(after.contains_key(tag));
            }
        }
        if after.contains_key(tag) {
            assert(before.contains_key(tag));
        }
    }
    assert forall|tag: Seq<char>| #[trigger] after.contains_key(tag) implies after[tag].len()
        > 0 by {
        assert(before.contains_key(tag));
    }
}

/// Once the key of a new entry is filed under its tags, the index agrees with the entries and
/// that one.
proof fn lemma_filed_agrees(
    before: Map<Seq<char>, Seq<Seq<char>>>,
    after: Map<Seq<char>, Seq<Seq<char>>>,
    entries: Map<Seq<char>, EntryView>,
    key: Seq<char>,
    entry: EntryView,
)
    requires
        index_agrees(before, entries),
        !entries.contains_key(key),
        filed(before, after, key, entry.tags),
    ensures
        index_agrees(after, entries.insert(key, entry)),
{
    let all = entries.insert(key, entry);
    assert forall|tag: Seq<char>, k: Seq<char>| #[trigger]
        files(after, tag, k) <==> carries(all, k, tag) by {
        assert(files(before, tag, k) <==> carries(entries, k, tag));
    }
    assert forall|tag: Seq<char>| #[trigger] after.contains_key(tag) implies after[tag].len()
        > 0 by {
        if before.contains_key(tag) {
            assert(before[tag].len() > 0);
        }
    }
}

/// One more tag under which a key is no longer filed.
proof fn lemma_unfiled_step(
    before: Map<Seq<char>, Seq<Seq<char>>>,
    start: Map<Seq<char>, Seq<Seq<char>>>,
    now: Map<Seq<char>, Seq<Seq<char>>>,
    key: Seq<char>,
    done: Seq<Seq<char>>,
    tag: Seq<char>,
)
    requires
        unfiled(before, start, key, done),
        now == if !start.contains_key(tag) {
            start
        } else if without(start[tag], key).len() == 0 {
            start.remove(tag)
        } else {
            start.insert(tag, without(start[tag], key))
        },
    ensures
        unfiled(before, now, key, done.push(tag)),
{
    assert forall|t: Seq<char>| #[trigger] done.push(tag).contains(t) <==> done.contains(t) || t
        == tag by {
        lemma_push_members(done, tag, t);
    }
    assert(done.push(tag).contains(tag));
    if start.contains_key(tag) && done.contains(tag) {
        lemma_without_members(before[tag], key);
        lemma_without_absent(without(before[tag], key), key);
    }
    assert forall|t: Seq<char>| #[trigger]
        now.contains_key(t) <==> before.contains_key(t) && (done.push(tag).contains(t) ==> without(
            before[t],
            key,
        ).len() > 0) by {
        assert(start.contains_key(t) <==> before.contains_key(t) && (done.contains(t) ==> without(
            before[t],
            key,
        ).len() > 0));
    }
}

/// One more tag under which a key is filed.
proof fn lemma_filed_step(
    before: Map<Seq<char>, Seq<Seq<char>>>,
    start: Map<Seq<char>, Seq<Seq<char>>>,
    now: Map<Seq<char>, Seq<Seq<char>>>,
    key: Seq<char>,
    done: Seq<Seq<char>>,
    tag: Seq<char>,
)
    requires
        filed(before, start, key, done),
        now == if start.contains_key(tag) {
            start.insert(tag, start[tag].push(key))
        } else {
            start.insert(tag, seq![key])
        },
    ensures
        filed(before, now, key, done.push(tag)),
{
    assert forall|t: Seq<char>, k: Seq<char>| #[trigger]
        files(now, t, k) <==> files(before, t, k) || (k == key && done.push(tag).contains(t)) by {
        lemma_push_members(done, tag, t);
        assert(files(start, t, k) <==> files(before, t, k) || (k == key && done.contains(t)));
        if t == tag {
            if start.contains_key(tag) {
                lemma_push_members(start[tag], key, k);
            } else {
                assert(seq![key][0] == key);
            }
        }
    }
}

/// A copy of a list of strings.
fn copied(list: &[String]) -> (copy: Vec<String>)
    ensures
        copy@ == list@,
{
    let mut copy: Vec<String> = Vec::new();
    for i in 0..list.len()
        invariant
            copy@ == list@.take(i as int),
    {
        copy.push(list[i].clone());
        assert(list@.take(i + 1) =~= list@.take(i as int).push(list@[i as int]));
    }
    assert(list@.take(list@.len() as int) =~= list@);
    copy
}

/// The strings of `list` other than `item`.
fn others(list: &Vec<String>, item: &String) -> (rest: Vec<String>)
    ensures
        texts(rest@) == without(texts(list@), item@),
{
    let mut rest: Vec<String> = Vec::new();
    proof {
        reveal(Seq::filter);
        assert(texts(list@.take(0)) =~= Seq::<Seq<char>>::empty());
        assert(texts(rest@) =~= Seq::<Seq<char>>::empty());
    }
    for i in 0..list.len()
        invariant
            texts(rest@) == without(texts(list@.take(i as int)), item@),
    {
        proof {
            reveal(Seq::filter);
            assert(list@.take(i + 1) =~= list@.take(i as int).push(list@[i as int]));
            lemma_texts_push(list@.take(i as int), list@[i as int]);
            assert(texts(list@.take(i + 1)).drop_last() =~= texts(list@.take(i as int)));
        }
        if list[i] != *item {
            proof {
                lemma_texts_push(rest@, list@[i as int]);
            }
            rest.push(list[i].clone());
        }
    }
    assert(list@.take(list@.len() as int) =~= list@);
    rest
}

/// A cache handler that keeps everything in memory. Once it holds `max_entries` entries, the least
/// recently used one makes room before something is stored.
#[derive(Debug)]
pub struct MemoryCacheHandler {
    cache: KeyedStore<MemEntry>,
    lru: LruCache<String, ()>,
    tag_index: KeyedStore<Vec<String>>,
    max_entries: usize,
    started: Instant,
}

impl View for MemoryCacheHandler {
    type V = MemoryView;

    closed spec fn view(&self) -> MemoryView {
        MemoryView {
            entries: entry_views(self.cache@),
            order: recency(self.lru),
            max_entries: self.max_entries as nat,
        }
    }
}

impl MemoryCacheHandler {
    /// The parts fit together, but for a key that is being stored.
    spec fn parts_fit(&self) -> bool {
        &&& self.cache.wf()
        &&& self.tag_index.wf()
        &&& limit_of(self.lru) == self.max_entries
        &&& index_agrees(keys_by_tag(self.tag_index@), entry_views(self.cache@))
    }

    /// The order lists each key that is held once, there is room for every entry, and the index of
    /// the tags files exactly the keys whose entries carry a tag.
    pub closed spec fn wf(&self) -> bool {
        &&& self.parts_fit()
        &&& self@.wf()
    }

    /// The point in time from which the readings of the clock are counted.
    pub closed spec fn started_at(&self) -> Instant {
        self.started
    }

    /// Whether the clock can read `now`: the nanoseconds from the start of the cache to a point in
    /// time that the machine's clock gives as the present.
    pub open spec fn reads(&self, now: u128) -> bool {
        exists|at: Instant|
            call_ensures(std::time::Instant::now, (), at) && now == #[trigger] nanos_between(
                self.started_at(),
                at,
            )
    }

    /// Whether the machine's clock gave the start of the cache, when the cache was made.
    pub open spec fn started_by_clock(&self) -> bool {
        call_ensures(std::time::Instant::now, (), self.started_at())
    }

    /// A cache that is well formed is in order: what `wf` says of the view.
    pub proof fn law_in_order(&self)
        requires
            self.wf(),
        ensures
            self@.wf(),
    {
    }

    /// A cache that holds nothing yet.
    pub fn with_config(config: MemoryConfig) -> (handler: Self)
        requires
            within_address_space(config.max_entries as nat),
        ensures
            handler.wf(),
            handler@.entries == Map::<Seq<char>, EntryView>::empty(),
            handler@.order == Seq::<Seq<char>>::empty(),
            handler@.max_entries == if config.max_entries == 0 {
                1
            } else {
                config.max_entries as nat
            },
            handler.started_by_clock(),
    {
        let max_entries: usize = if config.max_entries == 0 {
            1
        } else {
            config.max_entries
        };
        let handler = MemoryCacheHandler {
            cache: KeyedStore::new(),
            lru: lru_new(max_entries),
            tag_index: KeyedStore::new(),
            max_entries,
            started: Instant::now(),
        };
        assert(handler@.entries =~= Map::<Seq<char>, EntryView>::empty());
        assert(handler@.order =~= Seq::<Seq<char>>::empty());
        handler
    }

    /// How many entries are held.
    pub fn len(&self) -> (len: usize)
        requires
            self.wf(),
        ensures
            len == self@.entries.dom().len(),
            len <= self@.max_entries,
    {
        proof {
            assert(self@.entries.dom() =~= self.cache@.dom());
            self@.order.unique_seq_to_set();
            assert(self@.order.to_set() =~= self@.entries.dom());
        }
        self.cache.len()
    }

    /// Whether nothing is held.
    pub fn is_empty(&self) -> (empty: bool)
        ensures
            empty == (self@.entries == Map::<Seq<char>, EntryView>::empty()),
    {
        let empty = self.cache.is_empty();
        proof {
            assert(self@.entries.dom() =~= self.cache@.dom());
            if empty {
                assert(self@.entries =~= Map::<Seq<char>, EntryView>::empty());
            }
            if self@.entries == Map::<Seq<char>, EntryView>::empty() {
                assert(self.cache@ =~= Map::<Seq<char>, MemEntry>::empty());
            }
        }
        empty
    }

    /// How many entries are held at most.
    pub fn max_entries(&self) -> (max_entries: usize)
        ensures
            max_entries == self@.max_entries,
    {
        self.max_entries
    }

    /// Whether some entry carries `tag`.
    pub fn has_tag(&self, tag: &str) -> (found: bool)
        requires
            self.wf(),
        ensures
            found == exists|key: Seq<char>| self@.tagged(key, tag@),
            found == exists|key: Seq<char>| #[trigger]
                self@.entries.contains_key(key) && self@.entries[key].tags.contains(tag@),
    {
        let ghost index = keys_by_tag(self.tag_index@);
        let found = self.tag_index.contains_key(tag);
        proof {
            if found {
                let key = index[tag@].first();
                assert(files(index, tag@, key));
                assert(self@.tagged(key, tag@));
                assert(self@.entries.contains_key(key));
            }
            if exists|key: Seq<char>| #[trigger]
                self@.entries.contains_key(key) && self@.entries[key].tags.contains(tag@) {
                let key = choose|key: Seq<char>| #[trigger]
                    self@.entries.contains_key(key) && self@.entries[key].tags.contains(tag@);
                assert(self@.tagged(key, tag@));
            }
            if exists|key: Seq<char>| self@.tagged(key, tag@) {
                let key = choose|key: Seq<char>| self@.tagged(key, tag@);
                assert(carries(self@.entries, key, tag@));
                assert(files(index, tag@, key));
            }
        }
        found
    }

    /// No longer files `key` under any of `tags`.
    fn remove_from_tag_index(&mut self, key: &str, tags: &Vec<String>)
        requires
            old(self).tag_index.wf(),
        ensures
            final(self).tag_index.wf(),
            unfiled(
                keys_by_tag(old(self).tag_index@),
                keys_by_tag(final(self).tag_index@),
                key@,
                texts(tags@),
            ),
            final(self).cache == old(self).cache,
            final(self).lru == old(self).lru,
            final(self).max_entries == old(self).max_entries,
            final(self).started == old(self).started,
    {
        let name = key.to_owned();
        let ghost before = keys_by_tag(self.tag_index@);
        let mut i: usize = 0;
        assert(texts(tags@.take(0)) =~= Seq::<Seq<char>>::empty());
        while i < tags.len()
            invariant
                i <= tags.len(),
                name@ == key@,
                before == keys_by_tag(old(self).tag_index@),
                self.tag_index.wf(),
                unfiled(
                    before,
                    keys_by_tag(self.tag_index@),
                    key@,
                    texts(tags@.take(i as int)),
                ),
                self.cache == old(self).cache,
                self.lru == old(self).lru,
                self.max_entries == old(self).max_entries,
                self.started == old(self).started,
            decreases tags.len() - i,
        {
            let ghost done = texts(tags@.take(i as int));
            let ghost start = keys_by_tag(self.tag_index@);
            let tag = &tags[i];
            let drained = match self.tag_index.get_mut(tag) {
                Some(keys) => {
                    let rest = others(keys, &name);
                    let drained = rest.is_empty();
                    *keys = rest;
                    drained
                },
                None => false,
            };
            if drained {
                self.tag_index.remove(tag);
            }
            proof {
                let now = keys_by_tag(self.tag_index@);
                assert(tags@.take(i + 1) =~= tags@.take(i as int).push(*tag));
                lemma_texts_push(tags@.take(i as int), *tag);
                if !start.contains_key(tag@) {
                    assert(now =~= start);
                } else if drained {
                    assert(now =~= start.remove(tag@));
                } else {
                    assert(now =~= start.insert(tag@, without(start[tag@], key@)));
                }
                lemma_unfiled_step(before, start, now, key@, done, tag@);
            }
            i = i + 1;
        }
        assert(tags@.take(i as int) =~= tags@);
    }

    /// Files `key` under each of `tags`.
    fn add_to_tag_index(&mut self, key: &str, tags: &[String])
        requires
            old(self).tag_index.wf(),
        ensures
            final(self).tag_index.wf(),
            filed(
                keys_by_tag(old(self).tag_index@),
                keys_by_tag(final(self).tag_index@),
                key@,
                texts(tags@),
            ),
            final(self).cache == old(self).cache,
            final(self).lru == old(self).lru,
            final(self).max_entries == old(self).max_entries,
            final(self).started == old(self).started,
    {
        let ghost before = keys_by_tag(self.tag_index@);
        let mut i: usize = 0;
        assert(texts(tags@.take(0)) =~= Seq::<Seq<char>>::empty());
        while i < tags.len()
            invariant
                i <= tags.len(),
                before == keys_by_tag(old(self).tag_index@),
                self.tag_index.wf(),
                filed(before, keys_by_tag(self.tag_index@), key@, texts(tags@.take(i as int))),
                self.cache == old(self).cache,
                self.lru == old(self).lru,
                self.max_entries == old(self).max_entries,
                self.started == old(self).started,
            decreases tags.len() - i,
        {
            let ghost done = texts(tags@.take(i as int));
            let ghost start = keys_by_tag(self.tag_index@);
            let tag = &tags[i];
            let name = key.to_owned();
            let missing = match self.tag_index.get_mut(tag) {
                Some(keys) => {
                    proof {
                        lemma_texts_push(keys@, name);
                    }
                    keys.push(name.clone());
                    false
                },
                None => true,
            };
            if missing {
                let mut keys: Vec<String> = Vec::new();
                keys.push(name);
                assert(texts(keys@) =~= seq![key@]);
                self.tag_index.insert(tag, keys);
            }
            proof {
                let now = keys_by_tag(self.tag_index@);
                assert(tags@.take(i + 1) =~= tags@.take(i as int).push(*tag));
                lemma_texts_push(tags@.take(i as int), *tag);
                if missing {
                    assert(now =~= start.insert(tag@, seq![key@]));
                } else {
                    assert(now =~= start.insert(tag@, start[tag@].push(key@)));
                }
                lemma_filed_step(before, start, now, key@, done, tag@);
            }
            i = i + 1;
        }
        assert(tags@.take(i as int) =~= tags@);
    }

    /// Drops the least recently used entry and hands out its key.
    fn evict_lru(&mut self) -> (evicted: Option<String>)
        requires
            old(self).parts_fit(),
        ensures
            final(self).parts_fit(),
            final(self).max_entries == old(self).max_entries,
            final(self).started == old(self).started,
            match evicted {
                Some(key) => {
                    &&& old(self)@.order.len() > 0
                    &&& key@ == old(self)@.order.first()
                    &&& final(self)@.order == old(self)@.order.drop_first()
                    &&& final(self)@.entries == old(self)@.entries.remove(key@)
                },
                None => old(self)@.order.len() == 0 && final(self)@ == old(self)@,
            },
    {
        match lru_pop_lru(&mut self.lru) {
            Some(key) => {
                self.forget(&key);
                Some(key)
            },
            None => None,
        }
    }

    /// Takes the entry of `key` out of the cache and the index, and says whether there was one.
    fn forget(&mut self, key: &str) -> (found: bool)
        requires
            old(self).parts_fit(),
        ensures
            final(self).parts_fit(),
            final(self).lru == old(self).lru,
            final(self).max_entries == old(self).max_entries,
            final(self).started == old(self).started,
            found == old(self)@.entries.contains_key(key@),
            final(self)@.entries == old(self)@.entries.remove(key@),
    {
        let ghost before = entry_views(self.cache@);
        match self.cache.remove(key) {
            Some(entry) => {
                let ghost index = keys_by_tag(self.tag_index@);
                self.remove_from_tag_index(key, &entry.tags);
                proof {
                    assert(entry_views(self.cache@) =~= before.remove(key@));
                    lemma_unfiled_agrees(index, keys_by_tag(self.tag_index@), before, key@);
                }
                true
            },
            None => {
                assert(entry_views(self.cache@) =~= before);
                assert(before.remove(key@) =~= before);
                false
            },
        }
    }

    /// The reading of the clock: the nanoseconds since the handler was made.
    fn now(&self) -> (now: u128)
        ensures
            self.reads(now),
    {
        let at = Instant::now();
        let now = nanos_from(&self.started, &at);
        assert(now == nanos_between(self.started_at(), at));
        now
    }

    /// The bytes stored under `key`, if they are there and have not expired at the clock reading
    /// `now`. What is found becomes the most recently used; what has expired is dropped.
    pub fn get_at(&mut self, key: &str, now: u128) -> (result: Result<Option<Vec<u8>>, CacheError>)
        requires
            old(self).wf(),
        ensures
            final(self).wf(),
            result matches Ok(found) && seen(found) == old(self)@.found(key@, now),
            final(self)@ == old(self)@.after_get(key@, now),
            final(self).started_at() == old(self).started_at(),
            match result {
                Ok(Some(bytes)) => {
                    &&& old(self)@.entries.contains_key(key@)
                    &&& bytes@ == old(self)@.entries[key@].bytes
                    &&& old(self)@.entries[key@].expires_at matches Some(t) ==> now < t
                },
                Ok(None) => old(self)@.entries.contains_key(key@) ==> (
                old(self)@.entries[key@].expires_at matches Some(t) && now >= t),
                Err(_) => false,
            },
    {
        let snapshot = match self.cache.get(key) {
            Some(entry) => {
                let expired = match entry.expires_at {
                    Some(t) => now >= t,
                    None => false,
                };
                if expired {
                    None
                } else {
                    let bytes = entry.bytes.clone();
                    assert(bytes@ =~= entry.bytes@);
                    Some(bytes)
                }
            },
            None => None,
        };
        proof {
            law_get_keeps_order(self@, key@, now);
        }
        match snapshot {
            Some(bytes) => {
                assert(self@.order.contains(key@));
                lru_promote(&mut self.lru, key);
                Ok(Some(bytes))
            },
            None => {
                let _ = self.invalidate(key);
                Ok(None)
            },
        }
    }

    /// Stores `value` under `key` at the clock reading `now`, for `ttl_secs` seconds, as a member
    /// of each group in `tags`.
    pub fn set_with_tags_at(
        &mut self,
        key: &str,
        value: Vec<u8>,
        ttl_secs: u64,
        tags: &[String],
        now: u128,
    ) -> (result: Result<(), CacheError>)
        requires
            old(self).wf(),
        ensures
            final(self).wf(),
            result is Ok,
            final(self)@ == old(self)@.after_set(
                key@,
                new_entry(value@, ttl_secs, texts(tags@), now),
            ),
            final(self).started_at() == old(self).started_at(),
            final(self)@.entries.contains_key(key@),
            final(self)@.entries[key@].bytes == value@,
            final(self)@.entries[key@].tags.len() == tags@.len(),
            forall|i: int|
                0 <= i < tags@.len() ==> #[trigger] final(self)@.entries[key@].tags[i] == tags@[i]@,
            match final(self)@.entries[key@].expires_at {
                Some(t) => t == now + ttl_secs * 1_000_000_000,
                None => now + ttl_secs * 1_000_000_000 > u128::MAX,
            },
    {
        let ghost before = self@;
        let ghost entry_view = new_entry(value@, ttl_secs, texts(tags@), now);

        // The old entry goes first, so that no tag of it stays in the index.
        self.forget(key);

        if lru_len(&self.lru) >= self.max_entries {
            self.evict_lru();
        }
        proof {
            assert(self@.order == before.with_room().order);
            assert(self@.entries =~= before.with_room().entries.remove(key@));
        }

        let expires_at = if ttl_secs == 0 {
            Some(now)
        } else {
            now.checked_add(ttl_secs as u128 * NANOS_PER_SEC)
        };
        let entry = MemEntry { bytes: value, expires_at, tags: copied(tags) };
        let ghost entries = self@.entries;
        let ghost index = keys_by_tag(self.tag_index@);
        assert(entry@ == entry_view);
        self.cache.insert(key, entry);
        self.add_to_tag_index(key, tags);
        proof {
            assert(entry_views(self.cache@) =~= entries.insert(key@, entry_view));
            lemma_filed_agrees(
                index,
                keys_by_tag(self.tag_index@),
                entries,
                key@,
                entry_view,
            );
        }

        let ghost order = recency(self.lru);
        lru_put(&mut self.lru, key.to_owned());
        proof {
            law_set_keeps_order(before, key@, entry_view);
            if !order.contains(key@) {
                lemma_without_absent(order, key@);
            }
            assert(self@.entries =~= before.after_set(key@, entry_view).entries);
        }
        Ok(())
    }
}

/// The bytes of an answer.
pub open spec fn seen(found: Option<Vec<u8>>) -> Option<Seq<u8>> {
    match found {
        Some(bytes) => Some(bytes@),
        None => None,
    }
}

impl Default for MemoryCacheHandler {
    fn default() -> (handler: Self)
        ensures
            handler.wf(),
            handler@.entries == Map::<Seq<char>, EntryView>::empty(),
            handler@.order == Seq::<Seq<char>>::empty(),
            handler@.max_entries == 1000,
            handler.started_by_clock(),
    {
        MemoryCacheHandler::with_config(MemoryConfig::default())
    }
}

impl CacheHandler for MemoryCacheHandler {
    open spec fn valid(&self) -> bool {
        self.wf()
    }

    open spec fn may_get(
        pre: Self,
        post: Self,
        key: Seq<char>,
        result: Result<Option<Vec<u8>>, CacheError>,
    ) -> bool {
        post.started_at() == pre.started_at() && exists|now: u128|
            {
                &&& pre.reads(now)
                &&& result matches Ok(found) && seen(found) == #[trigger] pre@.found(key, now)
                &&& post@ == pre@.after_get(key, now)
            }
    }

    open spec fn may_set(
        pre: Self,
        post: Self,
        key: Seq<char>,
        value: Seq<u8>,
        ttl_secs: u64,
        tags: Seq<Seq<char>>,
        result: Result<(), CacheError>,
    ) -> bool {
        result is Ok && post.started_at() == pre.started_at() && exists|now: u128|
            {
                &&& pre.reads(now)
                &&& post@ == pre@.after_set(key, #[trigger] new_entry(value, ttl_secs, tags, now))
            }
    }

    open spec fn may_invalidate(
        pre: Self,
        post: Self,
        key: Seq<char>,
        result: Result<(), CacheError>,
    ) -> bool {
        result is Ok && post@ == pre@.removed(key) && post.started_at() == pre.started_at()
    }

    open spec fn may_invalidate_by_tag(
        pre: Self,
        post: Self,
        tag: Seq<char>,
        result: Result<(), CacheError>,
    ) -> bool {
        result is Ok && post@ == pre@.untagged(tag) && post.started_at() == pre.started_at()
    }

    open spec fn may_clear(pre: Self, post: Self, result: Result<(), CacheError>) -> bool {
        result is Ok && post@ == pre@.emptied() && post.started_at() == pre.started_at()
    }

    open spec fn may_list(&self, keys: Seq<String>) -> bool {
        lists_domain(keys, self@.entries.dom())
    }

    fn get(&mut self, key: &str) -> (result: Result<Option<Vec<u8>>, CacheError>)
        ensures
            Self::may_get(*old(self), *final(self), key@, result),
    {
        let now = self.now();
        self.get_at(key, now)
    }

    fn set(&mut self, key: &str, value: Vec<u8>, ttl_secs: u64) -> (result: Result<
        (),
        CacheError,
    >)
        ensures
            Self::may_set(
                *old(self),
                *final(self),
                key@,
                value@,
                ttl_secs,
                Seq::empty(),
                result,
            ),
    {
        let none: Vec<String> = Vec::new();
        assert(texts(none@) =~= Seq::empty());
        self.set_with_tags(key, value, ttl_secs, none.as_slice())
    }

    fn set_with_tags(&mut self, key: &str, value: Vec<u8>, ttl_secs: u64, tags: &[String]) -> (result:
        Result<(), CacheError>)
        ensures
            Self::may_set(
                *old(self),
                *final(self),
                key@,
                value@,
                ttl_secs,
                texts(tags@),
                result,
            ),
    {
        let now = self.now();
        self.set_with_tags_at(key, value, ttl_secs, tags, now)
    }

    fn invalidate(&mut self, key: &str) -> (result: Result<(), CacheError>)
        ensures
            Self::may_invalidate(*old(self), *final(self), key@, result),
    {
        proof {
            law_removed_keeps_order(self@, key@);
        }
        if self.forget(key) {
            lru_pop(&mut self.lru, key);
        }
        Ok(())
    }

    fn invalidate_by_tag(&mut self, tag: &str) -> (result: Result<(), CacheError>)
        ensures
            Self::may_invalidate_by_tag(*old(self), *final(self), tag@, result),
    {
        let keys: Vec<String> = match self.tag_index.get(tag) {
            Some(keys) => copied(keys.as_slice()),
            None => Vec::new(),
        };
        let ghost before = self@;
        let ghost all = texts(keys@);
        proof {
            lemma_removed_none(before);
            assert(texts(keys@.take(0)) =~= Seq::empty());
            assert forall|key: Seq<char>| #[trigger] all.contains(key) <==> before.tagged(
                key,
                tag@,
            ) by {
                let index = keys_by_tag(self.tag_index@);
                assert(files(index, tag@, key) <==> carries(before.entries, key, tag@));
            }
        }
        let mut i: usize = 0;
        while i < keys.len()
            invariant
                i <= keys.len(),
                self.wf(),
                self@ == before.removed_all(texts(keys@.take(i as int))),
                self.started_at() == old(self).started_at(),
            decreases keys.len() - i,
        {
            proof {
                assert(keys@.take(i + 1) =~= keys@.take(i as int).push(keys@[i as int]));
                lemma_texts_push(keys@.take(i as int), keys@[i as int]);
                lemma_removed_one_more(before, texts(keys@.take(i as int)), keys@[i as int]@);
            }
            let _ = self.invalidate(&keys[i]);
            i = i + 1;
        }
        proof {
            assert(keys@.take(i as int) =~= keys@);
            lemma_removed_group(before, all, tag@);
            let index = keys_by_tag(self.tag_index@);
            if index.contains_key(tag@) {
                assert(files(index, tag@, index[tag@].first()));
                assert(carries(self@.entries, index[tag@].first(), tag@));
            }
        }
        let ghost index = self.tag_index@;
        self.tag_index.remove(tag);
        assert(self.tag_index@ =~= index);
        Ok(())
    }

    fn clear(&mut self) -> (result: Result<(), CacheError>)
        ensures
            Self::may_clear(*old(self), *final(self), result),
    {
        self.cache.clear();
        self.tag_index.clear();
        lru_clear(&mut self.lru);
        assert(self@.entries =~= Map::<Seq<char>, EntryView>::empty());
        assert(self@.order =~= Seq::<Seq<char>>::empty());
        Ok(())
    }

    fn get_all_keys(&self) -> (keys: Vec<String>)
        ensures
            self.may_list(keys@),
    {
        assert(self@.entries.dom() =~= self.cache@.dom());
        self.cache.keys()
    }
}

} // verus!
