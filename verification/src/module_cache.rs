//! A cache of modules: JSON values, kept by a handler, with a count of how it fares.

use crate::config::CacheLayerConfig;
use crate::error::{joined, CacheError, RariError};
use crate::handler::CacheHandler;
use crate::json::{from_slice, json_bytes, json_value, to_vec};
use crate::keyed::{lists_domain, KeyedStore};
use crate::memory::{MemoryCacheHandler, MemoryConfig};
use crate::memory::seen;
use crate::memory_laws::{law_handler_get, law_stored_is_found};
use crate::memory_view::new_entry;
use crate::recency::within_address_space;
use crate::registry::CacheHandlerRegistry;
use vstd::prelude::*;
use vstd::string::to_string_from_display_ensures;

verus! {

/// For how many seconds a module is kept where nothing else is said.
pub const DEFAULT_MAX_AGE_SECS: u64 = 3600;

/// How many modules are kept where nothing else is said.
pub const DEFAULT_CACHE_SIZE: usize = 5000;

/// How many bytes a module is taken to need.
pub const BYTES_PER_MODULE: usize = 64;

/// How a cache fares.
#[derive(Debug, Clone, Copy, PartialEq, Eq, Structural)]
pub struct CacheStats {
    /// How many lookups found a module.
    pub hits: usize,
    /// How many lookups found none.
    pub misses: usize,
    /// How many modules had to make room.
    pub evictions: usize,
    /// How many modules were inserted and not dropped since.
    pub size: usize,
    /// How many bytes these are taken to need.
    pub memory_bytes: usize,
}

/// A cache of modules as the contracts see it. The counts start again at zero beyond the largest
/// number.
pub struct ModuleView<H> {
    /// The handler that keeps the modules.
    pub handler: H,
    /// For how many seconds a module is kept.
    pub max_age_secs: u64,
    /// How many lookups found a module.
    pub hits: usize,
    /// How many lookups found none.
    pub misses: usize,
    /// How many modules had to make room.
    pub evictions: usize,
    /// How many modules were inserted and not dropped since.
    pub size: usize,
    /// The path of each component's source.
    pub paths: Map<Seq<char>, Seq<char>>,
}

/// A cache of modules. `H` is the type of its handler.
#[derive(Debug)]
pub struct ModuleCaching<H> {
    handler: H,
    max_age_secs: u64,
    hit_count: usize,
    miss_count: usize,
    eviction_count: usize,
    size: usize,
    component_source_paths: KeyedStore<String>,
}

impl<H> View for ModuleCaching<H> {
    type V = ModuleView<H>;

    closed spec fn view(&self) -> ModuleView<H> {
        ModuleView {
            handler: self.handler,
            max_age_secs: self.max_age_secs,
            hits: self.hit_count,
            misses: self.miss_count,
            evictions: self.eviction_count,
            size: self.size,
            paths: self.component_source_paths@.map_values(|path: String| path@),
        }
    }
}

/// What a lookup came to.
pub enum Lookup {
    /// A module.
    Hit(serde_json::Value),
    /// Nothing.
    Miss,
    /// Something that is no JSON, which the handler is to drop.
    Broken,
}

/// What the answer of a handler comes to.
pub open spec fn lookup(reply: Result<Option<Vec<u8>>, CacheError>) -> Lookup {
    match reply {
        Ok(Some(bytes)) => match json_value(bytes@) {
            Some(value) => Lookup::Hit(value),
            None => Lookup::Broken,
        },
        _ => Lookup::Miss,
    }
}

impl<H> ModuleView<H> {
    /// A cache at its start.
    pub open spec fn fresh(handler: H, max_age_secs: u64) -> Self {
        ModuleView {
            handler,
            max_age_secs,
            hits: 0,
            misses: 0,
            evictions: 0,
            size: 0,
            paths: Map::empty(),
        }
    }

    /// The cache once a lookup has been counted.
    pub open spec fn counted(self, lookup: Lookup) -> Self {
        if lookup is Hit {
            ModuleView { hits: self.hits.wrapping_add(1), ..self }
        } else {
            ModuleView { misses: self.misses.wrapping_add(1), ..self }
        }
    }

    /// The cache once the handler has answered to an insertion.
    pub open spec fn grown(self, stored: Result<(), CacheError>) -> Self {
        if stored is Ok {
            ModuleView { size: self.size.wrapping_add(1), ..self }
        } else {
            self
        }
    }

    /// The cache once the handler has answered to a drop.
    pub open spec fn shrunk(self, dropped: Result<(), CacheError>) -> Self {
        if dropped is Ok {
            ModuleView { size: self.size.wrapping_sub(1), ..self }
        } else {
            self
        }
    }

    /// The cache once everything has been dropped.
    pub open spec fn emptied(self) -> Self {
        ModuleView { size: 0, paths: Map::empty(), ..self }
    }

    /// The cache with another state of its handler.
    pub open spec fn on(self, handler: H) -> Self {
        ModuleView { handler, ..self }
    }
}

impl ModuleCaching<MemoryCacheHandler> {
    /// A cache that keeps up to `cache_size` modules in memory, and at least one.
    pub fn new(cache_size: usize) -> (cache: Self)
        requires
            within_address_space(cache_size as nat),
        ensures
            cache.wf(),
            cache@ == ModuleView::fresh(cache@.handler, DEFAULT_MAX_AGE_SECS),
            cache@.max_age_secs == 3600,
            cache@.handler.wf(),
            cache@.handler.started_by_clock(),
            cache@.handler@.entries.is_empty(),
            cache@.handler@.max_entries == if cache_size == 0 {
                1
            } else {
                cache_size as nat
            },
    {
        let max_entries: usize = if cache_size == 0 {
            1
        } else {
            cache_size
        };
        let handler = MemoryCacheHandler::with_config(
            MemoryConfig { max_entries, default_ttl: DEFAULT_MAX_AGE_SECS },
        );
        ModuleCaching::with_handler(cache_size, DEFAULT_MAX_AGE_SECS, handler)
    }
}

impl Default for ModuleCaching<MemoryCacheHandler> {
    fn default() -> (cache: Self)
        ensures
            cache.wf(),
            cache@ == ModuleView::fresh(cache@.handler, DEFAULT_MAX_AGE_SECS),
            cache@.max_age_secs == 3600,
            cache@.handler.wf(),
            cache@.handler.started_by_clock(),
            cache@.handler@.entries.is_empty(),
            cache@.handler@.max_entries == DEFAULT_CACHE_SIZE,
            cache@.handler@.max_entries == 5000,
    {
        ModuleCaching::new(DEFAULT_CACHE_SIZE)
    }
}

impl<H> ModuleCaching<H> {
    /// The invariant of the store of the paths.
    pub closed spec fn wf(&self) -> bool {
        self.component_source_paths.wf()
    }

    /// A cache around a handler. The size of the cache is the handler's affair.
    pub fn with_handler(cache_size: usize, max_age_secs: u64, handler: H) -> (cache: Self)
        ensures
            cache.wf(),
            cache@ == ModuleView::fresh(handler, max_age_secs),
    {
        let _ = cache_size;
        let cache = ModuleCaching {
            handler,
            max_age_secs,
            hit_count: 0,
            miss_count: 0,
            eviction_count: 0,
            size: 0,
            component_source_paths: KeyedStore::new(),
        };
        assert(cache@.paths =~= Map::empty());
        cache
    }

    /// How the cache fares.
    pub fn get_cache_stats(&self) -> (stats: CacheStats)
        ensures
            stats.hits == self@.hits,
            stats.misses == self@.misses,
            stats.evictions == self@.evictions,
            stats.size == self@.size,
            stats.memory_bytes == self@.size.wrapping_mul(BYTES_PER_MODULE),
            self@.size * 64 <= usize::MAX ==> stats.memory_bytes == self@.size * 64,
    {
        proof {
            if self.size * 64 <= usize::MAX {
                vstd::arithmetic::div_mod::lemma_small_mod(
                    (self.size * 64) as nat,
                    (usize::MAX + 1) as nat,
                );
            }
        }
        CacheStats {
            hits: self.hit_count,
            misses: self.miss_count,
            evictions: self.eviction_count,
            size: self.size,
            memory_bytes: self.size.wrapping_mul(BYTES_PER_MODULE),
        }
    }

    /// The handler that keeps the modules.
    pub fn handler(&self) -> (handler: &H)
        ensures
            *handler == self@.handler,
    {
        &self.handler
    }

    /// The handler that keeps the modules, once the cache is done with it.
    pub fn into_handler(self) -> (handler: H)
        ensures
            handler == self@.handler,
    {
        self.handler
    }

    /// For how many seconds a module is kept.
    pub fn max_age_secs(&self) -> (secs: u64)
        ensures
            secs == self@.max_age_secs,
    {
        self.max_age_secs
    }

    /// Counts what the handler answered to a lookup, and tells what it comes to.
    pub fn looked_up(&mut self, reply: Result<Option<Vec<u8>>, CacheError>) -> (found: Lookup)
        requires
            old(self).wf(),
        ensures
            final(self).wf(),
            found == lookup(reply),
            final(self)@ == old(self)@.counted(found),
            match reply {
                Ok(Some(bytes)) => match json_value(bytes@) {
                    Some(value) => found == Lookup::Hit(value),
                    None => found is Broken,
                },
                _ => found is Miss,
            },
            found is Hit ==> final(self)@.hits == old(self)@.hits.wrapping_add(1)
                && final(self)@.misses == old(self)@.misses,
            !(found is Hit) ==> final(self)@.misses == old(self)@.misses.wrapping_add(1)
                && final(self)@.hits == old(self)@.hits,
            final(self)@.size == old(self)@.size,
            final(self)@.evictions == old(self)@.evictions,
            final(self)@.handler == old(self)@.handler,
            final(self)@.max_age_secs == old(self)@.max_age_secs,
            final(self)@.paths == old(self)@.paths,
    {
        if let Ok(Some(bytes)) = reply {
            match from_slice(&bytes) {
                Ok(value) => {
                    self.hit_count = self.hit_count.wrapping_add(1);
                    Lookup::Hit(value)
                },
                Err(_) => {
                    self.miss_count = self.miss_count.wrapping_add(1);
                    Lookup::Broken
                },
            }
        } else {
            self.miss_count = self.miss_count.wrapping_add(1);
            Lookup::Miss
        }
    }

    /// Takes in what the handler answered to an insertion.
    pub fn stored(&mut self, reply: Result<(), CacheError>) -> (result: Result<(), RariError>)
        requires
            old(self).wf(),
        ensures
            final(self).wf(),
            final(self)@ == old(self)@.grown(reply),
            final(self)@.size == if reply is Ok {
                old(self)@.size.wrapping_add(1)
            } else {
                old(self)@.size
            },
            result is Ok <==> reply is Ok,
            match reply {
                Ok(()) => result is Ok,
                Err(error) => result matches Err(RariError::Cache(text)) && text@ == "cache set: "@
                    + error.shown(),
            },
    {
        match reply {
            Ok(()) => {
                self.size = self.size.wrapping_add(1);
                Ok(())
            },
            Err(error) => Err(RariError::cache(joined("cache set: ", &error.message()))),
        }
    }

    /// Takes in what the handler answered to a drop.
    pub fn dropped(&mut self, reply: Result<(), CacheError>)
        requires
            old(self).wf(),
        ensures
            final(self).wf(),
            final(self)@ == old(self)@.shrunk(reply),
            final(self)@.size == if reply is Ok {
                old(self)@.size.wrapping_sub(1)
            } else {
                old(self)@.size
            },
    {
        if reply.is_ok() {
            self.size = self.size.wrapping_sub(1);
        }
    }

    /// Takes in that the handler was to drop everything, whatever it answered.
    pub fn emptied(&mut self)
        requires
            old(self).wf(),
        ensures
            final(self).wf(),
            final(self)@ == old(self)@.emptied(),
            final(self)@.size == 0,
            final(self)@.paths == Map::<Seq<char>, Seq<char>>::empty(),
            final(self)@.hits == old(self)@.hits,
            final(self)@.misses == old(self)@.misses,
            final(self)@.evictions == old(self)@.evictions,
            final(self)@.handler == old(self)@.handler,
            final(self)@.max_age_secs == old(self)@.max_age_secs,
    {
        self.size = 0;
        self.component_source_paths.clear();
        assert(self@.paths =~= Map::empty());
    }

    /// Sets the path of a component's source.
    pub fn set_component_source_path(&mut self, component_id: String, path: String)
        requires
            old(self).wf(),
        ensures
            final(self).wf(),
            final(self)@ == (ModuleView {
                paths: old(self)@.paths.insert(component_id@, path@),
                ..old(self)@
            }),
    {
        self.component_source_paths.insert(component_id.as_str(), path);
        assert(self@.paths =~= old(self)@.paths.insert(component_id@, path@));
    }

    /// The path of a component's source, if it is set.
    pub fn get_component_source_path(&self, component_id: &str) -> (path: Option<String>)
        requires
            self.wf(),
        ensures
            match path {
                Some(path) => self@.paths.contains_key(component_id@)
                    && self@.paths[component_id@] == path@,
                None => !self@.paths.contains_key(component_id@),
            },
    {
        match self.component_source_paths.get(component_id) {
            Some(path) => Some(path.clone()),
            None => None,
        }
    }

    /// The components whose source has a path, in no particular order.
    pub fn component_ids(&self) -> (ids: Vec<String>)
        ensures
            lists_domain(ids@, self@.paths.dom()),
    {
        assert(self@.paths.dom() =~= self.component_source_paths@.dom());
        self.component_source_paths.keys()
    }

    /// Drops the path of a component's source.
    pub fn remove_component_source_path(&mut self, component_id: &str)
        requires
            old(self).wf(),
        ensures
            final(self).wf(),
            final(self)@ == (ModuleView {
                paths: old(self)@.paths.remove(component_id@),
                ..old(self)@
            }),
    {
        self.component_source_paths.remove(component_id);
        assert(self@.paths =~= old(self)@.paths.remove(component_id@));
    }

    /// Drops what is known of a component.
    pub fn clear_component(&mut self, component_id: &str)
        requires
            old(self).wf(),
        ensures
            final(self).wf(),
            final(self)@ == (ModuleView {
                paths: old(self)@.paths.remove(component_id@),
                ..old(self)@
            }),
    {
        self.remove_component_source_path(component_id);
    }
}

impl<H: Clone> ModuleCaching<H> {
    /// A cache as a layer is set up: around the handler that it names, or else around the one
    /// called memory.
    pub fn from_config(
        layer: &CacheLayerConfig,
        registry: &CacheHandlerRegistry<H>,
    ) -> (cache: Self)
        requires
            registry.wf(),
            registry@.contains_key(layer.handler@) || registry@.contains_key("memory"@),
        ensures
            cache.wf(),
            cache@ == ModuleView::fresh(cache@.handler, layer.default_ttl_secs),
            cloned::<H>(
                if registry@.contains_key(layer.handler@) {
                    registry@[layer.handler@]
                } else {
                    registry@["memory"@]
                },
                cache@.handler,
            ),
    {
        let handler = registry.resolve(Some(layer.handler.as_str()), "memory").clone();
        ModuleCaching::with_handler(layer.max_entries, layer.default_ttl_secs, handler)
    }
}

/// Whether the handler may answer `reply` to the insertion of a module that has these bytes, and
/// the cache then come from `before` to `after` and answer `result`.
pub open spec fn kept<H: CacheHandler>(
    before: ModuleView<H>,
    after: ModuleView<H>,
    key: Seq<char>,
    bytes: Seq<u8>,
    reply: Result<(), CacheError>,
    result: Result<(), RariError>,
) -> bool {
    &&& H::may_set(
        before.handler,
        after.handler,
        key,
        bytes,
        before.max_age_secs,
        Seq::empty(),
        reply,
    )
    &&& after == before.grown(reply).on(after.handler)
    &&& match reply {
        Ok(()) => result is Ok,
        Err(error) => result matches Err(told) && told.tells("cache set: "@ + error.shown()),
    }
}

/// Whether the handler may answer `reply` to a lookup and be left as `asked`, and the cache then
/// come from `before` to `after` and find `value`.
pub open spec fn looked<H: CacheHandler>(
    before: ModuleView<H>,
    after: ModuleView<H>,
    key: Seq<char>,
    asked: H,
    reply: Result<Option<Vec<u8>>, CacheError>,
    value: Option<serde_json::Value>,
) -> bool {
    &&& H::may_get(before.handler, asked, key, reply)
    &&& value == (match lookup(reply) {
        Lookup::Hit(value) => Some(value),
        _ => None,
    })
    &&& after == before.counted(lookup(reply)).on(after.handler)
    &&& if lookup(reply) is Broken {
        exists|dropped: Result<(), CacheError>| #[trigger]
            H::may_invalidate(asked, after.handler, key, dropped)
    } else {
        after.handler == asked
    }
}

/// Whether an error says that a module has no bytes, in the words of the JSON library.
pub open spec fn blames_json(error: RariError) -> bool {
    exists|cause: serde_json::Error, text: String| #[trigger]
        to_string_from_display_ensures(&cause, text) && error.tells("json serialize: "@ + text@)
}

/// An error that blames the JSON library tells the words that such an error shows of itself.
pub proof fn law_json_failure_is_told_in_its_words(error: RariError)
    requires
        blames_json(error),
    ensures
        error matches RariError::Cache(told) && exists|cause: serde_json::Error, text: String|
            #[trigger] to_string_from_display_ensures(&cause, text) && told@ == "json serialize: "@
                + text@,
{
    let (cause, text) = choose|cause: serde_json::Error, text: String| #[trigger]
        to_string_from_display_ensures(&cause, text) && error.tells("json serialize: "@ + text@);
    assert(to_string_from_display_ensures(&cause, text));
}

/// The bytes in which a module is kept. The words of a failure are those of the JSON library.
pub fn prepared(value: &serde_json::Value) -> (bytes: Result<Vec<u8>, RariError>)
    ensures
        match bytes {
            Ok(bytes) => json_bytes(*value) == Some(bytes@),
            Err(error) => json_bytes(*value) is None && blames_json(error),
        },
{
    match to_vec(value) {
        Ok(bytes) => Ok(bytes),
        Err(error) => {
            let text = error.to_string();
            let told = RariError::cache(joined("json serialize: ", &text));
            assert(to_string_from_display_ensures(&error, text));
            assert(blames_json(told));
            Err(told)
        },
    }
}

/// An inserted module is found as what its bytes stand for until its time is over, counted from
/// the clock's reading when it was put to the one when it was looked for, and not at all from then
/// on. What is found counts as a hit, what is not as a miss.
pub proof fn law_inserted_is_found(
    before: ModuleView<MemoryCacheHandler>,
    between: ModuleView<MemoryCacheHandler>,
    after: ModuleView<MemoryCacheHandler>,
    key: Seq<char>,
    value: serde_json::Value,
    stored: (Result<(), CacheError>, Result<(), RariError>),
    asked: MemoryCacheHandler,
    reply: Result<Option<Vec<u8>>, CacheError>,
    found: Option<serde_json::Value>,
)
    requires
        before.handler.wf(),
        json_bytes(value) is Some,
        kept(before, between, key, json_bytes(value).unwrap(), stored.0, stored.1),
        looked(between, after, key, asked, reply, found),
    ensures
        stored.1 is Ok,
        exists|put: u128, read: u128|
            {
                &&& #[trigger] before.handler.reads(put)
                &&& #[trigger] between.handler.reads(read)
                &&& found == if read < put + before.max_age_secs * 1_000_000_000 {
                    json_value(json_bytes(value).unwrap())
                } else {
                    None
                }
            },
        found is Some ==> after.hits == between.hits.wrapping_add(1) && after.misses
            == between.misses,
        found is None ==> after.misses == between.misses.wrapping_add(1) && after.hits
            == between.hits,
{
    let bytes = json_bytes(value).unwrap();
    let now = choose|now: u128|
        before.handler.reads(now) && between.handler@ == before.handler@.after_set(
            key,
            #[trigger] new_entry(bytes, before.max_age_secs, Seq::empty(), now),
        );
    let read = choose|read: u128|
        {
            &&& between.handler.reads(read)
            &&& reply matches Ok(seen_bytes) && seen(seen_bytes) == #[trigger] between.handler@.found(
                key,
                read,
            )
            &&& asked@ == between.handler@.after_get(key, read)
        };
    before.handler.law_in_order();
    law_stored_is_found(
        before.handler@,
        key,
        bytes,
        before.max_age_secs,
        Seq::empty(),
        now,
        read,
    );
    assert(before.handler.reads(now) && between.handler.reads(read));
}

/// What a cache of modules gives back is what the JSON in the handler stands for, and nothing
/// where there is none or it is no JSON. Just one of the two counts goes up by one, a handler is
/// asked once, and told to drop the key exactly if what it gave is no JSON.
pub proof fn law_lookup_gives_the_json<H: CacheHandler>(
    before: ModuleView<H>,
    after: ModuleView<H>,
    key: Seq<char>,
    asked: H,
    reply: Result<Option<Vec<u8>>, CacheError>,
    value: Option<serde_json::Value>,
)
    requires
        looked(before, after, key, asked, reply, value),
    ensures
        H::may_get(before.handler, asked, key, reply),
        value is Some <==> (reply matches Ok(Some(bytes)) && json_value(bytes@) is Some),
        reply matches Ok(Some(bytes)) ==> value == json_value(bytes@),
        value is Some ==> after.hits == before.hits.wrapping_add(1) && after.misses == before.misses,
        value is None ==> after.misses == before.misses.wrapping_add(1) && after.hits == before.hits,
        after.size == before.size,
        after.evictions == before.evictions,
        after.max_age_secs == before.max_age_secs,
        after.paths == before.paths,
        (reply matches Ok(Some(bytes)) && json_value(bytes@) is None) ==> exists|
            dropped: Result<(), CacheError>,
        | #[trigger] H::may_invalidate(asked, after.handler, key, dropped),
        !(reply matches Ok(Some(bytes)) && json_value(bytes@) is None) ==> after.handler == asked,
{
}

/// Inserting hands the bytes of the module to the handler under its key for the time of the cache,
/// without groups. Where the handler takes them the size goes up by one; where it refuses them
/// nothing is counted, and the error tells its words.
pub proof fn law_insert_hands_the_bytes_on<H: CacheHandler>(
    before: ModuleView<H>,
    after: ModuleView<H>,
    key: Seq<char>,
    bytes: Seq<u8>,
    reply: Result<(), CacheError>,
    result: Result<(), RariError>,
)
    requires
        kept(before, after, key, bytes, reply, result),
    ensures
        H::may_set(
            before.handler,
            after.handler,
            key,
            bytes,
            before.max_age_secs,
            Seq::empty(),
            reply,
        ),
        result is Ok <==> reply is Ok,
        reply is Ok ==> after.size == before.size.wrapping_add(1),
        reply matches Err(error) ==> after.size == before.size && (result matches Err(
            RariError::Cache(text),
        ) && text@ == "cache set: "@ + match error {
            CacheError::Io(words) => "io error: "@ + words@,
            CacheError::Serialize(words) => "serialization error: "@ + words@,
            CacheError::Deserialize(words) => "deserialization error: "@ + words@,
            CacheError::Backend(words) => "backend error: "@ + words@,
        }),
        after.hits == before.hits,
        after.misses == before.misses,
        after.evictions == before.evictions,
        after.max_age_secs == before.max_age_secs,
        after.paths == before.paths,
{
}

/// A drop that the handler grants takes one off the size, and one that it refuses takes nothing;
/// clearing sets the size to nothing and forgets every path. The other counts stay.
pub proof fn law_drops_are_counted<H>(
    cache: ModuleView<H>,
    reply: Result<(), CacheError>,
    handler: H,
)
    ensures
        cache.shrunk(reply).on(handler).size == if reply is Ok {
            cache.size.wrapping_sub(1)
        } else {
            cache.size
        },
        cache.shrunk(reply).on(handler).hits == cache.hits,
        cache.shrunk(reply).on(handler).misses == cache.misses,
        cache.shrunk(reply).on(handler).evictions == cache.evictions,
        cache.shrunk(reply).on(handler).paths == cache.paths,
        cache.shrunk(reply).on(handler).max_age_secs == cache.max_age_secs,
        cache.shrunk(reply).on(handler).handler == handler,
        cache.emptied().on(handler).size == 0,
        cache.emptied().on(handler).paths == Map::<Seq<char>, Seq<char>>::empty(),
        cache.emptied().on(handler).hits == cache.hits,
        cache.emptied().on(handler).misses == cache.misses,
        cache.emptied().on(handler).evictions == cache.evictions,
        cache.emptied().on(handler).max_age_secs == cache.max_age_secs,
        cache.emptied().on(handler).handler == handler,
{
}

/// A new cache has its handler and its time, no path, and no count above zero.
pub proof fn law_new_cache_counts_nothing<H>(handler: H, max_age_secs: u64)
    ensures
        ({
            let cache = ModuleView::fresh(handler, max_age_secs);
            &&& cache.handler == handler
            &&& cache.max_age_secs == max_age_secs
            &&& cache.hits == 0
            &&& cache.misses == 0
            &&& cache.evictions == 0
            &&& cache.size == 0
            &&& cache.paths == Map::<Seq<char>, Seq<char>>::empty()
        }),
{
}

/// A module that is looked for again, before its time is over, is found again: a lookup takes
/// nothing away.
pub proof fn law_found_again(
    before: ModuleView<MemoryCacheHandler>,
    between: ModuleView<MemoryCacheHandler>,
    after: ModuleView<MemoryCacheHandler>,
    key: Seq<char>,
    asked: (MemoryCacheHandler, MemoryCacheHandler),
    reply: (Result<Option<Vec<u8>>, CacheError>, Result<Option<Vec<u8>>, CacheError>),
    found: (Option<serde_json::Value>, Option<serde_json::Value>),
)
    requires
        before.handler.wf(),
        between.handler.wf(),
        looked(before, between, key, asked.0, reply.0, found.0),
        looked(between, after, key, asked.1, reply.1, found.1),
        found.0 is Some,
    ensures
        found.1 == found.0 || exists|read: u128|
            {
                &&& #[trigger] between.handler.reads(read)
                &&& before.handler@.entries[key].expires_at matches Some(t) && read >= t
            },
{
    law_handler_get(before.handler, asked.0, key, reply.0, key);
    law_handler_get(asked.0, asked.1, key, reply.1, key);
}

/// A module that has been dropped is not found.
pub proof fn law_dropped_is_not_found(
    before: ModuleView<MemoryCacheHandler>,
    between: ModuleView<MemoryCacheHandler>,
    after: ModuleView<MemoryCacheHandler>,
    key: Seq<char>,
    dropped: Result<(), CacheError>,
    asked: MemoryCacheHandler,
    reply: Result<Option<Vec<u8>>, CacheError>,
    found: Option<serde_json::Value>,
)
    requires
        MemoryCacheHandler::may_invalidate(before.handler, between.handler, key, dropped),
        looked(between, after, key, asked, reply, found),
    ensures
        found is None,
        after.misses == between.misses.wrapping_add(1),
{
}

/// Inserting a module and dropping it again leaves the size as it was.
pub proof fn law_insert_and_drop_cancel<H>(cache: ModuleView<H>)
    ensures
        cache.grown(Ok(())).shrunk(Ok(())).size == cache.size,
{
}

impl<H: CacheHandler> ModuleCaching<H> {
    /// The module under `key`, if there is one. What is there and is no JSON is dropped.
    pub fn get(&mut self, key: &str) -> (value: Option<serde_json::Value>)
        requires
            old(self).wf(),
            old(self)@.handler.valid(),
        ensures
            final(self).wf(),
            final(self)@.handler.valid(),
            exists|reply: Result<Option<Vec<u8>>, CacheError>, asked: H|
                looked(old(self)@, final(self)@, key@, asked, reply, value),
    {
        let reply = self.handler.get(key);
        let ghost asked = self.handler;
        let ghost answered = reply;
        let value = match self.looked_up(reply) {
            Lookup::Hit(value) => Some(value),
            Lookup::Miss => None,
            Lookup::Broken => {
                let dropped = self.handler.invalidate(key);
                assert(H::may_invalidate(asked, self@.handler, key@, dropped));
                None
            },
        };
        assert(looked(old(self)@, self@, key@, asked, answered, value));
        value
    }

    /// Keeps a module under `key`. A module that has no bytes, or that the handler refuses, is an
    /// error and is not counted.
    pub fn insert(&mut self, key: String, value: serde_json::Value) -> (result: Result<
        (),
        RariError,
    >)
        requires
            old(self).wf(),
            old(self)@.handler.valid(),
        ensures
            final(self).wf(),
            final(self)@.handler.valid(),
            json_bytes(value) is Some ==> exists|reply: Result<(), CacheError>|
                kept(old(self)@, final(self)@, key@, json_bytes(value).unwrap(), reply, result),
            json_bytes(value) is None ==> final(self)@ == old(self)@ && (result matches Err(told)
                && blames_json(told)),
    {
        let bytes = match prepared(&value) {
            Ok(bytes) => bytes,
            Err(error) => {
                return Err(error);
            },
        };
        let ghost put = bytes@;
        let reply = self.handler.set(key.as_str(), bytes, self.max_age_secs);
        let ghost answered = reply;
        let result = self.stored(reply);
        assert(json_bytes(value).unwrap() == put);
        assert(kept(old(self)@, self@, key@, json_bytes(value).unwrap(), answered, result));
        result
    }

    /// Drops the module under `key`.
    pub fn invalidate(&mut self, key: &str)
        requires
            old(self).wf(),
            old(self)@.handler.valid(),
        ensures
            final(self).wf(),
            final(self)@.handler.valid(),
            exists|reply: Result<(), CacheError>|
                {
                    &&& #[trigger] H::may_invalidate(
                        old(self)@.handler,
                        final(self)@.handler,
                        key@,
                        reply,
                    )
                    &&& final(self)@ == old(self)@.shrunk(reply).on(final(self)@.handler)
                },
    {
        let reply = self.handler.invalidate(key);
        let ghost answered = reply;
        assert(H::may_invalidate(old(self)@.handler, self.handler, key@, answered));
        self.dropped(reply);
    }

    /// Drops every module and every path.
    pub fn clear(&mut self)
        requires
            old(self).wf(),
            old(self)@.handler.valid(),
        ensures
            final(self).wf(),
            final(self)@.handler.valid(),
            exists|reply: Result<(), CacheError>| #[trigger]
                H::may_clear(old(self)@.handler, final(self)@.handler, reply),
            final(self)@ == old(self)@.emptied().on(final(self)@.handler),
    {
        let reply = self.handler.clear();
        assert(H::may_clear(old(self)@.handler, self.handler, reply));
        self.emptied();
    }
}

} // verus!
