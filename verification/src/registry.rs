//! Cache handlers by name.

use crate::error::CacheError;
use crate::handler::CacheHandler;
use crate::keyed::{lists_domain, KeyedStore};
use crate::memory::MemoryCacheHandler;
use crate::noop::NoOpCacheHandler;
use vstd::prelude::*;

verus! {

/// One of the handlers that come with the library.
#[derive(Debug)]
pub enum StandardHandler {
    /// Keeps everything in memory.
    Memory(MemoryCacheHandler),
    /// Keeps nothing.
    NoOp(NoOpCacheHandler),
}

impl CacheHandler for StandardHandler {
    open spec fn valid(&self) -> bool {
        match self {
            StandardHandler::Memory(handler) => handler.valid(),
            StandardHandler::NoOp(handler) => handler.valid(),
        }
    }

    open spec fn may_get(
        pre: Self,
        post: Self,
        key: Seq<char>,
        result: Result<Option<Vec<u8>>, CacheError>,
    ) -> bool {
        match (pre, post) {
            (StandardHandler::Memory(a), StandardHandler::Memory(b)) =>
                MemoryCacheHandler::may_get(a, b, key, result),
            (StandardHandler::NoOp(a), StandardHandler::NoOp(b)) =>
                NoOpCacheHandler::may_get(a, b, key, result),
            _ => false,
        }
    }

    open spec fn may_set(
        pre: Self,
        post: Self,
        key: Seq<char>,
        value: Seq<u8>,
        ttl_secs: u64,
        tags: Seq<Seq<char>>,
        result: Result<(), CacheError>,
    ) -> bool {
        match (pre, post) {
            (StandardHandler::Memory(a), StandardHandler::Memory(b)) =>
                MemoryCacheHandler::may_set(a, b, key, value, ttl_secs, tags, result),
            (StandardHandler::NoOp(a), StandardHandler::NoOp(b)) =>
                NoOpCacheHandler::may_set(a, b, key, value, ttl_secs, tags, result),
            _ => false,
        }
    }

    open spec fn may_invalidate(
        pre: Self,
        post: Self,
        key: Seq<char>,
        result: Result<(), CacheError>,
    ) -> bool {
        match (pre, post) {
            (StandardHandler::Memory(a), StandardHandler::Memory(b)) =>
                MemoryCacheHandler::may_invalidate(a, b, key, result),
            (StandardHandler::NoOp(a), StandardHandler::NoOp(b)) =>
                NoOpCacheHandler::may_invalidate(a, b, key, result),
            _ => false,
        }
    }

    open spec fn may_invalidate_by_tag(
        pre: Self,
        post: Self,
        tag: Seq<char>,
        result: Result<(), CacheError>,
    ) -> bool {
        match (pre, post) {
            (StandardHandler::Memory(a), StandardHandler::Memory(b)) =>
                MemoryCacheHandler::may_invalidate_by_tag(a, b, tag, result),
            (StandardHandler::NoOp(a), StandardHandler::NoOp(b)) =>
                NoOpCacheHandler::may_invalidate_by_tag(a, b, tag, result),
            _ => false,
        }
    }

    open spec fn may_clear(pre: Self, post: Self, result: Result<(), CacheError>) -> bool {
        match (pre, post) {
            (StandardHandler::Memory(a), StandardHandler::Memory(b)) =>
                MemoryCacheHandler::may_clear(a, b, result),
            (StandardHandler::NoOp(a), StandardHandler::NoOp(b)) =>
                NoOpCacheHandler::may_clear(a, b, result),
            _ => false,
        }
    }

    open spec fn may_list(&self, keys: Seq<String>) -> bool {
        match self {
            StandardHandler::Memory(handler) => handler.may_list(keys),
            StandardHandler::NoOp(handler) => handler.may_list(keys),
        }
    }

    fn get(&mut self, key: &str) -> (result: Result<Option<Vec<u8>>, CacheError>)
        ensures
            Self::may_get(*old(self), *final(self), key@, result),
    {
        match self {
            StandardHandler::Memory(handler) => handler.get(key),
            StandardHandler::NoOp(handler) => handler.get(key),
        }
    }

    fn set(&mut self, key: &str, value: Vec<u8>, ttl_secs: u64) -> (result: Result<
        (),
        CacheError,
    >)
        ensures
            Self::may_set(
                *old(self),
                *final(self),
                key@,
                value@,
                ttl_secs,
                Seq::empty(),
                result,
            ),
    {
        match self {
            StandardHandler::Memory(handler) => handler.set(key, value, ttl_secs),
            StandardHandler::NoOp(handler) => handler.set(key, value, ttl_secs),
        }
    }

    fn set_with_tags(&mut self, key: &str, value: Vec<u8>, ttl_secs: u64, tags: &[String]) -> (result:
        Result<(), CacheError>)
        ensures
            Self::may_set(
                *old(self),
                *final(self),
                key@,
                value@,
                ttl_secs,
                crate::text::texts(tags@),
                result,
            ),
    {
        match self {
            StandardHandler::Memory(handler) => handler.set_with_tags(key, value, ttl_secs, tags),
            StandardHandler::NoOp(handler) => handler.set_with_tags(key, value, ttl_secs, tags),
        }
    }

    fn invalidate(&mut self, key: &str) -> (result: Result<(), CacheError>)
        ensures
            Self::may_invalidate(*old(self), *final(self), key@, result),
    {
        match self {
            StandardHandler::Memory(handler) => handler.invalidate(key),
            StandardHandler::NoOp(handler) => handler.invalidate(key),
        }
    }

    fn invalidate_by_tag(&mut self, tag: &str) -> (result: Result<(), CacheError>)
        ensures
            Self::may_invalidate_by_tag(*old(self), *final(self), tag@, result),
    {
        match self {
            StandardHandler::Memory(handler) => handler.invalidate_by_tag(tag),
            StandardHandler::NoOp(handler) => handler.invalidate_by_tag(tag),
        }
    }

    fn clear(&mut self) -> (result: Result<(), CacheError>)
        ensures
            Self::may_clear(*old(self), *final(self), result),
    {
        match self {
            StandardHandler::Memory(handler) => handler.clear(),
            StandardHandler::NoOp(handler) => handler.clear(),
        }
    }

    fn get_all_keys(&self) -> (keys: Vec<String>)
        ensures
            self.may_list(keys@),
    {
        match self {
            StandardHandler::Memory(handler) => handler.get_all_keys(),
            StandardHandler::NoOp(handler) => handler.get_all_keys(),
        }
    }
}

/// A standard handler does what the handler it is made of does, and stays the kind it is.
pub proof fn law_standard_handlers_do_as_their_own(
    before: StandardHandler,
    after: StandardHandler,
    name: Seq<char>,
    value: Seq<u8>,
    ttl_secs: u64,
    tags: Seq<Seq<char>>,
    found: Result<Option<Vec<u8>>, CacheError>,
    done: Result<(), CacheError>,
)
    ensures
        StandardHandler::may_get(before, after, name, found) ==> match before {
            StandardHandler::Memory(a) => after matches StandardHandler::Memory(b)
                && MemoryCacheHandler::may_get(a, b, name, found),
            StandardHandler::NoOp(_) => after is NoOp && (found matches Ok(None)),
        },
        StandardHandler::may_set(before, after, name, value, ttl_secs, tags, done) ==> match before {
            StandardHandler::Memory(a) => after matches StandardHandler::Memory(b)
                && MemoryCacheHandler::may_set(a, b, name, value, ttl_secs, tags, done),
            StandardHandler::NoOp(_) => after is NoOp && done is Ok,
        },
        StandardHandler::may_invalidate(before, after, name, done) ==> match before {
            StandardHandler::Memory(a) => after matches StandardHandler::Memory(b)
                && MemoryCacheHandler::may_invalidate(a, b, name, done),
            StandardHandler::NoOp(_) => after is NoOp && done is Ok,
        },
        StandardHandler::may_invalidate_by_tag(before, after, name, done) ==> match before {
            StandardHandler::Memory(a) => after matches StandardHandler::Memory(b)
                && MemoryCacheHandler::may_invalidate_by_tag(a, b, name, done),
            StandardHandler::NoOp(_) => after is NoOp && done is Ok,
        },
        StandardHandler::may_clear(before, after, done) ==> match before {
            StandardHandler::Memory(a) => after matches StandardHandler::Memory(b)
                && MemoryCacheHandler::may_clear(a, b, done),
            StandardHandler::NoOp(_) => after is NoOp && done is Ok,
        },
{
}

/// A variable of the environment, and what it is set to.
pub struct EnvSetting {
    /// The name of the variable.
    pub var: String,
    /// Its value; none where it is not set.
    pub value: Option<String>,
}

/// The variables that name the handler of each layer of the cache.
pub fn handler_vars() -> (vars: Vec<String>)
    ensures
        crate::text::texts(vars@) == seq![
            "RARI_CACHE_HANDLER_RESPONSE"@,
            "RARI_CACHE_HANDLER_IMAGE"@,
            "RARI_CACHE_HANDLER_OG"@,
            "RARI_CACHE_HANDLER_LAYOUT"@,
            "RARI_CACHE_HANDLER_MODULE"@,
            "RARI_CACHE_HANDLER_FETCH"@,
        ],
{
    let mut vars: Vec<String> = Vec::new();
    vars.push("RARI_CACHE_HANDLER_RESPONSE".to_owned());
    vars.push("RARI_CACHE_HANDLER_IMAGE".to_owned());
    vars.push("RARI_CACHE_HANDLER_OG".to_owned());
    vars.push("RARI_CACHE_HANDLER_LAYOUT".to_owned());
    vars.push("RARI_CACHE_HANDLER_MODULE".to_owned());
    vars.push("RARI_CACHE_HANDLER_FETCH".to_owned());
    assert(crate::text::texts(vars@) =~= seq![
        "RARI_CACHE_HANDLER_RESPONSE"@,
        "RARI_CACHE_HANDLER_IMAGE"@,
        "RARI_CACHE_HANDLER_OG"@,
        "RARI_CACHE_HANDLER_LAYOUT"@,
        "RARI_CACHE_HANDLER_MODULE"@,
        "RARI_CACHE_HANDLER_FETCH"@,
    ]);
    vars
}

/// Cache handlers by name.
#[derive(Debug)]
pub struct CacheHandlerRegistry<H> {
    handlers: KeyedStore<H>,
}

impl<H> View for CacheHandlerRegistry<H> {
    type V = Map<Seq<char>, H>;

    closed spec fn view(&self) -> Map<Seq<char>, H> {
        self.handlers@
    }
}

/// Whether `setting` names a handler that `handlers` does not hold.
pub open spec fn names_unknown<H>(handlers: Map<Seq<char>, H>, setting: EnvSetting) -> bool {
    setting.value matches Some(name) && !handlers.contains_key(name@)
}

/// The registry that holds `memory` and `noop` under these names.
pub open spec fn standard_names<H>(memory: H, noop: H) -> Map<Seq<char>, H> {
    Map::empty().insert("memory"@, memory).insert("noop"@, noop)
}

/// The standard registry holds two names, each with its own handler, and no other; a setting is
/// ignored exactly if it is set to anything else than one of the two.
pub proof fn law_two_standard_names<H>(memory: H, noop: H, name: Seq<char>, setting: EnvSetting)
    ensures
        standard_names(memory, noop).contains_key(name) <==> name == "memory"@ || name == "noop"@,
        standard_names(memory, noop)["memory"@] == memory,
        standard_names(memory, noop)["noop"@] == noop,
        names_unknown(standard_names(memory, noop), setting) <==> (setting.value matches Some(
            value,
        ) && value@ != "memory"@ && value@ != "noop"@),
{
    reveal_strlit("memory");
    reveal_strlit("noop");
    assert("memory"@.len() != "noop"@.len());
}

impl<H> CacheHandlerRegistry<H> {
    /// The invariant of the store behind the registry.
    pub closed spec fn wf(&self) -> bool {
        self.handlers.wf()
    }

    /// A registry that holds no handler.
    pub fn new() -> (registry: Self)
        ensures
            registry.wf(),
            registry@ == Map::<Seq<char>, H>::empty(),
    {
        CacheHandlerRegistry { handlers: KeyedStore::new() }
    }

    /// Registers `h` under `name`, in place of the handler that had it.
    pub fn register(&mut self, name: &str, h: H)
        requires
            old(self).wf(),
        ensures
            final(self).wf(),
            final(self)@ == old(self)@.insert(name@, h),
    {
        self.handlers.insert(name, h);
    }

    /// The handler that is registered under `name`.
    pub fn get(&self, name: &str) -> (handler: Option<&H>)
        requires
            self.wf(),
        ensures
            handler == (if self@.contains_key(name@) {
                Some(&self@[name@])
            } else {
                None
            }),
    {
        self.handlers.get(name)
    }

    /// The handler that is registered under `name`, to be used in place.
    pub fn get_mut(&mut self, name: &str) -> (handler: Option<&mut H>)
        requires
            old(self).wf(),
        ensures
            match handler {
                Some(h) => {
                    &&& old(self)@.contains_key(name@)
                    &&& *h == old(self)@[name@]
                    &&& final(self).wf()
                    &&& final(self)@ == old(self)@.insert(name@, *final(h))
                },
                None => !old(self)@.contains_key(name@) && *final(self) == *old(self),
            },
    {
        self.handlers.get_mut(name)
    }

    /// A registry that holds `memory` and `noop` under these names.
    pub fn with_standard(memory: H, noop: H) -> (registry: Self)
        ensures
            registry.wf(),
            registry@ == standard_names(memory, noop),
    {
        let mut registry = CacheHandlerRegistry::new();
        registry.register("memory", memory);
        registry.register("noop", noop);
        registry
    }

    /// How many handlers are registered.
    pub fn len(&self) -> (len: usize)
        ensures
            len == self@.dom().len(),
    {
        self.handlers.len()
    }

    /// Whether no handler is registered.
    pub fn is_empty(&self) -> (empty: bool)
        ensures
            empty == (self@ == Map::<Seq<char>, H>::empty()),
    {
        self.handlers.is_empty()
    }

    /// The names under which handlers are registered, in no particular order.
    pub fn names(&self) -> (names: Vec<String>)
        ensures
            lists_domain(names@, self@.dom()),
    {
        self.handlers.keys()
    }

    /// A registry that holds `memory` and `noop` under these names, and the places of those
    /// settings that name neither and are therefore ignored.
    pub fn from_env(memory: H, noop: H, settings: &Vec<EnvSetting>) -> (outcome: (Self, Vec<usize>))
        ensures
            outcome.0.wf(),
            outcome.0@ == standard_names(memory, noop),
            forall|i: int, j: int|
                0 <= i < j < outcome.1@.len() ==> outcome.1@[i] < outcome.1@[j],
            forall|place: usize| #[trigger]
                outcome.1@.contains(place) <==> place < settings@.len() && names_unknown(
                    outcome.0@,
                    settings@[place as int],
                ),
    {
        let registry = CacheHandlerRegistry::with_standard(memory, noop);
        let mut ignored: Vec<usize> = Vec::new();
        let mut i: usize = 0;
        while i < settings.len()
            invariant
                i <= settings@.len(),
                registry.wf(),
                forall|a: int, b: int|
                    0 <= a < b < ignored@.len() ==> ignored@[a] < ignored@[b],
                forall|place: usize| #[trigger]
                    ignored@.contains(place) <==> place < i && names_unknown(
                        registry@,
                        settings@[place as int],
                    ),
            decreases settings@.len() - i,
        {
            if let Some(name) = &settings[i].value {
                if registry.get(name).is_none() {
                    let ghost before = ignored@;
                    assert forall|a: int| 0 <= a < before.len() implies before[a] < i by {
                        assert(before.contains(before[a]));
                    }
                    ignored.push(i);
                    assert forall|place: usize| #[trigger]
                        ignored@.contains(place) <==> before.contains(place) || place == i by {
                        crate::text::lemma_push_members(before, i, place);
                    }
                }
            }
            i = i + 1;
        }
        (registry, ignored)
    }

    /// The handler that `setting` names, or else the one that is registered under
    /// `default_name`.
    pub fn resolve(&self, setting: Option<&str>, default_name: &str) -> (handler: &H)
        requires
            self.wf(),
            self@.contains_key(default_name@) || (setting matches Some(name) && self@.contains_key(
                name@,
            )),
        ensures
            *handler == (match setting {
                Some(name) => if self@.contains_key(name@) {
                    self@[name@]
                } else {
                    self@[default_name@]
                },
                None => self@[default_name@],
            }),
    {
        if let Some(name) = setting {
            if let Some(handler) = self.get(name) {
                return handler;
            }
        }
        self.get(default_name).unwrap()
    }
}

impl<H> Default for CacheHandlerRegistry<H> {
    fn default() -> (registry: Self)
        ensures
            registry.wf(),
            registry@ == Map::<Seq<char>, H>::empty(),
    {
        CacheHandlerRegistry::new()
    }
}

/// Whether `handlers` are a memory cache of the default size that holds nothing and a handler that
/// keeps nothing, under `memory` and `noop`.
pub open spec fn is_default(handlers: Map<Seq<char>, StandardHandler>) -> bool {
    exists|memory: MemoryCacheHandler|
        {
            &&& memory.wf()
            &&& memory.started_by_clock()
            &&& memory@.entries.dom() == Set::<Seq<char>>::empty()
            &&& memory@.max_entries == 1000
            &&& handlers == #[trigger] standard_names(
                StandardHandler::Memory(memory),
                StandardHandler::NoOp(NoOpCacheHandler),
            )
        }
}

impl CacheHandlerRegistry<StandardHandler> {
    /// A registry that holds a memory cache of the default size and a handler that keeps nothing,
    /// under `memory` and `noop`.
    pub fn default_with_memory() -> (registry: Self)
        ensures
            registry.wf(),
            is_default(registry@),
    {
        let memory = MemoryCacheHandler::default();
        let registry = CacheHandlerRegistry::with_standard(
            StandardHandler::Memory(memory),
            StandardHandler::NoOp(NoOpCacheHandler),
        );
        assert(memory@.entries.dom() =~= Set::<Seq<char>>::empty());
        registry
    }

    /// The registry of `default_with_memory`, and the places of those values that name neither of
    /// its handlers and are therefore ignored. The values are what the variables of `handler_vars`
    /// are set to, in their order; none for one that is not set.
    pub fn from_values(values: &Vec<Option<String>>) -> (outcome: (Self, Vec<usize>))
        requires
            values@.len() == 6,
        ensures
            outcome.0.wf(),
            is_default(outcome.0@),
            forall|i: int, j: int|
                0 <= i < j < outcome.1@.len() ==> outcome.1@[i] < outcome.1@[j],
            forall|place: usize| #[trigger]
                outcome.1@.contains(place) <==> place < 6 && (values@[place as int] matches Some(
                    name,
                ) && name@ != "memory"@ && name@ != "noop"@),
    {
        let vars = handler_vars();
        assert(crate::text::texts(vars@).len() == 6);
        let mut settings: Vec<EnvSetting> = Vec::new();
        let mut i: usize = 0;
        while i < 6
            invariant
                i <= 6,
                vars@.len() == 6,
                values@.len() == 6,
                settings@.len() == i,
                forall|k: int|
                    0 <= k < i ==> (#[trigger] settings@[k]).var == vars@[k] && settings@[k].value
                        == values@[k],
            decreases 6 - i,
        {
            let value = match &values[i] {
                Some(value) => Some(value.clone()),
                None => None,
            };
            settings.push(EnvSetting { var: vars[i].clone(), value });
            i = i + 1;
        }
        let memory = MemoryCacheHandler::default();
        let outcome = CacheHandlerRegistry::from_env(
            StandardHandler::Memory(memory),
            StandardHandler::NoOp(NoOpCacheHandler),
            &settings,
        );
        assert(memory@.entries.dom() =~= Set::<Seq<char>>::empty());
        assert(is_default(outcome.0@));
        outcome
    }
}

/// The default registry holds a memory cache with room for a thousand entries that holds none, and
/// a handler that keeps nothing, under their names and no others.
pub proof fn law_default_registry(handlers: Map<Seq<char>, StandardHandler>, name: Seq<char>)
    requires
        is_default(handlers),
    ensures
        handlers.contains_key(name) <==> name == "memory"@ || name == "noop"@,
        handlers["memory"@] matches StandardHandler::Memory(memory) && memory.wf()
            && memory@.max_entries == 1000 && !memory@.entries.contains_key(name),
        handlers["noop"@] is NoOp,
{
    let memory = choose|memory: MemoryCacheHandler|
        {
            &&& memory.wf()
            &&& memory.started_by_clock()
            &&& memory@.entries.dom() == Set::<Seq<char>>::empty()
            &&& memory@.max_entries == 1000
            &&& handlers == #[trigger] standard_names(
                StandardHandler::Memory(memory),
                StandardHandler::NoOp(NoOpCacheHandler),
            )
        };
    law_two_standard_names(
        StandardHandler::Memory(memory),
        StandardHandler::NoOp(NoOpCacheHandler),
        name,
        EnvSetting { var: arbitrary(), value: None },
    );
    assert(!memory@.entries.dom().contains(name));
}

} // verus!
