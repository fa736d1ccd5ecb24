//! A cache whose store is chosen while it runs.

use crate::config::CacheLayerConfig;
use crate::error::{is_backend, CacheError};
use crate::redb_handler::RedbCacheHandler;
use crate::redis_handler::RedisCacheHandler;
use vstd::prelude::*;

verus! {

/// The stores that can be chosen.
#[derive(Debug, Clone, Copy, PartialEq, Eq, Structural)]
#[non_exhaustive]
pub enum TestCacheBackend {
    /// A server.
    Redis,
    /// A file.
    Redb,
}

/// Chooses a store.
pub fn set_test_backend(chosen: &mut Option<TestCacheBackend>, backend: TestCacheBackend)
    ensures
        *final(chosen) == Some(backend),
{
    *chosen = Some(backend);
}

/// Takes the choice back.
pub fn reset_test_backend(chosen: &mut Option<TestCacheBackend>)
    ensures
        *final(chosen) is None,
{
    *chosen = None;
}

/// The store that is chosen, if one is.
pub fn current_backend(chosen: &Option<TestCacheBackend>) -> (backend: Option<TestCacheBackend>)
    ensures
        backend == *chosen,
{
    *chosen
}

/// A handler for the chosen store. `C` stands for a connection to the server, `D` for the opened
/// file.
pub enum Fresh<C, D> {
    /// For the server.
    Redis(RedisCacheHandler<C>),
    /// For the file.
    Redb(RedbCacheHandler<D, String>),
}

impl<C, D> Fresh<C, D> {
    /// Whether this is a new handler for `backend`, as `layer` is set up.
    pub open spec fn suits(&self, backend: TestCacheBackend, layer: CacheLayerConfig) -> bool {
        match (backend, self) {
            (TestCacheBackend::Redis, Fresh::Redis(handler)) => {
                &&& handler.connected() is None
                &&& handler.address() == match layer.url {
                    Some(url) => Some(url@),
                    None => None,
                }
            },
            (TestCacheBackend::Redb, Fresh::Redb(handler)) => {
                &&& handler.opened() is None
                &&& handler.ttl() == layer.default_ttl_secs
                &&& handler.at()@ == match layer.url {
                    Some(url) => url@,
                    None => crate::redb_handler::DEFAULT_PATH@,
                }
            },
            _ => false,
        }
    }
}

/// The handler to use.
pub enum Resolved<'a, H, C, D> {
    /// The one in use already.
    Kept(&'a H),
    /// A new one, to be kept from now on.
    New(Fresh<C, D>),
}

/// A cache whose store is chosen when it is first used. `H` stands for the handler in use.
#[derive(Debug)]
pub struct TestCacheHandler<H> {
    layer: CacheLayerConfig,
    inner: Option<H>,
}

impl<H> TestCacheHandler<H> {
    /// How the layer is set up.
    pub closed spec fn setup(&self) -> CacheLayerConfig {
        self.layer
    }

    /// The handler in use, if there is one.
    pub closed spec fn in_use(&self) -> Option<H> {
        self.inner
    }

    /// A cache as a layer is set up, with no handler in use yet.
    pub fn from_config(layer: &CacheLayerConfig) -> (handler: Self)
        ensures
            handler.setup() == *layer,
            handler.in_use() is None,
    {
        TestCacheHandler { layer: layer.clone(), inner: None }
    }

    /// The handler to use: the one in use, whatever is chosen by now, or else a new one for the
    /// chosen store.
    pub fn resolve_inner<C, D>(&self, chosen: &Option<TestCacheBackend>) -> (resolved: Result<
        Resolved<'_, H, C, D>,
        CacheError,
    >)
        ensures
            match (self.in_use(), *chosen) {
                (Some(handler), _) => resolved matches Ok(Resolved::Kept(kept)) && *kept == handler,
                (None, Some(backend)) => resolved matches Ok(Resolved::New(fresh)) && fresh.suits(
                    backend,
                    self.setup(),
                ),
                (None, None) => resolved matches Err(error) && is_backend(
                    error,
                    "test cache backend not set; call set_test_backend() before use"@,
                ),
            },
    {
        if let Some(handler) = &self.inner {
            return Ok(Resolved::Kept(handler));
        }
        match current_backend(chosen) {
            None => Err(
                CacheError::Backend(
                    "test cache backend not set; call set_test_backend() before use".to_owned(),
                ),
            ),
            Some(TestCacheBackend::Redis) => Ok(
                Resolved::New(Fresh::Redis(RedisCacheHandler::from_config(&self.layer))),
            ),
            Some(TestCacheBackend::Redb) => Ok(
                Resolved::New(Fresh::Redb(RedbCacheHandler::from_config(&self.layer))),
            ),
        }
    }

    /// Keeps the handler to use from now on.
    pub fn keep(&mut self, handler: H)
        ensures
            final(self).in_use() == Some(handler),
            final(self).setup() == old(self).setup(),
    {
        self.inner = Some(handler);
    }
}

/// A new handler for the chosen store is one for that store: for the server at the address of the
/// layer and without a connection, or for the file at that address, or else at the usual place,
/// not opened yet and with the default time of the layer.
pub proof fn law_fresh_handlers_are_for_the_chosen_store<C, D>(
    fresh: Fresh<C, D>,
    backend: TestCacheBackend,
    layer: CacheLayerConfig,
)
    requires
        fresh.suits(backend, layer),
    ensures
        fresh is Redis <==> backend is Redis,
        fresh matches Fresh::Redis(handler) ==> {
            &&& handler.connected() is None
            &&& layer.url matches Some(url) ==> handler.address() == Some(url@)
            &&& layer.url is None ==> handler.address() is None
        },
        fresh matches Fresh::Redb(handler) ==> {
            &&& handler.opened() is None
            &&& handler.ttl() == layer.default_ttl_secs
            &&& layer.url matches Some(url) ==> handler.at()@ == url@
            &&& layer.url is None ==> handler.at()@ == "./.rari/cache.redb"@
        },
{
}

} // verus!
