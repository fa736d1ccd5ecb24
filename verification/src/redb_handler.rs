//! A cache in a file: where the file lies, and when it is to be opened.

use crate::config::CacheLayerConfig;
use crate::redb_run::{RedbAction, RedbRequest, RedbRun, Request, RequestView};
use vstd::prelude::*;

verus! {

/// Where the file lies where nothing else is said.
pub const DEFAULT_PATH: &'static str = "./.rari/cache.redb";

/// For how many seconds an entry is kept where nothing else is said.
pub const DEFAULT_TTL_SECS: u64 = 3600;

/// A cache in a file. `D` stands for the opened file, `P` is the type of paths.
#[derive(Debug)]
pub struct RedbCacheHandler<D, P> {
    path: P,
    database: Option<D>,
    default_ttl_secs: u64,
}

/// The directory part of a path.
pub struct Parent<P> {
    /// The path of the directory.
    pub path: P,
    /// Whether that path is empty, as for a file that is named without a directory.
    pub is_empty: bool,
}

/// What it takes to work on the file.
pub enum DatabaseStep<'a, D, P> {
    /// Nothing: it is open.
    Ready(&'a D),
    /// To create the file or open it, once the directory has been made where one is named.
    Create { directory: Option<&'a P>, path: &'a P },
}

impl<D> RedbCacheHandler<D, String> {
    /// A cache as a layer is set up: in the file that its address names.
    pub fn from_config(layer: &CacheLayerConfig) -> (handler: Self)
        ensures
            handler.at()@ == (match layer.url {
                Some(url) => url@,
                None => DEFAULT_PATH@,
            }),
            layer.url is None ==> handler.at()@ == "./.rari/cache.redb"@,
            handler.opened() is None,
            handler.ttl() == layer.default_ttl_secs,
    {
        let path = match &layer.url {
            Some(url) => url.clone(),
            None => DEFAULT_PATH.to_owned(),
        };
        RedbCacheHandler { path, database: None, default_ttl_secs: layer.default_ttl_secs }
    }
}

impl<D, P> RedbCacheHandler<D, P> {
    /// The path of the file.
    pub closed spec fn at(&self) -> P {
        self.path
    }

    /// The opened file, if it is open.
    pub closed spec fn opened(&self) -> Option<D> {
        self.database
    }

    /// For how many seconds an entry is kept where nothing is asked.
    pub closed spec fn ttl(&self) -> u64 {
        self.default_ttl_secs
    }

    /// A cache in the file at `path`.
    pub fn new(path: P) -> (handler: Self)
        ensures
            handler.at() == path,
            handler.opened() is None,
            handler.ttl() == DEFAULT_TTL_SECS,
            handler.ttl() == 3600,
    {
        RedbCacheHandler { path, database: None, default_ttl_secs: DEFAULT_TTL_SECS }
    }

    /// The same cache with its path written as `path`.
    pub fn with_path<Q>(self, path: Q) -> (handler: RedbCacheHandler<D, Q>)
        ensures
            handler.at() == path,
            handler.opened() == self.opened(),
            handler.ttl() == self.ttl(),
    {
        RedbCacheHandler {
            path,
            database: self.database,
            default_ttl_secs: self.default_ttl_secs,
        }
    }

    /// The path of the file.
    pub fn path(&self) -> (path: &P)
        ensures
            *path == self.at(),
    {
        &self.path
    }

    /// For how many seconds an entry is kept where nothing is asked.
    pub fn default_ttl_secs(&self) -> (secs: u64)
        ensures
            secs == self.ttl(),
    {
        self.default_ttl_secs
    }

    /// What it takes to work on the file, given the directory part of its path: nothing once it
    /// is open; else its directory comes first, unless the path has none or an empty one.
    pub fn database<'a>(&'a self, parent: &'a Option<Parent<P>>) -> (step: DatabaseStep<'a, D, P>)
        ensures
            match self.opened() {
                Some(database) => step matches DatabaseStep::Ready(ready) && *ready == database,
                None => step matches DatabaseStep::Create { directory, path } && *path == self.at()
                    && match directory {
                    Some(directory) => *parent matches Some(parent) && !parent.is_empty
                        && *directory == parent.path,
                    None => *parent matches Some(parent) ==> parent.is_empty,
                },
            },
    {
        match &self.database {
            Some(database) => DatabaseStep::Ready(database),
            None => {
                let directory = match parent {
                    Some(parent) => if parent.is_empty {
                        None
                    } else {
                        Some(&parent.path)
                    },
                    None => None,
                };
                DatabaseStep::Create { directory, path: &self.path }
            },
        }
    }

    /// Keeps the opened file.
    pub fn open(&mut self, database: D)
        ensures
            final(self).opened() == Some(database),
            final(self).at() == old(self).at(),
            final(self).ttl() == old(self).ttl(),
    {
        self.database = Some(database);
    }

    /// Lets go of the opened file, as clearing the cache does first.
    pub fn close(&mut self)
        ensures
            final(self).opened() is None,
            final(self).at() == old(self).at(),
            final(self).ttl() == old(self).ttl(),
    {
        self.database = None;
    }

    /// A request to this cache at its start, and its first action: what is stored without a time
    /// of its own is kept for the default one of this cache.
    pub fn request(&self, request: RedbRequest) -> (started: (RedbRun, RedbAction))
        ensures
            self.starts(request@, started),
    {
        RedbRun::start(request, self.default_ttl_secs)
    }

    /// Whether `started` is the request at its start, and its first action.
    pub open spec fn starts(&self, request: RequestView, started: (RedbRun, RedbAction)) -> bool {
        &&& started.0@.request == request
        &&& started.0@.default_ttl_secs == self.ttl()
        &&& (started.0@.state, started.1@) == started.0@.first()
    }

    /// Asks for the value stored under `key`.
    pub fn get(&self, key: &str) -> (started: (RedbRun, RedbAction))
        ensures
            self.starts(RequestView::Get { key: key@ }, started),
    {
        self.request(Request::Get { key: key.to_owned() })
    }

    /// Asks that `value` be stored under `key` for `ttl_secs` seconds.
    pub fn set(&self, key: &str, value: Vec<u8>, ttl_secs: u64) -> (started: (RedbRun, RedbAction))
        ensures
            self.starts(RequestView::Store { key: key@, value: value@, ttl_secs }, started),
    {
        self.request(Request::Store { key: key.to_owned(), value, ttl_secs })
    }

    /// Asks that `value` be stored under `key` for `ttl_secs` seconds. The file knows no groups:
    /// the tags are passed over.
    pub fn set_with_tags(
        &self,
        key: &str,
        value: Vec<u8>,
        ttl_secs: u64,
        _tags: &[String],
    ) -> (started: (RedbRun, RedbAction))
        ensures
            self.starts(RequestView::Store { key: key@, value: value@, ttl_secs }, started),
    {
        self.set(key, value, ttl_secs)
    }

    /// Asks that `key` be dropped.
    pub fn invalidate(&self, key: &str) -> (started: (RedbRun, RedbAction))
        ensures
            self.starts(RequestView::Invalidate { key: key@ }, started),
    {
        self.request(Request::Invalidate { key: key.to_owned() })
    }

    /// Asks that every key be dropped, and lets go of the opened file first, so that it is opened
    /// anew for it.
    pub fn clear(&mut self) -> (started: (RedbRun, RedbAction))
        ensures
            final(self).opened() is None,
            final(self).at() == old(self).at(),
            final(self).ttl() == old(self).ttl(),
            final(self).starts(RequestView::Clear, started),
    {
        self.close();
        self.request(Request::Clear)
    }

    /// Asks that every key be dropped that begins with `prefix`.
    pub fn clear_prefix(&self, prefix: &str) -> (started: (RedbRun, RedbAction))
        ensures
            self.starts(RequestView::ClearPrefix { prefix: prefix@ }, started),
    {
        self.request(Request::ClearPrefix { prefix: prefix.to_owned() })
    }

    /// The keys that the cache lists: none, for a file is not walked for them.
    pub fn get_all_keys(&self) -> (keys: Vec<String>)
        ensures
            keys@.len() == 0,
    {
        Vec::new()
    }
}

/// A request to a cache starts as it is asked, with the default time of the cache, and waits for
/// its first action: to read the clock where something is stored for a time, to begin a
/// transaction that reads where something is read, and else to begin one that writes.
pub proof fn law_requests_start_as_asked<D, P>(
    handler: RedbCacheHandler<D, P>,
    request: RequestView,
    started: (RedbRun, RedbAction),
)
    requires
        handler.starts(request, started),
    ensures
        started.0@.request == request,
        started.0@.default_ttl_secs == handler.ttl(),
        started.0@.awaits(started.1@),
        match request {
            Request::Get { .. } => started.1@ is BeginRead,
            Request::Store { ttl_secs, .. } => if ttl_secs == 0 && handler.ttl() == 0 {
                started.1@ is BeginWrite
            } else {
                started.1@ is ReadClock
            },
            _ => started.1@ is BeginWrite,
        },
{
    crate::redb_run::law_first_action_is_awaited(started.0@);
}

} // verus!
