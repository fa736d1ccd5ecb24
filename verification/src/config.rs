//! How a layer of the cache is set up.

use vstd::prelude::*;

verus! {

/// How a layer of the cache is set up.
#[derive(Debug)]
pub struct CacheLayerConfig {
    /// The name of the handler that the layer uses.
    pub handler: String,
    /// How many entries the layer holds at most.
    pub max_entries: usize,
    /// For how many seconds an entry is kept where nobody says otherwise.
    pub default_ttl_secs: u64,
    /// Where the store of the layer is found.
    pub url: Option<String>,
}

impl Clone for CacheLayerConfig {
    fn clone(&self) -> (copy: Self)
        ensures
            copy == *self,
    {
        CacheLayerConfig {
            handler: self.handler.clone(),
            max_entries: self.max_entries,
            default_ttl_secs: self.default_ttl_secs,
            url: match &self.url {
                Some(url) => Some(url.clone()),
                None => None,
            },
        }
    }
}

} // verus!
