use rari_cache::config::CacheLayerConfig;
use rari_cache::error::{CacheError, RariError};
use rari_cache::handler::CacheHandler;
use rari_cache::memory::MemoryCacheHandler;
use rari_cache::module_cache::{prepared, Lookup, ModuleCaching};
use rari_cache::registry::CacheHandlerRegistry;
use serde_json::Value;

fn json(text: &str) -> Value {
    serde_json::from_str(text).unwrap()
}

fn layer(handler: &str) -> CacheLayerConfig {
    CacheLayerConfig {
        handler: handler.to_string(),
        max_entries: 8,
        default_ttl_secs: 90,
        url: None,
    }
}

#[test]
fn test_cache_basic_operations() {
    let mut cache = ModuleCaching::new(10);

    cache.insert("key1".to_string(), json(r#"{"value": 1}"#)).unwrap();
    assert_eq!(cache.get("key1"), Some(json(r#"{"value": 1}"#)));
    assert!(cache.get("nonexistent").is_none());
}

#[test]
fn test_cache_lru_eviction() {
    let mut cache = ModuleCaching::new(2);

    cache.insert("key1".to_string(), json("1")).unwrap();
    cache.insert("key2".to_string(), json("2")).unwrap();
    cache.insert("key3".to_string(), json("3")).unwrap();

    assert!(cache.get("key1").is_none());
    assert!(cache.get("key2").is_some());
    assert!(cache.get("key3").is_some());
}

#[test]
fn test_cache_stats() {
    let mut cache = ModuleCaching::new(10);

    cache.insert("key1".to_string(), json("1")).unwrap();
    cache.get("key1");
    cache.get("key2");

    let stats = cache.get_cache_stats();
    assert_eq!(stats.hits, 1);
    assert_eq!(stats.misses, 1);
}

#[test]
fn test_module_caching() {
    let mut caching = ModuleCaching::new(10);

    caching.set_component_source_path("comp1".to_string(), "/path/to/comp1".to_string());
    assert_eq!(caching.get_component_source_path("comp1"), Some("/path/to/comp1".to_string()));

    caching.insert("module1".to_string(), json(r#"{"data": "test"}"#)).unwrap();
    assert!(caching.get("module1").is_some());
}

#[test]
fn test_handler_round_trip() {
    let mut cache = ModuleCaching::new(10);
    let value = json(r#"{"nested": {"a": [1, 2, 3], "b": "x"}}"#);

    cache.insert("k".to_string(), value.clone()).unwrap();
    assert_eq!(cache.get("k"), Some(value));

    let stats = cache.get_cache_stats();
    assert_eq!(stats.hits, 1);
    assert_eq!(stats.misses, 0);
}

#[test]
fn test_invalidate_via_custom_handler() {
    let handler = MemoryCacheHandler::default();
    let mut cache = ModuleCaching::with_handler(4, 60, handler);

    cache.insert("k".to_string(), json(r#"{"v": 1}"#)).unwrap();
    assert!(cache.get("k").is_some());

    cache.invalidate("k");

    assert!(cache.get("k").is_none());
    assert_eq!(cache.get_cache_stats().size, 0);
}

#[test]
fn a_module_is_kept_as_json() {
    assert_eq!(prepared(&json(r#"{ "a" : [1, null] }"#)).unwrap(), br#"{"a":[1,null]}"#.to_vec());
}

#[test]
fn what_is_no_json_is_a_miss_and_is_dropped() {
    let mut handler = MemoryCacheHandler::default();
    handler.set("k", b"{broken".to_vec(), 60).unwrap();
    let mut cache = ModuleCaching::with_handler(4, 60, handler);
    assert!(cache.get("k").is_none());
    assert!(cache.handler().is_empty());
    let stats = cache.get_cache_stats();
    assert_eq!((stats.hits, stats.misses, stats.evictions), (0, 1, 0));
}

#[test]
fn answers_of_a_handler_are_counted() {
    let mut cache = ModuleCaching::with_handler(4, 60, ());
    let found = cache.looked_up(Ok(Some(b"[1]".to_vec())));
    assert!(matches!(found, Lookup::Hit(value) if value == json("[1]")));
    assert!(matches!(cache.looked_up(Ok(Some(b"[1".to_vec()))), Lookup::Broken));
    assert!(matches!(cache.looked_up(Ok(None)), Lookup::Miss));
    let failed = Err(CacheError::Backend("down".to_string()));
    assert!(matches!(cache.looked_up(failed), Lookup::Miss));
    let stats = cache.get_cache_stats();
    assert_eq!((stats.hits, stats.misses), (1, 3));
}

#[test]
fn a_refused_insertion_is_an_error_and_is_not_counted() {
    let mut cache = ModuleCaching::with_handler(4, 60, ());
    let refused = cache.stored(Err(CacheError::Backend("down".to_string())));
    assert!(
        matches!(refused, Err(RariError::Cache(text)) if text == "cache set: backend error: down")
    );
    assert_eq!(cache.get_cache_stats().size, 0);
    cache.stored(Ok(())).unwrap();
    cache.stored(Ok(())).unwrap();
    let stats = cache.get_cache_stats();
    assert_eq!((stats.size, stats.memory_bytes), (2, 128));
}

#[test]
fn a_failed_drop_is_not_counted_and_the_count_wraps() {
    let mut cache = ModuleCaching::with_handler(4, 60, ());
    cache.dropped(Err(CacheError::Io("gone".to_string())));
    assert_eq!(cache.get_cache_stats().size, 0);
    cache.dropped(Ok(()));
    let stats = cache.get_cache_stats();
    assert_eq!(stats.size, usize::MAX);
    assert_eq!(stats.memory_bytes, usize::MAX - 63);
}

#[test]
fn clearing_drops_modules_and_paths() {
    let mut cache = ModuleCaching::default();
    cache.set_component_source_path("c".to_string(), "/c".to_string());
    cache.insert("k".to_string(), json("true")).unwrap();
    cache.clear();
    assert!(cache.get("k").is_none());
    assert_eq!(cache.get_component_source_path("c"), None);
    assert_eq!(cache.get_cache_stats().size, 0);
}

#[test]
fn a_component_is_forgotten_alone() {
    let mut cache = ModuleCaching::with_handler(4, 60, ());
    cache.set_component_source_path("a".to_string(), "/a".to_string());
    cache.set_component_source_path("b".to_string(), "/b".to_string());
    cache.set_component_source_path("c".to_string(), "/c".to_string());
    let mut ids = cache.component_ids();
    ids.sort();
    assert_eq!(ids, vec!["a".to_string(), "b".to_string(), "c".to_string()]);
    cache.clear_component("a");
    cache.remove_component_source_path("b");
    assert_eq!(cache.get_component_source_path("a"), None);
    assert_eq!(cache.get_component_source_path("b"), None);
    assert_eq!(cache.get_component_source_path("c"), Some("/c".to_string()));
}

#[test]
fn a_layer_gets_the_handler_that_it_names_or_the_one_in_memory() {
    let registry: CacheHandlerRegistry<u32> = CacheHandlerRegistry::with_standard(1, 2);
    let named = ModuleCaching::from_config(&layer("noop"), &registry);
    assert_eq!(*named.handler(), 2);
    assert_eq!(named.max_age_secs(), 90);
    let unknown = ModuleCaching::from_config(&layer("sqlite"), &registry);
    assert_eq!(*unknown.handler(), 1);
}

#[test]
fn modules_are_kept_for_an_hour_by_default() {
    assert_eq!(ModuleCaching::default().max_age_secs(), 3600);
    assert_eq!(ModuleCaching::default().handler().max_entries(), 5000);
    assert_eq!(ModuleCaching::new(0).handler().max_entries(), 1);
    assert_eq!(ModuleCaching::new(7).into_handler().max_entries(), 7);
}
