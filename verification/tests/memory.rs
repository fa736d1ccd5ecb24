use std::time::{Duration, Instant};

use rari_cache::handler::CacheHandler;
use rari_cache::memory::{MemoryCacheHandler, MemoryConfig};
use rari_cache::noop::NoOpCacheHandler;

const SECOND: u128 = 1_000_000_000;

fn tags(names: &[&str]) -> Vec<String> {
    names.iter().map(|name| name.to_string()).collect()
}

fn holding(max_entries: usize) -> MemoryCacheHandler {
    MemoryCacheHandler::with_config(MemoryConfig { max_entries, default_ttl: 60 })
}

#[test]
fn test_memory_get_set() {
    let mut h = MemoryCacheHandler::default();
    h.set("k", b"hello".to_vec(), 60).unwrap();
    let got = h.get("k").unwrap();
    assert_eq!(got, Some(b"hello".to_vec()));
}

#[test]
fn test_memory_ttl_expiry() {
    let mut h = MemoryCacheHandler::default();
    h.set("k", b"hello".to_vec(), 0).unwrap();
    assert_eq!(h.get("k").unwrap(), None);
    assert_eq!(h.get("k").unwrap(), None);
}

#[test]
fn test_memory_lru_eviction() {
    let mut h = MemoryCacheHandler::with_config(MemoryConfig { max_entries: 2, default_ttl: 60 });
    h.set("a", b"1".to_vec(), 60).unwrap();
    h.set("b", b"2".to_vec(), 60).unwrap();
    let _ = h.get("a").unwrap();
    h.set("c", b"3".to_vec(), 60).unwrap();
    assert_eq!(h.get("a").unwrap(), Some(b"1".to_vec()));
    assert_eq!(h.get("b").unwrap(), None);
    assert_eq!(h.get("c").unwrap(), Some(b"3".to_vec()));
}

#[test]
fn test_memory_invalidate() {
    let mut h = MemoryCacheHandler::default();
    h.set("k", b"v".to_vec(), 60).unwrap();
    assert!(h.get("k").unwrap().is_some());
    h.invalidate("k").unwrap();
    assert_eq!(h.get("k").unwrap(), None);
    h.invalidate("k").unwrap();
}

#[test]
fn test_memory_invalidate_by_tag() {
    let mut h = MemoryCacheHandler::default();
    h.set_with_tags("k1", b"a".to_vec(), 60, &["t".to_string()]).unwrap();
    h.set_with_tags("k2", b"b".to_vec(), 60, &["t".to_string()]).unwrap();
    h.set("k3", b"c".to_vec(), 60).unwrap();

    h.invalidate_by_tag("t").unwrap();

    assert_eq!(h.get("k1").unwrap(), None);
    assert_eq!(h.get("k2").unwrap(), None);
    assert_eq!(h.get("k3").unwrap(), Some(b"c".to_vec()));
}

#[test]
fn test_memory_get_all_keys() {
    let mut h = MemoryCacheHandler::default();
    h.set("a", b"1".to_vec(), 60).unwrap();
    h.set("b", b"2".to_vec(), 60).unwrap();

    let mut keys = h.get_all_keys();
    keys.sort();
    assert_eq!(keys, vec!["a".to_string(), "b".to_string()]);

    h.invalidate("a").unwrap();
    let mut keys = h.get_all_keys();
    keys.sort();
    assert_eq!(keys, vec!["b".to_string()]);
}

#[test]
fn test_noop_get_all_keys() {
    let mut h = NoOpCacheHandler;
    h.set("k", b"v".to_vec(), 60).unwrap();
    assert!(h.get_all_keys().is_empty());
}

#[test]
fn test_memory_tag_index_cleanup() {
    let mut h = MemoryCacheHandler::default();
    h.set_with_tags("k1", b"a".to_vec(), 60, &["alpha".to_string(), "shared".to_string()]).unwrap();

    assert!(h.has_tag("alpha"));
    assert!(h.has_tag("shared"));

    h.invalidate("k1").unwrap();

    assert!(!h.has_tag("alpha"));
    assert!(!h.has_tag("shared"));
}

#[test]
fn test_noop_returns_none() {
    let mut h = NoOpCacheHandler;
    assert_eq!(h.get("anything").unwrap(), None);
    h.set("k", b"v".to_vec(), 60).unwrap();
    assert_eq!(h.get("k").unwrap(), None);
    h.set_with_tags("k", b"v".to_vec(), 60, &["t".to_string()]).unwrap();
    h.invalidate("k").unwrap();
    h.invalidate_by_tag("t").unwrap();
    h.clear().unwrap();
}

#[test]
fn defaults_are_a_thousand_entries_for_a_year() {
    let config = MemoryConfig::default();
    assert_eq!(config.max_entries, 1000);
    assert_eq!(config.default_ttl, 31_536_000);
    assert_eq!(MemoryCacheHandler::default().max_entries(), 1000);
}

#[test]
fn there_is_room_for_at_least_one_entry() {
    let mut h = holding(0);
    assert_eq!(h.max_entries(), 1);
    assert!(h.is_empty());
    h.set("a", b"1".to_vec(), 60).unwrap();
    h.set("b", b"2".to_vec(), 60).unwrap();
    assert_eq!(h.len(), 1);
    assert_eq!(h.get("a").unwrap(), None);
    assert_eq!(h.get("b").unwrap(), Some(b"2".to_vec()));
}

#[test]
fn an_entry_is_found_until_its_time_is_over() {
    let mut h = holding(4);
    h.set_with_tags_at("k", b"v".to_vec(), 2, &[], 5 * SECOND).unwrap();
    assert_eq!(h.get_at("k", 5 * SECOND).unwrap(), Some(b"v".to_vec()));
    assert_eq!(h.get_at("k", 7 * SECOND - 1).unwrap(), Some(b"v".to_vec()));
    assert_eq!(h.len(), 1);
    assert_eq!(h.get_at("k", 7 * SECOND).unwrap(), None);
    assert_eq!(h.len(), 0);
}

#[test]
fn an_entry_expires_by_the_clock() {
    let mut h = holding(4);
    h.set("k", b"v".to_vec(), 1).unwrap();
    let stored = Instant::now();
    assert_eq!(h.get("k").unwrap(), Some(b"v".to_vec()));
    while stored.elapsed() < Duration::from_millis(1_100) {
        std::hint::spin_loop();
    }
    assert_eq!(h.get("k").unwrap(), None);
}

#[test]
fn an_entry_kept_for_no_time_is_never_found() {
    let mut h = holding(4);
    h.set_with_tags_at("k", b"v".to_vec(), 0, &[], 9).unwrap();
    assert_eq!(h.len(), 1);
    assert_eq!(h.get_at("k", 9).unwrap(), None);
    assert!(h.is_empty());
}

#[test]
fn an_entry_beyond_every_clock_reading_stays() {
    let mut h = holding(4);
    h.set_with_tags_at("k", b"v".to_vec(), 1, &[], u128::MAX).unwrap();
    assert_eq!(h.get_at("k", u128::MAX).unwrap(), Some(b"v".to_vec()));
}

#[test]
fn storing_under_a_held_key_of_a_full_cache_still_makes_room() {
    let mut h = holding(2);
    h.set("a", b"1".to_vec(), 60).unwrap();
    h.set("b", b"2".to_vec(), 60).unwrap();
    h.set("b", b"3".to_vec(), 60).unwrap();
    assert_eq!(h.get("a").unwrap(), None);
    assert_eq!(h.get("b").unwrap(), Some(b"3".to_vec()));
}

#[test]
fn storing_keeps_the_other_keys_but_the_one_that_makes_room() {
    let mut h = holding(3);
    h.set("a", b"1".to_vec(), 60).unwrap();
    h.set("b", b"2".to_vec(), 60).unwrap();
    h.set("c", b"3".to_vec(), 60).unwrap();
    h.set("d", b"4".to_vec(), 60).unwrap();
    let mut keys = h.get_all_keys();
    keys.sort();
    assert_eq!(keys, vec!["b".to_string(), "c".to_string(), "d".to_string()]);
}

#[test]
fn a_smaller_set_of_tags_leaves_nothing_behind() {
    let mut h = holding(4);
    h.set_with_tags("k", b"1".to_vec(), 60, &tags(&["old", "both"])).unwrap();
    h.set_with_tags("k", b"2".to_vec(), 60, &tags(&["both"])).unwrap();
    assert!(!h.has_tag("old"));
    assert!(h.has_tag("both"));
    h.invalidate_by_tag("old").unwrap();
    assert_eq!(h.get("k").unwrap(), Some(b"2".to_vec()));
    h.invalidate_by_tag("both").unwrap();
    assert_eq!(h.get("k").unwrap(), None);
}

#[test]
fn a_tag_given_twice_counts_once() {
    let mut h = holding(4);
    h.set_with_tags("k", b"1".to_vec(), 60, &tags(&["t", "t"])).unwrap();
    h.invalidate_by_tag("t").unwrap();
    assert!(h.is_empty());
    assert!(!h.has_tag("t"));
}

#[test]
fn making_room_takes_the_key_out_of_its_groups() {
    let mut h = holding(1);
    h.set_with_tags("a", b"1".to_vec(), 60, &tags(&["t"])).unwrap();
    h.set("b", b"2".to_vec(), 60).unwrap();
    assert!(!h.has_tag("t"));
}

#[test]
fn clearing_leaves_nothing() {
    let mut h = holding(4);
    h.set_with_tags("a", b"1".to_vec(), 60, &tags(&["t"])).unwrap();
    h.clear().unwrap();
    assert!(h.is_empty());
    assert!(!h.has_tag("t"));
    assert!(h.get_all_keys().is_empty());
    h.set("b", b"2".to_vec(), 60).unwrap();
    assert_eq!(h.get("b").unwrap(), Some(b"2".to_vec()));
}
