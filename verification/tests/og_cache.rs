use std::collections::BTreeMap;
use std::hash::{Hash, Hasher};

use rari_cache::digest::{cache_filename, image_for_hash, in_hex};
use rari_cache::handler::CacheHandler;
use rari_cache::memory::{MemoryCacheHandler, MemoryConfig};
use rari_cache::og_cache::{
    resolve_cache_dir, CacheDir, ImageAction, ImageEvent, OgAction, OgImageCache, OgRun,
    OG_TTL_SECS,
};

type Cache = OgImageCache<MemoryCacheHandler, String>;

type Files = BTreeMap<String, Vec<u8>>;

fn memory(max_entries: usize) -> MemoryCacheHandler {
    MemoryCacheHandler::with_config(MemoryConfig { max_entries, default_ttl: 0 })
}

fn fresh_cache(test_name: &str, memory_capacity: usize) -> Cache {
    let project_path = format!("rari-test-og-cache-{}", test_name);
    OgImageCache::with_handler(memory(memory_capacity.max(1)), project_path, None)
}

fn finish(cache: &mut Cache, files: &mut Files, started: (OgRun, OgAction)) -> Option<Vec<u8>> {
    let (mut run, mut action) = started;
    let mut listing: Vec<String> = Vec::new();
    let mut at = String::new();
    loop {
        let event = match action {
            ImageAction::AskHandler(key) => match cache.handler.get(&key) {
                Ok(Some(bytes)) => ImageEvent::Bytes(bytes),
                Ok(None) => ImageEvent::Nothing,
                Err(_) => ImageEvent::Failed,
            },
            ImageAction::StoreInHandler { key, value, ttl_secs } => {
                assert_eq!(ttl_secs, OG_TTL_SECS);
                cache.handler.set(&key, value, ttl_secs).unwrap();
                ImageEvent::Done
            }
            ImageAction::DropFromHandler(key) => {
                cache.handler.invalidate(&key).unwrap();
                ImageEvent::Done
            }
            ImageAction::ClearHandler => {
                cache.handler.clear().unwrap();
                ImageEvent::Done
            }
            ImageAction::CreateDir => ImageEvent::Done,
            ImageAction::ReadFile(name) => match files.get(&name) {
                Some(bytes) => ImageEvent::Bytes(bytes.clone()),
                None => ImageEvent::Failed,
            },
            ImageAction::WriteFile(name, value) => {
                files.insert(name, value);
                ImageEvent::Done
            }
            ImageAction::RemoveFile(name) => match files.remove(&name) {
                Some(_) => ImageEvent::Done,
                None => ImageEvent::Failed,
            },
            ImageAction::ListDir => {
                listing = files.keys().cloned().collect();
                ImageEvent::Done
            }
            ImageAction::NextEntry => match listing.pop() {
                Some(name) => {
                    at = name.clone();
                    ImageEvent::Entry(name)
                }
                None => ImageEvent::Nothing,
            },
            ImageAction::RemoveEntry => {
                files.remove(&at);
                ImageEvent::Done
            }
            ImageAction::Finish(found) => return found,
        };
        (run, action) = run.step(event);
    }
}

fn insert(cache: &mut Cache, files: &mut Files, key: &str, value: Vec<u8>) {
    let started = cache.insert(key.to_string(), value);
    assert_eq!(finish(cache, files, started), None);
}

fn get(cache: &mut Cache, files: &mut Files, key: &str) -> Option<Vec<u8>> {
    let started = cache.get(key);
    finish(cache, files, started)
}

fn remove(cache: &mut Cache, files: &mut Files, key: &str) -> Option<Vec<u8>> {
    let started = cache.remove(key);
    finish(cache, files, started)
}

fn clear(cache: &mut Cache, files: &mut Files) {
    let started = cache.clear();
    assert_eq!(finish(cache, files, started), None);
}

#[test]
fn test_cache_insert_and_get() {
    let mut files = Files::new();
    let mut cache = fresh_cache("basic", 5);
    let data = vec![1, 2, 3, 4, 5];

    insert(&mut cache, &mut files, "/test/route", data.clone());
    assert_eq!(get(&mut cache, &mut files, "/test/route"), Some(data));
    clear(&mut cache, &mut files);
}

#[test]
fn test_cache_remove() {
    let mut files = Files::new();
    let mut cache = fresh_cache("remove", 5);
    let data = vec![1, 2, 3, 4, 5];

    insert(&mut cache, &mut files, "/test/route", data.clone());
    assert_eq!(remove(&mut cache, &mut files, "/test/route"), Some(data));
    assert!(get(&mut cache, &mut files, "/test/route").is_none());
}

#[test]
fn test_disk_persistence() {
    let mut files = Files::new();
    let mut cache = fresh_cache("persistence", 1);
    let data = vec![10, 20, 30, 40, 50];

    insert(&mut cache, &mut files, "/route1", data.clone());
    insert(&mut cache, &mut files, "/route2", vec![1, 2, 3]);

    assert_eq!(get(&mut cache, &mut files, "/route1"), Some(data));
    clear(&mut cache, &mut files);
}

#[test]
fn cache_test_handler_round_trip() {
    let mut files = Files::new();
    let mut cache = fresh_cache("handler-round-trip", 8);
    let payload = b"webp-bytes".to_vec();

    insert(&mut cache, &mut files, "k1", payload.clone());
    assert_eq!(get(&mut cache, &mut files, "k1"), Some(payload));
    clear(&mut cache, &mut files);
}

#[test]
fn test_handler_fallback_to_disk() {
    let mut files = Files::new();
    let mut cache_a = fresh_cache("fallback-to-disk", 8);

    let payload = vec![0xDE, 0xAD, 0xBE, 0xEF];
    insert(&mut cache_a, &mut files, "/persistent", payload.clone());
    let _ = get(&mut cache_a, &mut files, "/persistent").expect("cache_a in-memory hit");
    drop(cache_a);

    let mut cache_b = fresh_cache("fallback-to-disk", 8);
    let from_disk = get(&mut cache_b, &mut files, "/persistent");
    assert_eq!(from_disk, Some(payload.clone()), "expected disk-fallback hit");

    let in_new_handler = cache_b.handler.get("/persistent").unwrap();
    assert_eq!(in_new_handler, Some(payload.clone()), "write-through to new handler missing");

    clear(&mut cache_b, &mut files);
}

#[test]
fn clearing_removes_images_and_no_other_file() {
    let mut files = Files::new();
    let mut cache = fresh_cache("clear", 4);
    insert(&mut cache, &mut files, "/a", vec![1]);
    insert(&mut cache, &mut files, "/b", vec![2]);
    files.insert("notes.txt".to_string(), vec![3]);
    files.insert(".webp".to_string(), vec![4]);
    files.insert("picture.webp.part".to_string(), vec![5]);
    files.insert("other.webp".to_string(), vec![6]);
    clear(&mut cache, &mut files);
    let left: Vec<&str> = files.keys().map(|name| name.as_str()).collect();
    assert_eq!(left, vec![".webp", "notes.txt", "picture.webp.part"]);
    assert!(cache.handler.is_empty());
    assert_eq!(get(&mut cache, &mut files, "/a"), None);
}

#[test]
fn removing_what_is_only_on_disk_finds_nothing_and_removes_it() {
    let mut files = Files::new();
    let mut cache = fresh_cache("remove-file", 1);
    insert(&mut cache, &mut files, "/a", vec![1]);
    insert(&mut cache, &mut files, "/b", vec![2]);
    assert_eq!(remove(&mut cache, &mut files, "/a"), None);
    assert_eq!(get(&mut cache, &mut files, "/a"), None);
    assert_eq!(get(&mut cache, &mut files, "/b"), Some(vec![2]));
}

#[test]
fn a_failing_handler_and_disk_are_passed_over() {
    let cache = fresh_cache("failing", 1);
    let (run, action) = cache.get("k");
    assert!(matches!(action, ImageAction::AskHandler(key) if key == "k"));
    let (run, action) = run.step(ImageEvent::Failed);
    assert!(matches!(action, ImageAction::ReadFile(name) if name == cache_filename("k")));
    let (_, action) = run.step(ImageEvent::Failed);
    assert!(matches!(action, ImageAction::Finish(None)));

    let (run, _) = cache.insert("k".to_string(), vec![7]);
    let (run, action) = run.step(ImageEvent::Failed);
    assert!(matches!(action, ImageAction::WriteFile(_, value) if value == vec![7]));
    let (run, action) = run.step(ImageEvent::Failed);
    assert!(matches!(action, ImageAction::StoreInHandler { key, .. } if key == "k"));
    let (_, action) = run.step(ImageEvent::Failed);
    assert!(matches!(action, ImageAction::Finish(None)));

    let (run, _) = cache.clear();
    let (run, action) = run.step(ImageEvent::Failed);
    assert!(matches!(action, ImageAction::ListDir));
    let (_, action) = run.step(ImageEvent::Failed);
    assert!(matches!(action, ImageAction::Finish(None)));
}

#[test]
fn a_failure_to_remove_an_image_does_not_stop_the_walk() {
    let cache = fresh_cache("walk", 1);
    let (run, _) = cache.clear();
    let (run, _) = run.step(ImageEvent::Done);
    let (run, action) = run.step(ImageEvent::Done);
    assert!(matches!(action, ImageAction::NextEntry));
    let (run, action) = run.step(ImageEvent::Entry("a.webp".to_string()));
    assert!(matches!(action, ImageAction::RemoveEntry));
    let (run, action) = run.step(ImageEvent::Failed);
    assert!(matches!(action, ImageAction::NextEntry));
    let (_, action) = run.step(ImageEvent::Failed);
    assert!(matches!(action, ImageAction::Finish(None)));
}

#[test]
fn images_lie_in_a_fixed_directory_in_production_only() {
    let dir = resolve_cache_dir("/project", Some("production"));
    assert!(matches!(dir, CacheDir::Fixed("/tmp/rari-og-cache")));
    let dir = resolve_cache_dir("/project", Some("development"));
    assert!(matches!(dir, CacheDir::Under("/project", [".cache", "og"])));
    let dir = resolve_cache_dir("/project", None);
    assert!(matches!(dir, CacheDir::Under("/project", [".cache", "og"])));
}

#[test]
fn a_new_cache_keeps_at_least_one_image_in_memory() {
    let cache = OgImageCache::new(0, "/project", None);
    assert_eq!(cache.handler.max_entries(), 1);
    let cache = OgImageCache::new(12, "/project", Some("production"));
    assert_eq!(cache.handler.max_entries(), 12);
    assert!(matches!(cache.cache_dir, CacheDir::Fixed(_)));
}

#[test]
fn numbers_are_written_in_hexadecimal() {
    assert_eq!(in_hex(0), "0");
    assert_eq!(in_hex(15), "f");
    assert_eq!(in_hex(16), "10");
    assert_eq!(in_hex(0x0123_4567_89ab_cdef), "123456789abcdef");
    assert_eq!(in_hex(u64::MAX), format!("{:x}", u64::MAX));
    assert_eq!(image_for_hash(0xbeef), "beef.webp");
}

#[test]
fn no_key_leads_out_of_the_directory() {
    for key in ["", "/", "../../etc/passwd", "..\\secret", "a/b.webp", "\u{0}"] {
        let name = cache_filename(key);
        let digits = name.strip_suffix(".webp").unwrap();
        assert!((1..=16).contains(&digits.len()));
        assert!(digits.chars().all(|c| matches!(c, '0'..='9' | 'a'..='f')));
    }
}

#[test]
fn the_file_of_a_key_is_named_after_its_hash() {
    let mut hasher = std::collections::hash_map::DefaultHasher::new();
    "/test/route".hash(&mut hasher);
    let expected = format!("{:x}.webp", hasher.finish());
    assert_eq!(cache_filename("/test/route"), expected);
    assert_ne!(cache_filename("/test/route"), cache_filename("/test/other"));
}
