use rari_cache::handler::CacheHandler;
use rari_cache::noop::NoOpCacheHandler;
use rari_cache::registry::{handler_vars, CacheHandlerRegistry, EnvSetting, StandardHandler};

fn setting(var: &str, value: Option<&str>) -> EnvSetting {
    EnvSetting { var: var.to_string(), value: value.map(|value| value.to_string()) }
}

#[test]
fn test_registry_get_and_register() {
    let mut r = CacheHandlerRegistry::default_with_memory();
    let mem = r.get_mut("memory").expect("memory must be registered");
    mem.set("k", b"v".to_vec(), 60).unwrap();
    assert_eq!(mem.get("k").unwrap(), Some(b"v".to_vec()));
    let noop = r.get_mut("noop").expect("noop must be registered");
    assert_eq!(noop.get("k").unwrap(), None);

    r.register("custom", StandardHandler::NoOp(NoOpCacheHandler));
    assert!(r.get("custom").is_some());
}

#[test]
fn test_registry_unknown_returns_none() {
    let r: CacheHandlerRegistry<StandardHandler> = CacheHandlerRegistry::new();
    assert!(r.get("nope").is_none());
}

#[test]
fn the_standard_handlers_are_registered() {
    let r = CacheHandlerRegistry::default_with_memory();
    let mut names = r.names();
    names.sort();
    assert_eq!(names, vec!["memory".to_string(), "noop".to_string()]);
    assert_eq!(r.len(), 2);
    assert!(!r.is_empty());
}

#[test]
fn a_later_registration_takes_the_name() {
    let mut r: CacheHandlerRegistry<u32> = CacheHandlerRegistry::default();
    assert!(r.is_empty());
    r.register("a", 1);
    r.register("a", 2);
    r.register("b", 3);
    assert_eq!(r.get("a"), Some(&2));
    assert_eq!(r.get("b"), Some(&3));
    assert_eq!(r.len(), 2);
}

#[test]
fn a_handler_is_resolved_by_its_setting_or_by_default() {
    let r: CacheHandlerRegistry<u32> = CacheHandlerRegistry::with_standard(1, 2);
    assert_eq!(*r.resolve(Some("noop"), "memory"), 2);
    assert_eq!(*r.resolve(Some("redis"), "memory"), 1);
    assert_eq!(*r.resolve(None, "memory"), 1);
}

#[test]
fn settings_that_name_no_handler_are_ignored() {
    let settings = vec![
        setting("RARI_CACHE_HANDLER_RESPONSE", Some("noop")),
        setting("RARI_CACHE_HANDLER_IMAGE", Some("sqlite")),
        setting("RARI_CACHE_HANDLER_OG", None),
        setting("RARI_CACHE_HANDLER_LAYOUT", Some("")),
    ];
    let (registry, ignored) = CacheHandlerRegistry::from_env(1u32, 2u32, &settings);
    assert_eq!(ignored, vec![1, 3]);
    assert_eq!(registry.get("memory"), Some(&1));
    assert_eq!(registry.get("noop"), Some(&2));
    assert_eq!(registry.len(), 2);
}

#[test]
fn values_that_name_no_standard_handler_are_ignored() {
    let value = |name: &str| Some(name.to_string());
    let values =
        vec![value("memory"), value("redis"), None, value("noop"), value("Memory"), value("")];
    let (mut registry, ignored) = CacheHandlerRegistry::from_values(&values);
    assert_eq!(ignored, vec![1, 4, 5]);
    assert_eq!(registry.len(), 2);
    let memory = registry.get_mut("memory").unwrap();
    assert!(matches!(memory, StandardHandler::Memory(memory) if memory.max_entries() == 1000));
    memory.set("k", b"v".to_vec(), 60).unwrap();
    assert_eq!(memory.get("k").unwrap(), Some(b"v".to_vec()));
    assert!(matches!(registry.get("noop"), Some(StandardHandler::NoOp(_))));
}

#[test]
fn six_settings_name_handlers() {
    assert_eq!(
        handler_vars(),
        vec![
            "RARI_CACHE_HANDLER_RESPONSE".to_string(),
            "RARI_CACHE_HANDLER_IMAGE".to_string(),
            "RARI_CACHE_HANDLER_OG".to_string(),
            "RARI_CACHE_HANDLER_LAYOUT".to_string(),
            "RARI_CACHE_HANDLER_MODULE".to_string(),
            "RARI_CACHE_HANDLER_FETCH".to_string(),
        ]
    );
}
