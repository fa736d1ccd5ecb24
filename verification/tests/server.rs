use rari_cache::config::CacheLayerConfig;
use rari_cache::error::CacheError;
use rari_cache::redis_handler::{
    redis_error, redis_timeout, Answer, Command, ConnectionStep, RedisCacheHandler, RedisCommand,
    RedisRequest, RedisRun, ServerRequest, Waited, REDIS_TIMEOUT_SECS,
};
use rari_cache::reply::{Reply, SetOutcome, StoreReply};
use rari_cache::test_handler::{
    current_backend, reset_test_backend, set_test_backend, Fresh, Resolved, TestCacheBackend,
    TestCacheHandler,
};

fn layer(url: Option<&str>) -> CacheLayerConfig {
    CacheLayerConfig {
        handler: "test".to_string(),
        max_entries: 1,
        default_ttl_secs: 11,
        url: url.map(|url| url.to_string()),
    }
}

fn key(text: &str) -> String {
    text.to_string()
}

fn ended(command: RedisCommand) -> Result<StoreReply, CacheError> {
    match command {
        Command::Finish(verdict) => verdict.into_result(),
        _ => panic!("not ended"),
    }
}

fn words(command: RedisCommand) -> String {
    match ended(command) {
        Err(CacheError::Backend(text)) => text,
        _ => panic!("no failure"),
    }
}

#[test]
fn a_connection_is_made_once_and_needs_an_address() {
    let mut handler: RedisCacheHandler<u32> = RedisCacheHandler::new("redis://host");
    assert!(matches!(handler.connection(), Ok(ConnectionStep::Connect("redis://host"))));
    handler.connect(3);
    assert!(matches!(handler.connection(), Ok(ConnectionStep::Ready(&3))));

    let handler: RedisCacheHandler<u32> = RedisCacheHandler::from_config(&layer(None));
    assert!(matches!(
        handler.connection(),
        Err(CacheError::Backend(text)) if text == "redis url is not configured"
    ));
    let handler: RedisCacheHandler<u32> = RedisCacheHandler::from_config(&layer(Some("redis://x")));
    assert!(matches!(handler.connection(), Ok(ConnectionStep::Connect("redis://x"))));
}

#[test]
fn a_request_to_a_handler_needs_an_address() {
    let handler: RedisCacheHandler<u32> = RedisCacheHandler::new("redis://host");
    assert!(matches!(handler.get("k"), Ok((_, Command::Get(k))) if k == "k"));
    assert!(matches!(handler.set("k", vec![1], 0), Ok((_, Command::Put { .. }))));
    let tagged = handler.set_with_tags("k", vec![1], 4, &["t".to_string()]);
    assert!(matches!(tagged, Ok((_, Command::PutFor { ttl_secs: 4, .. }))));
    assert!(matches!(handler.invalidate("k"), Ok((_, Command::Delete(k))) if k == "k"));
    assert!(matches!(handler.clear_prefix("p"), Ok((_, Command::Keys(p))) if p == "p*"));
    assert!(handler.get_all_keys().is_empty());

    let handler: RedisCacheHandler<u32> = RedisCacheHandler::from_config(&layer(None));
    assert!(matches!(
        handler.get("k"),
        Err(CacheError::Backend(text)) if text == "redis url is not configured"
    ));
}

#[test]
fn waiting_ends_in_an_answer_or_in_words() {
    assert_eq!(REDIS_TIMEOUT_SECS, 2);
    assert_eq!(redis_timeout("get", Waited::Answered(7)).unwrap(), 7);
    let late: Result<u8, CacheError> = redis_timeout("connect", Waited::TimedOut);
    assert!(matches!(late, Err(CacheError::Backend(text)) if text == "redis connect timeout"));
    let failed: Result<u8, CacheError> = redis_timeout("get", Waited::Failed("down".to_string()));
    assert!(matches!(failed, Err(CacheError::Backend(text)) if text == "redis get: down"));
    assert!(matches!(
        redis_error("client open", "bad url"),
        CacheError::Backend(text) if text == "redis client open: bad url"
    ));
}

#[test]
fn a_value_is_read_with_one_command() {
    let (run, command) = RedisRun::start(ServerRequest::Get { key: key("k") });
    assert!(matches!(command, Command::Get(k) if k == "k"));
    let (_, command) = run.step(Waited::Answered(Answer::Value(Some(vec![1]))));
    assert!(matches!(ended(command), Ok(Reply::Value(Some(value))) if value == vec![1]));

    let (run, _) = RedisRun::start(ServerRequest::Get { key: key("k") });
    let (_, command) = run.step(Waited::TimedOut);
    assert_eq!(words(command), "redis get timeout");
}

#[test]
fn a_value_is_stored_for_its_time_or_for_good() {
    let store = |ttl_secs: u64| -> RedisRequest {
        ServerRequest::Store { key: key("k"), value: vec![2], ttl_secs }
    };
    let (run, command) = RedisRun::start(store(0));
    assert!(matches!(command, Command::Put { key: k, value } if k == "k" && value == vec![2]));
    let (_, command) = run.step(Waited::Answered(Answer::Done));
    let nothing = SetOutcome { replaced: false, evicted: 0, evicted_bytes: 0 };
    assert!(matches!(ended(command), Ok(Reply::Stored(outcome)) if outcome == nothing));
    assert_eq!(SetOutcome::default(), nothing);

    let (run, command) = RedisRun::start(store(30));
    assert!(matches!(command, Command::PutFor { ttl_secs: 30, .. }));
    let (_, command) = run.step(Waited::Failed("full".to_string()));
    assert_eq!(words(command), "redis set: full");
}

#[test]
fn a_dropped_key_tells_whether_it_was_there() {
    for (count, existed) in [(0, false), (1, true), (-1, false)] {
        let (run, command) = RedisRun::start(ServerRequest::Invalidate { key: key("k") });
        assert!(matches!(command, Command::Delete(k) if k == "k"));
        let (_, command) = run.step(Waited::Answered(Answer::Dropped(count)));
        assert!(matches!(ended(command), Ok(Reply::Invalidated(told)) if told == existed));
    }
}

#[test]
fn listed_keys_are_dropped_and_counted() {
    let (run, command) = RedisRun::start(ServerRequest::ClearPrefix { prefix: key("page:") });
    assert!(matches!(command, Command::Keys(pattern) if pattern == "page:*"));
    let listed = vec![key("page:1"), key("page:2")];
    let (run, command) = run.step(Waited::Answered(Answer::Keys(listed.clone())));
    assert!(matches!(command, Command::DeleteAll(keys) if keys == listed));
    let (_, command) = run.step(Waited::Answered(Answer::Done));
    assert!(matches!(ended(command), Ok(Reply::Removed(2))));
}

#[test]
fn nothing_is_sent_where_no_key_is_listed() {
    let (run, _) = RedisRun::start(ServerRequest::ClearPrefix { prefix: key("page:") });
    let (_, command) = run.step(Waited::Answered(Answer::Keys(vec![])));
    assert!(matches!(ended(command), Ok(Reply::Removed(0))));
}

#[test]
fn each_command_of_a_clearing_fails_under_its_own_name() {
    let (run, _) = RedisRun::start(ServerRequest::ClearPrefix { prefix: key("p") });
    let (_, command) = run.step(Waited::TimedOut);
    assert_eq!(words(command), "redis keys timeout");
    let (run, _) = RedisRun::start(ServerRequest::ClearPrefix { prefix: key("p") });
    let (run, _) = run.step(Waited::Answered(Answer::Keys(vec![key("p1")])));
    let (_, command) = run.step(Waited::Failed("gone".to_string()));
    assert_eq!(words(command), "redis del: gone");
}

#[test]
fn a_chosen_store_is_kept_until_it_is_taken_back() {
    let mut chosen = None;
    assert_eq!(current_backend(&chosen), None);
    set_test_backend(&mut chosen, TestCacheBackend::Redb);
    assert_eq!(current_backend(&chosen), Some(TestCacheBackend::Redb));
    set_test_backend(&mut chosen, TestCacheBackend::Redis);
    assert_eq!(current_backend(&chosen), Some(TestCacheBackend::Redis));
    reset_test_backend(&mut chosen);
    assert_eq!(current_backend(&chosen), None);
}

#[test]
fn a_store_has_to_be_chosen_before_use() {
    let handler: TestCacheHandler<u32> = TestCacheHandler::from_config(&layer(None));
    let resolved = handler.resolve_inner::<(), ()>(&None);
    assert!(matches!(
        resolved,
        Err(CacheError::Backend(text))
            if text == "test cache backend not set; call set_test_backend() before use"
    ));
}

#[test]
fn the_chosen_store_is_set_up_as_the_layer_says_and_kept() {
    let mut handler: TestCacheHandler<u32> =
        TestCacheHandler::from_config(&layer(Some("redis://host")));
    match handler.resolve_inner::<(), ()>(&Some(TestCacheBackend::Redis)) {
        Ok(Resolved::New(Fresh::Redis(redis))) => {
            assert!(matches!(redis.connection(), Ok(ConnectionStep::Connect("redis://host"))));
        }
        _ => panic!("no handler for the server"),
    }
    match handler.resolve_inner::<(), ()>(&Some(TestCacheBackend::Redb)) {
        Ok(Resolved::New(Fresh::Redb(redb))) => {
            assert_eq!(redb.path(), "redis://host");
            assert_eq!(redb.default_ttl_secs(), 11);
        }
        _ => panic!("no handler for the file"),
    }
    handler.keep(4);
    assert!(matches!(handler.resolve_inner::<(), ()>(&None), Ok(Resolved::Kept(&4))));
}

#[test]
fn errors_are_told_with_their_kind() {
    assert_eq!(CacheError::Io("a".to_string()).message(), "io error: a");
    assert_eq!(CacheError::Serialize("b".to_string()).message(), "serialization error: b");
    assert_eq!(CacheError::Deserialize("c".to_string()).message(), "deserialization error: c");
    assert_eq!(CacheError::Backend("d".to_string()).message(), "backend error: d");
}
