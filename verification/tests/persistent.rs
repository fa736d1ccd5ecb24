use std::path::PathBuf;
use std::time::{Duration, Instant, UNIX_EPOCH};

use rari_cache::clock::{millis_since_epoch, nanos_from};
use rari_cache::config::CacheLayerConfig;
use rari_cache::entry::{
    decode_entry, encode_entry, expiry_at, low_bits, now_ms, told_millis,
};
use rari_cache::error::CacheError;
use rari_cache::redb_handler::{DatabaseStep, Parent, RedbCacheHandler};
use rari_cache::redb_run::{redb_error, Action, Event, RedbAction, RedbRequest, RedbRun, Request};
use rari_cache::reply::{Reply, SetOutcome, StoreReply};
use redb::{Database, ReadTransaction, ReadableDatabase, ReadableTable, WriteTransaction};

const TABLE: redb::TableDefinition<&str, &[u8]> = redb::TableDefinition::new("cache_entries");

fn database() -> Database {
    Database::builder().create_with_backend(redb::backends::InMemoryBackend::new()).unwrap()
}

enum Transaction {
    Closed,
    Read(ReadTransaction),
    Write(WriteTransaction),
}

/// Performs a request on a database, `now` being the time.
fn perform(
    db: &Database,
    request: RedbRequest,
    default_ttl_secs: u64,
    now: u64,
) -> Result<StoreReply, CacheError> {
    finish(db, RedbRun::start(request, default_ttl_secs), now)
}

/// Performs a request that has started on a database, `now` being the time.
fn finish(
    db: &Database,
    started: (RedbRun, RedbAction),
    now: u64,
) -> Result<StoreReply, CacheError> {
    let (mut run, mut action) = started;
    let mut tx = Transaction::Closed;
    let mut walk: Vec<String> = Vec::new();
    loop {
        let event = match (action, &tx) {
            (Action::Finish(verdict), _) => return verdict.into_result(),
            (Action::ReadClock, _) => Event::Clock(now),
            (Action::BeginRead, _) => {
                tx = Transaction::Read(db.begin_read().unwrap());
                Event::Fine
            }
            (Action::BeginWrite, _) => {
                tx = Transaction::Write(db.begin_write().unwrap());
                Event::Fine
            }
            (Action::OpenTable, Transaction::Read(tx)) => match tx.open_table(TABLE) {
                Ok(_) => Event::Fine,
                Err(redb::TableError::TableDoesNotExist(_)) => Event::TableMissing,
                Err(e) => Event::Failed(e.to_string()),
            },
            (Action::OpenTable, Transaction::Write(tx)) => {
                tx.open_table(TABLE).unwrap();
                Event::Fine
            }
            (Action::LookUp(key), Transaction::Read(tx)) => {
                let table = tx.open_table(TABLE).unwrap();
                let found = table.get(key.as_str()).unwrap();
                Event::Found(found.map(|raw| raw.value().to_vec()))
            }
            (Action::LookUp(key), Transaction::Write(tx)) => {
                let table = tx.open_table(TABLE).unwrap();
                let found = table.get(key.as_str()).unwrap().map(|raw| raw.value().to_vec());
                Event::Found(found)
            }
            (Action::Insert(key, bytes), Transaction::Write(tx)) => {
                let mut table = tx.open_table(TABLE).unwrap();
                table.insert(key.as_str(), bytes.as_slice()).unwrap();
                Event::Fine
            }
            (Action::Remove(key), Transaction::Write(tx)) => {
                let mut table = tx.open_table(TABLE).unwrap();
                let removed = table.remove(key.as_str()).unwrap().is_some();
                Event::Removed(removed)
            }
            (Action::ListKeys, Transaction::Write(tx)) => {
                let table = tx.open_table(TABLE).unwrap();
                walk = table.iter().unwrap().map(|e| e.unwrap().0.value().to_string()).collect();
                Event::Fine
            }
            (Action::NextKey, _) => Event::Key(walk.pop()),
            (Action::Commit, _) => {
                match std::mem::replace(&mut tx, Transaction::Closed) {
                    Transaction::Write(tx) => tx.commit().unwrap(),
                    _ => panic!("nothing to commit"),
                }
                Event::Fine
            }
            _ => panic!("no such transaction"),
        };
        (run, action) = run.step(event);
    }
}

fn set(db: &Database, key: &str, value: &[u8], ttl_secs: u64, now: u64) -> SetOutcome {
    let request = Request::Store { key: key.to_string(), value: value.to_vec(), ttl_secs };
    match perform(db, request, 3600, now) {
        Ok(Reply::Stored(outcome)) => outcome,
        _ => panic!("not stored"),
    }
}

fn get(db: &Database, key: &str, now: u64) -> Option<Vec<u8>> {
    match perform(db, Request::Get { key: key.to_string() }, 3600, now) {
        Ok(Reply::Value(value)) => value,
        _ => panic!("not read"),
    }
}

fn stored(replaced: bool) -> SetOutcome {
    SetOutcome { replaced, evicted: 0, evicted_bytes: 0 }
}

#[test]
fn an_entry_is_read_as_written() {
    let bytes = encode_entry(258, b"hi");
    assert_eq!(bytes, vec![0, 0, 0, 0, 0, 0, 1, 2, b'h', b'i']);
    assert_eq!(decode_entry(&bytes), Some((258, &b"hi"[..])));
    let bytes = encode_entry(0x0123_4567_89ab_cdef, b"");
    assert_eq!(bytes, 0x0123_4567_89ab_cdefu64.to_be_bytes().to_vec());
    assert_eq!(decode_entry(&bytes), Some((0x0123_4567_89ab_cdef, &b""[..])));
}

#[test]
fn bytes_too_short_are_no_entry() {
    assert_eq!(decode_entry(&[]), None);
    assert_eq!(decode_entry(&[0, 0, 0, 0, 0, 0, 1]), None);
}

#[test]
fn an_entry_written_anew_is_the_same() {
    let bytes = vec![255, 254, 253, 252, 251, 250, 249, 248, 1, 2];
    let (expires_at_ms, payload) = decode_entry(&bytes).unwrap();
    assert_eq!(encode_entry(expires_at_ms, payload), bytes);
}

#[test]
fn the_time_of_expiry_is_never_or_saturates() {
    assert_eq!(expiry_at(5, 0), 0);
    assert_eq!(expiry_at(5, 2), 2005);
    assert_eq!(expiry_at(5, u64::MAX), u64::MAX);
    assert_eq!(expiry_at(u64::MAX - 10, 1), u64::MAX);
}

#[test]
fn the_clock_is_past_the_epoch() {
    assert!(now_ms().unwrap() > 1_600_000_000_000);
    assert_eq!(low_bits((7u128 << 64) + 9), 9);
}

#[test]
fn a_clock_is_told_in_milliseconds_or_in_its_own_words() {
    assert_eq!(told_millis(Ok(1_500)).unwrap(), 1_500);
    assert_eq!(told_millis(Ok((3u128 << 64) + 5)).unwrap(), 5);
    let later = UNIX_EPOCH + Duration::from_secs(1);
    let error = UNIX_EPOCH.duration_since(later).unwrap_err();
    let expected = format!("system time: {error}");
    let told = told_millis(Err(error));
    assert!(matches!(told, Err(CacheError::Backend(text)) if text == expected));
}

#[test]
fn spans_are_counted_in_whole_units() {
    let start = Instant::now();
    assert_eq!(nanos_from(&start, &(start + Duration::from_nanos(1_500))), 1_500);
    assert_eq!(nanos_from(&(start + Duration::from_nanos(1)), &start), 0);
    let time = UNIX_EPOCH + Duration::from_nanos(2_999_999);
    assert_eq!(millis_since_epoch(time).unwrap(), 2);
    assert!(millis_since_epoch(UNIX_EPOCH - Duration::from_secs(1)).is_err());
}

#[test]
fn what_is_stored_is_read_until_it_expires() {
    let db = database();
    assert_eq!(get(&db, "k", 1_000), None);
    assert_eq!(set(&db, "k", b"v", 2, 1_000), stored(false));
    assert_eq!(get(&db, "k", 1_000), Some(b"v".to_vec()));
    assert_eq!(get(&db, "k", 2_999), Some(b"v".to_vec()));
    assert_eq!(get(&db, "k", 3_000), None);
    assert_eq!(set(&db, "k", b"w", 2, 3_000), stored(true));
    assert_eq!(get(&db, "k", 3_001), Some(b"w".to_vec()));
}

#[test]
fn the_default_time_is_kept_where_none_is_asked() {
    let db = database();
    set(&db, "k", b"v", 0, 1_000);
    assert_eq!(get(&db, "k", 3_600_999), Some(b"v".to_vec()));
    assert_eq!(get(&db, "k", 3_601_000), None);
}

#[test]
fn an_entry_without_any_time_never_expires() {
    let db = database();
    let request = Request::Store { key: "k".to_string(), value: b"v".to_vec(), ttl_secs: 0 };
    let (_, action) = RedbRun::start(
        Request::Store { key: "k".to_string(), value: b"v".to_vec(), ttl_secs: 0 },
        0,
    );
    assert!(matches!(action, Action::BeginWrite));
    assert!(perform(&db, request, 0, 1_000).is_ok());
    assert_eq!(get(&db, "k", u64::MAX), Some(b"v".to_vec()));
}

#[test]
fn a_dropped_key_is_gone_and_the_others_stay() {
    let db = database();
    set(&db, "a", b"1", 60, 0);
    set(&db, "b", b"2", 60, 0);
    let dropped = perform(&db, Request::Invalidate { key: "a".to_string() }, 3600, 0);
    assert!(matches!(dropped, Ok(Reply::Invalidated(true))));
    let again = perform(&db, Request::Invalidate { key: "a".to_string() }, 3600, 0);
    assert!(matches!(again, Ok(Reply::Invalidated(false))));
    assert_eq!(get(&db, "a", 1), None);
    assert_eq!(get(&db, "b", 1), Some(b"2".to_vec()));
}

#[test]
fn clearing_a_prefix_drops_its_keys_alone() {
    let db = database();
    set(&db, "page:1", b"1", 60, 0);
    set(&db, "page:2", b"2", 60, 0);
    set(&db, "pager", b"3", 60, 0);
    let cleared = perform(&db, Request::ClearPrefix { prefix: "page:".to_string() }, 3600, 0);
    assert!(matches!(cleared, Ok(Reply::Removed(2))));
    assert_eq!(get(&db, "page:1", 1), None);
    assert_eq!(get(&db, "page:2", 1), None);
    assert_eq!(get(&db, "pager", 1), Some(b"3".to_vec()));
}

#[test]
fn clearing_everything_drops_every_key() {
    let db = database();
    set(&db, "a", b"1", 60, 0);
    set(&db, "b", b"2", 60, 0);
    assert!(matches!(perform(&db, Request::Clear, 3600, 0), Ok(Reply::Cleared)));
    assert_eq!(get(&db, "a", 1), None);
    assert_eq!(get(&db, "b", 1), None);
    assert!(matches!(perform(&db, Request::Clear, 3600, 0), Ok(Reply::Cleared)));
}

/// The words in which a request ends whose last event is a failure.
fn words(request: RedbRequest, events: Vec<Event<String, Vec<u8>>>) -> String {
    let (mut run, mut action): (RedbRun, RedbAction) = RedbRun::start(request, 3600);
    for event in events {
        (run, action) = run.step(event);
    }
    let (_, action) = match action {
        Action::Finish(_) => panic!("ended too early"),
        _ => run.step(Event::Failed("oops".to_string())),
    };
    match action {
        Action::Finish(verdict) => match verdict.into_result() {
            Err(CacheError::Backend(text)) => text,
            _ => panic!("no failure"),
        },
        _ => panic!("not ended"),
    }
}

#[test]
fn a_failure_is_told_with_the_action_that_failed() {
    let get = || Request::Get { key: "k".to_string() };
    let put = || Request::Store { key: "k".to_string(), value: vec![1], ttl_secs: 1 };
    let prefix = || Request::ClearPrefix { prefix: "k".to_string() };
    assert_eq!(words(get(), vec![]), "redb read: oops");
    assert_eq!(words(get(), vec![Event::Fine]), "redb table: oops");
    assert_eq!(words(get(), vec![Event::Fine, Event::Fine]), "redb get: oops");
    let entry = Event::Found(Some(encode_entry(9, b"v")));
    assert_eq!(words(get(), vec![Event::Fine, Event::Fine, entry]), "oops");
    assert_eq!(words(put(), vec![]), "oops");
    assert_eq!(words(put(), vec![Event::Clock(1)]), "redb write: oops");
    let to_insert = vec![Event::Clock(1), Event::Fine, Event::Fine, Event::Found(None)];
    assert_eq!(words(put(), to_insert), "redb insert: oops");
    let to_commit =
        vec![Event::Clock(1), Event::Fine, Event::Fine, Event::Found(None), Event::Fine];
    assert_eq!(words(put(), to_commit), "redb commit: oops");
    assert_eq!(words(prefix(), vec![Event::Fine, Event::Fine]), "redb iter: oops");
    let to_walk = vec![Event::Fine, Event::Fine, Event::Fine];
    assert_eq!(words(prefix(), to_walk), "redb entry: oops");
    let to_sweep = vec![
        Event::Fine,
        Event::Fine,
        Event::Fine,
        Event::Key(Some("k1".to_string())),
        Event::Key(None),
    ];
    assert_eq!(words(prefix(), to_sweep), "redb remove: oops");
    let drop_key = Request::Invalidate { key: "k".to_string() };
    assert_eq!(words(drop_key, vec![Event::Fine, Event::Fine]), "redb remove: oops");
    let denied = redb_error("create", "denied");
    assert!(matches!(denied, CacheError::Backend(text) if text == "redb create: denied"));
}

#[test]
fn a_failed_request_commits_nothing() {
    let db = database();
    set(&db, "k", b"old", 60, 0);
    let (run, _) = RedbRun::start(
        Request::Store { key: "k".to_string(), value: b"new".to_vec(), ttl_secs: 60 },
        3600,
    );
    let (run, _) = run.step(Event::Clock(0));
    let tx = db.begin_write().unwrap();
    let (run, _) = run.step(Event::Fine);
    let (run, _) = run.step(Event::Fine);
    let (run, action) = run.step(Event::Found(Some(vec![])));
    match action {
        Action::Insert(key, bytes) => {
            let mut table = tx.open_table(TABLE).unwrap();
            table.insert(key.as_str(), bytes.as_slice()).unwrap();
        }
        _ => panic!("nothing to insert"),
    }
    let (run, action) = run.step(Event::Fine);
    assert!(matches!(action, Action::Commit));
    let (_, action) = run.step(Event::Failed("disk full".to_string()));
    match action {
        Action::Finish(verdict) => assert!(verdict.into_result().is_err()),
        _ => panic!("not ended"),
    }
    drop(tx);
    assert_eq!(get(&db, "k", 1), Some(b"old".to_vec()));
}

#[test]
fn bytes_that_are_no_entry_are_no_value() {
    let (run, _) = RedbRun::start(Request::Get { key: "k".to_string() }, 3600);
    let (run, _) = run.step(Event::Fine);
    let (run, _) = run.step(Event::Fine);
    let (_, action) = run.step(Event::Found(Some(vec![1, 2, 3])));
    match action {
        Action::Finish(verdict) => {
            assert!(matches!(verdict.into_result(), Ok(Reply::Value(None))));
        }
        _ => panic!("not ended"),
    }
}

#[test]
fn a_request_to_a_handler_keeps_its_default_time() {
    let db = database();
    let mut handler: RedbCacheHandler<u32, &str> = RedbCacheHandler::new("cache.redb");
    let (run, action) = handler.set_with_tags("k", b"".to_vec(), 0, &["t".to_string()]);
    assert!(matches!(finish(&db, (run, action), 1_000), Ok(Reply::Stored(o)) if o == stored(false)));
    assert!(matches!(
        finish(&db, handler.get("k"), 3_600_999),
        Ok(Reply::Value(Some(value))) if value.is_empty()
    ));
    assert!(matches!(finish(&db, handler.get("k"), 3_601_000), Ok(Reply::Value(None))));
    assert!(matches!(finish(&db, handler.set("k", vec![1], 9), 0), Ok(Reply::Stored(o)) if o.replaced));
    assert!(matches!(finish(&db, handler.invalidate("k"), 0), Ok(Reply::Invalidated(true))));
    assert!(matches!(finish(&db, handler.invalidate("k"), 0), Ok(Reply::Invalidated(false))));
    assert!(matches!(finish(&db, handler.clear_prefix(""), 0), Ok(Reply::Removed(0))));
    assert!(handler.get_all_keys().is_empty());

    handler.open(5);
    let started = handler.clear();
    assert!(matches!(handler.database(&None), DatabaseStep::Create { .. }));
    assert_eq!((*handler.path(), handler.default_ttl_secs()), ("cache.redb", 3600));
    assert!(matches!(finish(&db, started, 0), Ok(Reply::Cleared)));
}

#[test]
fn the_file_is_opened_once_and_its_directory_made_first() {
    let layer = CacheLayerConfig {
        handler: "redb".to_string(),
        max_entries: 1,
        default_ttl_secs: 7,
        url: None,
    };
    let mut handler: RedbCacheHandler<u32, String> = RedbCacheHandler::from_config(&layer);
    assert_eq!(handler.path(), "./.rari/cache.redb");
    assert_eq!(handler.default_ttl_secs(), 7);
    let parent = Some(Parent { path: "./.rari".to_string(), is_empty: false });
    assert!(matches!(
        handler.database(&parent),
        DatabaseStep::Create { directory: Some(directory), path }
            if directory == "./.rari" && path == "./.rari/cache.redb"
    ));
    handler.open(5);
    assert!(matches!(handler.database(&parent), DatabaseStep::Ready(&5)));
    handler.close();
    assert!(matches!(handler.database(&None), DatabaseStep::Create { directory: None, .. }));

    let handler: RedbCacheHandler<u32, &str> = RedbCacheHandler::new("cache.redb");
    assert_eq!(handler.default_ttl_secs(), 3600);
    assert!(matches!(
        handler.database(&Some(Parent { path: "", is_empty: true })),
        DatabaseStep::Create { directory: None, path: &"cache.redb" }
    ));
}

#[test]
fn a_path_can_be_written_in_another_type() {
    let layer = CacheLayerConfig {
        handler: "redb".to_string(),
        max_entries: 1,
        default_ttl_secs: 7,
        url: Some("/var/cache".to_string()),
    };
    let mut handler: RedbCacheHandler<u32, String> = RedbCacheHandler::from_config(&layer);
    handler.open(5);
    let handler = handler.with_path(PathBuf::from("/var/cache"));
    assert_eq!(handler.path(), &PathBuf::from("/var/cache"));
    assert_eq!(handler.default_ttl_secs(), 7);
    assert!(matches!(handler.database(&None), DatabaseStep::Ready(&5)));
}
