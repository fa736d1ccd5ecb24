//! A cache behind a server: when a connection is made, and which commands a request sends.

use crate::config::CacheLayerConfig;
use crate::error::{is_backend, joined, CacheError};
use crate::reply::{Reply, SetOutcome, Verdict};
use crate::text::texts;
use vstd::prelude::*;

verus! {

/// For how many seconds the server is waited for.
pub const REDIS_TIMEOUT_SECS: u64 = 2;

/// How a failure of the server is told: which command failed, and the server's own words.
pub open spec fn failure(action: Seq<char>, text: Seq<char>) -> Seq<char> {
    "redis "@ + action + ": "@ + text
}

/// How it is told that the server did not answer in time.
pub open spec fn lateness(action: Seq<char>) -> Seq<char> {
    "redis "@ + action + " timeout"@
}

/// The failure of a command.
pub fn redis_error(action: &str, error: &str) -> (told: CacheError)
    ensures
        is_backend(told, failure(action@, error@)),
        told matches CacheError::Backend(text) && text@ == "redis "@ + action@ + ": "@ + error@,
{
    let mut text = joined("redis ", action);
    text.append(": ");
    text.append(error);
    CacheError::Backend(text)
}

/// What came of waiting for the server.
pub enum Waited<T, X> {
    /// It did not answer in time.
    TimedOut,
    /// It failed, in its own words.
    Failed(X),
    /// It answered.
    Answered(T),
}

/// The answer that was waited for, or the failure to get one.
pub fn redis_timeout<T>(action: &str, waited: Waited<T, String>) -> (answer: Result<T, CacheError>)
    ensures
        match waited {
            Waited::TimedOut => answer matches Err(error) && is_backend(error, lateness(action@)),
            Waited::Failed(text) => answer matches Err(error) && is_backend(
                error,
                failure(action@, text@),
            ),
            Waited::Answered(value) => answer == Ok::<T, CacheError>(value),
        },
        waited is TimedOut ==> (answer matches Err(CacheError::Backend(told)) && told@ == "redis "@
            + action@ + " timeout"@),
        waited matches Waited::Failed(text) ==> (answer matches Err(CacheError::Backend(told))
            && told@ == "redis "@ + action@ + ": "@ + text@),
{
    match waited {
        Waited::TimedOut => {
            let mut text = joined("redis ", action);
            text.append(" timeout");
            Err(CacheError::Backend(text))
        },
        Waited::Failed(text) => Err(redis_error(action, &text)),
        Waited::Answered(value) => Ok(value),
    }
}

/// A cache behind a server. `C` stands for the connection.
#[derive(Debug)]
pub struct RedisCacheHandler<C> {
    url: Option<String>,
    connection: Option<C>,
}

/// What it takes to send a command.
pub enum ConnectionStep<'a, C> {
    /// Nothing: there is a connection.
    Ready(&'a C),
    /// To open a connection to this address.
    Connect(&'a str),
}

impl<C> RedisCacheHandler<C> {
    /// The address of the server, if one is set.
    pub closed spec fn address(&self) -> Option<Seq<char>> {
        match self.url {
            Some(url) => Some(url@),
            None => None,
        }
    }

    /// The connection, if there is one.
    pub closed spec fn connected(&self) -> Option<C> {
        self.connection
    }

    /// A cache as a layer is set up.
    pub fn from_config(layer: &CacheLayerConfig) -> (handler: Self)
        ensures
            handler.address() == (match layer.url {
                Some(url) => Some(url@),
                None => None,
            }),
            handler.connected() is None,
    {
        let url = match &layer.url {
            Some(url) => Some(url.clone()),
            None => None,
        };
        RedisCacheHandler { url, connection: None }
    }

    /// A cache behind the server at `url`.
    pub fn new(url: &str) -> (handler: Self)
        ensures
            handler.address() == Some(url@),
            handler.connected() is None,
    {
        RedisCacheHandler { url: Some(url.to_owned()), connection: None }
    }

    /// What it takes to send a command: an address has to be set, even where there is a
    /// connection.
    pub fn connection(&self) -> (step: Result<ConnectionStep<'_, C>, CacheError>)
        ensures
            match (self.address(), self.connected()) {
                (None, _) => step matches Err(error) && is_backend(
                    error,
                    "redis url is not configured"@,
                ),
                (Some(_), Some(connection)) => step matches Ok(ConnectionStep::Ready(ready))
                    && *ready == connection,
                (Some(url), None) => step matches Ok(ConnectionStep::Connect(to)) && to@ == url,
            },
    {
        match &self.url {
            None => Err(CacheError::Backend("redis url is not configured".to_owned())),
            Some(url) => match &self.connection {
                Some(connection) => Ok(ConnectionStep::Ready(connection)),
                None => Ok(ConnectionStep::Connect(url.as_str())),
            },
        }
    }

    /// Keeps a connection.
    pub fn connect(&mut self, connection: C)
        ensures
            final(self).connected() == Some(connection),
            final(self).address() == old(self).address(),
    {
        self.connection = Some(connection);
    }
}

/// What is asked of the cache. `T` is the type of texts, `B` that of bytes.
pub enum ServerRequest<T, B> {
    /// The value stored under a key.
    Get { key: T },
    /// That a value be stored under a key for some seconds, or for good where they are none.
    Store { key: T, value: B, ttl_secs: u64 },
    /// That a key be dropped.
    Invalidate { key: T },
    /// That every key be dropped that begins with `prefix`.
    ClearPrefix { prefix: T },
}

/// What is sent to the server. `L` is the type of lists of texts.
pub enum Command<T, B, L> {
    /// To send the value under a key.
    Get(T),
    /// To store a value under a key for good.
    Put { key: T, value: B },
    /// To store a value under a key for some seconds.
    PutFor { key: T, value: B, ttl_secs: u64 },
    /// To drop a key.
    Delete(T),
    /// To list the keys that match a pattern.
    Keys(T),
    /// To drop keys.
    DeleteAll(L),
    /// Nothing more: the request has ended.
    Finish(Verdict<T, B>),
}

/// What the server answers.
pub enum Answer<B, L> {
    /// The value under the key, if there is one.
    Value(Option<B>),
    /// It was done.
    Done,
    /// How many keys were dropped.
    Dropped(i64),
    /// The keys that match.
    Keys(L),
}

/// How far a request has come.
pub enum Progress {
    /// Its first command is under way.
    Asked,
    /// So many keys are being dropped.
    Dropping(usize),
    /// It has ended.
    Over,
}

/// A request under way.
pub struct ServerRun<T, B> {
    /// What is asked.
    pub request: ServerRequest<T, B>,
    /// How far the request has come.
    pub progress: Progress,
}

/// What is asked of the cache.
pub type RedisRequest = ServerRequest<String, Vec<u8>>;

/// What is sent to the server.
pub type RedisCommand = Command<String, Vec<u8>, Vec<String>>;

/// What the server answers.
pub type RedisAnswer = Answer<Vec<u8>, Vec<String>>;

/// A request under way.
pub type RedisRun = ServerRun<String, Vec<u8>>;

/// What is asked, as the contracts see it.
pub type RequestView = ServerRequest<Seq<char>, Seq<u8>>;

/// What is sent, as the contracts see it.
pub type CommandView = Command<Seq<char>, Seq<u8>, Seq<Seq<char>>>;

/// What the server answers, as the contracts see it.
pub type AnswerView = Answer<Seq<u8>, Seq<Seq<char>>>;

/// What came of waiting for the server, as the contracts see it.
pub type WaitedView = Waited<AnswerView, Seq<char>>;

/// A request under way, as the contracts see it.
pub type RunView = ServerRun<Seq<char>, Seq<u8>>;

impl View for RedisRequest {
    type V = RequestView;

    open spec fn view(&self) -> RequestView {
        match self {
            ServerRequest::Get { key } => ServerRequest::Get { key: key@ },
            ServerRequest::Store { key, value, ttl_secs } => ServerRequest::Store {
                key: key@,
                value: value@,
                ttl_secs: *ttl_secs,
            },
            ServerRequest::Invalidate { key } => ServerRequest::Invalidate { key: key@ },
            ServerRequest::ClearPrefix { prefix } => ServerRequest::ClearPrefix { prefix: prefix@ },
        }
    }
}

impl View for RedisCommand {
    type V = CommandView;

    open spec fn view(&self) -> CommandView {
        match self {
            Command::Get(key) => Command::Get(key@),
            Command::Put { key, value } => Command::Put { key: key@, value: value@ },
            Command::PutFor { key, value, ttl_secs } => Command::PutFor {
                key: key@,
                value: value@,
                ttl_secs: *ttl_secs,
            },
            Command::Delete(key) => Command::Delete(key@),
            Command::Keys(pattern) => Command::Keys(pattern@),
            Command::DeleteAll(keys) => Command::DeleteAll(texts(keys@)),
            Command::Finish(verdict) => Command::Finish(verdict@),
        }
    }
}

impl View for RedisAnswer {
    type V = AnswerView;

    open spec fn view(&self) -> AnswerView {
        match self {
            Answer::Value(Some(value)) => Answer::Value(Some(value@)),
            Answer::Value(None) => Answer::Value(None),
            Answer::Done => Answer::Done,
            Answer::Dropped(count) => Answer::Dropped(*count),
            Answer::Keys(keys) => Answer::Keys(texts(keys@)),
        }
    }
}

impl View for Waited<RedisAnswer, String> {
    type V = WaitedView;

    open spec fn view(&self) -> WaitedView {
        match self {
            Waited::TimedOut => Waited::TimedOut,
            Waited::Failed(text) => Waited::Failed(text@),
            Waited::Answered(answer) => Waited::Answered(answer@),
        }
    }
}

impl View for RedisRun {
    type V = RunView;

    open spec fn view(&self) -> RunView {
        ServerRun { request: self.request@, progress: self.progress }
    }
}

impl RequestView {
    /// The first command of a request. Keys are looked for by their prefix and a star.
    pub open spec fn first(self) -> CommandView {
        match self {
            ServerRequest::Get { key } => Command::Get(key),
            ServerRequest::Store { key, value, ttl_secs } => if ttl_secs == 0 {
                Command::Put { key, value }
            } else {
                Command::PutFor { key, value, ttl_secs }
            },
            ServerRequest::Invalidate { key } => Command::Delete(key),
            ServerRequest::ClearPrefix { prefix } => Command::Keys(prefix + "*"@),
        }
    }
}

/// The end of a request, with an answer.
pub open spec fn done(reply: Reply<Seq<u8>>) -> (Progress, CommandView) {
    (Progress::Over, Command::Finish(Verdict::Done(reply)))
}

impl RunView {
    /// What the command under way is called.
    pub open spec fn action(self) -> Seq<char> {
        match (self.request, self.progress) {
            (_, Progress::Dropping(_)) => "del"@,
            (ServerRequest::Get { .. }, _) => "get"@,
            (ServerRequest::Store { .. }, _) => "set"@,
            (ServerRequest::Invalidate { .. }, _) => "del"@,
            (ServerRequest::ClearPrefix { .. }, _) => "keys"@,
        }
    }

    /// Whether the request waits for an answer of this kind.
    pub open spec fn expects(self, answer: AnswerView) -> bool {
        match (self.progress, self.request, answer) {
            (Progress::Over, _, _) => false,
            (Progress::Dropping(_), _, Answer::Done) => true,
            (Progress::Asked, ServerRequest::Get { .. }, Answer::Value(_)) => true,
            (Progress::Asked, ServerRequest::Store { .. }, Answer::Done) => true,
            (Progress::Asked, ServerRequest::Invalidate { .. }, Answer::Dropped(_)) => true,
            (Progress::Asked, ServerRequest::ClearPrefix { .. }, Answer::Keys(_)) => true,
            _ => false,
        }
    }

    /// What follows an answer: the keys that were listed are dropped in one command, unless there
    /// are none; anything else ends the request.
    pub open spec fn answered(self, answer: AnswerView) -> (Progress, CommandView) {
        match (self.progress, answer) {
            (Progress::Dropping(count), _) => done(Reply::Removed(count)),
            (_, Answer::Value(value)) => done(Reply::Value(value)),
            (_, Answer::Done) => done(
                Reply::Stored(SetOutcome { replaced: false, evicted: 0, evicted_bytes: 0 }),
            ),
            (_, Answer::Dropped(count)) => done(Reply::Invalidated(count > 0)),
            (_, Answer::Keys(keys)) => if keys.len() == 0 {
                done(Reply::Removed(0))
            } else {
                (Progress::Dropping(keys.len() as usize), Command::DeleteAll(keys))
            },
        }
    }

    /// What follows what came of waiting for the server.
    pub open spec fn next(self, waited: WaitedView) -> (Progress, CommandView) {
        match waited {
            Waited::TimedOut => (
                Progress::Over,
                Command::Finish(Verdict::Failed(lateness(self.action()))),
            ),
            Waited::Failed(text) => (
                Progress::Over,
                Command::Finish(Verdict::Failed(failure(self.action(), text))),
            ),
            Waited::Answered(answer) => self.answered(answer),
        }
    }
}

/// A request takes two commands at most, and two only where it drops listed keys.
pub proof fn law_two_commands_at_most(request: RequestView, first: WaitedView, second: WaitedView)
    requires
        first matches Waited::Answered(answer) ==> (ServerRun {
            request,
            progress: Progress::Asked,
        }).expects(answer),
    ensures
        ({
            let run = ServerRun { request, progress: Progress::Asked };
            let (progress, command) = run.next(first);
            ||| command is Finish
            ||| request is ClearPrefix && command is DeleteAll && (ServerRun {
                request,
                progress,
            }).next(second).1 is Finish
        }),
{
}

/// Whatever keys the server lists for a prefix are dropped, all of them and no others, and their
/// number is the answer.
pub proof fn law_listed_keys_are_dropped(prefix: Seq<char>, keys: Seq<Seq<char>>)
    requires
        keys.len() <= usize::MAX,
    ensures
        ({
            let request = ServerRequest::<_, Seq<u8>>::ClearPrefix { prefix };
            let run = ServerRun { request, progress: Progress::Asked };
            let (progress, command) = run.next(Waited::Answered(Answer::Keys(keys)));
            if keys.len() == 0 {
                command == Command::<Seq<char>, Seq<u8>, Seq<Seq<char>>>::Finish(
                    Verdict::Done(Reply::Removed(0)),
                )
            } else {
                command == Command::<Seq<char>, Seq<u8>, Seq<Seq<char>>>::DeleteAll(keys)
                    && (ServerRun { request, progress }).next(Waited::Answered(Answer::Done)).1
                    == Command::<Seq<char>, Seq<u8>, Seq<Seq<char>>>::Finish(
                    Verdict::Done(Reply::Removed(keys.len() as usize)),
                )
            }
        }),
{
}

impl<C> RedisCacheHandler<C> {
    /// Whether `started` is the request at its start and its first command, or, where no address
    /// is set, the failure that says so.
    pub open spec fn starts(
        &self,
        request: RequestView,
        started: Result<(RedisRun, RedisCommand), CacheError>,
    ) -> bool {
        match started {
            Ok((run, command)) => {
                &&& self.address() is Some
                &&& run@ == (ServerRun { request, progress: Progress::Asked })
                &&& command@ == request.first()
            },
            Err(error) => self.address() is None && is_backend(
                error,
                "redis url is not configured"@,
            ),
        }
    }

    /// A request to this cache at its start, and its first command. Nothing is sent where no
    /// address is set.
    pub fn request(&self, request: RedisRequest) -> (started: Result<
        (RedisRun, RedisCommand),
        CacheError,
    >)
        ensures
            self.starts(request@, started),
    {
        match self.connection() {
            Ok(_) => Ok(RedisRun::start(request)),
            Err(error) => Err(error),
        }
    }

    /// Asks for the value stored under `key`.
    pub fn get(&self, key: &str) -> (started: Result<(RedisRun, RedisCommand), CacheError>)
        ensures
            self.starts(RequestView::Get { key: key@ }, started),
    {
        self.request(ServerRequest::Get { key: key.to_owned() })
    }

    /// Asks that `value` be stored under `key` for `ttl_secs` seconds, or for good where they are
    /// none.
    pub fn set(&self, key: &str, value: Vec<u8>, ttl_secs: u64) -> (started: Result<
        (RedisRun, RedisCommand),
        CacheError,
    >)
        ensures
            self.starts(RequestView::Store { key: key@, value: value@, ttl_secs }, started),
    {
        self.request(ServerRequest::Store { key: key.to_owned(), value, ttl_secs })
    }

    /// Asks that `value` be stored under `key`. The server is told of no groups: the tags are
    /// passed over.
    pub fn set_with_tags(
        &self,
        key: &str,
        value: Vec<u8>,
        ttl_secs: u64,
        _tags: &[String],
    ) -> (started: Result<(RedisRun, RedisCommand), CacheError>)
        ensures
            self.starts(RequestView::Store { key: key@, value: value@, ttl_secs }, started),
    {
        self.set(key, value, ttl_secs)
    }

    /// Asks that `key` be dropped.
    pub fn invalidate(&self, key: &str) -> (started: Result<(RedisRun, RedisCommand), CacheError>)
        ensures
            self.starts(RequestView::Invalidate { key: key@ }, started),
    {
        self.request(ServerRequest::Invalidate { key: key.to_owned() })
    }

    /// Asks that every key be dropped that begins with `prefix`.
    pub fn clear_prefix(&self, prefix: &str) -> (started: Result<
        (RedisRun, RedisCommand),
        CacheError,
    >)
        ensures
            self.starts(RequestView::ClearPrefix { prefix: prefix@ }, started),
    {
        self.request(ServerRequest::ClearPrefix { prefix: prefix.to_owned() })
    }

    /// The keys that the cache lists: none, for the server is not asked for them.
    pub fn get_all_keys(&self) -> (keys: Vec<String>)
        ensures
            keys@.len() == 0,
    {
        Vec::new()
    }
}

impl RedisRun {
    /// A request at its start, and its first command.
    pub fn start(request: RedisRequest) -> (started: (RedisRun, RedisCommand))
        ensures
            started.0@ == (ServerRun { request: request@, progress: Progress::Asked }),
            started.1@ == request@.first(),
    {
        let command = match &request {
            ServerRequest::Get { key } => Command::Get(key.clone()),
            ServerRequest::Store { key, value, ttl_secs } => {
                let key = key.clone();
                let value = value.clone();
                if *ttl_secs == 0 {
                    Command::Put { key, value }
                } else {
                    Command::PutFor { key, value, ttl_secs: *ttl_secs }
                }
            },
            ServerRequest::Invalidate { key } => Command::Delete(key.clone()),
            ServerRequest::ClearPrefix { prefix } => Command::Keys(joined(prefix.as_str(), "*")),
        };
        (ServerRun { request, progress: Progress::Asked }, command)
    }

    /// What the command under way is called.
    fn command_name(&self) -> (name: &'static str)
        ensures
            name@ == self@.action(),
    {
        match (&self.request, &self.progress) {
            (_, Progress::Dropping(_)) => "del",
            (ServerRequest::Get { .. }, _) => "get",
            (ServerRequest::Store { .. }, _) => "set",
            (ServerRequest::Invalidate { .. }, _) => "del",
            (ServerRequest::ClearPrefix { .. }, _) => "keys",
        }
    }

    /// Takes in what came of the last command: the request as it then stands, and its next
    /// command.
    pub fn step(self, waited: Waited<RedisAnswer, String>) -> (next: (RedisRun, RedisCommand))
        requires
            waited matches Waited::Answered(answer) ==> self@.expects(answer@),
        ensures
            next.0@.request == self@.request,
            (next.0@.progress, next.1@) == self@.next(waited@),
    {
        let name = self.command_name();
        let ServerRun { request, progress } = self;
        match redis_timeout(name, waited) {
            Err(error) => {
                let text = match error {
                    CacheError::Backend(text) => text,
                    _ => String::new(),
                };
                (
                    ServerRun { request, progress: Progress::Over },
                    Command::Finish(Verdict::Failed(text)),
                )
            },
            Ok(answer) => {
                let reply = match (progress, answer) {
                    (Progress::Dropping(count), _) => Reply::Removed(count),
                    (_, Answer::Value(value)) => Reply::Value(value),
                    (_, Answer::Done) => Reply::Stored(SetOutcome::default()),
                    (_, Answer::Dropped(count)) => Reply::Invalidated(count > 0),
                    (_, Answer::Keys(keys)) => {
                        let count: usize = keys.len();
                        if count > 0 {
                            return (
                                ServerRun { request, progress: Progress::Dropping(count) },
                                Command::DeleteAll(keys),
                            );
                        }
                        Reply::Removed(0)
                    },
                };
                (
                    ServerRun { request, progress: Progress::Over },
                    Command::Finish(Verdict::Done(reply)),
                )
            },
        }
    }
}

} // verus!
