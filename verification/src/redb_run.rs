//! A request to a persistent store, one step at a time: which action comes next, given what came
//! of the last one.

use crate::entry::{
    decode_entry, decoded, effective_ttl, encode_entry, encoded, expiry, expiry_at, has_expired,
    EXPIRY_NEVER,
};
use crate::error::CacheError;
use crate::reply::{Reply, SetOutcome, Verdict};
use crate::text::{lemma_texts_push, starts_with, texts};
use vstd::prelude::*;
use vstd::slice::slice_to_vec;

verus! {

/// What is asked of a persistent store. `T` is the type of texts, `B` that of bytes.
pub enum Request<T, B> {
    /// The value stored under a key.
    Get { key: T },
    /// That a value be stored under a key for some seconds.
    Store { key: T, value: B, ttl_secs: u64 },
    /// That a key be dropped.
    Invalidate { key: T },
    /// That every key be dropped.
    Clear,
    /// That every key be dropped that begins with `prefix`.
    ClearPrefix { prefix: T },
}

/// What is to be done next.
pub enum Action<T, B> {
    /// Read the system's clock.
    ReadClock,
    /// Begin a transaction that only reads.
    BeginRead,
    /// Begin a transaction that writes.
    BeginWrite,
    /// Open the table of the entries.
    OpenTable,
    /// Look a key up.
    LookUp(T),
    /// Put bytes under a key.
    Insert(T, B),
    /// Remove a key.
    Remove(T),
    /// Begin to walk the keys of the table.
    ListKeys,
    /// Take the next key of the walk.
    NextKey,
    /// Commit the transaction.
    Commit,
    /// Nothing more: the request has ended.
    Finish(Verdict<T, B>),
}

/// What came of an action.
pub enum Event<T, B> {
    /// The clock was read, in milliseconds since the start of the Unix epoch.
    Clock(u64),
    /// It was done.
    Fine,
    /// The table has never been written to.
    TableMissing,
    /// What lies under the key.
    Found(Option<B>),
    /// Whether there was something to remove.
    Removed(bool),
    /// The next key, or none at the end of the walk.
    Key(Option<T>),
    /// It failed, in the words of the store.
    Failed(T),
}

/// How far a request has come: which action it waits for. `L` is the type of lists of texts.
pub enum State<B, L> {
    /// The clock, before anything is stored.
    Clock,
    /// The transaction.
    Begin { expires_at_ms: u64 },
    /// The table.
    Table { expires_at_ms: u64 },
    /// What lies under the key.
    LookUp { expires_at_ms: u64 },
    /// The clock, to tell whether what was found has expired.
    Expiry { expires_at_ms: u64, payload: B },
    /// The insertion.
    Insert { existed: bool },
    /// The removal of the one key.
    Remove,
    /// The start of the walk.
    List,
    /// The next key of the walk.
    Keys { matched: L },
    /// The removal of the key at `next`.
    Sweep { matched: L, next: usize },
    /// The commit.
    Commit { reply: Reply<B> },
    /// Nothing.
    Over,
}

/// A request under way.
pub struct Run<T, B, L> {
    /// What is asked.
    pub request: Request<T, B>,
    /// For how many seconds an entry is kept where nothing is asked.
    pub default_ttl_secs: u64,
    /// How far the request has come.
    pub state: State<B, L>,
}

/// A request to a persistent store.
pub type RedbRequest = Request<String, Vec<u8>>;

/// What is to be done next.
pub type RedbAction = Action<String, Vec<u8>>;

/// What came of an action.
pub type RedbEvent = Event<String, Vec<u8>>;

/// A request under way.
pub type RedbRun = Run<String, Vec<u8>, Vec<String>>;

/// A request as the contracts see it.
pub type RequestView = Request<Seq<char>, Seq<u8>>;

/// A request under way as the contracts see it.
pub type RunView = Run<Seq<char>, Seq<u8>, Seq<Seq<char>>>;

/// How far a request has come, as the contracts see it.
pub type StateView = State<Seq<u8>, Seq<Seq<char>>>;

/// What is to be done next, as the contracts see it.
pub type ActionView = Action<Seq<char>, Seq<u8>>;

/// What came of an action, as the contracts see it.
pub type EventView = Event<Seq<char>, Seq<u8>>;

impl View for RedbRequest {
    type V = RequestView;

    open spec fn view(&self) -> RequestView {
        match self {
            Request::Get { key } => Request::Get { key: key@ },
            Request::Store { key, value, ttl_secs } => Request::Store {
                key: key@,
                value: value@,
                ttl_secs: *ttl_secs,
            },
            Request::Invalidate { key } => Request::Invalidate { key: key@ },
            Request::Clear => Request::Clear,
            Request::ClearPrefix { prefix } => Request::ClearPrefix { prefix: prefix@ },
        }
    }
}

impl View for RedbAction {
    type V = ActionView;

    open spec fn view(&self) -> ActionView {
        match self {
            Action::ReadClock => Action::ReadClock,
            Action::BeginRead => Action::BeginRead,
            Action::BeginWrite => Action::BeginWrite,
            Action::OpenTable => Action::OpenTable,
            Action::LookUp(key) => Action::LookUp(key@),
            Action::Insert(key, bytes) => Action::Insert(key@, bytes@),
            Action::Remove(key) => Action::Remove(key@),
            Action::ListKeys => Action::ListKeys,
            Action::NextKey => Action::NextKey,
            Action::Commit => Action::Commit,
            Action::Finish(verdict) => Action::Finish(verdict@),
        }
    }
}

impl View for RedbEvent {
    type V = EventView;

    open spec fn view(&self) -> EventView {
        match self {
            Event::Clock(now_ms) => Event::Clock(*now_ms),
            Event::Fine => Event::Fine,
            Event::TableMissing => Event::TableMissing,
            Event::Found(Some(bytes)) => Event::Found(Some(bytes@)),
            Event::Found(None) => Event::Found(None),
            Event::Removed(existed) => Event::Removed(*existed),
            Event::Key(Some(key)) => Event::Key(Some(key@)),
            Event::Key(None) => Event::Key(None),
            Event::Failed(text) => Event::Failed(text@),
        }
    }
}

impl View for State<Vec<u8>, Vec<String>> {
    type V = StateView;

    open spec fn view(&self) -> StateView {
        match self {
            State::Clock => State::Clock,
            State::Begin { expires_at_ms } => State::Begin { expires_at_ms: *expires_at_ms },
            State::Table { expires_at_ms } => State::Table { expires_at_ms: *expires_at_ms },
            State::LookUp { expires_at_ms } => State::LookUp { expires_at_ms: *expires_at_ms },
            State::Expiry { expires_at_ms, payload } => State::Expiry {
                expires_at_ms: *expires_at_ms,
                payload: payload@,
            },
            State::Insert { existed } => State::Insert { existed: *existed },
            State::Remove => State::Remove,
            State::List => State::List,
            State::Keys { matched } => State::Keys { matched: texts(matched@) },
            State::Sweep { matched, next } => State::Sweep {
                matched: texts(matched@),
                next: *next,
            },
            State::Commit { reply } => State::Commit { reply: reply@ },
            State::Over => State::Over,
        }
    }
}

impl View for RedbRun {
    type V = RunView;

    open spec fn view(&self) -> RunView {
        Run {
            request: self.request@,
            default_ttl_secs: self.default_ttl_secs,
            state: self.state@,
        }
    }
}

/// How a failure of the store is told: which action failed, and the store's own words.
pub open spec fn wording(action: Seq<char>, text: Seq<char>) -> Seq<char> {
    "redb "@ + action + ": "@ + text
}

/// The failure of an action of the store.
pub fn redb_error(action: &str, error: &str) -> (failure: CacheError)
    ensures
        crate::error::is_backend(failure, wording(action@, error@)),
        failure matches CacheError::Backend(text) && text@ == "redb "@ + action@ + ": "@ + error@,
{
    CacheError::Backend(worded(action, error))
}

/// The failure of an action of the store, in words.
fn worded(action: &str, error: &str) -> (text: String)
    ensures
        text@ == wording(action@, error@),
        text@ == "redb "@ + action@ + ": "@ + error@,
{
    let mut text = "redb ".to_owned();
    text.append(action);
    text.append(": ");
    text.append(error);
    text
}

impl RequestView {
    /// Whether a key of the table is to be dropped.
    pub open spec fn wants(self, key: Seq<char>) -> bool {
        match self {
            Request::ClearPrefix { prefix } => prefix.is_prefix_of(key),
            _ => true,
        }
    }

    /// What is answered once `count` keys have been dropped.
    pub open spec fn swept(self, count: nat) -> Reply<Seq<u8>> {
        match self {
            Request::ClearPrefix { prefix } => Reply::Removed(count as usize),
            _ => Reply::Cleared,
        }
    }
}

/// The step of a sweep that comes at `next`: the removal of the key there, or the commit.
pub open spec fn sweep(request: RequestView, matched: Seq<Seq<char>>, next: usize) -> (
    StateView,
    ActionView,
) {
    if next < matched.len() {
        (State::Sweep { matched, next }, Action::Remove(matched[next as int]))
    } else {
        (State::Commit { reply: request.swept(matched.len()) }, Action::Commit)
    }
}

/// The last step, with an answer.
pub open spec fn done(reply: Reply<Seq<u8>>) -> (StateView, ActionView) {
    (State::Over, Action::Finish(Verdict::Done(reply)))
}

/// The step after something was looked up for a reader: what is no entry is no value, and the
/// clock is read for an entry that may have expired.
pub open spec fn looked_up(found: Option<Seq<u8>>) -> (StateView, ActionView) {
    match found {
        Some(bytes) => match decoded(bytes) {
            Some((expires_at_ms, payload)) => if expires_at_ms == EXPIRY_NEVER {
                done(Reply::Value(Some(payload)))
            } else {
                (State::Expiry { expires_at_ms, payload }, Action::ReadClock)
            },
            None => done(Reply::Value(None)),
        },
        None => done(Reply::Value(None)),
    }
}

impl RunView {
    /// For how many seconds what is stored is to be kept.
    pub open spec fn ttl(self) -> u64 {
        match self.request {
            Request::Store { ttl_secs, .. } => effective_ttl(ttl_secs, self.default_ttl_secs),
            _ => 0,
        }
    }

    /// The first step.
    pub open spec fn first(self) -> (StateView, ActionView) {
        match self.request {
            Request::Get { .. } => (
                State::Begin { expires_at_ms: EXPIRY_NEVER },
                Action::BeginRead,
            ),
            Request::Store { .. } => if self.ttl() == 0 {
                (State::Begin { expires_at_ms: EXPIRY_NEVER }, Action::BeginWrite)
            } else {
                (State::Clock, Action::ReadClock)
            },
            _ => (State::Begin { expires_at_ms: EXPIRY_NEVER }, Action::BeginWrite),
        }
    }

    /// Whether the request waits for `event`. A failure can come at any time before the end.
    pub open spec fn expects(self, event: EventView) -> bool {
        match (self.state, event) {
            (State::Over, _) => false,
            (_, Event::Failed(_)) => true,
            (State::Clock, Event::Clock(_)) => true,
            (State::Begin { .. }, Event::Fine) => true,
            (State::Table { .. }, Event::Fine) => true,
            (State::Table { .. }, Event::TableMissing) => self.request is Get,
            (State::LookUp { .. }, Event::Found(_)) => self.request is Get || self.request is Store,
            (State::Expiry { .. }, Event::Clock(_)) => true,
            (State::Insert { .. }, Event::Fine) => true,
            (State::Remove, Event::Removed(_)) => true,
            (State::List, Event::Fine) => true,
            (State::Keys { .. }, Event::Key(_)) => true,
            (State::Sweep { matched, next }, Event::Removed(_)) => next < matched.len(),
            (State::Commit { .. }, Event::Fine) => true,
            _ => false,
        }
    }

    /// How a failure at this point is told: the clock's own words, or the words of the store and
    /// the action that failed.
    pub open spec fn told(self, text: Seq<char>) -> Seq<char> {
        match self.state {
            State::Clock => text,
            State::Expiry { .. } => text,
            State::Begin { .. } => wording(
                if self.request is Get {
                    "read"@
                } else {
                    "write"@
                },
                text,
            ),
            State::Table { .. } => wording("table"@, text),
            State::LookUp { .. } => wording("get"@, text),
            State::Insert { .. } => wording("insert"@, text),
            State::Remove => wording("remove"@, text),
            State::List => wording("iter"@, text),
            State::Keys { .. } => wording("entry"@, text),
            State::Sweep { .. } => wording("remove"@, text),
            State::Commit { .. } => wording("commit"@, text),
            State::Over => text,
        }
    }

    /// The step that follows once the table is open.
    pub open spec fn opened(self, expires_at_ms: u64) -> (StateView, ActionView) {
        match self.request {
            Request::Get { key } => (State::LookUp { expires_at_ms }, Action::LookUp(key)),
            Request::Store { key, .. } => (State::LookUp { expires_at_ms }, Action::LookUp(key)),
            Request::Invalidate { key } => (State::Remove, Action::Remove(key)),
            _ => (State::List, Action::ListKeys),
        }
    }

    /// The step that follows what came of the last one.
    pub open spec fn next(self, event: EventView) -> (StateView, ActionView) {
        match (self.state, event) {
            (_, Event::Failed(text)) => (
                State::Over,
                Action::Finish(Verdict::Failed(self.told(text))),
            ),
            (State::Clock, Event::Clock(now_ms)) => (
                State::Begin { expires_at_ms: expiry(now_ms, self.ttl()) },
                Action::BeginWrite,
            ),
            (State::Begin { expires_at_ms }, _) => (
                State::Table { expires_at_ms },
                Action::OpenTable,
            ),
            (State::Table { .. }, Event::TableMissing) => done(Reply::Value(None)),
            (State::Table { expires_at_ms }, _) => self.opened(expires_at_ms),
            (State::LookUp { expires_at_ms }, Event::Found(found)) => match self.request {
                Request::Store { key, value, .. } => (
                    State::Insert { existed: found is Some },
                    Action::Insert(key, encoded(expires_at_ms, value)),
                ),
                _ => looked_up(found),
            },
            (State::Expiry { expires_at_ms, payload }, Event::Clock(now_ms)) => done(
                Reply::Value(
                    if has_expired(expires_at_ms, now_ms) {
                        None
                    } else {
                        Some(payload)
                    },
                ),
            ),
            (State::Insert { existed }, _) => (
                State::Commit {
                    reply: Reply::Stored(
                        SetOutcome { replaced: existed, evicted: 0, evicted_bytes: 0 },
                    ),
                },
                Action::Commit,
            ),
            (State::Remove, Event::Removed(existed)) => (
                State::Commit { reply: Reply::Invalidated(existed) },
                Action::Commit,
            ),
            (State::List, _) => (State::Keys { matched: Seq::empty() }, Action::NextKey),
            (State::Keys { matched }, Event::Key(Some(key))) => (
                State::Keys {
                    matched: if self.request.wants(key) {
                        matched.push(key)
                    } else {
                        matched
                    },
                },
                Action::NextKey,
            ),
            (State::Keys { matched }, _) => sweep(self.request, matched, 0),
            (State::Sweep { matched, next }, _) => sweep(
                self.request,
                matched,
                (next + 1) as usize,
            ),
            (State::Commit { reply }, _) => done(reply),
            _ => (State::Over, Action::Finish(Verdict::Failed(Seq::empty()))),
        }
    }
}

/// Whether `event` can come of `action`. That the table is missing comes only of a transaction
/// that reads.
pub open spec fn answers(action: ActionView, event: EventView, reading: bool) -> bool {
    match (action, event) {
        (Action::Finish(_), _) => false,
        (_, Event::Failed(_)) => true,
        (Action::ReadClock, Event::Clock(_)) => true,
        (Action::BeginRead, Event::Fine) => true,
        (Action::BeginWrite, Event::Fine) => true,
        (Action::OpenTable, Event::Fine) => true,
        (Action::OpenTable, Event::TableMissing) => reading,
        (Action::LookUp(_), Event::Found(_)) => true,
        (Action::Insert(_, _), Event::Fine) => true,
        (Action::Remove(_), Event::Removed(_)) => true,
        (Action::ListKeys, Event::Fine) => true,
        (Action::NextKey, Event::Key(_)) => true,
        (Action::Commit, Event::Fine) => true,
        _ => false,
    }
}

impl RunView {
    /// Whether the request waits for `action` to be performed.
    pub open spec fn awaits(self, action: ActionView) -> bool {
        match (self.state, action) {
            (State::Clock, Action::ReadClock) => self.request is Store,
            (State::Begin { .. }, Action::BeginRead) => self.request is Get,
            (State::Begin { .. }, Action::BeginWrite) => !(self.request is Get),
            (State::Table { .. }, Action::OpenTable) => true,
            (State::LookUp { .. }, Action::LookUp(_)) => self.request is Get
                || self.request is Store,
            (State::Expiry { .. }, Action::ReadClock) => true,
            (State::Insert { .. }, Action::Insert(_, _)) => true,
            (State::Remove, Action::Remove(_)) => true,
            (State::List, Action::ListKeys) => true,
            (State::Keys { .. }, Action::NextKey) => true,
            (State::Sweep { matched, next }, Action::Remove(_)) => next < matched.len(),
            (State::Commit { .. }, Action::Commit) => true,
            (State::Over, Action::Finish(_)) => true,
            _ => false,
        }
    }
}

/// The first action of a request is one that it waits for.
pub proof fn law_first_action_is_awaited(run: RunView)
    ensures
        (Run { state: run.first().0, ..run }).awaits(run.first().1),
{
}

/// Whatever can come of the action that a request waits for can be handed to it, and the next
/// action is again one that it waits for.
pub proof fn law_answers_are_expected(run: RunView, action: ActionView, event: EventView)
    requires
        run.awaits(action),
        answers(action, event, run.request is Get),
    ensures
        run.expects(event),
        (Run { state: run.next(event).0, ..run }).awaits(run.next(event).1),
{
}

/// A failure ends a request at once, and is told by the action that failed and the words in which
/// it failed; a failure of the clock is told in its own words alone.
pub proof fn law_failure_is_told_by_its_action(run: RunView, action: ActionView, text: Seq<char>)
    requires
        run.awaits(action),
        !(action is Finish),
    ensures
        run.expects(Event::Failed(text)),
        run.next(Event::Failed(text)).1 matches Action::Finish(Verdict::Failed(told)) && match action {
            Action::ReadClock => told == text,
            Action::BeginRead => told == "redb "@ + "read"@ + ": "@ + text,
            Action::BeginWrite => told == "redb "@ + "write"@ + ": "@ + text,
            Action::OpenTable => told == "redb "@ + "table"@ + ": "@ + text,
            Action::LookUp(_) => told == "redb "@ + "get"@ + ": "@ + text,
            Action::Insert(_, _) => told == "redb "@ + "insert"@ + ": "@ + text,
            Action::Remove(_) => told == "redb "@ + "remove"@ + ": "@ + text,
            Action::ListKeys => told == "redb "@ + "iter"@ + ": "@ + text,
            Action::NextKey => told == "redb "@ + "entry"@ + ": "@ + text,
            Action::Commit => told == "redb "@ + "commit"@ + ": "@ + text,
            Action::Finish(_) => false,
        },
{
}

/// What the contracts see of a request, an action and an event is all that it holds: the same
/// variant, with the text of each string and the bytes of each list.
pub proof fn law_requests_are_seen_whole(
    request: RedbRequest,
    action: RedbAction,
    event: RedbEvent,
    run: RedbRun,
)
    ensures
        match request {
            Request::Get { key } => request@ matches Request::Get { key: k } && k == key@,
            Request::Store { key, value, ttl_secs } => request@ matches Request::Store {
                key: k,
                value: v,
                ttl_secs: t,
            } && k == key@ && v == value@ && t == ttl_secs,
            Request::Invalidate { key } => request@ matches Request::Invalidate { key: k } && k
                == key@,
            Request::Clear => request@ is Clear,
            Request::ClearPrefix { prefix } => request@ matches Request::ClearPrefix { prefix: p }
                && p == prefix@,
        },
        match action {
            Action::ReadClock => action@ is ReadClock,
            Action::BeginRead => action@ is BeginRead,
            Action::BeginWrite => action@ is BeginWrite,
            Action::OpenTable => action@ is OpenTable,
            Action::LookUp(key) => action@ matches Action::LookUp(k) && k == key@,
            Action::Insert(key, bytes) => action@ matches Action::Insert(k, b) && k == key@ && b
                == bytes@,
            Action::Remove(key) => action@ matches Action::Remove(k) && k == key@,
            Action::ListKeys => action@ is ListKeys,
            Action::NextKey => action@ is NextKey,
            Action::Commit => action@ is Commit,
            Action::Finish(verdict) => action@ matches Action::Finish(v) && v == verdict@,
        },
        match event {
            Event::Clock(now_ms) => event@ matches Event::Clock(n) && n == now_ms,
            Event::Fine => event@ is Fine,
            Event::TableMissing => event@ is TableMissing,
            Event::Found(Some(bytes)) => event@ matches Event::Found(Some(b)) && b == bytes@,
            Event::Found(None) => event@ matches Event::Found(None),
            Event::Removed(existed) => event@ matches Event::Removed(e) && e == existed,
            Event::Key(Some(key)) => event@ matches Event::Key(Some(k)) && k == key@,
            Event::Key(None) => event@ matches Event::Key(None),
            Event::Failed(text) => event@ matches Event::Failed(t) && t == text@,
        },
        run@.request == run.request@,
        run@.default_ttl_secs == run.default_ttl_secs,
{
}

/// The step that follows what was looked up for a reader.
fn after_look_up(found: Option<Vec<u8>>) -> (step: (State<Vec<u8>, Vec<String>>, RedbAction))
    ensures
        (step.0@, step.1@) == looked_up(
            match found {
                Some(bytes) => Some(bytes@),
                None => None,
            },
        ),
{
    match found {
        Some(bytes) => match decode_entry(&bytes) {
            Some((expires_at_ms, payload)) => {
                let payload = slice_to_vec(payload);
                if expires_at_ms == EXPIRY_NEVER {
                    (State::Over, Action::Finish(Verdict::Done(Reply::Value(Some(payload)))))
                } else {
                    (State::Expiry { expires_at_ms, payload }, Action::ReadClock)
                }
            },
            None => (State::Over, Action::Finish(Verdict::Done(Reply::Value(None)))),
        },
        None => (State::Over, Action::Finish(Verdict::Done(Reply::Value(None)))),
    }
}

impl RedbRequest {
    /// Whether a key of the table is to be dropped.
    fn wants_key(&self, key: &str) -> (wanted: bool)
        ensures
            wanted == self@.wants(key@),
    {
        match self {
            Request::ClearPrefix { prefix } => starts_with(key, prefix.as_str()),
            _ => true,
        }
    }

    /// The step of a sweep that comes at `next`.
    fn swept_to(&self, matched: Vec<String>, next: usize) -> (step: (
        State<Vec<u8>, Vec<String>>,
        RedbAction,
    ))
        ensures
            (step.0@, step.1@) == sweep(self@, texts(matched@), next),
    {
        let count: usize = matched.len();
        if next < count {
            let key = matched[next].clone();
            assert(texts(matched@)[next as int] == key@);
            (State::Sweep { matched, next }, Action::Remove(key))
        } else {
            let reply = match self {
                Request::ClearPrefix { .. } => Reply::Removed(count),
                _ => Reply::Cleared,
            };
            (State::Commit { reply }, Action::Commit)
        }
    }
}

impl RedbRun {
    /// A request at its start, and its first action.
    pub fn start(request: RedbRequest, default_ttl_secs: u64) -> (started: (RedbRun, RedbAction))
        ensures
            started.0@.request == request@,
            started.0@.default_ttl_secs == default_ttl_secs,
            (started.0@.state, started.1@) == started.0@.first(),
    {
        let (state, action) = match &request {
            Request::Get { .. } => (
                State::Begin { expires_at_ms: EXPIRY_NEVER },
                Action::BeginRead,
            ),
            Request::Store { ttl_secs, .. } => {
                if *ttl_secs == 0 && default_ttl_secs == 0 {
                    (State::Begin { expires_at_ms: EXPIRY_NEVER }, Action::BeginWrite)
                } else {
                    (State::Clock, Action::ReadClock)
                }
            },
            _ => (State::Begin { expires_at_ms: EXPIRY_NEVER }, Action::BeginWrite),
        };
        (Run { request, default_ttl_secs, state }, action)
    }

    /// How a failure at this point is told.
    fn failure(&self, text: String) -> (told: String)
        ensures
            told@ == self@.told(text@),
    {
        match &self.state {
            State::Clock => text,
            State::Expiry { .. } => text,
            State::Begin { .. } => match &self.request {
                Request::Get { .. } => worded("read", &text),
                _ => worded("write", &text),
            },
            State::Table { .. } => worded("table", &text),
            State::LookUp { .. } => worded("get", &text),
            State::Insert { .. } => worded("insert", &text),
            State::Remove => worded("remove", &text),
            State::List => worded("iter", &text),
            State::Keys { .. } => worded("entry", &text),
            State::Sweep { .. } => worded("remove", &text),
            State::Commit { .. } => worded("commit", &text),
            State::Over => text,
        }
    }

    /// The step that follows once the table is open.
    fn after_open(request: &RedbRequest, expires_at_ms: u64) -> (step: (
        State<Vec<u8>, Vec<String>>,
        RedbAction,
    ))
        ensures
            forall|run: RunView|
                run.request == request@ ==> #[trigger] run.opened(expires_at_ms) == (
                    step.0@,
                    step.1@,
                ),
    {
        match request {
            Request::Get { key } => (State::LookUp { expires_at_ms }, Action::LookUp(key.clone())),
            Request::Store { key, .. } => (
                State::LookUp { expires_at_ms },
                Action::LookUp(key.clone()),
            ),
            Request::Invalidate { key } => (State::Remove, Action::Remove(key.clone())),
            _ => (State::List, Action::ListKeys),
        }
    }

    /// Takes in what came of the last action: the request as it then stands, and its next action.
    pub fn step(self, event: RedbEvent) -> (next: (RedbRun, RedbAction))
        requires
            self@.expects(event@),
        ensures
            next.0@.request == self@.request,
            next.0@.default_ttl_secs == self@.default_ttl_secs,
            (next.0@.state, next.1@) == self@.next(event@),
    {
        let ghost before = self@;
        if let Event::Failed(text) = event {
            let told = self.failure(text);
            let Run { request, default_ttl_secs, .. } = self;
            return (
                Run { request, default_ttl_secs, state: State::Over },
                Action::Finish(Verdict::Failed(told)),
            );
        }
        let Run { request, default_ttl_secs, state } = self;
        let (state, action) = match (state, event) {
            (State::Clock, Event::Clock(now_ms)) => {
                let ttl_secs: u64 = match &request {
                    Request::Store { ttl_secs, .. } => if *ttl_secs == 0 {
                        default_ttl_secs
                    } else {
                        *ttl_secs
                    },
                    _ => 0,
                };
                (State::Begin { expires_at_ms: expiry_at(now_ms, ttl_secs) }, Action::BeginWrite)
            },
            (State::Begin { expires_at_ms }, _) => (
                State::Table { expires_at_ms },
                Action::OpenTable,
            ),
            (State::Table { .. }, Event::TableMissing) => (
                State::Over,
                Action::Finish(Verdict::Done(Reply::Value(None))),
            ),
            (State::Table { expires_at_ms }, _) => {
                let step = RedbRun::after_open(&request, expires_at_ms);
                assert(before.opened(expires_at_ms) == (step.0@, step.1@));
                step
            },
            (State::LookUp { expires_at_ms }, Event::Found(found)) => match &request {
                Request::Store { key, value, .. } => (
                    State::Insert { existed: found.is_some() },
                    Action::Insert(key.clone(), encode_entry(expires_at_ms, value)),
                ),
                _ => after_look_up(found),
            },
            (State::Expiry { expires_at_ms, payload }, Event::Clock(now_ms)) => {
                let value = if expires_at_ms != EXPIRY_NEVER && now_ms >= expires_at_ms {
                    None
                } else {
                    Some(payload)
                };
                (State::Over, Action::Finish(Verdict::Done(Reply::Value(value))))
            },
            (State::Insert { existed }, _) => (
                State::Commit {
                    reply: Reply::Stored(
                        SetOutcome { replaced: existed, evicted: 0, evicted_bytes: 0 },
                    ),
                },
                Action::Commit,
            ),
            (State::Remove, Event::Removed(existed)) => (
                State::Commit { reply: Reply::Invalidated(existed) },
                Action::Commit,
            ),
            (State::List, _) => {
                let matched: Vec<String> = Vec::new();
                assert(texts(matched@) =~= Seq::empty());
                (State::Keys { matched }, Action::NextKey)
            },
            (State::Keys { mut matched }, Event::Key(Some(key))) => {
                if request.wants_key(key.as_str()) {
                    proof {
                        lemma_texts_push(matched@, key);
                    }
                    matched.push(key);
                }
                (State::Keys { matched }, Action::NextKey)
            },
            (State::Keys { matched }, _) => request.swept_to(matched, 0),
            (State::Sweep { matched, next }, _) => {
                assert(next < matched.len());
                request.swept_to(matched, next + 1)
            },
            (State::Commit { reply }, _) => (State::Over, Action::Finish(Verdict::Done(reply))),
            _ => (State::Over, Action::Finish(Verdict::Failed(String::new()))),
        };
        (Run { request, default_ttl_secs, state }, action)
    }
}

} // verus!
