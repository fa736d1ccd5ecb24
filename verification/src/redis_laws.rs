//! What whole requests to a cache behind a server send, and what they give back.

use crate::error::CacheError;
use crate::redis_handler::{
    Answer, AnswerView, Command, CommandView, Progress, RedisAnswer, RedisCacheHandler,
    RedisCommand, RedisRequest, RedisRun, RequestView, RunView, ServerRequest, ServerRun, Waited,
    WaitedView,
};
use crate::reply::{Reply, Verdict};
use vstd::prelude::*;

verus! {

/// What a server holds under a key.
pub struct Held {
    /// The bytes.
    pub value: Seq<u8>,
    /// For how many seconds they are held; none where they are held for good.
    pub secs: Option<u64>,
}

/// A server, as the commands it is sent see it.
pub struct Server {
    /// What it holds under each key.
    pub held: Map<Seq<char>, Held>,
    /// The commands that it has been sent, in their order.
    pub sent: Seq<CommandView>,
}

/// How a server behaves.
pub struct Conduct {
    /// The keys that it lists for a pattern.
    pub lists: spec_fn(Seq<char>) -> Seq<Seq<char>>,
    /// After how many commands one fails, if one does.
    pub fails_after: Option<nat>,
    /// The words in which it fails; none where it does not answer in time.
    pub text: Option<Seq<char>>,
}

impl Server {
    /// What a server does when it is sent a command, and what it answers.
    pub open spec fn perform(self, command: CommandView, conduct: Conduct) -> (Server, WaitedView) {
        let sent = self.sent.push(command);
        if conduct.fails_after == Some(self.sent.len()) {
            (
                Server { sent, ..self },
                match conduct.text {
                    Some(text) => Waited::Failed(text),
                    None => Waited::TimedOut,
                },
            )
        } else {
            let (held, answer): (Map<Seq<char>, Held>, AnswerView) = match command {
                Command::Get(key) => (
                    self.held,
                    Answer::Value(
                        if self.held.contains_key(key) {
                            Some(self.held[key].value)
                        } else {
                            None
                        },
                    ),
                ),
                Command::Put { key, value } => (
                    self.held.insert(key, Held { value, secs: None }),
                    Answer::Done,
                ),
                Command::PutFor { key, value, ttl_secs } => (
                    self.held.insert(key, Held { value, secs: Some(ttl_secs) }),
                    Answer::Done,
                ),
                Command::Delete(key) => (
                    self.held.remove(key),
                    Answer::Dropped(
                        if self.held.contains_key(key) {
                            1
                        } else {
                            0
                        },
                    ),
                ),
                Command::Keys(pattern) => (self.held, Answer::Keys((conduct.lists)(pattern))),
                Command::DeleteAll(keys) => (self.held.remove_keys(keys.to_set()), Answer::Done),
                Command::Finish(_) => (self.held, Answer::Done),
            };
            (Server { held, sent }, Waited::Answered(answer))
        }
    }
}

/// How a request ends, and the server that it leaves, once all its commands have been sent one
/// after another; nothing if that takes more than `fuel` of them.
pub open spec fn drive(
    run: RunView,
    command: CommandView,
    server: Server,
    conduct: Conduct,
    fuel: nat,
) -> Option<(Verdict<Seq<char>, Seq<u8>>, Server)>
    decreases fuel,
{
    if let Command::Finish(verdict) = command {
        Some((verdict, server))
    } else if fuel == 0 {
        None
    } else {
        let (server, waited) = server.perform(command, conduct);
        let (progress, command) = run.next(waited);
        drive(ServerRun { progress, ..run }, command, server, conduct, (fuel - 1) as nat)
    }
}

/// How a whole request ends, and the server that it leaves.
pub open spec fn outcome(
    request: RequestView,
    held: Map<Seq<char>, Held>,
    conduct: Conduct,
) -> Option<(Verdict<Seq<char>, Seq<u8>>, Server)> {
    drive(
        ServerRun { request, progress: Progress::Asked },
        request.first(),
        Server { held, sent: Seq::empty() },
        conduct,
        3,
    )
}

/// Reading sends one command, which asks for the key, and gives exactly the value that the server
/// has under it, whatever its bytes; the server is left as it is.
pub proof fn law_get_gives_what_the_server_holds(
    key: Seq<char>,
    held: Map<Seq<char>, Held>,
    conduct: Conduct,
)
    requires
        conduct.fails_after is None,
    ensures
        outcome(RequestView::Get { key }, held, conduct) matches Some(
            (Verdict::Done(Reply::Value(found)), left),
        ) && {
            &&& held.contains_key(key) ==> found == Some(held[key].value)
            &&& !held.contains_key(key) ==> found is None
            &&& left.held == held
            &&& left.sent.len() == 1
            &&& left.sent[0] matches Command::Get(asked) && asked == key
        },
{
    reveal_with_fuel(drive, 3);
}

/// Storing sends one command. The server then holds exactly the value under the key, for the
/// seconds asked for or for good where they are none, and every other key as before.
pub proof fn law_store_puts_the_value(
    key: Seq<char>,
    value: Seq<u8>,
    ttl_secs: u64,
    held: Map<Seq<char>, Held>,
    conduct: Conduct,
)
    requires
        conduct.fails_after is None,
    ensures
        outcome(RequestView::Store { key, value, ttl_secs }, held, conduct) matches Some(
            (Verdict::Done(Reply::Stored(told)), left),
        ) && {
            &&& !told.replaced && told.evicted == 0 && told.evicted_bytes == 0
            &&& left.held.contains_key(key)
            &&& left.held[key].value == value
            &&& left.held[key].secs == if ttl_secs == 0 {
                None
            } else {
                Some(ttl_secs)
            }
            &&& left.held.remove(key) == held.remove(key)
            &&& left.sent.len() == 1
        },
{
    reveal_with_fuel(drive, 3);
    assert(held.insert(
        key,
        Held {
            value,
            secs: if ttl_secs == 0 {
                None
            } else {
                Some(ttl_secs)
            },
        },
    ).remove(key) =~= held.remove(key));
}

/// What was set under a key is what a later reading of it gives, so long as the server holds it.
pub proof fn law_stored_is_given_back(
    key: Seq<char>,
    value: Seq<u8>,
    ttl_secs: u64,
    held: Map<Seq<char>, Held>,
    later: Map<Seq<char>, Held>,
    conduct: Conduct,
)
    requires
        conduct.fails_after is None,
        outcome(RequestView::Store { key, value, ttl_secs }, held, conduct) matches Some((_, left))
            ==> later.contains_key(key) && later[key] == left.held[key],
    ensures
        outcome(RequestView::Get { key }, later, conduct) matches Some(
            (Verdict::Done(Reply::Value(Some(found))), _),
        ) && found == value,
{
    law_store_puts_the_value(key, value, ttl_secs, held, conduct);
    law_get_gives_what_the_server_holds(key, later, conduct);
}

/// Dropping a key sends one command, takes the key and no other from the server, and tells whether
/// it was there.
pub proof fn law_drop_takes_the_key(
    key: Seq<char>,
    held: Map<Seq<char>, Held>,
    conduct: Conduct,
)
    requires
        conduct.fails_after is None,
    ensures
        outcome(RequestView::Invalidate { key }, held, conduct) matches Some(
            (Verdict::Done(Reply::Invalidated(existed)), left),
        ) && {
            &&& existed == held.contains_key(key)
            &&& left.held == held.remove(key)
            &&& left.sent.len() == 1
            &&& left.sent[0] matches Command::Delete(asked) && asked == key
        },
{
    reveal_with_fuel(drive, 3);
}

/// Whatever number of dropped keys a server tells, a key was there exactly if it is above zero.
pub proof fn law_drop_goes_by_the_number(key: Seq<char>, count: i64)
    ensures
        (ServerRun {
            request: RequestView::Invalidate { key },
            progress: Progress::Asked,
        }).next(Waited::Answered(Answer::Dropped(count))).1 matches Command::Finish(
            Verdict::Done(Reply::Invalidated(existed)),
        ) && existed == (count > 0),
{
}

/// Clearing a prefix asks the server for the keys that match the prefix and a star, takes exactly
/// the listed ones from it in one more command, or in none where none is listed, and tells how
/// many they are. Where the server lists the keys that begin with the prefix, these go and the
/// others stay.
pub proof fn law_clear_prefix_takes_the_listed(
    prefix: Seq<char>,
    held: Map<Seq<char>, Held>,
    conduct: Conduct,
    key: Seq<char>,
)
    requires
        conduct.fails_after is None,
        (conduct.lists)(prefix + "*"@).len() <= usize::MAX,
    ensures
        outcome(RequestView::ClearPrefix { prefix }, held, conduct) matches Some(
            (Verdict::Done(Reply::Removed(count)), left),
        ) && {
            let listed = (conduct.lists)(prefix + "*"@);
            &&& count == listed.len()
            &&& left.held.contains_key(key) <==> held.contains_key(key) && !listed.contains(key)
            &&& left.held.contains_key(key) ==> left.held[key] == held[key]
            &&& left.sent[0] matches Command::Keys(asked) && asked == prefix + "*"@
            &&& left.sent.len() == if listed.len() == 0 {
                1nat
            } else {
                2
            }
            &&& (forall|k: Seq<char>| #[trigger]
                listed.contains(k) <==> held.contains_key(k) && prefix.is_prefix_of(k)) ==> (
            left.held.contains_key(key) <==> held.contains_key(key) && !prefix.is_prefix_of(key))
        },
{
    reveal_with_fuel(drive, 4);
    let listed = (conduct.lists)(prefix + "*"@);
    assert(listed.to_set().contains(key) <==> listed.contains(key));
    if listed.len() == 0 {
        assert(!listed.contains(key));
    }
}

/// A command that fails, or that the server does not answer in time, ends its request at once: no
/// other command is sent, and it is told which command it was, with the server's own words where
/// there are any.
pub proof fn law_failure_is_told_by_its_command(
    request: RequestView,
    held: Map<Seq<char>, Held>,
    conduct: Conduct,
)
    requires
        conduct.fails_after == Some(0nat),
    ensures
        outcome(request, held, conduct) matches Some((Verdict::Failed(told), left)) && {
            let name = match request {
                ServerRequest::Get { .. } => "get"@,
                ServerRequest::Store { .. } => "set"@,
                ServerRequest::Invalidate { .. } => "del"@,
                ServerRequest::ClearPrefix { .. } => "keys"@,
            };
            &&& conduct.text matches Some(text) ==> told == "redis "@ + name + ": "@ + text
            &&& conduct.text is None ==> told == "redis "@ + name + " timeout"@
            &&& left.held == held
            &&& left.sent.len() == 1
        },
{
    reveal_with_fuel(drive, 3);
}

/// A failure to drop the listed keys is told as one of dropping, and ends the request.
pub proof fn law_failed_drop_is_told(
    prefix: Seq<char>,
    held: Map<Seq<char>, Held>,
    conduct: Conduct,
)
    requires
        conduct.fails_after == Some(1nat),
        (conduct.lists)(prefix + "*"@).len() > 0,
    ensures
        outcome(RequestView::ClearPrefix { prefix }, held, conduct) matches Some(
            (Verdict::Failed(told), left),
        ) && {
            &&& conduct.text matches Some(text) ==> told == "redis "@ + "del"@ + ": "@ + text
            &&& conduct.text is None ==> told == "redis "@ + "del"@ + " timeout"@
            &&& left.held == held
        },
{
    reveal_with_fuel(drive, 4);
}

/// A request to a handler starts as it is asked, with its first command, exactly if an address is
/// set; else it is the failure that says so.
pub proof fn law_requests_need_an_address<C>(
    handler: RedisCacheHandler<C>,
    request: RequestView,
    started: Result<(RedisRun, RedisCommand), CacheError>,
)
    requires
        handler.starts(request, started),
    ensures
        started is Ok <==> handler.address() is Some,
        started matches Ok((run, command)) ==> run@.request == request && run@.progress is Asked
            && command@ == request.first(),
        started matches Err(error) ==> (error matches CacheError::Backend(text) && text@
            == "redis url is not configured"@),
{
}

/// What the contracts see of a request, a command and an answer is all that it holds: the same
/// variant, with the text of each string and the bytes of each list.
pub proof fn law_commands_are_seen_whole(
    request: RedisRequest,
    command: RedisCommand,
    answer: RedisAnswer,
    waited: Waited<RedisAnswer, String>,
    run: RedisRun,
)
    ensures
        match request {
            ServerRequest::Get { key } => request@ matches ServerRequest::Get { key: k } && k
                == key@,
            ServerRequest::Store { key, value, ttl_secs } => request@ matches ServerRequest::Store {
                key: k,
                value: v,
                ttl_secs: t,
            } && k == key@ && v == value@ && t == ttl_secs,
            ServerRequest::Invalidate { key } => request@ matches ServerRequest::Invalidate {
                key: k,
            } && k == key@,
            ServerRequest::ClearPrefix { prefix } => request@ matches ServerRequest::ClearPrefix {
                prefix: p,
            } && p == prefix@,
        },
        match command {
            Command::Get(key) => command@ matches Command::Get(k) && k == key@,
            Command::Put { key, value } => command@ matches Command::Put { key: k, value: v } && k
                == key@ && v == value@,
            Command::PutFor { key, value, ttl_secs } => command@ matches Command::PutFor {
                key: k,
                value: v,
                ttl_secs: t,
            } && k == key@ && v == value@ && t == ttl_secs,
            Command::Delete(key) => command@ matches Command::Delete(k) && k == key@,
            Command::Keys(pattern) => command@ matches Command::Keys(p) && p == pattern@,
            Command::DeleteAll(keys) => command@ matches Command::DeleteAll(k) && k.len()
                == keys@.len() && forall|i: int| 0 <= i < k.len() ==> #[trigger] k[i] == keys@[i]@,
            Command::Finish(verdict) => command@ matches Command::Finish(v) && v == verdict@,
        },
        match answer {
            Answer::Value(Some(value)) => answer@ matches Answer::Value(Some(v)) && v == value@,
            Answer::Value(None) => answer@ matches Answer::Value(None),
            Answer::Done => answer@ is Done,
            Answer::Dropped(count) => answer@ matches Answer::Dropped(c) && c == count,
            Answer::Keys(keys) => answer@ matches Answer::Keys(k) && k.len() == keys@.len()
                && forall|i: int| 0 <= i < k.len() ==> #[trigger] k[i] == keys@[i]@,
        },
        match waited {
            Waited::TimedOut => waited@ is TimedOut,
            Waited::Failed(text) => waited@ matches Waited::Failed(t) && t == text@,
            Waited::Answered(answer) => waited@ matches Waited::Answered(a) && a == answer@,
        },
        run@.request == run.request@,
        run@.progress == run.progress,
{
}

} // verus!
