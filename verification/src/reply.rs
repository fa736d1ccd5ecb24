//! What a store answers to a request.

use crate::error::{is_backend, CacheError};
use vstd::prelude::*;

verus! {

/// What storing something did.
#[derive(Debug, Clone, Copy, PartialEq, Eq, Structural)]
pub struct SetOutcome {
    /// Whether something was stored under the key before.
    pub replaced: bool,
    /// How many other entries had to make room.
    pub evicted: usize,
    /// How many bytes those entries held.
    pub evicted_bytes: usize,
}

impl Default for SetOutcome {
    fn default() -> (outcome: Self)
        ensures
            outcome == (SetOutcome { replaced: false, evicted: 0, evicted_bytes: 0 }),
    {
        SetOutcome { replaced: false, evicted: 0, evicted_bytes: 0 }
    }
}

/// What a store answers.
pub enum Reply<B> {
    /// The value, if there is one.
    Value(Option<B>),
    /// What storing the value did.
    Stored(SetOutcome),
    /// Whether there was something to drop.
    Invalidated(bool),
    /// Every key has been dropped.
    Cleared,
    /// How many keys have been dropped.
    Removed(usize),
}

/// How a request ends.
pub enum Verdict<T, B> {
    /// With an answer.
    Done(Reply<B>),
    /// With a failure of the store, told in words.
    Failed(T),
}

/// What a store answers.
pub type StoreReply = Reply<Vec<u8>>;

/// How a request ends.
pub type StoreVerdict = Verdict<String, Vec<u8>>;

impl View for StoreReply {
    type V = Reply<Seq<u8>>;

    open spec fn view(&self) -> Reply<Seq<u8>> {
        match self {
            Reply::Value(Some(value)) => Reply::Value(Some(value@)),
            Reply::Value(None) => Reply::Value(None),
            Reply::Stored(outcome) => Reply::Stored(*outcome),
            Reply::Invalidated(existed) => Reply::Invalidated(*existed),
            Reply::Cleared => Reply::Cleared,
            Reply::Removed(count) => Reply::Removed(*count),
        }
    }
}

impl View for StoreVerdict {
    type V = Verdict<Seq<char>, Seq<u8>>;

    open spec fn view(&self) -> Verdict<Seq<char>, Seq<u8>> {
        match self {
            Verdict::Done(reply) => Verdict::Done(reply@),
            Verdict::Failed(text) => Verdict::Failed(text@),
        }
    }
}

/// What the contracts see of an answer and of the end of a request is all that it holds.
pub proof fn law_answers_are_seen_whole(reply: StoreReply, verdict: StoreVerdict)
    ensures
        match reply {
            Reply::Value(Some(value)) => reply@ matches Reply::Value(Some(v)) && v == value@,
            Reply::Value(None) => reply@ matches Reply::Value(None),
            Reply::Stored(outcome) => reply@ matches Reply::Stored(o) && o.replaced
                == outcome.replaced && o.evicted == outcome.evicted && o.evicted_bytes
                == outcome.evicted_bytes,
            Reply::Invalidated(existed) => reply@ matches Reply::Invalidated(e) && e == existed,
            Reply::Cleared => reply@ is Cleared,
            Reply::Removed(count) => reply@ matches Reply::Removed(c) && c == count,
        },
        match verdict {
            Verdict::Done(reply) => verdict@ matches Verdict::Done(r) && r == reply@,
            Verdict::Failed(text) => verdict@ matches Verdict::Failed(t) && t == text@,
        },
{
}

impl StoreVerdict {
    /// The answer, or the failure as an error of the store.
    pub fn into_result(self) -> (result: Result<StoreReply, CacheError>)
        ensures
            match self {
                Verdict::Done(reply) => result == Ok::<StoreReply, CacheError>(reply),
                Verdict::Failed(text) => result matches Err(error) && is_backend(error, text@),
            },
            self matches Verdict::Failed(text) ==> (result matches Err(CacheError::Backend(told))
                && told@ == text@),
    {
        match self {
            Verdict::Done(reply) => Ok(reply),
            Verdict::Failed(text) => Err(CacheError::Backend(text)),
        }
    }
}

} // verus!
