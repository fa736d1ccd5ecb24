//! What can go wrong in a cache.

use vstd::prelude::*;

verus! {

/// What can go wrong in a cache handler. The text says what, in the words of whoever failed.
#[derive(Debug)]
pub enum CacheError {
    /// A file could not be read or written.
    Io(String),
    /// A value could not be turned into bytes.
    Serialize(String),
    /// Bytes could not be turned into a value.
    Deserialize(String),
    /// The store behind the handler failed.
    Backend(String),
}

impl CacheError {
    /// The error as it is shown.
    pub open spec fn shown(&self) -> Seq<char> {
        match self {
            CacheError::Io(text) => "io error: "@ + text@,
            CacheError::Serialize(text) => "serialization error: "@ + text@,
            CacheError::Deserialize(text) => "deserialization error: "@ + text@,
            CacheError::Backend(text) => "backend error: "@ + text@,
        }
    }

    /// The error in words.
    pub fn message(&self) -> (message: String)
        ensures
            message@ == self.shown(),
            match self {
                CacheError::Io(text) => message@ == "io error: "@ + text@,
                CacheError::Serialize(text) => message@ == "serialization error: "@ + text@,
                CacheError::Deserialize(text) => message@ == "deserialization error: "@ + text@,
                CacheError::Backend(text) => message@ == "backend error: "@ + text@,
            },
    {
        match self {
            CacheError::Io(text) => joined("io error: ", text),
            CacheError::Serialize(text) => joined("serialization error: ", text),
            CacheError::Deserialize(text) => joined("deserialization error: ", text),
            CacheError::Backend(text) => joined("backend error: ", text),
        }
    }
}

/// Whether `error` is a failure of the backend, told as `text`.
pub open spec fn is_backend(error: CacheError, text: Seq<char>) -> bool {
    error matches CacheError::Backend(told) && told@ == text
}

/// What can go wrong around a cache.
#[derive(Debug)]
pub enum RariError {
    /// The cache failed.
    Cache(String),
}

impl RariError {
    /// Whether the error is told as `text`.
    pub open spec fn tells(self, text: Seq<char>) -> bool {
        self matches RariError::Cache(told) && told@ == text
    }

    /// A failure of the cache.
    pub fn cache(message: String) -> (error: RariError)
        ensures
            error == RariError::Cache(message),
    {
        RariError::Cache(message)
    }
}

/// Two texts, one after the other.
pub fn joined(first: &str, second: &str) -> (whole: String)
    ensures
        whole@ == first@ + second@,
{
    let mut whole = first.to_owned();
    whole.append(second);
    whole
}

/// A failure of a store is told as a text exactly if it is one and holds that text; so is an error
/// of the cache.
pub proof fn law_errors_hold_their_text(failure: CacheError, error: RariError, text: Seq<char>)
    ensures
        is_backend(failure, text) <==> (failure matches CacheError::Backend(told) && told@ == text),
        error.tells(text) <==> (error matches RariError::Cache(told) && told@ == text),
        match failure {
            CacheError::Io(words) => failure.shown() == "io error: "@ + words@,
            CacheError::Serialize(words) => failure.shown() == "serialization error: "@ + words@,
            CacheError::Deserialize(words) => failure.shown() == "deserialization error: "@ + words@,
            CacheError::Backend(words) => failure.shown() == "backend error: "@ + words@,
        },
{
}

} // verus!
