//! JSON values and their bytes.

use vstd::prelude::*;

verus! {

/// A JSON value, which is only carried through.
#[verifier::external_type_specification]
#[verifier::external_body]
pub struct ExJsonValue(serde_json::Value);

/// What goes wrong with JSON.
#[verifier::external_type_specification]
#[verifier::external_body]
pub struct ExJsonError(serde_json::Error);

/// The value that `serde_json::from_slice` reads out of bytes: none where they are not JSON.
pub uninterp spec fn json_value(bytes: Seq<u8>) -> Option<serde_json::Value>;

/// The bytes that `serde_json::to_vec` makes of a value: none where it fails.
pub uninterp spec fn json_bytes(value: serde_json::Value) -> Option<Seq<u8>>;

/// `serde_json::from_slice`: the value that `bytes` stand for. That it is the value the bytes were
/// made of is not stated: a number with a fraction may come back rounded, and a value that is
/// nested deeper than 127 levels does not come back at all.
#[verifier::external_body]
pub(crate) fn from_slice(bytes: &[u8]) -> (value: Result<serde_json::Value, serde_json::Error>)
    ensures
        match value {
            Ok(value) => json_value(bytes@) == Some(value),
            Err(_) => json_value(bytes@) is None,
        },
{
    serde_json::from_slice(bytes)
}

/// `serde_json::to_vec`: the bytes of `value`, which depend on nothing else. Which bytes these are
/// is not stated.
#[verifier::external_body]
pub(crate) fn to_vec(value: &serde_json::Value) -> (bytes: Result<Vec<u8>, serde_json::Error>)
    ensures
        match bytes {
            Ok(bytes) => json_bytes(*value) == Some(bytes@),
            Err(_) => json_bytes(*value) is None,
        },
{
    serde_json::to_vec(value)
}

} // verus!
