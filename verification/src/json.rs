//! Reading members of JSON documents (`.uproject`, `.uplugin`,
//! `Build.version`) through `serde_json`.

use vstd::prelude::*;

verus! {

/// Names what `serde_json` gives for member `key` of the JSON document
/// `text` read as an unsigned integer: `Some(n)` when `text` parses as JSON
/// whose top level is an object holding `key` with a non-negative integer
/// value `n` that fits in `u64`; `None` otherwise.
pub uninterp spec fn json_member_u64(text: Seq<char>, key: Seq<char>) -> Option<u64>;

/// Names what `serde_json` gives for member `key` of the JSON document
/// `text` read as a string: `Some(s)` when `text` parses as JSON whose top
/// level is an object holding `key` with string value `s`; `None` otherwise.
pub uninterp spec fn json_member_str(text: Seq<char>, key: Seq<char>) -> Option<Seq<char>>;

/// Parses `text` with `serde_json::from_str::<Value>` and reads member `key`
/// with `Value::get` and `Value::as_u64`. Claims only that the result is the
/// named function of the two arguments; JSON syntax is not stated.
#[verifier::external_body]
pub(crate) fn member_u64(text: &str, key: &str) -> (r: Option<u64>)
    ensures
        r == json_member_u64(text@, key@),
{
    match serde_json::from_str::<serde_json::Value>(text) {
        Ok(v) => match v.get(key) {
            Some(x) => x.as_u64(),
            None => None,
        },
        Err(_) => None,
    }
}

/// Parses `text` with `serde_json::from_str::<Value>` and reads member `key`
/// with `Value::get` and `Value::as_str`. Claims only that the result is the
/// named function of the two arguments; JSON syntax is not stated.
#[verifier::external_body]
pub(crate) fn member_str(text: &str, key: &str) -> (r: Option<String>)
    ensures
        r is Some <==> json_member_str(text@, key@) is Some,
        r matches Some(s) ==> s@ == json_member_str(text@, key@)->0,
{
    match serde_json::from_str::<serde_json::Value>(text) {
        Ok(v) => match v.get(key) {
            Some(x) => match x.as_str() {
                Some(s) => Some(s.to_string()),
                None => None,
            },
            None => None,
        },
        Err(_) => None,
    }
}

} // verus!
