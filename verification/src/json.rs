//! Reading JSON documents.

use vstd::prelude::*;

verus! {

/// The string at a place in a JSON document: nothing where the bytes are no document, and no string
/// where the place does not exist or holds something else.
pub uninterp spec fn json_string(body: Seq<u8>, place: Seq<char>) -> Option<Option<Seq<char>>>;

pub open spec fn json_view(r: Option<Option<String>>) -> Option<Option<Seq<char>>> {
    match r {
        Some(Some(s)) => Some(Some(s@)),
        Some(None) => Some(None),
        None => None,
    }
}

/// `Value::pointer` of the crate `serde_json`, on the document that `serde_json::from_slice` reads,
/// and `Value::as_str` on what is there. The result depends on the bytes and the place alone.
#[verifier::external_body]
pub(crate) fn json_string_at(body: &[u8], place: &str) -> (r: Option<Option<String>>)
    ensures
        json_view(r) == json_string(body@, place@),
{
    match serde_json::from_slice::<serde_json::Value>(body) {
        Ok(v) => Some(v.pointer(place).and_then(|x| x.as_str()).map(|s| s.to_string())),
        Err(_) => None,
    }
}

/// The integer at a place in a JSON document: nothing where the bytes are no document, and no integer
/// where the place does not exist or holds something that is no integer of 64 bits with a sign.
pub uninterp spec fn json_int(body: Seq<u8>, place: Seq<char>) -> Option<Option<i64>>;

/// `Value::pointer` of the crate `serde_json`, on the document that `serde_json::from_slice` reads,
/// and `Value::as_i64` on what is there. The result depends on the bytes and the place alone.
#[verifier::external_body]
pub(crate) fn json_int_at(body: &[u8], place: &str) -> (r: Option<Option<i64>>)
    ensures
        r == json_int(body@, place@),
{
    match serde_json::from_slice::<serde_json::Value>(body) {
        Ok(v) => Some(v.pointer(place).and_then(|x| x.as_i64())),
        Err(_) => None,
    }
}

} // verus!
