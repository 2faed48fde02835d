//! Boundary to the external structured-value codec.
//!
//! Operation arguments and results cross the name-based dispatch surface as
//! `serde_json::Value`. The registry core never inspects such a value itself:
//! it only wraps strings into values and reads strings back out, through the
//! two trusted functions below. The wire format stays the codec's business.

use serde_json::Value;
use vstd::prelude::*;

verus! {

#[verifier::external_type_specification]
#[verifier::external_body]
pub struct ExValue(serde_json::Value);

/// The characters a structured value carries when it is a string value, and
/// nothing when it is any other kind of value.
pub uninterp spec fn string_content(v: Value) -> Option<Seq<char>>;

/// Relies on `serde_json::Value::String`: wrapping a string yields the string
/// kind of structured value, carrying exactly the given characters.
#[verifier::external_body]
pub fn encode_str(s: &str) -> (r: Value)
    ensures
        string_content(r) == Some(s@),
{
    Value::String(s.to_owned())
}

/// Relies on matching `serde_json::Value::String`: a string value yields its
/// characters; every other kind of value yields nothing.
#[verifier::external_body]
pub fn decode_str(v: &Value) -> (r: Option<String>)
    ensures
        match r {
            Some(s) => string_content(*v) == Some(s@),
            None => string_content(*v) is None,
        },
{
    match v {
        Value::String(s) => Some(s.clone()),
        _ => None,
    }
}

/// A string packed as a structured value is recovered intact: decoding the
/// encoding of any string gives that string back.
pub fn string_round_trip(s: &str) -> (r: Option<String>)
    ensures
        r matches Some(t) && t@ == s@,
{
    let v = encode_str(s);
    decode_str(&v)
}

} // verus!
