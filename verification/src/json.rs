//! The JSON codec, an external collaborator: string quoting for the wire
//! encoders and array-of-strings parsing for the inbound path, both through
//! serde_json.

use vstd::prelude::*;

verus! {

/// What `serde_json::to_string` returns for a string: its JSON string
/// literal form. The escaping depends on the characters alone.
pub uninterp spec fn json_quoted(s: Seq<char>) -> Seq<char>;

/// What `serde_json::from_str::<Vec<String>>` returns: the payloads when the
/// input is a JSON array of strings, and nothing otherwise. The result
/// depends on the input characters alone.
pub uninterp spec fn json_msgs(s: Seq<char>) -> Option<Seq<Seq<char>>>;

/// Relies on serde_json::to_string for a string: it returns the payload as a
/// JSON string literal, opening and closing with a double quote. String
/// serialization into a buffer cannot fail.
#[verifier::external_body]
pub fn json_encode_str(s: &str) -> (r: String)
    ensures
        r@ == json_quoted(s@),
        r@.len() >= 2,
        r@[0] == '"',
        r@[r@.len() - 1] == '"',
{
    serde_json::to_string(s).unwrap()
}

/// Relies on serde_json::from_str::<Vec<String>>: it succeeds exactly on a
/// JSON array of strings and returns its elements in order; in particular a
/// bracketed serde_json string literal parses back to that one payload
/// (JSON encode/decode of strings round-trips).
#[verifier::external_body]
pub fn json_parse_msgs(s: &str) -> (r: Option<Vec<String>>)
    ensures
        r is Some <==> json_msgs(s@) is Some,
        r is Some ==> r.unwrap().deep_view() == json_msgs(s@).unwrap(),
        forall|m: Seq<char>|
            s@ == seq!['['] + json_quoted(m) + seq![']'] ==> r is Some
                && r.unwrap().deep_view() == seq![m],
{
    serde_json::from_str::<Vec<String>>(s).ok()
}

/// Relies on serde_json::from_str::<String>: a serde_json string literal
/// parses back to the payload it was made from (JSON encode/decode of
/// strings round-trips).
#[verifier::external_body]
pub fn json_parse_str(s: &str) -> (r: Option<String>)
    ensures
        forall|m: Seq<char>| s@ == json_quoted(m) ==> r is Some && r.unwrap()@ == m,
{
    serde_json::from_str::<String>(s).ok()
}

} // verus!
