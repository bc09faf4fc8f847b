//! Reading the body of a shortening request: a JSON document whose `link`
//! member, when it is a string, is the long link. Any other shape of the
//! document stands for the empty link; only text that is not JSON is refused.

use vstd::prelude::*;

verus! {

#[verifier::external_type_specification]
#[verifier::external_body]
pub struct ExJsonError(serde_json::Error);

/// What a JSON text says of one member: `None` where the text is not a JSON
/// document, `Some(None)` where it is one without a string member under
/// `key`, `Some(Some(s))` where that member is the string `s`.
pub uninterp spec fn json_text_member(body: Seq<u8>, key: Seq<char>) -> Option<Option<Seq<char>>>;

/// Relies on `serde_json::from_slice` into a `serde_json::Value`, then
/// `Value::get` with a string key and `Value::as_str`: the string held under
/// `key` when the document is an object with such a string member.
#[verifier::external_body]
fn string_member(body: &[u8], key: &str) -> (r: Result<Option<String>, serde_json::Error>)
    ensures
        match r {
            Err(_) => json_text_member(body@, key@) is None,
            Ok(None) => json_text_member(body@, key@) == Some(None::<Seq<char>>),
            Ok(Some(s)) => json_text_member(body@, key@) == Some(Some(s@)),
        },
{
    let v: serde_json::Value = serde_json::from_slice(body)?;
    Ok(v.get(key).and_then(serde_json::Value::as_str).map(str::to_string))
}

/// Why a request body was refused.
#[derive(Debug, PartialEq, Eq, Structural)]
pub enum PayloadError {
    /// The body is not a JSON document.
    MalformedJson,
}

/// The long link that a request body asks for, as [`link_of_member`] says,
/// given what the JSON decoder found: `None` for a body that is not JSON.
pub open spec fn requested_link(decoded: Option<Option<Seq<char>>>) -> Option<Seq<char>> {
    match decoded {
        None => None,
        Some(m) => Some(link_of_member(m)),
    }
}

/// A string member is the link itself; anything else is the empty link.
pub open spec fn link_of_member(m: Option<Seq<char>>) -> Seq<char> {
    match m {
        Some(s) => s,
        None => Seq::empty(),
    }
}

/// The long link that a request stands for, given the string found under
/// its `link` member, if any: that string, or the empty string.
pub fn link_or_empty(member: Option<String>) -> (r: String)
    ensures
        r@ == link_of_member(match member {
            Some(s) => Some(s@),
            None => None,
        }),
{
    match member {
        Some(s) => s,
        None => String::new(),
    }
}

/// The long link a request body asks for: the `link` member when it is a
/// string, else the empty string. A body that is not JSON is refused.
pub fn decode_link(body: &[u8]) -> (r: Result<String, PayloadError>)
    ensures
        match requested_link(json_text_member(body@, "link"@)) {
            None => r == Err::<String, PayloadError>(PayloadError::MalformedJson),
            Some(l) => r is Ok && r->Ok_0@ == l,
        },
{
    match string_member(body, "link") {
        Err(_) => Err(PayloadError::MalformedJson),
        Ok(m) => Ok(link_or_empty(m)),
    }
}

} // verus!
