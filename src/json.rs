//! The calls into serde_json: writing a JSON string literal and reading the
//! members of a reply object.

use vstd::prelude::*;

verus! {

#[verifier::external_type_specification]
#[verifier::external_body]
pub struct ExJsonError(serde_json::Error);

/// The members of one reply object that the client reads: the `response`
/// text and, when present as a boolean, the `done` flag.
pub struct Fragment {
    pub response: String,
    pub done: Option<bool>,
}

impl View for Fragment {
    type V = (Seq<char>, Option<bool>);

    open spec fn view(&self) -> (Seq<char>, Option<bool>) {
        (self.response@, self.done)
    }
}

/// The JSON string literal (quotes and escapes included) that serde_json
/// writes for the text `s`.
pub uninterp spec fn json_quoted(s: Seq<char>) -> Seq<char>;

/// What serde_json reads from `bytes` taken as one JSON document: `None`
/// when it is not JSON, not an object, or has no string member `response`;
/// else that member, and the member `done` where it is a boolean.
pub uninterp spec fn fragment_fields(bytes: Seq<u8>) -> Option<(Seq<char>, Option<bool>)>;

/// Relies on serde_json::to_string for a `str`: it writes the escaped string
/// literal into a `Vec<u8>`, whose writes never fail, so the result is `Ok`.
#[verifier::external_body]
pub(crate) fn quote(s: &str) -> (r: Result<String, serde_json::Error>)
    ensures
        r is Ok,
        r matches Ok(q) ==> q@ == json_quoted(s@),
{
    serde_json::to_string(s)
}

/// Relies on serde_json::from_slice into a `serde_json::Value` (its error
/// when the bytes are not JSON), and on `Value::get`, `Value::as_str` and
/// `Value::as_bool` to read the members `response` and `done` (`Ok(None)`
/// when there is no string `response`); the result depends on the bytes alone.
#[verifier::external_body]
pub(crate) fn decode_fragment(bytes: &[u8]) -> (r: Result<Option<Fragment>, serde_json::Error>)
    ensures
        match r {
            Ok(Some(f)) => fragment_fields(bytes@) == Some(f@),
            _ => fragment_fields(bytes@) is None,
        },
{
    let value: serde_json::Value = serde_json::from_slice(bytes)?;
    let response = match value.get("response").and_then(serde_json::Value::as_str) {
        Some(text) => text.to_string(),
        None => return Ok(None),
    };
    let done = value.get("done").and_then(serde_json::Value::as_bool);
    Ok(Some(Fragment { response, done }))
}

/// Relies on the `Display` impl of `serde_json::Error`: its message, for
/// showing to the user; nothing is claimed of the text.
#[verifier::external_body]
pub(crate) fn error_text(e: &serde_json::Error) -> (r: String) {
    e.to_string()
}

} // verus!
