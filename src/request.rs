//! The generate request: its JSON body, and how a reply to a request that
//! asked for one consolidated answer is turned into text or an error.

use vstd::prelude::*;
use vstd::string::StringSliceAdditionalSpecFns;
use crate::json::{decode_fragment, error_text, fragment_fields, json_quoted, quote};

verus! {

/// The model every request names.
pub const MODEL: &'static str = "llama3";

/// The text put before every prompt.
pub const CONTEXT: &'static str = "You are a professional software developer that knows everything about development. Now this is the prompt from the user: \n";

/// Where requests are sent.
pub const ENDPOINT: &'static str = "http://localhost:11434/api/generate";

/// Why a request produced no text.
pub enum RequestError {
    /// The HTTP exchange itself failed (connection, DNS, I/O), with its message.
    TransportError(String),
    /// The server answered with a status outside 200..=299.
    RequestFailed { status: u16, body: String },
    /// The body is not a JSON object with a string member `response`, with
    /// the reason.
    DecodeError(String),
}

/// Whether an HTTP status reports success (200 to 299).
pub open spec fn is_success(status: u16) -> bool {
    200 <= status && status < 300
}

/// The JSON text of a request for `prompt`: an object with members `model`,
/// `prompt` (the context text, then the prompt) and, unless the reply is to
/// be streamed, `"stream": false`.
pub open spec fn payload_text(prompt: Seq<char>, stream: bool) -> Seq<char> {
    "{\"model\":"@ + json_quoted(MODEL@) + ",\"prompt\":"@ + json_quoted(CONTEXT@ + prompt) + (
    if stream {
        "}"@
    } else {
        ",\"stream\":false}"@
    })
}

/// The text a consolidated reply with status `status` and body `body` yields.
pub open spec fn reply_outcome(status: u16, body: Seq<u8>) -> Option<Seq<char>> {
    if is_success(status) {
        match fragment_fields(body) {
            Some(f) => Some(f.0),
            None => None,
        }
    } else {
        None
    }
}

/// Whether `status` reports success.
pub fn status_is_success(status: u16) -> (r: bool)
    ensures
        r == is_success(status),
{
    200 <= status && status < 300
}

/// The JSON body to POST for `prompt`.
pub fn build_payload(prompt: &str, stream: bool) -> (r: String)
    ensures
        r@ == payload_text(prompt@, stream),
{
    let mut full = String::from_str(CONTEXT);
    full.append(prompt);
    let model = match quote(MODEL) {
        Ok(q) => q,
        Err(_) => String::new(),
    };
    let text = match quote(full.as_str()) {
        Ok(q) => q,
        Err(_) => String::new(),
    };
    let mut body = String::from_str("{\"model\":");
    body.append(model.as_str());
    body.append(",\"prompt\":");
    body.append(text.as_str());
    if stream {
        body.append("}");
    } else {
        body.append(",\"stream\":false}");
    }
    body
}

/// The text of a consolidated reply: `RequestFailed` with the status and body
/// when the status is not a success, else the `response` member of the body,
/// or `DecodeError` when the body has none.
pub fn interpret_reply(status: u16, body: &str) -> (r: Result<String, RequestError>)
    ensures
        !is_success(status) ==> (r matches Err(RequestError::RequestFailed { status: s, body: b })
            && s == status && b@ == body@),
        is_success(status) && fragment_fields(body.spec_bytes()) is None ==> (r matches Err(
            RequestError::DecodeError(_),
        )),
        r is Ok <==> reply_outcome(status, body.spec_bytes()) is Some,
        r matches Ok(t) ==> reply_outcome(status, body.spec_bytes()) == Some(t@),
{
    if !status_is_success(status) {
        return Err(RequestError::RequestFailed { status, body: String::from_str(body) });
    }
    match decode_fragment(body.as_bytes()) {
        Ok(Some(f)) => Ok(f.response),
        Ok(None) => Err(RequestError::DecodeError(String::from_str("missing field `response`"))),
        Err(e) => Err(RequestError::DecodeError(error_text(&e))),
    }
}

} // verus!
