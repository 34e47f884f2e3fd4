//! What an answer of the endpoint other than a stream is reported as.

use crate::error::{LlmError, LlmErrorView};
use crate::json::{Json, JsonView};
use crate::text::{concat, contains, decimal, to_lowercase};
use crate::wire::parse_json;
use vstd::prelude::*;
use vstd::string::*;
use vstd::utf8::*;

verus! {

/// How many bytes of a body an error quotes.
pub const QUOTED_BYTES: usize = 500;

/// Whether a body can be cut to the bytes that are quoted: it is no longer, or a
/// character ends there.
pub open spec fn can_truncate(body: Seq<char>) -> bool {
    encode_utf8(body).len() > QUOTED_BYTES ==> is_char_boundary(
        encode_utf8(body),
        QUOTED_BYTES as int,
    )
}

/// What is quoted of a body: the whole, or the characters in its first bytes.
pub open spec fn truncated(body: Seq<char>) -> Seq<char> {
    if encode_utf8(body).len() > QUOTED_BYTES {
        decode_utf8(encode_utf8(body).subrange(0, QUOTED_BYTES as int))
    } else {
        body
    }
}

/// What is quoted of a body.
pub fn truncate_body(body: &str) -> (r: &str)
    requires
        can_truncate(body@),
    ensures
        r@ == truncated(body@),
{
    let n: usize = body.as_bytes().len();
    if n > QUOTED_BYTES {
        let (head, rest) = body.split_at(QUOTED_BYTES);
        proof {
            encode_utf8_decode_utf8(head@);
        }
        head
    } else {
        body
    }
}

/// Whether a status says that the request was served.
pub fn is_success(status: u16) -> (r: bool)
    ensures
        r == (200 <= status < 300),
{
    200 <= status && status < 300
}

/// Whether a message, in lower case, says that the chat is too long for the model.
pub open spec fn names_context_limit(message: Seq<char>) -> bool {
    ||| crate::text::occurs_in("context length"@, message)
    ||| crate::text::occurs_in("maximum context"@, message)
    ||| crate::text::occurs_in("token limit"@, message)
}

/// The message of an error body.
pub open spec fn error_message(body: JsonView) -> Option<Seq<char>> {
    match body.field("error"@) {
        Some(e) => e.text_field("message"@),
        None => None,
    }
}

/// The message of an error, if the body was read as one.
pub open spec fn message_of(parsed: Option<JsonView>) -> Option<Seq<char>> {
    match parsed {
        Some(v) => error_message(v),
        None => None,
    }
}

/// Whether a message, given in lower case where there is one, is about the length
/// of the chat.
pub open spec fn about_context(lowered: Option<Seq<char>>) -> bool {
    match lowered {
        Some(message) => names_context_limit(message),
        None => false,
    }
}

/// The message of a body in lower case, if it holds one.
pub open spec fn lowered_message(body: Seq<char>) -> Option<Seq<char>> {
    match message_of(crate::wire::json_parse(body)) {
        Some(message) => Some(crate::text::lowercase(message)),
        None => None,
    }
}

/// Whether a body says that the chat is too long for the model.
pub open spec fn context_exceeded(body: Seq<char>) -> bool {
    about_context(lowered_message(body))
}

/// The error for a status and a body, given the message of the body in lower case.
pub open spec fn response_error_of(
    status: u16,
    body: Seq<char>,
    lowered: Option<Seq<char>>,
) -> LlmErrorView {
    if about_context(lowered) {
        LlmErrorView::ContextLengthExceeded { used: 0, limit: 0 }
    } else {
        LlmErrorView::request_failed(
            "HTTP "@ + crate::text::decimal_digits(status as nat) + ": "@ + truncated(body),
        )
    }
}

/// Whether a message, in lower case, says that the chat is too long for the model.
pub fn is_context_limit_message(lowered: &str) -> (r: bool)
    ensures
        r == names_context_limit(lowered@),
{
    contains(lowered, "context length") || contains(lowered, "maximum context") || contains(
        lowered,
        "token limit",
    )
}

/// The message of an error, if the body was read as one.
pub fn message_in_body(parsed: &Option<Json>) -> (r: Option<&str>)
    ensures
        crate::json::found_text(r) == message_of(crate::wire::parsed(*parsed)),
{
    match parsed {
        Some(v) => match v.get("error") {
            Some(e) => e.get_str("message"),
            None => None,
        },
        None => None,
    }
}

/// The error for a status and a body, given the message of the body in lower case.
pub fn classify_response(status: u16, body: &str, lowered: Option<&str>) -> (r: LlmError)
    requires
        about_context(crate::json::found_text(lowered)) || can_truncate(body@),
    ensures
        r@ == response_error_of(status, body@, crate::json::found_text(lowered)),
{
    if let Some(message) = lowered {
        if is_context_limit_message(message) {
            return LlmError::ContextLengthExceeded { used: 0, limit: 0 };
        }
    }
    let mut reason: String = concat("HTTP ", decimal(status as u64).as_str());
    reason.append(": ");
    reason.append(truncate_body(body));
    LlmError::request_failed(reason)
}

/// The message of a body in lower case, if it holds one.
fn lowered_message_in(body: &str) -> (r: Option<String>)
    ensures
        crate::provider::text_of(r) == lowered_message(body@),
{
    let parsed: Option<Json> = parse_json(body);
    match message_in_body(&parsed) {
        Some(message) => Some(to_lowercase(message)),
        None => None,
    }
}

/// The error for a status and a body.
pub fn map_error_response(status: u16, body: &str) -> (r: LlmError)
    requires
        context_exceeded(body@) || can_truncate(body@),
    ensures
        r@ == response_error_of(status, body@, lowered_message(body@)),
{
    match lowered_message_in(body) {
        Some(lowered) => classify_response(status, body, Some(lowered.as_str())),
        None => classify_response(status, body, None),
    }
}

/// Whether a body can be cut to the bytes that are quoted.
fn truncatable(body: &str) -> (r: bool)
    ensures
        r == can_truncate(body@),
{
    body.as_bytes().len() <= QUOTED_BYTES || body.is_char_boundary(QUOTED_BYTES)
}

/// The error for a status and a body; nothing where the body would have to be
/// quoted and the cut falls inside a character.
pub fn try_map_error_response(status: u16, body: &str) -> (r: Option<LlmError>)
    ensures
        match r {
            Some(e) => {
                &&& context_exceeded(body@) || can_truncate(body@)
                &&& e@ == response_error_of(status, body@, lowered_message(body@))
            },
            None => !context_exceeded(body@) && !can_truncate(body@),
        },
{
    if truncatable(body) {
        return Some(map_error_response(status, body));
    }
    match lowered_message_in(body) {
        Some(lowered) => if is_context_limit_message(lowered.as_str()) {
            Some(map_error_response(status, body))
        } else {
            None
        },
        None => None,
    }
}

/// The error for a request that could not be sent, given what the sender says of
/// it.
pub fn send_error(cause: &str) -> (r: LlmError)
    ensures
        r@ == LlmErrorView::request_failed("HTTP request failed: "@ + cause@),
{
    LlmError::request_failed(concat("HTTP request failed: ", cause))
}

} // verus!
