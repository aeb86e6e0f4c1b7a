//! What a handler decided: an HTTP status, a content type, and the bytes to
//! send with them.
use vstd::prelude::*;

use crate::json::{encode_json_string, json_string};
use crate::text::concat2;
use crate::validate::Invalid;

verus! {

/// A handler's answer: status, content type and already-encoded body.
#[derive(Debug, Clone, PartialEq)]
pub struct Outcome {
    pub status: u16,
    pub content_type: &'static str,
    pub body: Vec<u8>,
}

/// The bytes `{"error":`.
pub open spec fn error_prefix() -> Seq<u8> {
    seq![0x7bu8, 0x22u8, 0x65u8, 0x72u8, 0x72u8, 0x6fu8, 0x72u8, 0x22u8, 0x3au8]
}

/// The JSON error body `{"error":<message>}` carrying `message`.
pub open spec fn error_body(message: Seq<char>) -> Seq<u8> {
    error_prefix() + json_string(message) + seq![0x7du8]
}

/// Whether `o` is the JSON error answer with `status` and `message`.
pub open spec fn is_error(o: Outcome, status: u16, message: Seq<char>) -> bool {
    &&& o.status == status
    &&& o.content_type@ == "application/json"@
    &&& o.body@ == error_body(message)
}

/// The message of a storage failure reported as `message`.
pub open spec fn storage_message(message: Seq<char>) -> Seq<char> {
    "storage error: "@ + message
}

impl Outcome {
    /// A JSON error body `{"error": message}` with `status`.
    pub fn error(status: u16, message: String) -> (o: Self)
        ensures
            is_error(o, status, message@),
    {
        let body = match encode_json_string(message.as_str()) {
            Some(mut text) => {
                let mut body: Vec<u8> = vec![0x7b, 0x22, 0x65, 0x72, 0x72, 0x6f, 0x72, 0x22, 0x3a];
                body.append(&mut text);
                body.push(0x7d);
                assert(body@ =~= error_body(message@));
                body
            },
            None => {
                // {"error":"serialization failed"}
                vec![
                    0x7b, 0x22, 0x65, 0x72, 0x72, 0x6f, 0x72, 0x22, 0x3a, 0x22, 0x73, 0x65, 0x72,
                    0x69, 0x61, 0x6c, 0x69, 0x7a, 0x61, 0x74, 0x69, 0x6f, 0x6e, 0x20, 0x66, 0x61,
                    0x69, 0x6c, 0x65, 0x64, 0x22, 0x7d,
                ]
            },
        };
        Outcome { status, content_type: "application/json", body }
    }

    /// A trail map: status 200, `image/png`, the stored bytes unaltered.
    pub fn png(body: Vec<u8>) -> (o: Self)
        ensures
            o.status == 200,
            o.content_type@ == "image/png"@,
            o.body@ == body@,
    {
        Outcome { status: 200, content_type: "image/png", body }
    }

    /// 204 with no body.
    pub fn no_content() -> (o: Self)
        ensures
            o.status == 204,
            o.content_type@ == "application/json"@,
            o.body@.len() == 0,
    {
        Outcome { status: 204, content_type: "application/json", body: Vec::new() }
    }

    /// The answer to a rejected request: its status and message as a JSON
    /// error body.
    pub fn from_invalid(invalid: Invalid) -> (o: Self)
        ensures
            is_error(o, invalid@.0, invalid@.1),
    {
        Outcome::error(invalid.status, invalid.message)
    }
}

/// A storage failure: 502, naming it as a storage error. The worker is a
/// proxy for storage, so there is nothing the browser can do but retry.
pub fn upstream(message: String) -> (o: Outcome)
    ensures
        is_error(o, 502, storage_message(message@)),
{
    Outcome::error(502, concat2("storage error: ", message.as_str()))
}

} // verus!
