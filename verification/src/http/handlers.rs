//! The framing of a push: the status code of its answer, the labels under
//! which its latency is observed, and the request's id.

use vstd::prelude::*;
use vstd::string::StringExecFns;
use crate::ident::{fresh_uuid, hyphenated, is_random_uuid, uuid_text};
use crate::http::api::{PushResponse, status_ok};
use crate::text::{decimal, str_eq, to_decimal};

verus! {

pub const STATUS_OK: u16 = 200;

pub const STATUS_BAD_REQUEST: u16 = 400;

pub const STATUS_INTERNAL_SERVER_ERROR: u16 = 500;

/// From this many microseconds on, a push counts as slow.
pub const SLOW_PUSH_MICROS: u128 = 500;

/// How a push is answered on the wire, and how it is accounted for.
#[derive(Debug)]
pub struct PushReply {
    /// The HTTP status code; the body is the response itself.
    pub status_code: u16,
    /// The labels `code` and `method` of the latency histogram.
    pub labels: Vec<String>,
    /// Whether the push is to be logged as slow.
    pub slow: bool,
}

/// The status code for a response: 200 for `ok`, 500 for anything else.
pub open spec fn code_for(status: Seq<char>) -> u16 {
    if status == status_ok() {
        STATUS_OK
    } else {
        STATUS_INTERNAL_SERVER_ERROR
    }
}

/// The mode of a push as a label: `push/sync` where the sender waits,
/// `push/async` otherwise.
pub open spec fn method_for(wait_for_send: Option<bool>) -> Seq<char> {
    if wait_for_send == Some(true) {
        "push/sync"@
    } else {
        "push/async"@
    }
}

pub fn status_code(response: &PushResponse) -> (code: u16)
    ensures
        code == code_for(response.status@),
{
    if str_eq(response.status.as_str(), "ok") {
        STATUS_OK
    } else {
        STATUS_INTERNAL_SERVER_ERROR
    }
}

pub fn method_label(wait_for_send: Option<bool>) -> (method: &'static str)
    ensures
        method@ == method_for(wait_for_send),
{
    match wait_for_send {
        Some(true) => "push/sync",
        _ => "push/async",
    }
}

/// Frames the answer to a push that took `passed_micros` microseconds.
pub fn push(response: &PushResponse, wait_for_send: Option<bool>, passed_micros: u128) -> (reply:
    PushReply)
    ensures
        reply.status_code == code_for(response.status@),
        crate::text::texts(reply.labels@) == seq![
            decimal(code_for(response.status@) as nat),
            method_for(wait_for_send),
        ],
        reply.slow == (passed_micros >= SLOW_PUSH_MICROS),
{
    let code = status_code(response);
    let mut labels: Vec<String> = Vec::new();
    labels.push(to_decimal(code as u64));
    labels.push(String::from_str(method_label(wait_for_send)));
    assert(crate::text::texts(labels@) =~= seq![
        decimal(code_for(response.status@) as nat),
        method_for(wait_for_send),
    ]);
    PushReply { status_code: code, labels, slow: passed_micros >= SLOW_PUSH_MICROS }
}

/// A fresh id for a request: a random UUID in its usual text.
pub fn generate_request_id() -> (id: String)
    ensures
        exists|bits: u128| is_random_uuid(bits) && id@ == #[trigger] hyphenated(bits),
        id@.len() == 36,
{
    uuid_text(fresh_uuid())
}

} // verus!
