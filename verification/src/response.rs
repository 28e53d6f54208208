//! The responses the service produces, as plain values: a status, the two
//! headers the service sets, and an optional body.

use vstd::prelude::*;

verus! {

use vstd::string::StringExecFns;
use vstd::utf8::encode_utf8;
use crate::json::error_payload;
use crate::json::error_payload_spec;
use crate::json::timestamp_payload;
use crate::json::timestamp_payload_spec;
use crate::messages::Message;
use crate::messages::MessageModel;
use crate::messages::models_of;
use crate::num::dec_int;
use crate::num::i64_to_string;

/// The status codes the service uses.
#[derive(Clone, Copy, PartialEq, Eq, Structural, Debug)]
pub enum Status {
    Okay,
    NotFound,
    InternalServerError,
}

/// A response as plain data: the process around the library turns this
/// into a wire response.
#[derive(Debug)]
pub struct HttpResponse {
    pub status: Status,
    /// The `Content-Length` header, set exactly when there is a body, to
    /// the body's length in bytes.
    pub content_length: Option<u64>,
    /// Whether a `Content-Type: application/json` header is set.
    pub content_type_json: bool,
    pub body: Option<String>,
}

/// The length in bytes of a string's UTF-8 encoding, as the header
/// carries it.
pub open spec fn byte_len(s: Seq<char>) -> u64 {
    (encode_utf8(s).len() as usize) as u64
}

/// The content length is present exactly when a body is, and counts the
/// body's UTF-8 bytes.
pub open spec fn response_wf(r: HttpResponse) -> bool {
    match r.body {
        Some(b) => r.content_length == Some(byte_len(b@)),
        None => r.content_length is None,
    }
}

/// A response carrying the given JSON payload under the given status.
pub open spec fn is_json_response(r: HttpResponse, st: Status, payload: Seq<char>) -> bool {
    &&& r.status == st
    &&& r.content_type_json
    &&& match r.body {
        Some(b) => b@ == payload,
        None => false,
    }
    &&& response_wf(r)
}

/// A response with no body at all under the given status.
pub open spec fn is_empty_response(r: HttpResponse, st: Status) -> bool {
    &&& r.status == st
    &&& !r.content_type_json
    &&& r.body is None
    &&& response_wf(r)
}

/// One line of the listing: the timestamp, the author, and the text.
pub open spec fn render_line(m: MessageModel) -> Seq<char> {
    dec_int(m.timestamp) + " "@ + m.username + ": "@ + m.message + "\n"@
}

/// The listing body: every message on its own line, in order.
pub open spec fn render_page_spec(ms: Seq<MessageModel>) -> Seq<char>
    decreases ms.len(),
{
    if ms.len() == 0 {
        Seq::empty()
    } else {
        render_page_spec(ms.drop_last()) + render_line(ms.last())
    }
}

/// Render the message listing, one line per message, in order.
pub fn render_page(messages: Vec<Message>) -> (r: String)
    ensures
        r@ == render_page_spec(models_of(messages@)),
{
    let ghost all = models_of(messages@);
    let mut out = String::new();
    let mut i: usize = 0;
    proof {
        assert(all.subrange(0, 0) =~= Seq::<MessageModel>::empty());
    }
    while i < messages.len()
        invariant
            i <= messages@.len(),
            all == models_of(messages@),
            out@ == render_page_spec(all.subrange(0, i as int)),
        decreases messages@.len() - i,
    {
        let ghost done = all.subrange(0, i as int);
        let ghost next = all.subrange(0, i as int + 1);
        proof {
            assert(next.drop_last() =~= done);
            assert(next.last() == messages@[i as int]@);
        }
        let m = &messages[i];
        let ts = i64_to_string(m.timestamp);
        out.append(ts.as_str());
        out.append(" ");
        out.append(m.username.as_str());
        out.append(": ");
        out.append(m.message.as_str());
        out.append("\n");
        proof {
            assert(out@ =~= render_page_spec(next));
        }
        i += 1;
    }
    proof {
        assert(all.subrange(0, messages@.len() as int) =~= all);
    }
    out
}

/// Wrap a body in a response, setting the content length to its byte
/// count and marking the content type JSON when asked.
fn body_response(st: Status, body: String, json: bool) -> (r: HttpResponse)
    ensures
        r.status == st,
        r.content_type_json == json,
        r.body matches Some(b) && b@ == body@,
        response_wf(r),
{
    let len: usize = body.as_str().len();
    HttpResponse {
        status: st,
        content_length: Some(len as u64),
        content_type_json: json,
        body: Some(body),
    }
}

/// The response to a successful or failed store of a message: the
/// timestamp envelope on success, the error envelope under status 500 on
/// failure.
pub fn make_post_response(result: Result<i64, String>) -> (r: HttpResponse)
    ensures
        match result {
            Ok(ts) => is_json_response(r, Status::Okay, timestamp_payload_spec(ts as int)),
            Err(e) => is_json_response(
                r,
                Status::InternalServerError,
                error_payload_spec(e@),
            ),
        },
{
    match result {
        Ok(ts) => {
            let payload = timestamp_payload(ts);
            body_response(Status::Okay, payload, true)
        },
        Err(e) => make_error_response(e.as_str()),
    }
}

/// The response to a listing request: the rendered page when the store
/// answered, the error envelope under status 500 when it did not.
pub fn make_get_response(msgs: Option<Vec<Message>>) -> (r: HttpResponse)
    ensures
        match msgs {
            Some(list) => {
                &&& r.status == Status::Okay
                &&& !r.content_type_json
                &&& r.body matches Some(b) && b@ == render_page_spec(models_of(list@))
                &&& response_wf(r)
            },
            None => is_json_response(
                r,
                Status::InternalServerError,
                error_payload_spec("service error"@),
            ),
        },
{
    match msgs {
        Some(list) => {
            let body = render_page(list);
            body_response(Status::Okay, body, false)
        },
        None => make_error_response("service error"),
    }
}

/// The error envelope under status 500.
pub fn make_error_response(err_msg: &str) -> (r: HttpResponse)
    ensures
        is_json_response(r, Status::InternalServerError, error_payload_spec(err_msg@)),
{
    let payload = error_payload(err_msg);
    body_response(Status::InternalServerError, payload, true)
}

/// The response when no store connection could be opened at all: a bare
/// status 500 with no body.
pub fn make_unavailable_response() -> (r: HttpResponse)
    ensures
        is_empty_response(r, Status::InternalServerError),
{
    HttpResponse {
        status: Status::InternalServerError,
        content_length: None,
        content_type_json: false,
        body: None,
    }
}

/// The response to a request for an unknown path or method.
pub fn make_not_found_response() -> (r: HttpResponse)
    ensures
        is_empty_response(r, Status::NotFound),
{
    HttpResponse {
        status: Status::NotFound,
        content_length: None,
        content_type_json: false,
        body: None,
    }
}

} // verus!
