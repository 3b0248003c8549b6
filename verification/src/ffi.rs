//! Helpers of the C interface: reading strings handed over by the host, and
//! making strings safe to hand back as C strings.
use vstd::prelude::*;
use vstd::utf8::{decode_utf8, valid_utf8};
use crate::registry::CancellationGuard;
use vstd::utf8::encode_utf8;
use crate::error::{CatcherError, message_spec};
use crate::http::{method_named, parse_http_method, HttpMethod, HttpRequest, HttpResponse};
use crate::observability::Priority;
use crate::sse::{SseMethod, SseReadyState};
use crate::strmap::StrMap;
use crate::text::{contains, contains_str, unicode_uppercase, utf8_decode};

verus! {

/// The text of a string handed over by the host: its bytes decoded when
/// there are any and they are valid UTF-8, else the default.
pub open spec fn ffi_text(data: Seq<u8>, default: Seq<char>) -> Seq<char> {
    if data.len() == 0 || !valid_utf8(data) {
        default
    } else {
        decode_utf8(data)
    }
}

/// Reads a string handed over by the host (its bytes; a null pointer reads
/// as no bytes), falling back to `default` when it is empty or not UTF-8.
pub fn ffi_str(data: &[u8], default: &str) -> (r: String)
    ensures
        r@ == ffi_text(data@, default@),
{
    if data.len() == 0 {
        return String::from_str(default);
    }
    match utf8_decode(data) {
        Some(s) => s,
        None => String::from_str(default),
    }
}

/// The text without its NUL characters.
pub open spec fn without_nul(s: Seq<char>) -> Seq<char> {
    s.filter(|c: char| c != '\0')
}

/// Removes the NUL characters of a text, so that it can become a C string.
pub fn strip_nul(s: &str) -> (r: String)
    ensures
        r@ == without_nul(s@),
{
    let cs = crate::text::chars_of(s);
    let mut out = String::new();
    let mut i: usize = 0;
    while i < cs.len()
        invariant
            cs@ == s@,
            i <= cs.len(),
            out@ == without_nul(cs@.take(i as int)),
        decreases cs.len() - i,
    {
        proof {
            assert(cs@.take(i + 1).drop_last() =~= cs@.take(i as int));
            reveal_with_fuel(Seq::filter, 1);
        }
        if cs[i] != '\0' {
            out.push(cs[i]);
        }
        i += 1;
    }
    assert(cs@.take(cs.len() as int) =~= cs@);
    out
}

/// Whether an event for handle `id` may still be delivered: not once the
/// handle was destroyed.
pub fn should_deliver(guard: &CancellationGuard, id: usize) -> (r: bool)
    ensures
        r == !guard@.contains(id),
{
    !guard.is_cancelled(id)
}

/// The request of a C-interface call, from the method its method text
/// names (if any) and its other decoded arguments: an empty body or
/// content type counts as none, a zero timeout as none; without a method
/// the call is refused with `Unsupported method: ` and the method text.
pub fn ffi_request_for(
    method: Option<HttpMethod>,
    method_text: &str,
    url: String,
    body: Vec<u8>,
    content_type: String,
    headers: StrMap,
    timeout_ms: u32,
) -> (r: Result<HttpRequest, String>)
    ensures
        match method {
            None => r matches Err(m) && m@ == "Unsupported method: "@ + method_text@,
            Some(method) => r matches Ok(req) && req.method == method && req.url@ == url@
                && req.headers.pairs() == headers.pairs() && (if body@.len() == 0 {
                req.body is None
            } else {
                req.body matches Some(b) && b@ == body@
            }) && (if content_type@.len() == 0 {
                req.content_type is None
            } else {
                req.content_type matches Some(c) && c@ == content_type@
            }) && (if timeout_ms == 0 {
                req.timeout_ms is None
            } else {
                req.timeout_ms == Some(timeout_ms as u64)
            }) && req.priority == Priority::Normal && req.multipart is None,
        },
{
    let method = match method {
        Some(m) => m,
        None => {
            let mut msg = String::from_str("Unsupported method: ");
            msg.append(method_text);
            return Err(msg);
        },
    };
    let body = if body.len() == 0 {
        None
    } else {
        Some(body)
    };
    let content_type = if content_type.as_str().is_empty() {
        None
    } else {
        Some(content_type)
    };
    let timeout_ms = if timeout_ms == 0 {
        None
    } else {
        Some(timeout_ms as u64)
    };
    Ok(
        HttpRequest {
            method,
            url,
            headers,
            body,
            content_type,
            timeout_ms,
            priority: Priority::Normal,
            multipart: None,
        },
    )
}

/// The request of a C-interface call, from its decoded arguments: the
/// method text names the method in any letter case (see `ffi_request_for`).
pub fn ffi_request(
    method_text: &str,
    url: String,
    body: Vec<u8>,
    content_type: String,
    headers: StrMap,
    timeout_ms: u32,
) -> (r: Result<HttpRequest, String>)
    ensures
        match method_named(unicode_uppercase(method_text@)) {
            None => r matches Err(m) && m@ == "Unsupported method: "@ + method_text@,
            Some(method) => r matches Ok(req) && req.method == method && req.url@ == url@
                && req.headers.pairs() == headers.pairs() && (if body@.len() == 0 {
                req.body is None
            } else {
                req.body matches Some(b) && b@ == body@
            }) && (if content_type@.len() == 0 {
                req.content_type is None
            } else {
                req.content_type matches Some(c) && c@ == content_type@
            }) && (if timeout_ms == 0 {
                req.timeout_ms is None
            } else {
                req.timeout_ms == Some(timeout_ms as u64)
            }) && req.priority == Priority::Normal && req.multipart is None,
        },
{
    ffi_request_for(parse_http_method(method_text), method_text, url, body, content_type, headers, timeout_ms)
}

/// The method of a one-shot SSE stream for the method its method text
/// names: `GET` for `GET`, `POST` for anything else.
pub fn sse_method_for(method: Option<HttpMethod>) -> (r: SseMethod)
    ensures
        r == (if method == Some(HttpMethod::GET) {
            SseMethod::GET
        } else {
            SseMethod::POST
        }),
{
    match method {
        Some(HttpMethod::GET) => SseMethod::GET,
        _ => SseMethod::POST,
    }
}

/// The method of a one-shot SSE stream opened through the C interface:
/// `GET` in any letter case, anything else `POST`.
pub fn ffi_sse_method(method_text: &str) -> (r: SseMethod)
    ensures
        r == (if unicode_uppercase(method_text@) == "GET"@ {
            SseMethod::GET
        } else {
            SseMethod::POST
        }),
{
    sse_method_for(parse_http_method(method_text))
}

/// The number a client's ready state is reported as through the C
/// interface: 0 connecting, 1 open, 2 closed.
pub fn ready_state_code(state: SseReadyState) -> (r: i32)
    ensures
        r == match state {
            SseReadyState::Connecting => 0i32,
            SseReadyState::Open => 1i32,
            SseReadyState::Closed => 2i32,
        },
{
    match state {
        SseReadyState::Connecting => 0,
        SseReadyState::Open => 1,
        SseReadyState::Closed => 2,
    }
}

/// What a finished request reports through the C interface.
#[derive(Debug)]
pub enum FfiOutcome {
    /// A response: status, headers, body and time.
    Response { status: u16, headers: StrMap, body: Vec<u8>, elapsed_ms: u64 },
    /// The request was cancelled.
    Cancelled,
    /// Any other failure, with its message.
    Failed { message: String },
}

/// The report of a finished request: a response as is; an HTTP error as a
/// response with its status and body text, no headers and no time; another
/// error as cancelled when its message mentions `cancelled`, else as a
/// failure carrying the message.
pub fn ffi_outcome(result: Result<HttpResponse, CatcherError>) -> (r: FfiOutcome)
    ensures
        match result {
            Ok(resp) => r matches FfiOutcome::Response { status, headers, body, elapsed_ms }
                && status == resp.status && headers.pairs() == resp.headers.pairs() && body@
                == resp.body@ && elapsed_ms == resp.elapsed_ms,
            Err(CatcherError::HttpError { status: s, body: b }) => r matches FfiOutcome::Response {
                status,
                headers,
                body,
                elapsed_ms,
            } && status == s && headers.wf() && headers.pairs().len() == 0 && body@ == encode_utf8(
                b@,
            ) && elapsed_ms == 0,
            Err(e) => !(e is HttpError) && if contains(message_spec(e), "cancelled"@) {
                r is Cancelled
            } else {
                r matches FfiOutcome::Failed { message } && message@ == message_spec(e)
            },
        },
{
    match result {
        Ok(resp) => FfiOutcome::Response {
            status: resp.status,
            headers: resp.headers,
            body: resp.body,
            elapsed_ms: resp.elapsed_ms,
        },
        Err(CatcherError::HttpError { status, body }) => {
            let bytes = str_bytes(body.as_str());
            FfiOutcome::Response { status, headers: StrMap::new(), body: bytes, elapsed_ms: 0 }
        },
        Err(e) => {
            let msg = e.to_string();
            let mc = crate::text::chars_of(msg.as_str());
            if contains_str(&mc, "cancelled") {
                FfiOutcome::Cancelled
            } else {
                FfiOutcome::Failed { message: msg }
            }
        },
    }
}

fn str_bytes(s: &str) -> (r: Vec<u8>)
    ensures
        r@ == encode_utf8(s@),
{
    let b = s.as_bytes();
    let mut v: Vec<u8> = Vec::new();
    let mut i: usize = 0;
    while i < b.len()
        invariant
            i <= b@.len(),
            v@ == b@.take(i as int),
        decreases b@.len() - i,
    {
        v.push(b[i]);
        i += 1;
        assert(v@ =~= b@.take(i as int));
    }
    assert(b@.take(b@.len() as int) =~= b@);
    v
}

} // verus!
