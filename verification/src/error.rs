//! The unified error type of every catcher operation and its
//! retryable / non-retryable classification.
use vstd::prelude::*;
use crate::text::{
    chars_of, contains, contains_str, decimal, push_decimal, to_lowercase, unicode_lowercase,
};

verus! {

/// The error returned by every catcher operation.
#[derive(Debug, Clone)]
pub enum CatcherError {
    ConnectionTimeout(u64),
    RequestTimeout(u64),
    TlsError(String),
    DnsError { host: String, reason: String },
    HttpError { status: u16, body: String },
    WsHandshakeTimeout(u64),
    WsDisconnected { code: u16, reason: String },
    WsAllEndpointsFailed { count: usize },
    RetryExhausted { attempts: u32, last_error: String },
    CircuitBreakerOpen,
    QueueTimeout(u64),
    EncodeError(String),
    DecodeError(String),
    InvalidConfig(String),
    SseTimeout(u64),
    Internal(String),
}

/// Whether an operation that failed with an error is worth retrying.
#[derive(Debug, Clone, Copy, PartialEq, Eq, Structural)]
pub enum ErrorCategory {
    Retryable,
    NonRetryable,
}

/// A TLS message (already lowercased) that names a certificate problem,
/// which no retry can repair.
pub open spec fn tls_certificate_problem(lower: Seq<char>) -> bool {
    contains(lower, "certificate"@) || contains(lower, "cert"@) || contains(lower, "expired"@)
        || contains(lower, "mismatch"@) || contains(lower, "unknown issuer"@) || contains(
        lower,
        "self signed"@,
    )
}

/// An HTTP status that is worth retrying: 408, 429 and every 5xx.
pub open spec fn retryable_status(status: u16) -> bool {
    status == 408 || status == 429 || status >= 500
}

/// The classification of an error.
///
/// Network-level failures (timeouts, disconnects, an open circuit breaker)
/// are retryable; TLS errors are retryable unless their message names a
/// certificate problem; DNS errors unless the reason is NXDOMAIN; HTTP errors
/// for 408, 429 and 5xx; everything else is not retryable.
pub open spec fn category_spec(e: CatcherError) -> ErrorCategory {
    match e {
        CatcherError::ConnectionTimeout(_)
        | CatcherError::RequestTimeout(_)
        | CatcherError::WsHandshakeTimeout(_)
        | CatcherError::WsDisconnected { .. }
        | CatcherError::WsAllEndpointsFailed { .. }
        | CatcherError::CircuitBreakerOpen => ErrorCategory::Retryable,
        CatcherError::TlsError(msg) => {
            if tls_certificate_problem(unicode_lowercase(msg@)) {
                ErrorCategory::NonRetryable
            } else {
                ErrorCategory::Retryable
            }
        },
        CatcherError::DnsError { reason, .. } => {
            if contains(unicode_lowercase(reason@), "nxdomain"@) {
                ErrorCategory::NonRetryable
            } else {
                ErrorCategory::Retryable
            }
        },
        CatcherError::HttpError { status, .. } => {
            if retryable_status(status) {
                ErrorCategory::Retryable
            } else {
                ErrorCategory::NonRetryable
            }
        },
        _ => ErrorCategory::NonRetryable,
    }
}

/// The human-readable message of an error.
pub open spec fn message_spec(e: CatcherError) -> Seq<char> {
    match e {
        CatcherError::ConnectionTimeout(ms) => "connection timeout after "@ + decimal(ms as nat)
            + "ms"@,
        CatcherError::RequestTimeout(ms) => "request timeout after "@ + decimal(ms as nat) + "ms"@,
        CatcherError::TlsError(msg) => "TLS error: "@ + msg@,
        CatcherError::DnsError { host, reason } => "DNS resolution failed for "@ + host@ + ": "@
            + reason@,
        CatcherError::HttpError { status, body } => "HTTP error: status "@ + decimal(
            status as nat,
        ) + ", body: "@ + body@,
        CatcherError::WsHandshakeTimeout(ms) => "WS handshake timeout after "@ + decimal(
            ms as nat,
        ) + "ms"@,
        CatcherError::WsDisconnected { code, reason } => "WS disconnected: code="@ + decimal(
            code as nat,
        ) + ", reason="@ + reason@,
        CatcherError::WsAllEndpointsFailed { count } => "all WS endpoints failed ("@ + decimal(
            count as nat,
        ) + " attempted)"@,
        CatcherError::RetryExhausted { attempts, last_error } => "retry exhausted after "@
            + decimal(attempts as nat) + " attempts: "@ + last_error@,
        CatcherError::CircuitBreakerOpen => "circuit breaker is OPEN, request rejected"@,
        CatcherError::QueueTimeout(ms) => "queue timeout after "@ + decimal(ms as nat) + "ms"@,
        CatcherError::EncodeError(msg) => "msgpack encode error: "@ + msg@,
        CatcherError::DecodeError(msg) => "msgpack decode error: "@ + msg@,
        CatcherError::InvalidConfig(msg) => "invalid configuration: "@ + msg@,
        CatcherError::SseTimeout(ms) => "SSE stream timeout after "@ + decimal(ms as nat) + "ms"@,
        CatcherError::Internal(msg) => "internal error: "@ + msg@,
    }
}

/// The category of a TLS error from its lowercased message: a message
/// that names a certificate problem is not retryable, any other is.
pub fn tls_category(lower: &str) -> (r: ErrorCategory)
    ensures
        r == (if tls_certificate_problem(lower@) {
            ErrorCategory::NonRetryable
        } else {
            ErrorCategory::Retryable
        }),
{
    let cs = chars_of(lower);
    if contains_str(&cs, "certificate") || contains_str(&cs, "cert") || contains_str(&cs, "expired")
        || contains_str(&cs, "mismatch") || contains_str(&cs, "unknown issuer") || contains_str(
        &cs,
        "self signed",
    ) {
        ErrorCategory::NonRetryable
    } else {
        ErrorCategory::Retryable
    }
}

/// The category of a DNS error from its lowercased reason: NXDOMAIN is not
/// retryable, any other reason is.
pub fn dns_category(lower: &str) -> (r: ErrorCategory)
    ensures
        r == (if contains(lower@, "nxdomain"@) {
            ErrorCategory::NonRetryable
        } else {
            ErrorCategory::Retryable
        }),
{
    let cs = chars_of(lower);
    if contains_str(&cs, "nxdomain") {
        ErrorCategory::NonRetryable
    } else {
        ErrorCategory::Retryable
    }
}

/// `s` followed by the decimal digits of `n` and then `tail`.
fn with_number(head: &str, n: u64, tail: &str) -> (r: String)
    ensures
        r@ == head@ + decimal(n as nat) + tail@,
{
    let mut s = String::from_str(head);
    push_decimal(&mut s, n);
    s.append(tail);
    s
}

/// `head` followed by `a`, then `mid`, then `b`.
fn joined(head: &str, a: &str, mid: &str, b: &str) -> (r: String)
    ensures
        r@ == head@ + a@ + mid@ + b@,
{
    let mut s = String::from_str(head);
    s.append(a);
    s.append(mid);
    s.append(b);
    s
}

/// `head` followed by `a`.
fn prefixed(head: &str, a: &str) -> (r: String)
    ensures
        r@ == head@ + a@,
{
    let mut s = String::from_str(head);
    s.append(a);
    s
}

impl CatcherError {
    /// Whether this error is worth retrying.
    pub fn category(&self) -> (r: ErrorCategory)
        ensures
            r == category_spec(*self),
    {
        match self {
            CatcherError::ConnectionTimeout(_)
            | CatcherError::RequestTimeout(_)
            | CatcherError::WsHandshakeTimeout(_)
            | CatcherError::WsDisconnected { .. }
            | CatcherError::WsAllEndpointsFailed { .. }
            | CatcherError::CircuitBreakerOpen => ErrorCategory::Retryable,
            CatcherError::TlsError(msg) => tls_category(to_lowercase(msg.as_str()).as_str()),
            CatcherError::DnsError { reason, .. } => dns_category(
                to_lowercase(reason.as_str()).as_str(),
            ),
            CatcherError::HttpError { status, .. } => {
                if *status == 408 || *status == 429 || *status >= 500 {
                    ErrorCategory::Retryable
                } else {
                    ErrorCategory::NonRetryable
                }
            },
            CatcherError::RetryExhausted { .. } => ErrorCategory::NonRetryable,
            CatcherError::EncodeError(_)
            | CatcherError::DecodeError(_)
            | CatcherError::InvalidConfig(_)
            | CatcherError::Internal(_)
            | CatcherError::QueueTimeout(_)
            | CatcherError::SseTimeout(_) => ErrorCategory::NonRetryable,
        }
    }

    /// The human-readable message of this error.
    pub fn to_string(&self) -> (r: String)
        ensures
            r@ == message_spec(*self),
    {
        match self {
            CatcherError::ConnectionTimeout(ms) => with_number("connection timeout after ", *ms, "ms"),
            CatcherError::RequestTimeout(ms) => with_number("request timeout after ", *ms, "ms"),
            CatcherError::TlsError(msg) => prefixed("TLS error: ", msg.as_str()),
            CatcherError::DnsError { host, reason } => joined(
                "DNS resolution failed for ",
                host.as_str(),
                ": ",
                reason.as_str(),
            ),
            CatcherError::HttpError { status, body } => {
                let mut s = with_number("HTTP error: status ", *status as u64, ", body: ");
                s.append(body.as_str());
                s
            },
            CatcherError::WsHandshakeTimeout(ms) => with_number(
                "WS handshake timeout after ",
                *ms,
                "ms",
            ),
            CatcherError::WsDisconnected { code, reason } => {
                let mut s = with_number("WS disconnected: code=", *code as u64, ", reason=");
                s.append(reason.as_str());
                s
            },
            CatcherError::WsAllEndpointsFailed { count } => with_number(
                "all WS endpoints failed (",
                *count as u64,
                " attempted)",
            ),
            CatcherError::RetryExhausted { attempts, last_error } => {
                let mut s = with_number("retry exhausted after ", *attempts as u64, " attempts: ");
                s.append(last_error.as_str());
                s
            },
            CatcherError::CircuitBreakerOpen => String::from_str(
                "circuit breaker is OPEN, request rejected",
            ),
            CatcherError::QueueTimeout(ms) => with_number("queue timeout after ", *ms, "ms"),
            CatcherError::EncodeError(msg) => prefixed("msgpack encode error: ", msg.as_str()),
            CatcherError::DecodeError(msg) => prefixed("msgpack decode error: ", msg.as_str()),
            CatcherError::InvalidConfig(msg) => prefixed("invalid configuration: ", msg.as_str()),
            CatcherError::SseTimeout(ms) => with_number("SSE stream timeout after ", *ms, "ms"),
            CatcherError::Internal(msg) => prefixed("internal error: ", msg.as_str()),
        }
    }
}

/// Every error has a non-empty message.
pub proof fn lemma_message_nonempty(e: CatcherError)
    ensures
        message_spec(e).len() > 0,
{
    reveal_strlit("connection timeout after ");
    reveal_strlit("request timeout after ");
    reveal_strlit("TLS error: ");
    reveal_strlit("DNS resolution failed for ");
    reveal_strlit("HTTP error: status ");
    reveal_strlit("WS handshake timeout after ");
    reveal_strlit("WS disconnected: code=");
    reveal_strlit("all WS endpoints failed (");
    reveal_strlit("retry exhausted after ");
    reveal_strlit("circuit breaker is OPEN, request rejected");
    reveal_strlit("queue timeout after ");
    reveal_strlit("msgpack encode error: ");
    reveal_strlit("msgpack decode error: ");
    reveal_strlit("invalid configuration: ");
    reveal_strlit("SSE stream timeout after ");
    reveal_strlit("internal error: ");
}

} // verus!
