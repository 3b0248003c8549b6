use catcher::error::{dns_category, tls_category};
use catcher::error::{CatcherError, ErrorCategory};

#[test]
fn connection_timeout_is_retryable() {
    let err = CatcherError::ConnectionTimeout(5000);
    assert_eq!(err.category(), ErrorCategory::Retryable);
    assert!(err.to_string().contains("5000"));
}

#[test]
fn request_timeout_is_retryable() {
    let err = CatcherError::RequestTimeout(30000);
    assert_eq!(err.category(), ErrorCategory::Retryable);
}

#[test]
fn tls_handshake_error_is_retryable() {
    let err = CatcherError::TlsError("handshake timed out".into());
    assert_eq!(err.category(), ErrorCategory::Retryable);
}

#[test]
fn tls_cert_error_is_non_retryable() {
    // Self-signed → permanent config error, retry won't help
    let err = CatcherError::TlsError("self signed certificate".into());
    assert_eq!(err.category(), ErrorCategory::NonRetryable);
}

#[test]
fn tls_expired_cert_is_non_retryable() {
    let err = CatcherError::TlsError("certificate expired".into());
    assert_eq!(err.category(), ErrorCategory::NonRetryable);
}

#[test]
fn tls_hostname_mismatch_is_non_retryable() {
    let err = CatcherError::TlsError("hostname mismatch in certificate".into());
    assert_eq!(err.category(), ErrorCategory::NonRetryable);
}

#[test]
fn dns_error_is_retryable_for_servfail() {
    let err = CatcherError::DnsError {
        host: "example.com".into(),
        reason: "SERVFAIL".into(),
    };
    assert_eq!(err.category(), ErrorCategory::Retryable);
}

#[test]
fn dns_nxdomain_is_non_retryable() {
    let err = CatcherError::DnsError {
        host: "example.com".into(),
        reason: "NXDOMAIN".into(),
    };
    assert_eq!(err.category(), ErrorCategory::NonRetryable);
}

#[test]
fn http_5xx_is_retryable() {
    let err = CatcherError::HttpError {
        status: 503,
        body: "Service Unavailable".into(),
    };
    assert_eq!(err.category(), ErrorCategory::Retryable);
}

#[test]
fn http_4xx_is_non_retryable() {
    let err = CatcherError::HttpError {
        status: 404,
        body: "Not Found".into(),
    };
    assert_eq!(err.category(), ErrorCategory::NonRetryable);
}

#[test]
fn http_408_is_retryable() {
    // RFC 9110 §15.5.7: 408 MAY be retried on a new connection
    let err = CatcherError::HttpError {
        status: 408,
        body: "Request Timeout".into(),
    };
    assert_eq!(err.category(), ErrorCategory::Retryable);
}

#[test]
fn http_429_is_retryable() {
    // RFC 6585: 429 should be retried after Retry-After
    let err = CatcherError::HttpError {
        status: 429,
        body: "Too Many Requests".into(),
    };
    assert_eq!(err.category(), ErrorCategory::Retryable);
}

#[test]
fn http_401_is_non_retryable() {
    let err = CatcherError::HttpError {
        status: 401,
        body: "Unauthorized".into(),
    };
    assert_eq!(err.category(), ErrorCategory::NonRetryable);
}

#[test]
fn circuit_breaker_open_is_retryable() {
    let err = CatcherError::CircuitBreakerOpen;
    assert_eq!(err.category(), ErrorCategory::Retryable);
}

#[test]
fn retry_exhausted_is_non_retryable() {
    let err = CatcherError::RetryExhausted {
        attempts: 5,
        last_error: "timeout".into(),
    };
    assert_eq!(err.category(), ErrorCategory::NonRetryable);
}

#[test]
fn encode_error_is_non_retryable() {
    let err = CatcherError::EncodeError("bad data".into());
    assert_eq!(err.category(), ErrorCategory::NonRetryable);
}

#[test]
fn decode_error_is_non_retryable() {
    let err = CatcherError::DecodeError("corrupt".into());
    assert_eq!(err.category(), ErrorCategory::NonRetryable);
}

#[test]
fn invalid_config_is_non_retryable() {
    let err = CatcherError::InvalidConfig("bad url".into());
    assert_eq!(err.category(), ErrorCategory::NonRetryable);
}

#[test]
fn internal_error_is_non_retryable() {
    let err = CatcherError::Internal("unexpected".into());
    assert_eq!(err.category(), ErrorCategory::NonRetryable);
}

#[test]
fn ws_disconnected_is_retryable() {
    let err = CatcherError::WsDisconnected {
        code: 1006,
        reason: "abnormal".into(),
    };
    assert_eq!(err.category(), ErrorCategory::Retryable);
}

#[test]
fn ws_all_endpoints_failed_is_retryable() {
    let err = CatcherError::WsAllEndpointsFailed { count: 3 };
    assert_eq!(err.category(), ErrorCategory::Retryable);
}

#[test]
fn queue_timeout_is_non_retryable() {
    let err = CatcherError::QueueTimeout(5000);
    assert_eq!(err.category(), ErrorCategory::NonRetryable);
}

#[test]
fn sse_timeout_is_non_retryable() {
    let err = CatcherError::SseTimeout(30000);
    assert_eq!(err.category(), ErrorCategory::NonRetryable);
}

#[test]
fn clone_preserves_category() {
    let err = CatcherError::ConnectionTimeout(1000);
    let cloned = err.clone();
    assert_eq!(cloned.category(), err.category());
}

#[test]
fn display_does_not_panic() {
    // All variants should format without panic
    let errors = vec![
        CatcherError::ConnectionTimeout(1000),
        CatcherError::RequestTimeout(5000),
        CatcherError::TlsError("test".into()),
        CatcherError::DnsError { host: "h".into(), reason: "r".into() },
        CatcherError::HttpError { status: 500, body: "b".into() },
        CatcherError::WsHandshakeTimeout(3000),
        CatcherError::WsDisconnected { code: 1000, reason: "normal".into() },
        CatcherError::WsAllEndpointsFailed { count: 1 },
        CatcherError::RetryExhausted { attempts: 3, last_error: "e".into() },
        CatcherError::CircuitBreakerOpen,
        CatcherError::QueueTimeout(1000),
        CatcherError::EncodeError("e".into()),
        CatcherError::DecodeError("d".into()),
        CatcherError::InvalidConfig("c".into()),
        CatcherError::SseTimeout(5000),
        CatcherError::Internal("i".into()),
    ];
    for err in &errors {
        let s = err.to_string();
        assert!(!s.is_empty(), "Display should produce non-empty string for {:?}", err);
    }
}

#[test]
fn lowered_messages_decide_categories() {
    assert_eq!(tls_category("certificate has expired"), ErrorCategory::NonRetryable);
    assert_eq!(tls_category("self signed certificate"), ErrorCategory::NonRetryable);
    assert_eq!(tls_category("handshake eof"), ErrorCategory::Retryable);
    // The text is taken as given: upper-case words are not recognised here.
    assert_eq!(tls_category("CERTIFICATE"), ErrorCategory::Retryable);
    assert_eq!(dns_category("nxdomain for host"), ErrorCategory::NonRetryable);
    assert_eq!(dns_category("servfail"), ErrorCategory::Retryable);
}
