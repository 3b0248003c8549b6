use catcher::circuit_breaker::CircuitBreaker;
use catcher::error::CatcherError;
use catcher::resilience::{
    build_retry_policy, retry_plan, retry_step, BackoffKind, CbState, CircuitBreakerConfig,
    JitterMode, RetryConfig, RetryStep,
};
use catcher::sse::{
    reconnect_step, sse_connect_error, sse_request_headers, sse_status_step, ConnectOutcome,
    ReconnectStep, SseParser, SseStatusStep,
};
use catcher::strmap::StrMap;
use catcher::transport::{RequestOutcome, TransportCore};

fn cb_config() -> CircuitBreakerConfig {
    CircuitBreakerConfig {
        failure_threshold: 2,
        success_threshold: 1,
        reset_timeout_ms: 1_000,
        half_open_max_requests: 1,
    }
}

#[test]
fn breaker_opens_then_probes_then_closes() {
    let mut cb = CircuitBreaker::new(cb_config());
    assert_eq!(cb.state(), CbState::Closed);
    cb.on_failure_at(10);
    cb.on_failure_at(20);
    assert_eq!(cb.state(), CbState::Open);
    assert!(matches!(cb.before_request_at(500), Err(CatcherError::CircuitBreakerOpen)));
    assert!(cb.before_request_at(1_020).is_ok());
    assert_eq!(cb.state(), CbState::HalfOpen);
    // The request that moved the breaker to half-open is its one probe;
    // later requests are rejected until a result comes back.
    assert!(cb.before_request_at(1_021).is_err());
    assert!(cb.before_request_at(1_022).is_err());
    cb.on_success();
    assert_eq!(cb.state(), CbState::Closed);
}

#[test]
fn transport_core_counts_and_feeds_breaker() {
    let mut core = TransportCore::new(Some(cb_config()));
    assert!(core.admit_at(0).is_ok());
    core.finish_at(RequestOutcome::Failed, 100, 1);
    core.finish_at(RequestOutcome::Cancelled, 50, 2);
    assert_eq!(core.circuit_breaker_state(), Some(CbState::Closed));
    core.finish_at(RequestOutcome::Failed, 100, 3);
    assert_eq!(core.circuit_breaker_state(), Some(CbState::Open));
    assert!(matches!(core.admit_at(4), Err(CatcherError::CircuitBreakerOpen)));
    core.finish_at(RequestOutcome::Rejected, 0, 4);
    let counts = core.metrics().counts();
    assert_eq!(counts.http_requests, 4);
    assert_eq!(counts.http_successes, 0);
    let mut plain = TransportCore::new(None);
    assert!(plain.admit_at(0).is_ok());
    plain.finish_at(RequestOutcome::Succeeded, 300, 0);
    assert_eq!(plain.circuit_breaker_state(), None);
    assert_eq!(plain.metrics().counts().http_avg_latency_us, 300);
}

#[test]
fn retry_plans_by_backoff_kind() {
    let mut c = RetryConfig::default();
    c.backoff = BackoffKind::Fixed;
    let p = retry_plan(&c);
    assert_eq!((p.min_ms, p.max_ms, p.jitter, p.max_retries), (100, 100, JitterMode::Disabled, 3));
    c.backoff = BackoffKind::DecorrelatedJitter;
    let p = retry_plan(&c);
    assert_eq!((p.min_ms, p.max_ms, p.jitter), (100, 10_000, JitterMode::Full));
    let policy = build_retry_policy(&c);
    assert_eq!(policy.max_n_retries, Some(3));
    assert_eq!(policy.min_retry_interval, std::time::Duration::from_millis(100));
    assert_eq!(policy.max_retry_interval, std::time::Duration::from_millis(10_000));
}

#[test]
fn retry_loop_steps() {
    assert_eq!(retry_step(true, true, 0), RetryStep::Retry { past_retries: 1 });
    assert_eq!(retry_step(true, false, 3), RetryStep::Finish { retries: 3 });
    assert_eq!(retry_step(false, true, 2), RetryStep::Finish { retries: 2 });
}

#[test]
fn sse_parser_splits_lines_across_chunks() {
    let mut p = SseParser::new();
    p.feed("id: 7\r\nretry: 250\nda");
    p.feed("ta: hello\n: ping\nevent: x");
    p.finish();
    assert_eq!(p.last_event_id(), "7");
    assert_eq!(p.reconnect_delay(), Some(250));
    assert_eq!(p.next_line(), Some("data: hello".to_string()));
    assert_eq!(p.next_line(), Some("event: x".to_string()));
    assert_eq!(p.next_line(), None);
}

#[test]
fn sse_reconnect_decisions() {
    assert_eq!(reconnect_step(ConnectOutcome::Failed, 0, 3, false), ReconnectStep::Retry { attempt: 1 });
    assert_eq!(reconnect_step(ConnectOutcome::StreamEnded, 3, 3, false), ReconnectStep::Stop);
    assert_eq!(reconnect_step(ConnectOutcome::NoContent, 0, 3, false), ReconnectStep::Stop);
    assert_eq!(reconnect_step(ConnectOutcome::Failed, 0, 3, true), ReconnectStep::Stop);
}

#[test]
fn sse_request_headers_and_statuses() {
    let mut h = StrMap::new();
    h.insert("Accept".into(), "text/event-stream".into());
    let hs = sse_request_headers(&h, "42", true);
    assert_eq!(
        hs,
        vec![
            ("Accept".to_string(), "text/event-stream".to_string()),
            ("Last-Event-ID".to_string(), "42".to_string()),
            ("Content-Type".to_string(), "application/json".to_string()),
        ]
    );
    h.insert("Content-Type".into(), "text/plain".into());
    assert_eq!(sse_request_headers(&h, "", true).len(), 2);
    assert!(matches!(sse_status_step(204), SseStatusStep::Stop));
    assert!(matches!(sse_status_step(200), SseStatusStep::Open));
    match sse_status_step(503) {
        SseStatusStep::Fail(CatcherError::HttpError { status, body }) => {
            assert_eq!(status, 503);
            assert!(body.is_empty());
        }
        _ => panic!("503 must fail"),
    }
    assert!(matches!(sse_connect_error(true, true, "x", 9), CatcherError::SseTimeout(9)));
    assert!(matches!(sse_connect_error(false, true, "x", 9), CatcherError::ConnectionTimeout(9)));
    match sse_connect_error(false, false, "refused", 9) {
        CatcherError::Internal(m) => assert_eq!(m, "SSE connect: refused"),
        other => panic!("unexpected {:?}", other),
    }
}

#[test]
fn sse_chunk_boundaries_do_not_matter() {
    let text = "id: 1\ndata: a\r\n\ndata: b\nretry: 9\nevent: e";
    let mut whole = SseParser::new();
    whole.feed(text);
    let mut pieces = SseParser::new();
    for (i, c) in text.chars().enumerate() {
        let mut s = String::new();
        s.push(c);
        pieces.feed(&s);
        if i % 3 == 0 {
            pieces.feed("");
        }
    }
    assert_eq!(whole.last_event_id(), pieces.last_event_id());
    assert_eq!(whole.reconnect_delay(), pieces.reconnect_delay());
    assert_eq!(whole.pending_len(), pieces.pending_len());
    while let Some(l) = whole.next_line() {
        assert_eq!(Some(l), pieces.next_line());
    }
    assert_eq!(pieces.next_line(), None);
}

#[test]
fn retries_are_counted_without_moving_the_breaker() {
    let mut core = TransportCore::new(Some(cb_config()));
    core.record_retry();
    core.record_retry();
    let counts = core.metrics().counts();
    assert_eq!(counts.http_retries, 2);
    assert_eq!(counts.http_requests, 0);
    assert_eq!(core.circuit_breaker_state(), Some(CbState::Closed));
}

#[test]
fn retry_policy_carries_the_plan() {
    let mut c = RetryConfig::default();
    c.backoff = BackoffKind::DecorrelatedJitter;
    let p = build_retry_policy(&c);
    assert_eq!(p.max_n_retries, Some(3));
    assert_eq!(p.min_retry_interval, std::time::Duration::from_millis(100));
    assert_eq!(p.max_retry_interval, std::time::Duration::from_millis(10_000));
    assert_eq!(p.jitter, retry_policies::Jitter::Full);
    c.backoff = BackoffKind::Fixed;
    let f = build_retry_policy(&c);
    assert_eq!(f.min_retry_interval, std::time::Duration::from_millis(100));
    assert_eq!(f.max_retry_interval, std::time::Duration::from_millis(100));
    assert_eq!(f.jitter, retry_policies::Jitter::None);
}

#[test]
fn half_open_lets_exactly_the_configured_probes_through() {
    let mut cb = CircuitBreaker::new(CircuitBreakerConfig { half_open_max_requests: 3, ..cb_config() });
    cb.on_failure_at(0);
    cb.on_failure_at(0);
    let passed: Vec<bool> = (0..6).map(|i| cb.before_request_at(2_000 + i).is_ok()).collect();
    assert_eq!(passed, vec![true, true, true, false, false, false]);
    let mut none = CircuitBreaker::new(CircuitBreakerConfig { half_open_max_requests: 0, ..cb_config() });
    none.on_failure_at(0);
    none.on_failure_at(0);
    assert!(none.before_request_at(2_000).is_err());
    assert_eq!(none.state(), CbState::HalfOpen);
}

#[test]
fn resumed_parser_keeps_the_last_event_id() {
    let mut p = SseParser::resume("7".to_string());
    p.feed("data: x\n\n");
    assert_eq!(p.next_line(), Some("data: x".to_string()));
    assert_eq!(p.last_event_id(), "7");
    p.feed("id: 9\n");
    assert_eq!(p.last_event_id(), "9");
}
