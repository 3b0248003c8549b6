use catcher::circuit_breaker::CircuitBreaker;
use catcher::dns::{parse_host_mapping, DnsConfig};
use catcher::http::{parse_method, HttpMethod};
use catcher::observability::{classify_quality, MetricsCollector, MetricsCounts, NetworkQualityLevel, Priority, RttWindow};
use catcher::pinning::decode_pins;
use catcher::resilience::{build_retry_policy, BackoffKind, CbState, CircuitBreakerConfig, RetryConfig};
use catcher::strmap::StrMap;
use base64::Engine;
use retry_policies::RetryPolicy;
use sha2::Digest;
use std::time::SystemTime;

/// The success rate of a metrics snapshot (0 without requests).
fn success_rate(c: &MetricsCounts) -> f64 {
    if c.http_requests > 0 {
        c.http_successes as f64 / c.http_requests as f64
    } else {
        0.0
    }
}

#[test]
fn metrics_default_values() {
    let m = MetricsCollector::new();
    let snap = m.counts();
    assert_eq!(snap.http_requests, 0);
    assert_eq!(success_rate(&snap), 0.0);
}

#[test]
fn record_http_request_updates_counts() {
    let mut m = MetricsCollector::new();
    m.record_http_request(true, 1000);
    m.record_http_request(false, 500);
    m.increment_http_retries();
    let snap = m.counts();
    assert_eq!(snap.http_requests, 2);
    assert_eq!(success_rate(&snap), 0.5);
    assert!(snap.http_avg_latency_us > 0);
    assert_eq!(snap.http_retries, 1);
}

#[test]
fn record_queue_enqueue_tracks_priority() {
    let mut m = MetricsCollector::new();
    m.record_queue_enqueue(Priority::Critical);
    m.record_queue_enqueue(Priority::High);
    m.record_queue_enqueue(Priority::Normal);
    m.record_queue_enqueue(Priority::Low);
    let snap = m.counts();
    assert_eq!(snap.http_requests, 0);
}

/// The quality level of the samples recorded in a window of ten.
fn level_of(samples: &[u64]) -> NetworkQualityLevel {
    let mut w = RttWindow::new(10);
    for &s in samples {
        w.record(s);
    }
    classify_quality(&w.stats())
}

#[test]
fn evaluate_excellent_for_low_rtt() {
    assert_eq!(level_of(&[30, 40, 50]), NetworkQualityLevel::Excellent);
}

#[test]
fn evaluate_bad_for_high_rtt() {
    assert_eq!(level_of(&[1200, 1500]), NetworkQualityLevel::Bad);
}

#[test]
fn empty_window_returns_bad() {
    assert_eq!(level_of(&[]), NetworkQualityLevel::Bad);
}

#[test]
fn rtt_snapshot_calculates_stats() {
    let mut w = RttWindow::new(10);
    w.record(100);
    w.record(200);
    w.record(300);
    let snap = w.stats();
    assert_eq!(snap.min_rtt_ms, 100);
    assert_eq!(snap.max_rtt_ms, 300);
    assert!(snap.avg_rtt_ms > 0);
    assert_eq!(snap.sample_count, 3);
}

#[test]
fn ns04_classify_quality_levels() {
    // Excellent: avg_rtt < 80
    assert_eq!(level_of(&[30, 40, 50]), NetworkQualityLevel::Excellent);
    // Good: avg_rtt < 200
    assert_eq!(level_of(&[100, 150]), NetworkQualityLevel::Good);
    // Bad: avg_rtt >= 1000
    assert_eq!(level_of(&[1200, 1500]), NetworkQualityLevel::Bad);
}

#[test]
fn ns04_no_callback_on_same_level() {
    let mut w = RttWindow::new(10);
    w.record(50);
    let r1 = classify_quality(&w.stats());
    w.record(60);
    let r2 = classify_quality(&w.stats());
    assert_eq!(r1, NetworkQualityLevel::Excellent);
    assert_eq!(r2, NetworkQualityLevel::Excellent);
    assert!(!catcher::observability::quality_changed(r2, Some(r1)));
}

fn test_config(backoff: BackoffKind) -> RetryConfig {
    RetryConfig {
        max_attempts: 3,
        backoff,
        min_backoff_ms: 100,
        max_backoff_ms: 10_000,
        jitter: false,
    }
}

/// The delay in milliseconds the policy asks for before retry `n`.
fn delay_ms(
    policy: &retry_policies::policies::ExponentialBackoff,
    start: SystemTime,
    n: u32,
) -> Option<f64> {
    match policy.should_retry(start, n) {
        retry_policies::RetryDecision::Retry { execute_after } => {
            Some(execute_after.duration_since(start).unwrap().as_secs_f64() * 1000.0)
        }
        retry_policies::RetryDecision::DoNotRetry => None,
    }
}

#[test]
fn rr1_fixed_strategy_min_equals_max() {
    let config = test_config(BackoffKind::Fixed);
    let policy = build_retry_policy(&config);
    let start = SystemTime::now();

    // Fixed backoff: retry_bounds sets both min and max to min_backoff (100ms)
    // The library may add sub-millisecond overhead, so allow ±1ms tolerance
    let d0 = delay_ms(&policy, start, 0).unwrap();
    let d1 = delay_ms(&policy, start, 1).unwrap();
    let d2 = delay_ms(&policy, start, 2).unwrap();

    for (i, d) in [(0, d0), (1, d1), (2, d2)] {
        assert!(
            (d - 100.0).abs() < 2.0,
            "attempt {i}: expected ~100ms, got {d:.3}ms"
        );
    }
}

#[test]
fn rr2_exponential_strategy_retry_bounds() {
    let config = test_config(BackoffKind::Exponential);
    let policy = build_retry_policy(&config);
    let start = SystemTime::now();

    // Exponential: starts at 100ms, doubles each attempt, capped at 10_000ms
    let d0 = delay_ms(&policy, start, 0).unwrap();
    let d1 = delay_ms(&policy, start, 1).unwrap();
    let d2 = delay_ms(&policy, start, 2).unwrap();

    assert!((d0 - 100.0).abs() < 2.0, "attempt 0: expected ~100ms, got {d0:.3}ms");
    assert!((d1 - 200.0).abs() < 2.0, "attempt 1: expected ~200ms, got {d1:.3}ms");
    assert!((d2 - 400.0).abs() < 2.0, "attempt 2: expected ~400ms, got {d2:.3}ms");
}

#[test]
fn rr3_decorrelated_jitter_jitter_enabled() {
    let config = test_config(BackoffKind::DecorrelatedJitter);
    let policy = build_retry_policy(&config);
    let start = SystemTime::now();

    // DecorrelatedJitter uses Full jitter: delay in [0, calculated_backoff].
    for attempt in 0..3 {
        let d = delay_ms(&policy, start, attempt).expect("expected Retry decision");
        assert!(
            (0.0..=10_002.0).contains(&d),
            "attempt {attempt}: delay {d:.3}ms out of [0ms, 10000ms] range"
        );
    }
}

fn cb_test_config() -> CircuitBreakerConfig {
    CircuitBreakerConfig {
        failure_threshold: 3,
        success_threshold: 2,
        reset_timeout_ms: 100,
        half_open_max_requests: 5,
    }
}

#[test]
fn cb_closed_by_default() {
    let mut cb = CircuitBreaker::new(cb_test_config());
    assert_eq!(cb.state(), CbState::Closed);
    assert!(cb.before_request().is_ok());
}

#[test]
fn cb_opens_after_threshold_failures() {
    let mut cb = CircuitBreaker::new(cb_test_config());
    cb.on_failure();
    cb.on_failure();
    assert_eq!(cb.state(), CbState::Closed);
    cb.on_failure(); // 3rd failure: open
    assert_eq!(cb.state(), CbState::Open);
}

#[test]
fn cb_before_request_rejects_when_open() {
    let mut cb = CircuitBreaker::new(cb_test_config());
    for _ in 0..3 {
        cb.on_failure();
    }
    assert!(cb.before_request().is_err());
}

#[test]
fn cb_transitions_to_half_open_after_timeout() {
    let mut cb = CircuitBreaker::new(CircuitBreakerConfig {
        failure_threshold: 1,
        reset_timeout_ms: 0, // immediate
        ..cb_test_config()
    });
    cb.on_failure();
    let result = cb.before_request();
    assert!(result.is_ok());
    assert_eq!(cb.state(), CbState::HalfOpen);
}

#[test]
fn cb_half_open_to_closed_on_success_threshold() {
    let mut cb = CircuitBreaker::new(CircuitBreakerConfig {
        failure_threshold: 1,
        reset_timeout_ms: 0,
        ..cb_test_config()
    });
    cb.on_failure();
    let _ = cb.before_request();
    cb.on_success();
    cb.on_success(); // 2 successes: closed
    assert_eq!(cb.state(), CbState::Closed);
}

#[test]
fn cb_half_open_to_open_on_failure() {
    let mut cb = CircuitBreaker::new(CircuitBreakerConfig {
        failure_threshold: 1,
        reset_timeout_ms: 0,
        ..cb_test_config()
    });
    cb.on_failure();
    let _ = cb.before_request();
    cb.on_failure(); // failure while half-open: open again
    assert_eq!(cb.state(), CbState::Open);
}

#[test]
fn cb_success_resets_failure_count() {
    let mut cb = CircuitBreaker::new(cb_test_config());
    cb.on_failure();
    cb.on_failure();
    cb.on_success();
    assert_eq!(cb.state(), CbState::Closed);
    cb.on_failure();
    cb.on_failure();
    assert_eq!(cb.state(), CbState::Closed);
    cb.on_failure();
    assert_eq!(cb.state(), CbState::Open);
}

#[test]
fn resolver_accepts_valid_host_mapping() {
    let mut host_mapping = StrMap::new();
    host_mapping.insert("api.test".to_string(), "10.0.0.42".to_string());
    let config = DnsConfig { host_mapping, ..Default::default() };
    let parsed = parse_host_mapping(&config.host_mapping).expect("valid resolver");
    assert!(parsed.iter().any(|(h, _)| h == "api.test"));
}

#[test]
fn resolver_rejects_invalid_host_mapping_ip() {
    let mut host_mapping = StrMap::new();
    host_mapping.insert("bad.test".to_string(), "not-an-ip".to_string());
    let config = DnsConfig { host_mapping, ..Default::default() };
    let result = parse_host_mapping(&config.host_mapping);
    assert!(result.is_err());
    let msg = result.expect_err("invalid IP must fail").to_string();
    assert!(msg.contains("not-an-ip"), "error should mention the bad IP: {msg}");
}

#[test]
fn pin1_decode_base64_pins() {
    let hash = sha2::Sha256::digest(b"hello world");
    let b64 = base64::engine::general_purpose::STANDARD.encode(hash);
    let pins = decode_pins(&vec![b64]);
    assert_eq!(pins.len(), 1);
    assert_eq!(pins[0], hash.as_slice());
}

#[test]
fn pin2_ignore_invalid_pins() {
    let pins = decode_pins(&vec!["not-base64!!!".to_string(), "AAAA".to_string()]);
    assert_eq!(pins.len(), 0);
}

#[test]
fn parse_method_all() {
    assert!(matches!(parse_method("GET").unwrap(), HttpMethod::GET));
    assert!(matches!(parse_method("get").unwrap(), HttpMethod::GET));
    assert!(matches!(parse_method("POST").unwrap(), HttpMethod::POST));
    assert!(matches!(parse_method("PUT").unwrap(), HttpMethod::PUT));
    assert!(matches!(parse_method("DELETE").unwrap(), HttpMethod::DELETE));
    assert!(matches!(parse_method("PATCH").unwrap(), HttpMethod::PATCH));
    assert!(parse_method("INVALID").is_err());
    assert_eq!(parse_method("brew").unwrap_err(), "Unknown HTTP method: BREW");
}

#[test]
fn stats_refused_when_they_overflow() {
    let mut w = RttWindow::new(4);
    assert_eq!(w.try_stats().map(|s| s.sample_count), Some(0));
    w.record(10);
    w.record(30);
    let s = w.try_stats().unwrap();
    assert_eq!((s.avg_rtt_ms, s.min_rtt_ms, s.max_rtt_ms, s.jitter_ms), (20, 10, 30, 10));
    w.record(u64::MAX);
    assert!(w.try_stats().is_none());
    let mut big = RttWindow::new(3);
    big.record(i64::MAX as u64);
    big.record(i64::MAX as u64);
    assert!(big.try_stats().is_some());
    big.record(i64::MAX as u64);
    assert!(big.try_stats().is_none());
}

#[test]
fn record_updates_window() {
    let mut w = RttWindow::new(10);
    w.record(100);
    assert_eq!(w.try_stats().unwrap().sample_count, 1);
    assert_eq!(w.len(), 1);
    w.record(200);
    assert_eq!(w.try_stats().unwrap().sample_count, 2);
    assert_eq!(w.len(), 2);
}

#[test]
fn a_single_large_sample_still_has_statistics() {
    let mut w = RttWindow::new(3);
    w.record(u64::MAX);
    let s = w.try_stats().unwrap();
    assert_eq!((s.avg_rtt_ms, s.min_rtt_ms, s.max_rtt_ms, s.jitter_ms, s.sample_count), (u64::MAX, u64::MAX, u64::MAX, 0, 1));
    w.record(1);
    assert!(w.try_stats().is_none());
}
