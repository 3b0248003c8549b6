use catcher::ffi::{ffi_request_for, sse_method_for};
use catcher::pinning::{collect_pins, digest_pinned};
use catcher::retry_after::{date_from_words, month_of};
use catcher::ffi::{ffi_sse_method, ready_state_code};
use catcher::sse::{SseMethod, SseReadyState};
use catcher::ffi::{ffi_outcome, ffi_request, FfiOutcome};
use catcher::http::HttpMethod;
use catcher::bindings::{
    http_response_to_dto, sse_line_event, CatcherError as HostError, SseEventDto,
};
use catcher::error::CatcherError;
use catcher::ffi::{ffi_str, should_deliver, strip_nul};
use catcher::http::HttpResponse;
use catcher::pinning::{decode_pins, pins_match};
use catcher::proxy_probe::{
    head_complete, head_read_step, parse_proxy_request, proxy_response, HeadReadStep,
    HttpProxyRequest, ProxyRequestError,
};
use catcher::registry::CancellationGuard;
use catcher::retry_after::{parse_http_date, parse_retry_after, parse_retry_after_at};
use catcher::strmap::StrMap;
use base64::Engine;
use sha2::Digest;

#[test]
fn response_record_lists_headers_in_order() {
    let mut headers = StrMap::new();
    headers.insert("content-type".into(), "text/plain".into());
    headers.insert("x-id".into(), "9".into());
    let dto = http_response_to_dto(HttpResponse { status: 201, headers, body: b"ok".to_vec(), elapsed_ms: 5 });
    assert_eq!(dto.status, 201);
    assert_eq!(dto.headers, vec!["content-type: text/plain".to_string(), "x-id: 9".to_string()]);
    assert_eq!(dto.body, b"ok".to_vec());
    assert_eq!(dto.elapsed_ms, 5);
}

#[test]
fn host_errors_carry_messages() {
    let e = HostError::from_core(&CatcherError::RequestTimeout(5));
    assert_eq!(e.to_string(), "Network error: request timeout after 5ms");
    assert_eq!(HostError::Config("bad".into()).to_string(), "Config error: bad");
    assert!(matches!(sse_line_event(Ok("data: x".into())), SseEventDto::Data { data } if data == "data: x"));
    assert!(matches!(
        sse_line_event(Err(CatcherError::Internal("boom".into()))),
        SseEventDto::Error { message } if message == "internal error: boom"
    ));
}

#[test]
fn proxy_requests_are_told_apart() {
    let connect = parse_proxy_request(b"CONNECT example.com:443 HTTP/1.1\r\nHost: example.com:443\r\n\r\n");
    assert_eq!(connect, Ok(HttpProxyRequest::Connect { authority: "example.com:443".into() }));
    let lower = parse_proxy_request(b"connect h:1 HTTP/1.1\r\n\r\n");
    assert_eq!(lower, Ok(HttpProxyRequest::Connect { authority: "h:1".into() }));
    let fwd = parse_proxy_request(b"GET http://plain.test/ HTTP/1.1\r\n\r\n");
    assert_eq!(fwd, Ok(HttpProxyRequest::Forward { method: "GET".into(), uri: "http://plain.test/".into() }));
    assert_eq!(parse_proxy_request(b""), Err(ProxyRequestError::MissingRequestLine));
    assert_eq!(parse_proxy_request(b"   \r\n\r\n"), Err(ProxyRequestError::MissingMethod));
    assert_eq!(parse_proxy_request(b"GET\r\n\r\n"), Err(ProxyRequestError::MissingTarget));
    assert_eq!(parse_proxy_request(&[0xff, 0xfe]), Err(ProxyRequestError::InvalidUtf8));
    assert_eq!(
        proxy_response(&HttpProxyRequest::Connect { authority: "a".into() }),
        "HTTP/1.1 200 Connection Established\r\nProxy-Agent: catcher-test\r\n\r\n"
    );
}

#[test]
fn proxy_head_reading() {
    assert!(head_complete(&b"GET / HTTP/1.1\r\n\r\n".to_vec()));
    assert!(!head_complete(&b"GET / HTTP/1.1\r\n".to_vec()));
    assert_eq!(head_read_step(&b"x\r\n\r\n".to_vec()), HeadReadStep::Done);
    assert_eq!(head_read_step(&vec![b'a'; 100]), HeadReadStep::Continue);
    assert_eq!(head_read_step(&vec![b'a'; 8193]), HeadReadStep::TooLarge);
}

#[test]
fn pins_decode_and_match() {
    let cert = b"certificate bytes";
    let digest = sha2::Sha256::digest(cert).to_vec();
    let pin = base64::engine::general_purpose::STANDARD.encode(&digest);
    let pins = decode_pins(&vec![format!("  {pin} "), "not base64!".into(), "YWJj".into()]);
    assert_eq!(pins, vec![digest.clone()]);
    assert!(pins_match(&pins, cert));
    assert!(!pins_match(&pins, b"another certificate"));
    assert!(pins_match(&vec![], b"anything"));
}

#[test]
fn ffi_strings() {
    assert_eq!(ffi_str(b"hello", "d"), "hello");
    assert_eq!(ffi_str(b"", "d"), "d");
    assert_eq!(ffi_str(&[0xc3, 0x28], "d"), "d");
    assert_eq!(strip_nul("a\0b\0"), "ab");
    let mut guard = CancellationGuard::new();
    assert!(should_deliver(&guard, 1));
    guard.mark(1);
    assert!(!should_deliver(&guard, 1));
}

#[test]
fn retry_after_values() {
    assert_eq!(parse_retry_after_at("120", 0), 120);
    assert_eq!(parse_retry_after_at("Retry-After: 30", 0), 30);
    assert_eq!(parse_retry_after_at("  45  ", 1_000), 45);
    assert_eq!(parse_retry_after_at("soon", 0), 0);
    let date = "Wed, 21 Oct 2015 07:28:00 GMT";
    let t = parse_http_date(date).unwrap();
    assert_eq!(parse_retry_after_at(date, t - 60), 60);
    assert_eq!(parse_retry_after_at(date, t + 1), 0);
    assert_eq!(parse_retry_after("7"), 7);
    assert!(parse_http_date("not a date").is_err());
    assert!(parse_http_date("Wed, 21 Foo 2015 07:28:00 GMT").is_err());
}

#[test]
fn http_date_formula() {
    // 1970-01-02 00:00:01: one day and one second.
    assert_eq!(parse_http_date("Fri, 2 Jan 1970 00:00:01 GMT"), Ok(86_401));
    assert_eq!(parse_http_date("Thu, 1 jan 1970 01:02:03 GMT"), Ok(3_723));
}

#[test]
fn strmap_insert_replaces_in_place() {
    let mut m = StrMap::new();
    assert_eq!(m.insert("a".into(), "1".into()), None);
    assert_eq!(m.insert("b".into(), "2".into()), None);
    assert_eq!(m.insert("a".into(), "3".into()), Some("1".to_string()));
    assert_eq!(m.len(), 2);
    assert_eq!(m.get("a"), Some(&"3".to_string()));
    assert!(m.contains_key("b"));
    assert!(!m.contains_key("c"));
    let keys: Vec<&str> = m.entries().iter().map(|(k, _)| k.as_str()).collect();
    assert_eq!(keys, vec!["a", "b"]);
}

#[test]
fn ffi_requests_from_call_arguments() {
    let r = ffi_request("post", "/x".into(), vec![1], "text/plain".into(), StrMap::new(), 250).unwrap();
    assert_eq!(r.method, HttpMethod::POST);
    assert_eq!(r.url, "/x");
    assert_eq!(r.body, Some(vec![1]));
    assert_eq!(r.content_type.as_deref(), Some("text/plain"));
    assert_eq!(r.timeout_ms, Some(250));
    let r = ffi_request("GET", "/".into(), vec![], String::new(), StrMap::new(), 0).unwrap();
    assert!(r.body.is_none() && r.content_type.is_none() && r.timeout_ms.is_none());
    assert_eq!(
        ffi_request("TRACE", "/".into(), vec![], String::new(), StrMap::new(), 0).unwrap_err(),
        "Unsupported method: TRACE"
    );
}

#[test]
fn ffi_outcomes() {
    match ffi_outcome(Err(CatcherError::HttpError { status: 418, body: "teapot".into() })) {
        FfiOutcome::Response { status, headers, body, elapsed_ms } => {
            assert_eq!((status, elapsed_ms), (418, 0));
            assert!(headers.is_empty());
            assert_eq!(body, b"teapot".to_vec());
        }
        other => panic!("unexpected {:?}", other),
    }
    assert!(matches!(
        ffi_outcome(Err(CatcherError::Internal("request cancelled".into()))),
        FfiOutcome::Cancelled
    ));
    match ffi_outcome(Err(CatcherError::RequestTimeout(5))) {
        FfiOutcome::Failed { message } => assert_eq!(message, "request timeout after 5ms"),
        other => panic!("unexpected {:?}", other),
    }
}

#[test]
fn sse_methods_and_ready_state_codes() {
    assert_eq!(ffi_sse_method("get"), SseMethod::GET);
    assert_eq!(ffi_sse_method("GET"), SseMethod::GET);
    assert_eq!(ffi_sse_method("post"), SseMethod::POST);
    assert_eq!(ffi_sse_method("PUT"), SseMethod::POST);
    assert_eq!(ffi_sse_method(""), SseMethod::POST);
    assert_eq!(ready_state_code(SseReadyState::Connecting), 0);
    assert_eq!(ready_state_code(SseReadyState::Open), 1);
    assert_eq!(ready_state_code(SseReadyState::Closed), 2);
}

#[test]
fn requests_from_a_named_method() {
    let r = ffi_request_for(Some(HttpMethod::PUT), "put", "/x".to_string(), vec![], String::new(), StrMap::new(), 0)
        .unwrap();
    assert_eq!(r.method, HttpMethod::PUT);
    assert!(r.body.is_none() && r.content_type.is_none() && r.timeout_ms.is_none());
    let e = ffi_request_for(None, "trace", "/x".to_string(), vec![], String::new(), StrMap::new(), 0);
    assert_eq!(e.err(), Some("Unsupported method: trace".to_string()));
    assert_eq!(sse_method_for(Some(HttpMethod::GET)), SseMethod::GET);
    assert_eq!(sse_method_for(Some(HttpMethod::DELETE)), SseMethod::POST);
    assert_eq!(sse_method_for(None), SseMethod::POST);
}

#[test]
fn pins_kept_and_matched() {
    let good = vec![7u8; 32];
    let kept = collect_pins(&vec![Some(good.clone()), None, Some(vec![1, 2, 3])]);
    assert_eq!(kept, vec![good.clone()]);
    assert!(digest_pinned(&kept, &good));
    assert!(!digest_pinned(&kept, &vec![8u8; 32]));
    assert!(digest_pinned(&vec![], &vec![8u8; 32]));
}

#[test]
fn dates_from_words() {
    let words: Vec<Vec<char>> = "Wed, 21 Oct 2015 07:28:00 GMT"
        .split_whitespace()
        .map(|w| w.chars().collect())
        .collect();
    assert_eq!(month_of(&"oct".chars().collect()), Some(10));
    assert_eq!(month_of(&"Oct".chars().collect()), None);
    assert_eq!(date_from_words(&words, 10), Ok(1445412480));
    let bad: Vec<Vec<char>> = "Wed, xx Oct 2015 07:28:00 GMT"
        .split_whitespace()
        .map(|w| w.chars().collect())
        .collect();
    assert_eq!(date_from_words(&bad, 10), Err(()));
}

#[test]
fn unusable_retry_after_dates_give_no_wait() {
    assert_eq!(parse_http_date("Mon, 01 Jan 1900 00:00:00 GMT"), Err(()));
    assert_eq!(parse_retry_after_at("Retry-After: Mon, 01 Jan 1900 00:00:00 GMT", 0), 0);
    assert_eq!(parse_retry_after("Retry-After: Mon, 01 Jan 1900 00:00:00 GMT"), 0);
    // Day 0 of January is before the year's first day.
    assert_eq!(parse_http_date("Thu, 0 Jan 1970 00:00:00 GMT"), Err(()));
    // Day 0 of February is the last day of January.
    assert_eq!(parse_http_date("Sat, 0 Feb 1970 00:00:00 GMT"), Ok(30 * 86_400));
    // A year whose seconds do not fit in 64 bits.
    assert_eq!(parse_http_date("Mon, 01 Jan 99999999999999 00:00:00 GMT"), Err(()));
}
