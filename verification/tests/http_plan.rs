use catcher::base64::base64_encode;
use catcher::error::CatcherError;
use catcher::http::{
    authorization_header, get_request, multipart_method, request_payload, map_middleware_error, parse_http_method, post_request,
    redirect_plan, request_headers, request_timeout, resolve_url, response_result,
    tcp_keepalive_secs, HttpClientConfig, HttpMethod, HttpRequest, PoolConfig, RedirectConfig,
    RedirectPlan,
};
use catcher::http::{method_of_upper, method_or_reason, stream_step, StreamEvent, StreamRead, StreamStep};
use catcher::network::ProxyAuth;
use catcher::observability::Priority;
use catcher::strmap::StrMap;
use catcher::multipart::MultipartForm;

#[test]
fn re4_display_no_authorization() {
    // Test that base64_encode works correctly (Basic auth)
    let encoded = base64_encode("user:pass");
    assert_eq!(encoded, "dXNlcjpwYXNz");

    // Verify no sensitive data leaks through simple formatting
    let encoded = base64_encode("u:p");
    assert_eq!(encoded, "dTpw");
}

#[test]
fn base64_encode_correctness() {
    assert_eq!(base64_encode(""), "");
    assert_eq!(base64_encode("a"), "YQ==");
    assert_eq!(base64_encode("ab"), "YWI=");
    assert_eq!(base64_encode("abc"), "YWJj");
    assert_eq!(base64_encode("test"), "dGVzdA==");
}

#[test]
fn base64_of_multibyte_text_encodes_utf8_bytes() {
    assert_eq!(base64_encode("é"), "w6k=");
}

#[test]
fn client_config_defaults() {
    let c = HttpClientConfig::default();
    assert_eq!(c.base_url, "");
    assert_eq!(c.connect_timeout_ms, 10_000);
    assert_eq!(c.response_timeout_ms, 30_000);
    assert_eq!(c.max_concurrency, 50);
    assert!(c.tls.reject_unauthorized);
    assert!(c.default_headers.is_empty());
    assert!(c.proxy.is_none() && c.redirect.is_none() && c.auth.is_none());
    assert!(!c.msgpack);
    let p = PoolConfig::default();
    assert_eq!((p.max_idle_per_host, p.idle_timeout_secs, p.keep_alive, p.keep_alive_interval_secs), (10, 30, true, 20));
    let r = RedirectConfig::default();
    assert!(r.follow);
    assert_eq!(r.max_redirects, 5);
}

#[test]
fn keepalive_only_when_enabled() {
    let mut p = PoolConfig::default();
    assert_eq!(tcp_keepalive_secs(&p), Some(20));
    p.keep_alive = false;
    assert_eq!(tcp_keepalive_secs(&p), None);
}

#[test]
fn method_names_any_case() {
    assert_eq!(parse_http_method("get"), Some(HttpMethod::GET));
    assert_eq!(parse_http_method("Post"), Some(HttpMethod::POST));
    assert_eq!(parse_http_method("PUT"), Some(HttpMethod::PUT));
    assert_eq!(parse_http_method("delete"), Some(HttpMethod::DELETE));
    assert_eq!(parse_http_method("pAtCh"), Some(HttpMethod::PATCH));
    assert_eq!(parse_http_method("HEAD"), None);
    assert_eq!(parse_http_method(""), None);
}

#[test]
fn relative_urls_join_the_base() {
    assert_eq!(resolve_url("https://api.test/", "/v1/items"), "https://api.test/v1/items");
    assert_eq!(resolve_url("https://api.test///", "/x"), "https://api.test/x");
    assert_eq!(resolve_url("https://api.test", "https://other.test/y"), "https://other.test/y");
    assert_eq!(resolve_url("", "/z"), "/z");
}

#[test]
fn timeout_precedence() {
    assert_eq!(request_timeout(Some(5), Some(7), 9), 5);
    assert_eq!(request_timeout(None, Some(7), 9), 7);
    assert_eq!(request_timeout(None, None, 9), 9);
}

#[test]
fn headers_in_order_defaults_request_content_type() {
    let mut defaults = StrMap::new();
    defaults.insert("X-App".to_string(), "demo".to_string());
    let mut req = post_request("/upload", b"{}", "application/json");
    req.headers.insert("X-Req".to_string(), "1".to_string());
    let hs = request_headers(&defaults, &req.headers, &req.content_type);
    let names: Vec<&str> = hs.iter().map(|(k, _)| k.as_str()).collect();
    assert_eq!(names, vec!["X-App", "X-Req", "Content-Type"]);
    assert_eq!(hs[2].1, "application/json");
    let get = get_request("/a");
    assert!(request_headers(&defaults, &get.headers, &get.content_type).len() == 1);
}

#[test]
fn shortcut_requests() {
    let g = get_request("/a");
    assert_eq!(g.method, HttpMethod::GET);
    assert_eq!(g.url, "/a");
    assert!(g.body.is_none());
    assert_eq!(g.priority, Priority::Normal);
    let p = post_request("/b", &[1, 2], "text/plain");
    assert_eq!(p.method, HttpMethod::POST);
    assert_eq!(p.body, Some(vec![1, 2]));
    assert_eq!(p.content_type.as_deref(), Some("text/plain"));
    let d = HttpRequest::default();
    assert_eq!(d.method, HttpMethod::GET);
    assert!(d.url.is_empty() && d.timeout_ms.is_none() && d.multipart.is_none());
}

#[test]
fn redirect_policies() {
    assert_eq!(redirect_plan(&None), RedirectPlan::StackDefault);
    assert_eq!(redirect_plan(&Some(RedirectConfig { follow: false, max_redirects: 0 })), RedirectPlan::Never);
    assert_eq!(redirect_plan(&Some(RedirectConfig::default())), RedirectPlan::Limited(5));
}

#[test]
fn authorization_prefers_bearer() {
    let auth = Some(ProxyAuth { username: "user".into(), password: "pass".into() });
    assert_eq!(authorization_header(&auth, &None).unwrap(), Some("Basic dXNlcjpwYXNz".to_string()));
    assert_eq!(
        authorization_header(&auth, &Some("tok".to_string())).unwrap(),
        Some("Bearer tok".to_string())
    );
    assert_eq!(authorization_header(&None, &None).unwrap(), None);
}

#[test]
fn invalid_bearer_token_is_a_config_error() {
    match authorization_header(&None, &Some("bad\ntoken".to_string())) {
        Err(CatcherError::InvalidConfig(m)) => {
            assert_eq!(m, "invalid bearer token header: failed to parse header value")
        }
        other => panic!("unexpected {:?}", other),
    }
}

#[test]
fn transport_failures_are_classified() {
    assert!(matches!(map_middleware_error("operation timed out", 10, 30), CatcherError::RequestTimeout(30)));
    assert!(matches!(map_middleware_error("request timeout", 10, 30), CatcherError::RequestTimeout(30)));
    assert!(matches!(map_middleware_error("error trying to connect", 10, 30), CatcherError::ConnectionTimeout(10)));
    match map_middleware_error("boom", 10, 30) {
        CatcherError::Internal(m) => assert_eq!(m, "request: boom"),
        other => panic!("unexpected {:?}", other),
    }
}

#[test]
fn error_statuses_become_http_errors() {
    match response_result(404, StrMap::new(), b"missing".to_vec(), 3) {
        Err(CatcherError::HttpError { status, body }) => {
            assert_eq!(status, 404);
            assert_eq!(body, "missing");
        }
        other => panic!("unexpected {:?}", other),
    }
    match response_result(500, StrMap::new(), vec![0xff, b'a'], 3) {
        Err(CatcherError::HttpError { body, .. }) => assert_eq!(body, "\u{fffd}a"),
        other => panic!("unexpected {:?}", other),
    }
    let ok = response_result(200, StrMap::new(), b"hi".to_vec(), 12).unwrap();
    assert_eq!((ok.status, ok.body, ok.elapsed_ms), (200, b"hi".to_vec(), 12));
}

#[test]
fn multipart_form_replaces_body_and_type() {
    let mut req = post_request("/u", b"raw", "text/plain");
    let (body, ct) = request_payload(&req, "B");
    assert_eq!(body, Some(b"raw".to_vec()));
    assert_eq!(ct.as_deref(), Some("text/plain"));
    req.multipart = Some(MultipartForm::new().text("a", "1"));
    let (body, ct) = request_payload(&req, "B");
    assert_eq!(ct.as_deref(), Some("multipart/form-data; boundary=B"));
    assert_eq!(
        String::from_utf8(body.unwrap()).unwrap(),
        "--B\r\nContent-Disposition: form-data; name=\"a\"\r\n\r\n1\r\n--B--\r\n"
    );
}

#[test]
fn multipart_upload_methods() {
    assert_eq!(multipart_method(Some("PUT")), HttpMethod::PUT);
    assert_eq!(multipart_method(Some("PATCH")), HttpMethod::PATCH);
    assert_eq!(multipart_method(Some("put")), HttpMethod::POST);
    assert_eq!(multipart_method(None), HttpMethod::POST);
}

#[test]
fn stream_steps_for_each_read() {
    match stream_step(StreamRead::Chunk(vec![1, 2, 3])) {
        StreamStep::Continue(StreamEvent::Chunk(b)) => assert_eq!(b, vec![1, 2, 3]),
        other => panic!("unexpected {other:?}"),
    }
    assert!(matches!(stream_step(StreamRead::End), StreamStep::Finish(StreamEvent::Done)));
    match stream_step(StreamRead::Failed("reset".to_string())) {
        StreamStep::Abort(StreamEvent::Error(shown), CatcherError::Internal(kept)) => {
            assert_eq!(shown, "stream read error: reset");
            assert_eq!(kept, "stream read: reset");
        }
        other => panic!("unexpected {other:?}"),
    }
    match stream_step(StreamRead::Cancelled) {
        StreamStep::Abort(StreamEvent::Error(shown), CatcherError::Internal(kept)) => {
            assert_eq!(shown, "request cancelled");
            assert_eq!(kept, "request cancelled");
        }
        other => panic!("unexpected {other:?}"),
    }
}

#[test]
fn stream_event_variants() {
    let mut headers = StrMap::new();
    headers.insert("content-type".to_string(), "text/plain".to_string());
    let evt = StreamEvent::Headers { status: 200, headers };
    match &evt {
        StreamEvent::Headers { status, .. } => assert_eq!(*status, 200),
        _ => panic!("Expected Headers"),
    }

    let evt = StreamEvent::Chunk(vec![1, 2, 3]);
    match &evt {
        StreamEvent::Chunk(data) => assert_eq!(&data[..], &[1, 2, 3]),
        _ => panic!("Expected Chunk"),
    }

    assert!(matches!(StreamEvent::Done, StreamEvent::Done));

    let evt = StreamEvent::Error("test error".into());
    match &evt {
        StreamEvent::Error(msg) => assert_eq!(msg, "test error"),
        _ => panic!("Expected Error"),
    }
}

#[test]
fn upper_case_method_names() {
    assert_eq!(method_of_upper("DELETE"), Some(HttpMethod::DELETE));
    assert_eq!(method_of_upper("delete"), None);
    assert_eq!(method_or_reason("PATCH"), Ok(HttpMethod::PATCH));
    assert_eq!(method_or_reason("TRACE"), Err("Unknown HTTP method: TRACE".to_string()));
}

#[test]
fn request_headers_take_priority_over_defaults() {
    let mut defaults = StrMap::new();
    defaults.insert("X-App".to_string(), "app".to_string());
    defaults.insert("x-req".to_string(), "default".to_string());
    defaults.insert("Content-Type".to_string(), "text/plain".to_string());
    let mut own = StrMap::new();
    own.insert("X-Req".to_string(), "mine".to_string());
    let hs = request_headers(&defaults, &own, &Some("application/json".to_string()));
    assert_eq!(
        hs,
        vec![
            ("X-App".to_string(), "app".to_string()),
            ("X-Req".to_string(), "mine".to_string()),
            ("Content-Type".to_string(), "application/json".to_string()),
        ]
    );
    let hs = request_headers(&defaults, &StrMap::new(), &None);
    assert_eq!(hs.len(), 3);
}

#[test]
fn base64_encode_round_trips_through_standard_decoding() {
    use_base64_round_trip("");
    use_base64_round_trip("é");
    use_base64_round_trip("user:pässwörd!");
    use_base64_round_trip("ab");
}

fn use_base64_round_trip(s: &str) {
    let encoded = base64_encode(s);
    assert_eq!(encoded.len(), 4 * ((s.len() + 2) / 3));
    assert!(encoded.chars().all(|c| c.is_ascii_alphanumeric() || c == '+' || c == '/' || c == '='));
    let decoded = base64::Engine::decode(&base64::engine::general_purpose::STANDARD, &encoded).unwrap();
    assert_eq!(decoded, s.as_bytes());
}
