//! HTTP requests, responses and client configuration, and the decisions
//! the transport takes before and after sending a request: the URL, the
//! headers and their order, the timeout, the redirect policy, the
//! `Authorization` header, and how a status or a transport failure becomes
//! an error.
use vstd::prelude::*;
use vstd::utf8::{decode_utf8, encode_utf8, valid_utf8};
use crate::base64::{base64_encode, base64_spec};
use crate::dns::DnsConfig;
use crate::error::CatcherError;
use crate::multipart::{body_spec, content_type_spec, MultipartForm};
use crate::network::{ProxyAuth, ProxyConfig, TlsConfig};
use crate::observability::Priority;
use crate::proxy_probe::{ascii_fold, eq_ignore_ascii_case};
use crate::resilience::{CircuitBreakerConfig, RetryConfig};
use crate::strmap::{StrMap, pair_view};
use crate::text::{
    chars_of, contains, contains_str, starts_with, starts_with_chars, string_of_range, to_uppercase,
    trim_end_char, trim_end_char_index, unicode_uppercase, utf8_lossy, utf8_lossy_text,
};

verus! {

/// HTTP method.
#[derive(Debug, Clone, Copy, PartialEq, Eq, Structural)]
pub enum HttpMethod {
    GET,
    POST,
    PUT,
    DELETE,
    PATCH,
}

impl Default for HttpMethod {
    fn default() -> (r: Self)
        ensures
            r == HttpMethod::GET,
    {
        HttpMethod::GET
    }
}

/// The method named by an upper-case name.
pub open spec fn method_named(name: Seq<char>) -> Option<HttpMethod> {
    if name == "GET"@ {
        Some(HttpMethod::GET)
    } else if name == "POST"@ {
        Some(HttpMethod::POST)
    } else if name == "PUT"@ {
        Some(HttpMethod::PUT)
    } else if name == "DELETE"@ {
        Some(HttpMethod::DELETE)
    } else if name == "PATCH"@ {
        Some(HttpMethod::PATCH)
    } else {
        None
    }
}

fn same_chars(cs: &Vec<char>, s: &str) -> (r: bool)
    ensures
        r == (cs@ == s@),
{
    let sv = chars_of(s);
    if sv.len() != cs.len() {
        return false;
    }
    let mut i: usize = 0;
    while i < cs.len()
        invariant
            sv@ == s@,
            sv.len() == cs.len(),
            i <= cs.len(),
            forall|j: int| 0 <= j < i ==> cs@[j] == sv@[j],
        decreases cs.len() - i,
    {
        if cs[i] != sv[i] {
            return false;
        }
        i += 1;
    }
    assert(cs@ =~= sv@);
    true
}

/// The method an upper-case name stands for.
pub fn method_of_upper(upper: &str) -> (r: Option<HttpMethod>)
    ensures
        r == method_named(upper@),
{
    let cs = chars_of(upper);
    if same_chars(&cs, "GET") {
        Some(HttpMethod::GET)
    } else if same_chars(&cs, "POST") {
        Some(HttpMethod::POST)
    } else if same_chars(&cs, "PUT") {
        Some(HttpMethod::PUT)
    } else if same_chars(&cs, "DELETE") {
        Some(HttpMethod::DELETE)
    } else if same_chars(&cs, "PATCH") {
        Some(HttpMethod::PATCH)
    } else {
        None
    }
}

/// The method a name stands for, in any letter case (`"get"`, `"Post"`).
pub fn parse_http_method(method_str: &str) -> (r: Option<HttpMethod>)
    ensures
        r == method_named(unicode_uppercase(method_str@)),
{
    method_of_upper(to_uppercase(method_str).as_str())
}

/// The method an upper-case name stands for; an unknown name is refused
/// with the reason `Unknown HTTP method: ` and the name.
pub fn method_or_reason(upper: &str) -> (r: Result<HttpMethod, String>)
    ensures
        match method_named(upper@) {
            Some(m) => r == Ok::<HttpMethod, String>(m),
            None => r matches Err(reason) && reason@ == "Unknown HTTP method: "@ + upper@,
        },
{
    match method_of_upper(upper) {
        Some(m) => Ok(m),
        None => {
            let mut reason = String::from_str("Unknown HTTP method: ");
            reason.append(upper);
            Err(reason)
        },
    }
}

/// The method a name stands for, in any letter case; an unknown name is
/// refused with the reason `Unknown HTTP method: ` and the name in upper case.
pub fn parse_method(s: &str) -> (r: Result<HttpMethod, String>)
    ensures
        match method_named(unicode_uppercase(s@)) {
            Some(m) => r == Ok::<HttpMethod, String>(m),
            None => r matches Err(reason) && reason@ == "Unknown HTTP method: "@ + unicode_uppercase(
                s@,
            ),
        },
{
    method_or_reason(to_uppercase(s).as_str())
}

/// An HTTP request.
#[derive(Debug, Clone)]
pub struct HttpRequest {
    pub method: HttpMethod,
    pub url: String,
    pub headers: StrMap,
    pub body: Option<Vec<u8>>,
    pub content_type: Option<String>,
    pub timeout_ms: Option<u64>,
    /// Scheduling priority.
    pub priority: Priority,
    /// A multipart body; when set it replaces `body` and `content_type`.
    pub multipart: Option<MultipartForm>,
}

pub fn default_priority() -> (r: Priority)
    ensures
        r == Priority::Normal,
{
    Priority::Normal
}

impl Default for HttpRequest {
    /// A GET of the empty URL at normal priority, with nothing else set.
    fn default() -> (r: Self)
        ensures
            r.method == HttpMethod::GET,
            r.url@ == Seq::<char>::empty(),
            r.headers.wf(),
            r.headers@ == Map::<Seq<char>, Seq<char>>::empty(),
            r.body is None,
            r.content_type is None,
            r.timeout_ms is None,
            r.priority == Priority::Normal,
            r.multipart is None,
    {
        HttpRequest {
            method: HttpMethod::GET,
            url: String::new(),
            headers: StrMap::new(),
            body: None,
            content_type: None,
            timeout_ms: None,
            priority: default_priority(),
            multipart: None,
        }
    }
}

/// The GET request of the `get` shortcut.
pub fn get_request(url: &str) -> (r: HttpRequest)
    ensures
        r.method == HttpMethod::GET,
        r.url@ == url@,
        r.headers.wf() && r.headers@ == Map::<Seq<char>, Seq<char>>::empty(),
        r.body is None && r.content_type is None && r.timeout_ms is None,
        r.priority == Priority::Normal && r.multipart is None,
{
    HttpRequest {
        method: HttpMethod::GET,
        url: String::from_str(url),
        headers: StrMap::new(),
        body: None,
        content_type: None,
        timeout_ms: None,
        priority: default_priority(),
        multipart: None,
    }
}

/// The POST request of the `post` shortcut.
pub fn post_request(url: &str, body: &[u8], content_type: &str) -> (r: HttpRequest)
    ensures
        r.method == HttpMethod::POST,
        r.url@ == url@,
        r.headers.wf() && r.headers@ == Map::<Seq<char>, Seq<char>>::empty(),
        r.body matches Some(b) && b@ == body@,
        r.content_type matches Some(c) && c@ == content_type@,
        r.timeout_ms is None,
        r.priority == Priority::Normal && r.multipart is None,
{
    let mut b: Vec<u8> = Vec::new();
    let mut i: usize = 0;
    while i < body.len()
        invariant
            i <= body@.len(),
            b@ == body@.take(i as int),
        decreases body@.len() - i,
    {
        b.push(body[i]);
        i += 1;
        assert(b@ =~= body@.take(i as int));
    }
    assert(body@.take(body@.len() as int) =~= body@);
    HttpRequest {
        method: HttpMethod::POST,
        url: String::from_str(url),
        headers: StrMap::new(),
        body: Some(b),
        content_type: Some(String::from_str(content_type)),
        timeout_ms: None,
        priority: default_priority(),
        multipart: None,
    }
}

/// An HTTP response.
#[derive(Debug, Clone)]
pub struct HttpResponse {
    pub status: u16,
    pub headers: StrMap,
    pub body: Vec<u8>,
    pub elapsed_ms: u64,
}

/// An event of a streamed response, in the order they come: the headers,
/// the body in chunks, then `Done` or an `Error`.
#[derive(Debug, Clone)]
pub enum StreamEvent {
    Headers { status: u16, headers: StrMap },
    Chunk(Vec<u8>),
    Done,
    Error(String),
}

/// One read of a streamed body.
#[derive(Debug, Clone)]
pub enum StreamRead {
    /// Bytes arrived.
    Chunk(Vec<u8>),
    /// The body ended.
    End,
    /// Reading failed with this message.
    Failed(String),
    /// The request was cancelled.
    Cancelled,
}

/// What the streaming loop does after a read.
#[derive(Debug, Clone)]
pub enum StreamStep {
    /// Report the event and read on.
    Continue(StreamEvent),
    /// Report the event and end successfully.
    Finish(StreamEvent),
    /// Report the event and end with the error.
    Abort(StreamEvent, CatcherError),
}

/// A chunk is passed on and reading goes on; the end of the body is
/// reported as `Done`; a failed read is reported as `stream read error: `
/// and the message, and ends the stream with an internal error
/// `stream read: ` and the message; a cancelled request is reported and
/// ends the stream with `request cancelled`.
pub fn stream_step(read: StreamRead) -> (r: StreamStep)
    ensures
        match read {
            StreamRead::Chunk(bytes) => r == StreamStep::Continue(StreamEvent::Chunk(bytes)),
            StreamRead::End => r == StreamStep::Finish(StreamEvent::Done),
            StreamRead::Failed(m) => r matches StreamStep::Abort(
                StreamEvent::Error(shown),
                CatcherError::Internal(kept),
            ) && shown@ == "stream read error: "@ + m@ && kept@ == "stream read: "@ + m@,
            StreamRead::Cancelled => r matches StreamStep::Abort(
                StreamEvent::Error(shown),
                CatcherError::Internal(kept),
            ) && shown@ == "request cancelled"@ && kept@ == "request cancelled"@,
        },
{
    match read {
        StreamRead::Chunk(bytes) => StreamStep::Continue(StreamEvent::Chunk(bytes)),
        StreamRead::End => StreamStep::Finish(StreamEvent::Done),
        StreamRead::Failed(m) => {
            let mut shown = String::from_str("stream read error: ");
            shown.append(m.as_str());
            let mut kept = String::from_str("stream read: ");
            kept.append(m.as_str());
            StreamStep::Abort(StreamEvent::Error(shown), CatcherError::Internal(kept))
        },
        StreamRead::Cancelled => StreamStep::Abort(
            StreamEvent::Error(String::from_str("request cancelled")),
            CatcherError::Internal(String::from_str("request cancelled")),
        ),
    }
}

/// Connection pool settings.
#[derive(Debug, Clone, Copy, PartialEq, Eq, Structural)]
pub struct PoolConfig {
    /// Idle connections kept per host.
    pub max_idle_per_host: usize,
    /// Seconds an idle connection is kept.
    pub idle_timeout_secs: u64,
    /// Whether TCP keepalive is on.
    pub keep_alive: bool,
    /// Seconds between keepalive probes.
    pub keep_alive_interval_secs: u64,
}

pub fn default_max_idle_per_host() -> (r: usize)
    ensures
        r == 10,
{
    10
}

pub fn default_idle_timeout_secs() -> (r: u64)
    ensures
        r == 30,
{
    30
}

pub fn default_keep_alive_interval() -> (r: u64)
    ensures
        r == 20,
{
    20
}

impl Default for PoolConfig {
    /// Ten idle connections per host for 30 s, keepalive every 20 s.
    fn default() -> (r: Self)
        ensures
            r == (PoolConfig {
                max_idle_per_host: 10,
                idle_timeout_secs: 30,
                keep_alive: true,
                keep_alive_interval_secs: 20,
            }),
    {
        PoolConfig {
            max_idle_per_host: default_max_idle_per_host(),
            idle_timeout_secs: default_idle_timeout_secs(),
            keep_alive: crate::resilience::default_true(),
            keep_alive_interval_secs: default_keep_alive_interval(),
        }
    }
}

/// The keepalive interval of a pool, `None` when keepalive is off.
pub fn tcp_keepalive_secs(pool: &PoolConfig) -> (r: Option<u64>)
    ensures
        r == (if pool.keep_alive {
            Some(pool.keep_alive_interval_secs)
        } else {
            None
        }),
{
    if pool.keep_alive {
        Some(pool.keep_alive_interval_secs)
    } else {
        None
    }
}

/// Redirect settings.
#[derive(Debug, Clone, Copy, PartialEq, Eq, Structural)]
pub struct RedirectConfig {
    /// Whether redirects are followed.
    pub follow: bool,
    /// Most redirects followed.
    pub max_redirects: u32,
}

pub fn default_max_redirects() -> (r: u32)
    ensures
        r == 5,
{
    5
}

impl Default for RedirectConfig {
    /// Up to five redirects are followed.
    fn default() -> (r: Self)
        ensures
            r == (RedirectConfig { follow: true, max_redirects: 5 }),
    {
        RedirectConfig { follow: true, max_redirects: default_max_redirects() }
    }
}

/// The redirect policy handed to the HTTP stack.
#[derive(Debug, Clone, Copy, PartialEq, Eq, Structural)]
pub enum RedirectPlan {
    /// The stack's own default.
    StackDefault,
    /// No redirect is followed.
    Never,
    /// Up to this many redirects are followed.
    Limited(u32),
}

/// No configuration keeps the stack's default; otherwise redirects are
/// followed up to the limit, or not at all.
pub fn redirect_plan(redirect: &Option<RedirectConfig>) -> (r: RedirectPlan)
    ensures
        r == match redirect {
            None => RedirectPlan::StackDefault,
            Some(c) => if c.follow {
                RedirectPlan::Limited(c.max_redirects)
            } else {
                RedirectPlan::Never
            },
        },
{
    match redirect {
        None => RedirectPlan::StackDefault,
        Some(c) => if c.follow {
            RedirectPlan::Limited(c.max_redirects)
        } else {
            RedirectPlan::Never
        },
    }
}

/// HTTP client settings.
#[derive(Debug, Clone)]
pub struct HttpClientConfig {
    /// Prefix of relative request URLs.
    pub base_url: String,
    pub connect_timeout_ms: u64,
    pub response_timeout_ms: u64,
    pub pool: PoolConfig,
    pub tls: TlsConfig,
    pub dns: Option<DnsConfig>,
    pub retry: Option<RetryConfig>,
    pub circuit_breaker: Option<CircuitBreakerConfig>,
    /// Most requests in flight.
    pub max_concurrency: u32,
    /// Headers sent with every request.
    pub default_headers: StrMap,
    pub hostname_override: Option<String>,
    pub proxy: Option<ProxyConfig>,
    pub redirect: Option<RedirectConfig>,
    /// Basic authentication.
    pub auth: Option<ProxyAuth>,
    pub bearer_token: Option<String>,
    /// Whether bodies are transcoded between JSON and msgpack.
    pub msgpack: bool,
    /// Version of the network path, changed by the host platform when the
    /// network changes.
    pub network_path_id: Option<String>,
}

pub fn default_connect_timeout() -> (r: u64)
    ensures
        r == 10_000,
{
    10_000
}

pub fn default_response_timeout() -> (r: u64)
    ensures
        r == 30_000,
{
    30_000
}

pub fn default_max_concurrency() -> (r: u32)
    ensures
        r == 50,
{
    50
}

impl Default for HttpClientConfig {
    /// No base URL, 10 s to connect, 30 s for a response, default pool and
    /// TLS, 50 requests in flight, nothing else set.
    fn default() -> (r: Self)
        ensures
            r.base_url@ == Seq::<char>::empty(),
            r.connect_timeout_ms == 10_000,
            r.response_timeout_ms == 30_000,
            r.pool == (PoolConfig {
                max_idle_per_host: 10,
                idle_timeout_secs: 30,
                keep_alive: true,
                keep_alive_interval_secs: 20,
            }),
            r.tls.reject_unauthorized,
            r.tls.pin_sha256 is None,
            r.dns is None,
            r.retry is None,
            r.circuit_breaker is None,
            r.max_concurrency == 50,
            r.default_headers.wf(),
            r.default_headers@ == Map::<Seq<char>, Seq<char>>::empty(),
            r.hostname_override is None,
            r.proxy is None,
            r.redirect is None,
            r.auth is None,
            r.bearer_token is None,
            !r.msgpack,
            r.network_path_id is None,
    {
        HttpClientConfig {
            base_url: String::new(),
            connect_timeout_ms: default_connect_timeout(),
            response_timeout_ms: default_response_timeout(),
            pool: PoolConfig::default(),
            tls: TlsConfig::default(),
            dns: None,
            retry: None,
            circuit_breaker: None,
            max_concurrency: default_max_concurrency(),
            default_headers: StrMap::new(),
            hostname_override: None,
            proxy: None,
            redirect: None,
            auth: None,
            bearer_token: None,
            msgpack: false,
            network_path_id: None,
        }
    }
}

/// The URL a request goes to: an absolute URL (one starting with `http`)
/// as is, else the base URL without trailing slashes followed by it.
pub open spec fn resolved_url(base: Seq<char>, url: Seq<char>) -> Seq<char> {
    if starts_with(url, "http"@) {
        url
    } else {
        trim_end_char(base, '/') + url
    }
}

pub fn resolve_url(base_url: &str, url: &str) -> (r: String)
    ensures
        r@ == resolved_url(base_url@, url@),
{
    let uc = chars_of(url);
    if starts_with_chars(&uc, "http") {
        return String::from_str(url);
    }
    let bc = chars_of(base_url);
    let k = trim_end_char_index(&bc, '/');
    let mut out = string_of_range(&bc, 0, k);
    out.append(url);
    out
}

/// The time a request may take: its own timeout, else the adaptive one
/// when adaptive timeouts are on, else the configured response timeout.
pub fn request_timeout(
    request_timeout_ms: Option<u64>,
    adaptive_timeout_ms: Option<u64>,
    response_timeout_ms: u64,
) -> (r: u64)
    ensures
        r == match request_timeout_ms {
            Some(t) => t,
            None => match adaptive_timeout_ms {
                Some(a) => a,
                None => response_timeout_ms,
            },
        },
{
    match request_timeout_ms {
        Some(t) => t,
        None => match adaptive_timeout_ms {
            Some(a) => a,
            None => response_timeout_ms,
        },
    }
}

fn copy_pairs(out: &mut Vec<(String, String)>, m: &StrMap)
    ensures
        pair_view(final(out)@) == pair_view(old(out)@) + m.pairs(),
{
    let entries = m.entries();
    let mut i: usize = 0;
    while i < entries.len()
        invariant
            i <= entries.len(),
            pair_view(entries@) == m.pairs(),
            pair_view(out@) == pair_view(old(out)@) + m.pairs().take(i as int),
        decreases entries.len() - i,
    {
        let ghost before = out@;
        out.push((entries[i].0.clone(), entries[i].1.clone()));
        proof {
            assert(pair_view(out@) =~= pair_view(before).push(m.pairs()[i as int]));
            assert(m.pairs().take(i + 1) =~= m.pairs().take(i as int).push(m.pairs()[i as int]));
        }
        i += 1;
    }
    assert(m.pairs().take(entries.len() as int) =~= m.pairs());
}

/// The `Content-Type` header of a request that names one.
pub open spec fn content_type_pairs(ct: Option<String>) -> Seq<(Seq<char>, Seq<char>)> {
    match ct {
        Some(c) => seq![("Content-Type"@, c@)],
        None => Seq::empty(),
    }
}

/// A header of this name is among `own` (names compare without regard to
/// ASCII letter case, as HTTP header names do).
pub open spec fn names_header(own: Seq<(Seq<char>, Seq<char>)>, name: Seq<char>) -> bool {
    exists|j: int| 0 <= j < own.len() && eq_ignore_ascii_case(#[trigger] own[j].0, name)
}

/// The default headers that a request's own headers leave in place: those
/// whose name the request does not set itself.
pub open spec fn kept_defaults(
    defaults: Seq<(Seq<char>, Seq<char>)>,
    own: Seq<(Seq<char>, Seq<char>)>,
) -> Seq<(Seq<char>, Seq<char>)> {
    defaults.filter(|p: (Seq<char>, Seq<char>)| !names_header(own, p.0))
}

fn fold_ascii(c: char) -> (r: char)
    ensures
        r == ascii_fold(c),
{
    if 'A' <= c && c <= 'Z' {
        let b: u8 = (c as u8) + 32;
        b as char
    } else {
        c
    }
}

fn same_header_name(a: &str, b: &str) -> (r: bool)
    ensures
        r == eq_ignore_ascii_case(a@, b@),
{
    let x = chars_of(a);
    let y = chars_of(b);
    if x.len() != y.len() {
        return false;
    }
    let mut i: usize = 0;
    while i < x.len()
        invariant
            x@ == a@,
            y@ == b@,
            x.len() == y.len(),
            i <= x.len(),
            forall|j: int| 0 <= j < i ==> ascii_fold(#[trigger] x@[j]) == ascii_fold(y@[j]),
        decreases x.len() - i,
    {
        if fold_ascii(x[i]) != fold_ascii(y[i]) {
            return false;
        }
        i += 1;
    }
    true
}

fn sets_header(own: &Vec<(String, String)>, name: &str) -> (r: bool)
    ensures
        r == names_header(pair_view(own@), name@),
{
    let ghost o = pair_view(own@);
    let mut j: usize = 0;
    while j < own.len()
        invariant
            o == pair_view(own@),
            j <= own.len(),
            forall|k: int| 0 <= k < j ==> !eq_ignore_ascii_case(#[trigger] o[k].0, name@),
        decreases own.len() - j,
    {
        assert(o[j as int].0 == own@[j as int].0@);
        if same_header_name(own[j].0.as_str(), name) {
            return true;
        }
        j += 1;
    }
    false
}

/// The headers a request is sent with, in the order they are added: the
/// client's default headers, then the request's own, then the content type
/// of its payload. The request's headers take priority: a default header
/// whose name the request sets itself (its own headers or its content
/// type) is left out.
pub fn request_headers(defaults: &StrMap, headers: &StrMap, content_type: &Option<String>) -> (r: Vec<
    (String, String),
>)
    ensures
        pair_view(r@) == kept_defaults(
            defaults.pairs(),
            headers.pairs() + content_type_pairs(*content_type),
        ) + headers.pairs() + content_type_pairs(*content_type),
{
    let mut own: Vec<(String, String)> = Vec::new();
    assert(pair_view(own@) =~= Seq::<(Seq<char>, Seq<char>)>::empty());
    copy_pairs(&mut own, headers);
    match content_type {
        Some(c) => {
            let ghost before = own@;
            own.push((String::from_str("Content-Type"), c.clone()));
            assert(pair_view(own@) =~= pair_view(before) + content_type_pairs(*content_type));
        },
        None => {
            assert(pair_view(own@) =~= pair_view(own@) + content_type_pairs(*content_type));
        },
    }
    let ghost ov = pair_view(own@);
    let ghost dp = defaults.pairs();
    let entries = defaults.entries();
    let mut out: Vec<(String, String)> = Vec::new();
    let mut i: usize = 0;
    while i < entries.len()
        invariant
            ov == pair_view(own@),
            dp == defaults.pairs(),
            pair_view(entries@) == dp,
            i <= entries.len(),
            pair_view(out@) == kept_defaults(dp.take(i as int), ov),
        decreases entries.len() - i,
    {
        let ghost before = out@;
        proof {
            assert(dp.take(i + 1).drop_last() =~= dp.take(i as int));
            reveal_with_fuel(Seq::filter, 1);
            assert(dp[i as int] == (entries@[i as int].0@, entries@[i as int].1@));
        }
        if !sets_header(&own, entries[i].0.as_str()) {
            out.push((entries[i].0.clone(), entries[i].1.clone()));
            assert(pair_view(out@) =~= pair_view(before).push(dp[i as int]));
        }
        i += 1;
    }
    assert(dp.take(entries.len() as int) =~= dp);
    let ghost kept = out@;
    let mut k: usize = 0;
    while k < own.len()
        invariant
            ov == pair_view(own@),
            k <= own.len(),
            pair_view(out@) == pair_view(kept) + ov.take(k as int),
        decreases own.len() - k,
    {
        let ghost before = out@;
        out.push((own[k].0.clone(), own[k].1.clone()));
        assert(pair_view(out@) =~= pair_view(before).push(ov[k as int]));
        assert(ov.take(k + 1) =~= ov.take(k as int).push(ov[k as int]));
        k += 1;
    }
    assert(ov.take(own.len() as int) =~= ov);
    assert(pair_view(out@) =~= kept_defaults(dp, ov) + headers.pairs() + content_type_pairs(
        *content_type,
    ));
    out
}

/// The body and content type a request is sent with, when a multipart
/// boundary of `boundary` is used: a multipart form replaces both with its
/// encoding and its `multipart/form-data` type; otherwise they are the
/// request's own.
pub fn request_payload(request: &HttpRequest, boundary: &str) -> (r: (Option<Vec<u8>>, Option<String>))
    ensures
        request.multipart is Some ==> {
            &&& r.0 is Some
            &&& r.0->0@ == body_spec(request.multipart->0@, boundary@)
            &&& r.1 is Some
            &&& r.1->0@ == content_type_spec(boundary@)
        },
        request.multipart is None ==> match request.body {
            Some(b) => r.0 is Some && r.0->0@ == b@,
            None => r.0 is None,
        },
        request.multipart is None ==> match request.content_type {
            Some(c) => r.1 is Some && r.1->0@ == c@,
            None => r.1 is None,
        },
{
    match &request.multipart {
        Some(form) => {
            let (body, ct) = form.encode_with_boundary(boundary);
            (Some(body), Some(ct))
        },
        None => {
            let body = match &request.body {
                Some(b) => Some(b.clone()),
                None => None,
            };
            let ct = match &request.content_type {
                Some(c) => Some(c.clone()),
                None => None,
            };
            (body, ct)
        },
    }
}

/// The method of a multipart upload through the C interface: `PUT` or
/// `PATCH` when named exactly so, `POST` otherwise.
pub fn multipart_method(name: Option<&str>) -> (r: HttpMethod)
    ensures
        r == match name {
            Some(n) => if n@ == "PUT"@ {
                HttpMethod::PUT
            } else if n@ == "PATCH"@ {
                HttpMethod::PATCH
            } else {
                HttpMethod::POST
            },
            None => HttpMethod::POST,
        },
{
    match name {
        Some(n) => {
            let cs = chars_of(n);
            if same_chars(&cs, "PUT") {
                HttpMethod::PUT
            } else if same_chars(&cs, "PATCH") {
                HttpMethod::PATCH
            } else {
                HttpMethod::POST
            }
        },
        None => HttpMethod::POST,
    }
}

/// A byte that may stand in a header value: visible ASCII, space, tab or
/// any byte of a multi-byte character.
pub open spec fn header_byte_ok(b: u8) -> bool {
    (b >= 32 && b != 127) || b == 9
}

/// Text that is a valid header value.
pub open spec fn header_value_ok(s: Seq<char>) -> bool {
    forall|i: int| 0 <= i < encode_utf8(s).len() ==> header_byte_ok(#[trigger] encode_utf8(s)[i])
}

/// `reqwest::header::HeaderValue::from_str` (the `http` crate's
/// `HeaderValue`) accepts a string exactly when each of its bytes is a
/// visible ASCII character, a space, a tab, or a byte of a multi-byte
/// character.
#[verifier::external_body]
fn is_header_value(s: &str) -> (r: bool)
    ensures
        r == header_value_ok(s@),
{
    reqwest::header::HeaderValue::from_str(s).is_ok()
}

/// The text of the error `http` gives for an invalid header value.
pub open spec fn invalid_header_text() -> Seq<char> {
    "failed to parse header value"@
}

/// The `Basic` value for a user and password.
pub open spec fn basic_value(user: Seq<char>, password: Seq<char>) -> Seq<char> {
    "Basic "@ + base64_spec(encode_utf8(user + ":"@ + password))
}

/// The `Authorization` header a client sends with every request: a bearer
/// token takes precedence over basic credentials; a value that is not a
/// valid header value is an invalid configuration.
pub open spec fn authorization_spec(auth: Option<ProxyAuth>, bearer: Option<String>) -> Result<
    Option<Seq<char>>,
    Seq<char>,
> {
    let basic: Result<Option<Seq<char>>, Seq<char>> = match auth {
        None => Ok(None),
        Some(a) => {
            let v = basic_value(a.username@, a.password@);
            if header_value_ok(v) {
                Ok(Some(v))
            } else {
                Err("invalid basic auth header: "@ + invalid_header_text())
            }
        },
    };
    match basic {
        Err(e) => Err(e),
        Ok(b) => match bearer {
            None => Ok(b),
            Some(t) => {
                let v = "Bearer "@ + t@;
                if header_value_ok(v) {
                    Ok(Some(v))
                } else {
                    Err("invalid bearer token header: "@ + invalid_header_text())
                }
            },
        },
    }
}

/// The `Authorization` header of a client, or the invalid-configuration
/// error that stops it from being built.
pub fn authorization_header(auth: &Option<ProxyAuth>, bearer: &Option<String>) -> (r: Result<
    Option<String>,
    CatcherError,
>)
    ensures
        match (r, authorization_spec(*auth, *bearer)) {
            (Ok(Some(v)), Ok(Some(w))) => v@ == w,
            (Ok(None), Ok(None)) => true,
            (Err(e), Err(m)) => e is InvalidConfig && e->InvalidConfig_0@ == m,
            _ => false,
        },
{
    let basic: Option<String> = match auth {
        None => None,
        Some(a) => {
            let mut creds = a.username.clone();
            creds.append(":");
            creds.append(a.password.as_str());
            let encoded = base64_encode(creds.as_str());
            let mut v = String::from_str("Basic ");
            v.append(encoded.as_str());
            assert(v@ == basic_value(a.username@, a.password@));
            if !is_header_value(v.as_str()) {
                let mut m = String::from_str("invalid basic auth header: ");
                m.append("failed to parse header value");
                return Err(CatcherError::InvalidConfig(m));
            }
            Some(v)
        },
    };
    match bearer {
        None => Ok(basic),
        Some(t) => {
            let mut v = String::from_str("Bearer ");
            v.append(t.as_str());
            if !is_header_value(v.as_str()) {
                let mut m = String::from_str("invalid bearer token header: ");
                m.append("failed to parse header value");
                return Err(CatcherError::InvalidConfig(m));
            }
            Ok(Some(v))
        },
    }
}

/// How a transport failure is read from its text.
#[derive(Debug, Clone, Copy, PartialEq, Eq, Structural)]
pub enum TransportFailure {
    /// The text mentions a timeout.
    Timeout,
    /// The text mentions connecting.
    Connect,
    /// Anything else.
    Other,
}

/// The kind of a transport failure: `timeout` or `timed out` in its text
/// make it a timeout, else `connect` or `connection` a connection failure.
pub open spec fn failure_kind(msg: Seq<char>) -> TransportFailure {
    if contains(msg, "timeout"@) || contains(msg, "timed out"@) {
        TransportFailure::Timeout
    } else if contains(msg, "connect"@) || contains(msg, "connection"@) {
        TransportFailure::Connect
    } else {
        TransportFailure::Other
    }
}

/// The error of a request the transport could not complete, from the text
/// of the transport's failure: a timeout is a request timeout and a failure
/// to connect a connection timeout, each naming the configured limit;
/// anything else is an internal error carrying the text.
pub fn map_middleware_error(message: &str, connect_timeout_ms: u64, response_timeout_ms: u64) -> (r:
    CatcherError)
    ensures
        match failure_kind(message@) {
            TransportFailure::Timeout => r == CatcherError::RequestTimeout(response_timeout_ms),
            TransportFailure::Connect => r == CatcherError::ConnectionTimeout(connect_timeout_ms),
            TransportFailure::Other => r is Internal && r->Internal_0@ == "request: "@ + message@,
        },
{
    let mc = chars_of(message);
    if contains_str(&mc, "timeout") || contains_str(&mc, "timed out") {
        return CatcherError::RequestTimeout(response_timeout_ms);
    }
    if contains_str(&mc, "connect") || contains_str(&mc, "connection") {
        return CatcherError::ConnectionTimeout(connect_timeout_ms);
    }
    let mut m = String::from_str("request: ");
    m.append(message);
    CatcherError::Internal(m)
}

/// What a received response becomes: a status of 400 or more is an HTTP
/// error carrying the status and the body as text (decoded when it is
/// UTF-8, with replacement characters otherwise), anything else the
/// response itself.
pub fn response_result(status: u16, headers: StrMap, body: Vec<u8>, elapsed_ms: u64) -> (r: Result<
    HttpResponse,
    CatcherError,
>)
    ensures
        match r {
            Err(e) => status >= 400 && e is HttpError && e->HttpError_status == status
                && e->HttpError_body@ == utf8_lossy_text(body@) && (valid_utf8(body@)
                ==> e->HttpError_body@ == decode_utf8(body@)),
            Ok(resp) => status < 400 && resp.status == status && resp.headers.pairs()
                == headers.pairs() && resp.body@ == body@ && resp.elapsed_ms == elapsed_ms,
        },
{
    if status >= 400 {
        let text = utf8_lossy(body.as_slice());
        return Err(CatcherError::HttpError { status, body: text });
    }
    Ok(HttpResponse { status, headers, body, elapsed_ms })
}

} // verus!
