//! Server-sent events: routing of single lines, the line buffer that turns
//! received text into content lines, and the reconnection decisions of the
//! long-lived client.
use vstd::prelude::*;
use crate::error::CatcherError;
use crate::strmap::{StrMap, pair_view};
use crate::text::{
    chars_of, find_char, first_index_of, parse_u64_chars, parse_u64_spec, starts_with,
    starts_with_chars, string_of, string_of_range, sub_chars, trim, trim_chars, trim_end_char,
    trim_end_char_index, trim_start, trim_start_index,
};

verus! {

/// HTTP method of an SSE request.
#[derive(Debug, Clone, Copy, PartialEq, Eq, Structural)]
pub enum SseMethod {
    GET,
    POST,
}

impl Default for SseMethod {
    fn default() -> (r: Self)
        ensures
            r == SseMethod::GET,
    {
        SseMethod::GET
    }
}

/// What to do with one line of an event stream.
#[derive(Debug, Clone)]
pub enum RouteAction {
    /// A content line, handed to the consumer unchanged.
    Yield(String),
    /// A heartbeat, comment or empty line, consumed silently.
    Silent,
    /// An `id:` line: the id to resend as `Last-Event-ID` on reconnect.
    SetLastEventId(String),
    /// A `retry:` line: the reconnection delay in milliseconds.
    SetRetry(u64),
}

/// The abstract value of a route action.
pub ghost enum RouteKind {
    Yield(Seq<char>),
    Silent,
    SetLastEventId(Seq<char>),
    SetRetry(u64),
}

pub open spec fn route_kind(a: RouteAction) -> RouteKind {
    match a {
        RouteAction::Yield(l) => RouteKind::Yield(l@),
        RouteAction::Silent => RouteKind::Silent,
        RouteAction::SetLastEventId(id) => RouteKind::SetLastEventId(id@),
        RouteAction::SetRetry(ms) => RouteKind::SetRetry(ms),
    }
}

pub open spec fn id_prefix() -> Seq<char> {
    seq!['i', 'd', ':']
}

pub open spec fn retry_prefix() -> Seq<char> {
    seq!['r', 'e', 't', 'r', 'y', ':']
}

/// How a line is routed: empty lines and lines starting with `:` are
/// silent; `id:` sets the last event id (leading whitespace of the value
/// removed); `retry:` followed by a number (surrounding whitespace
/// removed) sets the retry delay; everything else is content.
pub open spec fn route_spec(line: Seq<char>) -> RouteKind {
    if line.len() == 0 {
        RouteKind::Silent
    } else if line[0] == ':' {
        RouteKind::Silent
    } else if starts_with(line, id_prefix()) {
        RouteKind::SetLastEventId(trim_start(line.skip(3)))
    } else if starts_with(line, retry_prefix()) && parse_u64_spec(trim(line.skip(6))) is Some {
        RouteKind::SetRetry(parse_u64_spec(trim(line.skip(6)))->0)
    } else {
        RouteKind::Yield(line)
    }
}

/// Routes the line held in `cs`.
pub fn route_chars(cs: &Vec<char>) -> (r: RouteAction)
    ensures
        route_kind(r) == route_spec(cs@),
{
    proof {
        reveal_strlit("id:");
        reveal_strlit("retry:");
        assert("id:"@ =~= id_prefix());
        assert("retry:"@ =~= retry_prefix());
    }
    if cs.len() == 0 {
        return RouteAction::Silent;
    }
    if cs[0] == ':' {
        return RouteAction::Silent;
    }
    if starts_with_chars(cs, "id:") {
        let rest = sub_chars(cs, 3, cs.len());
        let i = trim_start_index(&rest);
        assert(cs@.skip(3) == rest@);
        return RouteAction::SetLastEventId(string_of_range(&rest, i, rest.len()));
    }
    if starts_with_chars(cs, "retry:") {
        let rest = sub_chars(cs, 6, cs.len());
        let t = trim_chars(&rest);
        assert(cs@.skip(6) == rest@);
        assert(t@.subrange(0, t@.len() as int) == t@);
        if let Some(ms) = parse_u64_chars(&t, 0) {
            return RouteAction::SetRetry(ms);
        }
    }
    RouteAction::Yield(string_of(cs))
}

/// Routes a single line of an event stream.
pub fn route_line(line: &str) -> (r: RouteAction)
    ensures
        route_kind(r) == route_spec(line@),
{
    route_chars(&chars_of(line))
}

/// The abstract state of an event-stream parser.
pub ghost struct SseState {
    /// Received text not yet terminated by a newline.
    pub buffer: Seq<char>,
    /// Content lines not yet handed out, oldest first.
    pub pending: Seq<Seq<char>>,
    pub last_event_id: Seq<char>,
    pub retry: Option<u64>,
}

/// The state after routing one line.
pub open spec fn apply_route(st: SseState, k: RouteKind) -> SseState {
    match k {
        RouteKind::Yield(l) => SseState { pending: st.pending.push(l), ..st },
        RouteKind::Silent => st,
        RouteKind::SetLastEventId(id) => SseState { last_event_id: id, ..st },
        RouteKind::SetRetry(ms) => SseState { retry: Some(ms), ..st },
    }
}

/// A line as it is routed: without its trailing carriage returns.
pub open spec fn line_of(raw: Seq<char>) -> Seq<char> {
    trim_end_char(raw, '\r')
}

pub proof fn lemma_first_index_bound(s: Seq<char>, c: char)
    ensures
        first_index_of(s, c) matches Some(i) ==> 0 <= i < s.len() && s[i] == c && forall|j: int|
            0 <= j < i ==> #[trigger] s[j] != c,
    decreases s.len(),
{
    if s.len() > 0 && s[0] != c {
        lemma_first_index_bound(s.drop_first(), c);
        if let Some(i) = first_index_of(s.drop_first(), c) {
            assert forall|j: int| 0 <= j < i + 1 implies #[trigger] s[j] != c by {
                if j > 0 {
                    assert(s[j] == s.drop_first()[j - 1]);
                }
            }
        }
    }
}

/// Every complete line in the buffer, routed in order; the text after
/// the last newline stays in the buffer.
pub open spec fn drain(st: SseState) -> SseState
    decreases st.buffer.len(),
{
    match first_index_of(st.buffer, '\n') {
        None => st,
        Some(p) => {
            proof {
                lemma_first_index_bound(st.buffer, '\n');
            }
            if 0 <= p < st.buffer.len() {
                drain(
                    apply_route(
                        SseState { buffer: st.buffer.skip(p + 1), ..st },
                        route_spec(line_of(st.buffer.take(p))),
                    ),
                )
            } else {
                st
            }
        },
    }
}

/// The state after receiving `text`.
pub open spec fn feed_spec(st: SseState, text: Seq<char>) -> SseState {
    drain(SseState { buffer: st.buffer + text, ..st })
}

/// The state once the stream ended: a trailing unterminated line is routed too.
pub open spec fn finish_spec(st: SseState) -> SseState {
    if st.buffer.len() == 0 {
        st
    } else {
        apply_route(SseState { buffer: Seq::empty(), ..st }, route_spec(line_of(st.buffer)))
    }
}

pub open spec fn strings_view(v: Seq<String>) -> Seq<Seq<char>> {
    v.map_values(|s: String| s@)
}

/// Incremental parser of an event stream: received text goes in, content
/// lines come out, control lines update the last event id and the retry
/// delay.
pub struct SseParser {
    buffer: Vec<char>,
    pending: Vec<String>,
    last_event_id: String,
    reconnect_delay: Option<u64>,
}

impl View for SseParser {
    type V = SseState;

    closed spec fn view(&self) -> SseState {
        SseState {
            buffer: self.buffer@,
            pending: strings_view(self.pending@),
            last_event_id: self.last_event_id@,
            retry: self.reconnect_delay,
        }
    }
}

impl SseParser {
    /// A parser that has received nothing.
    pub fn new() -> (r: Self)
        ensures
            r@ == (SseState {
                buffer: Seq::empty(),
                pending: Seq::empty(),
                last_event_id: Seq::empty(),
                retry: None,
            }),
    {
        let r = SseParser {
            buffer: Vec::new(),
            pending: Vec::new(),
            last_event_id: String::new(),
            reconnect_delay: None,
        };
        assert(strings_view(r.pending@) == Seq::<Seq<char>>::empty());
        r
    }

    /// A parser that has received nothing on a new connection of a stream
    /// whose last event id so far is `last_event_id`.
    pub fn resume(last_event_id: String) -> (r: Self)
        ensures
            r@ == (SseState {
                buffer: Seq::empty(),
                pending: Seq::empty(),
                last_event_id: last_event_id@,
                retry: None,
            }),
    {
        let r = SseParser {
            buffer: Vec::new(),
            pending: Vec::new(),
            last_event_id,
            reconnect_delay: None,
        };
        assert(strings_view(r.pending@) == Seq::<Seq<char>>::empty());
        r
    }

    fn apply(&mut self, a: RouteAction)
        ensures
            final(self)@ == apply_route(old(self)@, route_kind(a)),
    {
        match a {
            RouteAction::Yield(l) => {
                let ghost before = self.pending@;
                self.pending.push(l);
                assert(strings_view(self.pending@) == strings_view(before).push(l@));
            },
            RouteAction::SetLastEventId(id) => {
                self.last_event_id = id;
            },
            RouteAction::SetRetry(ms) => {
                self.reconnect_delay = Some(ms);
            },
            RouteAction::Silent => {},
        }
    }

    /// Routes every complete line of the buffer.
    fn process_buffer(&mut self)
        ensures
            final(self)@ == drain(old(self)@),
        decreases old(self)@.buffer.len(),
    {
        match find_char(&self.buffer, 0, '\n') {
            None => {
                assert(self.buffer@.subrange(0, self.buffer@.len() as int) == self.buffer@);
            },
            Some(p) => {
                assert(self.buffer@.subrange(0, self.buffer@.len() as int) == self.buffer@);
                proof {
                    lemma_first_index_bound(self.buffer@, '\n');
                }
                let raw = sub_chars(&self.buffer, 0, p);
                let k = trim_end_char_index(&raw, '\r');
                let line = sub_chars(&raw, 0, k);
                assert(line@ == line_of(self.buffer@.take(p as int)));
                let rest = sub_chars(&self.buffer, p + 1, self.buffer.len());
                self.buffer = rest;
                let a = route_chars(&line);
                self.apply(a);
                self.process_buffer();
            },
        }
    }

    /// Takes in received text and routes every line it completes.
    pub fn feed(&mut self, text: &str)
        ensures
            final(self)@ == feed_spec(old(self)@, text@),
    {
        let t = chars_of(text);
        let mut i: usize = 0;
        let ghost b0 = self.buffer@;
        while i < t.len()
            invariant
                i <= t.len(),
                self.buffer@ == b0 + t@.take(i as int),
                self.pending@ == old(self).pending@,
                self.last_event_id == old(self).last_event_id,
                self.reconnect_delay == old(self).reconnect_delay,
                b0 == old(self)@.buffer,
            decreases t.len() - i,
        {
            self.buffer.push(t[i]);
            i += 1;
            assert(t@.take(i as int) == t@.take(i - 1).push(t@[i - 1]));
        }
        assert(t@.take(i as int) == t@);
        self.process_buffer();
    }

    /// Called once the stream ended: routes a trailing unterminated line.
    pub fn finish(&mut self)
        ensures
            final(self)@ == finish_spec(old(self)@),
    {
        if self.buffer.len() > 0 {
            let k = trim_end_char_index(&self.buffer, '\r');
            let line = sub_chars(&self.buffer, 0, k);
            self.buffer = Vec::new();
            let a = route_chars(&line);
            self.apply(a);
        }
    }

    /// Hands out the oldest content line not yet handed out.
    pub fn next_line(&mut self) -> (r: Option<String>)
        ensures
            old(self)@.pending.len() == 0 ==> r is None && final(self)@ == old(self)@,
            old(self)@.pending.len() > 0 ==> (r matches Some(l) && l@ == old(self)@.pending[0]),
            old(self)@.pending.len() > 0 ==> final(self)@ == (SseState {
                pending: old(self)@.pending.drop_first(),
                ..old(self)@
            }),
    {
        if self.pending.len() == 0 {
            None
        } else {
            let ghost before = self.pending@;
            let l = self.pending.remove(0);
            assert(strings_view(self.pending@) == strings_view(before).drop_first());
            Some(l)
        }
    }

    /// Number of content lines waiting to be handed out.
    pub fn pending_len(&self) -> (r: usize)
        ensures
            r == self@.pending.len(),
    {
        self.pending.len()
    }

    /// The id of the last `id:` line seen (empty if none).
    pub fn last_event_id(&self) -> (r: String)
        ensures
            r@ == self@.last_event_id,
    {
        self.last_event_id.clone()
    }

    /// The delay of the last `retry:` line seen.
    pub fn reconnect_delay(&self) -> (r: Option<u64>)
        ensures
            r == self@.retry,
    {
        self.reconnect_delay
    }
}

/// Ready state of the long-lived SSE client.
#[derive(Debug, Clone, Copy, PartialEq, Eq, Structural)]
pub enum SseReadyState {
    Connecting,
    Open,
    Closed,
}

/// How one connection attempt of the long-lived client ended.
#[derive(Debug, Clone, Copy, PartialEq, Eq, Structural)]
pub enum ConnectOutcome {
    /// The server answered 200 and the stream ended.
    StreamEnded,
    /// The server answered 204: stop reconnecting.
    NoContent,
    /// The attempt failed; the error was handed to the consumer.
    Failed,
}

/// What the client does after an attempt.
#[derive(Debug, Clone, Copy, PartialEq, Eq, Structural)]
pub enum ReconnectStep {
    /// Wait, then make attempt number `attempt` (counting from 1).
    Retry { attempt: u32 },
    /// Stop for good.
    Stop,
}

/// The decision after an attempt, given the reconnections made so far:
/// stop when the client was closed, when the server answered 204, or once
/// `max_retries` reconnections were made; otherwise reconnect.
pub open spec fn reconnect_spec(
    outcome: ConnectOutcome,
    attempts: u32,
    max_retries: u32,
    closed: bool,
) -> ReconnectStep {
    if closed || outcome == ConnectOutcome::NoContent || attempts >= max_retries {
        ReconnectStep::Stop
    } else {
        ReconnectStep::Retry { attempt: (attempts + 1) as u32 }
    }
}

pub fn reconnect_step(outcome: ConnectOutcome, attempts: u32, max_retries: u32, closed: bool) -> (r: ReconnectStep)
    ensures
        r == reconnect_spec(outcome, attempts, max_retries, closed),
{
    if closed || outcome == ConnectOutcome::NoContent || attempts >= max_retries {
        ReconnectStep::Stop
    } else {
        ReconnectStep::Retry { attempt: attempts + 1 }
    }
}

/// The number of reconnections is bounded: after `max_retries` of them the
/// client stops, and a retry never goes past the limit.
pub proof fn law_reconnects_bounded(outcome: ConnectOutcome, attempts: u32, max_retries: u32, closed: bool)
    ensures
        reconnect_spec(outcome, attempts, max_retries, closed) matches ReconnectStep::Retry {
            attempt,
        } ==> attempt <= max_retries && attempt == attempts + 1,
        attempts >= max_retries ==> reconnect_spec(outcome, attempts, max_retries, closed)
            == ReconnectStep::Stop,
        closed ==> reconnect_spec(outcome, attempts, max_retries, closed) == ReconnectStep::Stop,
{
}

/// The default reconnection limits: 10 retries, 1000 ms initial delay,
/// 30000 ms maximum delay.
pub fn default_max_retries() -> (r: u32)
    ensures
        r == 10,
{
    10
}

pub fn default_initial_delay() -> (r: u64)
    ensures
        r == 1000,
{
    1000
}

pub fn default_max_delay() -> (r: u64)
    ensures
        r == 30_000,
{
    30_000
}

pub fn default_timeout() -> (r: u64)
    ensures
        r == 30_000,
{
    30_000
}

/// The headers of one connection attempt, in the order they are added: the
/// configured ones, then `Last-Event-ID` when an event id was seen, then a
/// JSON `Content-Type` when there is a body and no content type was
/// configured.
pub open spec fn sse_headers_spec(
    headers: Seq<(Seq<char>, Seq<char>)>,
    configured: Map<Seq<char>, Seq<char>>,
    last_event_id: Seq<char>,
    has_body: bool,
) -> Seq<(Seq<char>, Seq<char>)> {
    let with_id = if last_event_id.len() > 0 {
        headers.push(("Last-Event-ID"@, last_event_id))
    } else {
        headers
    };
    if has_body && !configured.contains_key("Content-Type"@) {
        with_id.push(("Content-Type"@, "application/json"@))
    } else {
        with_id
    }
}

pub fn sse_request_headers(headers: &StrMap, last_event_id: &str, has_body: bool) -> (r: Vec<
    (String, String),
>)
    requires
        headers.wf(),
    ensures
        pair_view(r@) == sse_headers_spec(headers.pairs(), headers@, last_event_id@, has_body),
{
    let entries = headers.entries();
    let mut out: Vec<(String, String)> = Vec::new();
    let mut i: usize = 0;
    while i < entries.len()
        invariant
            i <= entries.len(),
            pair_view(entries@) == headers.pairs(),
            pair_view(out@) == headers.pairs().take(i as int),
        decreases entries.len() - i,
    {
        let ghost before = out@;
        out.push((entries[i].0.clone(), entries[i].1.clone()));
        proof {
            assert(pair_view(out@) =~= pair_view(before).push(headers.pairs()[i as int]));
            assert(headers.pairs().take(i + 1) =~= headers.pairs().take(i as int).push(
                headers.pairs()[i as int],
            ));
        }
        i += 1;
    }
    assert(headers.pairs().take(entries.len() as int) =~= headers.pairs());
    let ghost base = pair_view(out@);
    if !last_event_id.is_empty() {
        out.push((String::from_str("Last-Event-ID"), String::from_str(last_event_id)));
        assert(pair_view(out@) =~= base.push(("Last-Event-ID"@, last_event_id@)));
    }
    let ghost with_id = pair_view(out@);
    if has_body && !headers.contains_key("Content-Type") {
        out.push((String::from_str("Content-Type"), String::from_str("application/json")));
        assert(pair_view(out@) =~= with_id.push(("Content-Type"@, "application/json"@)));
    }
    out
}

/// What the client does with the status of a response.
#[derive(Debug, Clone)]
pub enum SseStatusStep {
    /// 204: the server asks the client to stop.
    Stop,
    /// 200: the stream is open.
    Open,
    /// Any other status: the attempt failed with this error.
    Fail(CatcherError),
}

/// 204 stops the client, 200 opens the stream, any other status fails the
/// attempt with an HTTP error without body.
pub fn sse_status_step(status: u16) -> (r: SseStatusStep)
    ensures
        status == 204 ==> r is Stop,
        status == 200 ==> r is Open,
        status != 204 && status != 200 ==> (r matches SseStatusStep::Fail(e) && e is HttpError
            && e->HttpError_status == status && e->HttpError_body@.len() == 0),
{
    if status == 204 {
        SseStatusStep::Stop
    } else if status == 200 {
        SseStatusStep::Open
    } else {
        SseStatusStep::Fail(CatcherError::HttpError { status, body: String::new() })
    }
}

/// The error of a connection attempt that got no response: a timeout is an
/// SSE timeout, a failure to connect a connection timeout (each naming the
/// configured timeout), anything else an internal error carrying the text.
pub fn sse_connect_error(is_timeout: bool, is_connect: bool, text: &str, timeout_ms: u64) -> (r:
    CatcherError)
    ensures
        is_timeout ==> r == CatcherError::SseTimeout(timeout_ms),
        !is_timeout && is_connect ==> r == CatcherError::ConnectionTimeout(timeout_ms),
        !is_timeout && !is_connect ==> r is Internal && r->Internal_0@ == "SSE connect: "@ + text@,
{
    if is_timeout {
        CatcherError::SseTimeout(timeout_ms)
    } else if is_connect {
        CatcherError::ConnectionTimeout(timeout_ms)
    } else {
        let mut m = String::from_str("SSE connect: ");
        m.append(text);
        CatcherError::Internal(m)
    }
}

/// The status check of a one-shot stream: only 200 opens it; any other
/// status is an HTTP error without body.
pub fn sse_stream_status(status: u16) -> (r: Result<(), CatcherError>)
    ensures
        status == 200 <==> r is Ok,
        r matches Err(e) ==> e is HttpError && e->HttpError_status == status
            && e->HttpError_body@.len() == 0,
{
    if status == 200 {
        Ok(())
    } else {
        Err(CatcherError::HttpError { status, body: String::new() })
    }
}

proof fn lemma_first_index_append(s: Seq<char>, t: Seq<char>, c: char)
    ensures
        first_index_of(s, c) is Some ==> first_index_of(s + t, c) == first_index_of(s, c),
    decreases s.len(),
{
    if s.len() > 0 && s[0] != c {
        lemma_first_index_append(s.drop_first(), t, c);
        assert((s + t).drop_first() =~= s.drop_first() + t);
    }
}

proof fn lemma_drain_append(st: SseState, t: Seq<char>)
    ensures
        drain(SseState { buffer: st.buffer + t, ..st }) == drain(
            SseState { buffer: drain(st).buffer + t, ..drain(st) },
        ),
    decreases st.buffer.len(),
{
    lemma_first_index_bound(st.buffer, '\n');
    match first_index_of(st.buffer, '\n') {
        None => {},
        Some(p) => {
            lemma_first_index_append(st.buffer, t, '\n');
            let big = SseState { buffer: st.buffer + t, ..st };
            assert(big.buffer.take(p) =~= st.buffer.take(p));
            assert(big.buffer.skip(p + 1) =~= st.buffer.skip(p + 1) + t);
            let k = route_spec(line_of(st.buffer.take(p)));
            let s1 = apply_route(SseState { buffer: st.buffer.skip(p + 1), ..st }, k);
            assert(apply_route(SseState { buffer: big.buffer.skip(p + 1), ..big }, k) == SseState {
                buffer: s1.buffer + t,
                ..s1
            });
            lemma_drain_append(s1, t);
        },
    }
}

/// Chunk boundaries do not matter: receiving `a` and then `b` leaves the
/// parser in the state that receiving `a` followed by `b` at once does.
pub proof fn law_feed_chunking(st: SseState, a: Seq<char>, b: Seq<char>)
    ensures
        feed_spec(feed_spec(st, a), b) == feed_spec(st, a + b),
{
    let s0 = SseState { buffer: st.buffer + a, ..st };
    lemma_drain_append(s0, b);
    assert(s0.buffer + b =~= st.buffer + (a + b));
}

} // verus!
