//! The values handed to mobile host languages: a two-kind error, flat
//! response records, and the events of WebSocket and SSE clients with the
//! observer interfaces that receive them.
use vstd::prelude::*;
use crate::error::{CatcherError as CoreError, message_spec};
use crate::http::HttpResponse;
use crate::strmap::pair_view;

verus! {

/// The error seen by host languages.
#[derive(Debug, Clone)]
pub enum CatcherError {
    /// A failure of the network or of the library underneath.
    Network(String),
    /// A configuration that could not be read.
    Config(String),
}

impl CatcherError {
    /// The message of the error.
    pub open spec fn message(self) -> Seq<char> {
        match self {
            CatcherError::Network(m) => "Network error: "@ + m@,
            CatcherError::Config(m) => "Config error: "@ + m@,
        }
    }

    /// The message of the error: `Network error: ...` or `Config error: ...`.
    pub fn to_string(&self) -> (r: String)
        ensures
            r@ == self.message(),
    {
        match self {
            CatcherError::Network(m) => {
                let mut s = String::from_str("Network error: ");
                s.append(m.as_str());
                s
            },
            CatcherError::Config(m) => {
                let mut s = String::from_str("Config error: ");
                s.append(m.as_str());
                s
            },
        }
    }

    /// A library error becomes a network error carrying its message.
    pub fn from_core(e: &CoreError) -> (r: CatcherError)
        ensures
            r is Network,
            r->Network_0@ == message_spec(*e),
    {
        CatcherError::Network(e.to_string())
    }
}

/// A response as a flat record, its headers as `name: value` lines.
#[derive(Debug, Clone)]
pub struct HttpResponseDto {
    pub status: u16,
    pub headers: Vec<String>,
    pub body: Vec<u8>,
    pub elapsed_ms: u64,
}

/// The header line of a name and a value.
pub open spec fn header_line(p: (Seq<char>, Seq<char>)) -> Seq<char> {
    p.0 + ": "@ + p.1
}

/// A response as a record: status, body and time unchanged, one
/// `name: value` line per header, in the order of the headers.
pub fn http_response_to_dto(resp: HttpResponse) -> (r: HttpResponseDto)
    ensures
        r.status == resp.status,
        r.body@ == resp.body@,
        r.elapsed_ms == resp.elapsed_ms,
        r.headers@.len() == resp.headers.pairs().len(),
        forall|i: int|
            0 <= i < r.headers@.len() ==> (#[trigger] r.headers@[i])@ == header_line(
                resp.headers.pairs()[i],
            ),
{
    let entries = resp.headers.entries();
    let mut headers: Vec<String> = Vec::new();
    let mut i: usize = 0;
    while i < entries.len()
        invariant
            i <= entries.len(),
            pair_view(entries@) == resp.headers.pairs(),
            headers@.len() == i,
            forall|j: int|
                0 <= j < i ==> (#[trigger] headers@[j])@ == header_line(resp.headers.pairs()[j]),
        decreases entries.len() - i,
    {
        let mut line = entries[i].0.clone();
        line.append(": ");
        line.append(entries[i].1.as_str());
        assert(resp.headers.pairs()[i as int] == (entries@[i as int].0@, entries@[i as int].1@));
        headers.push(line);
        i += 1;
    }
    HttpResponseDto { status: resp.status, headers, body: resp.body, elapsed_ms: resp.elapsed_ms }
}

/// A WebSocket client event.
#[derive(Debug, Clone)]
pub enum WsEventDto {
    Connected { url: String, latency_ms: u64 },
    Disconnected { code: u16, reason: String },
    Reconnecting { attempt: u32, delay_ms: u64 },
    Message { data: Vec<u8>, is_binary: bool },
    Error { message: String },
    HeartbeatRtt { rtt_ms: u64 },
}

/// Receives the events of a WebSocket client; host applications implement it.
pub trait WsEventObserver: Send + Sync {
    fn on_event(&self, event: WsEventDto);
}

/// A persistent SSE client event.
#[derive(Debug, Clone)]
pub enum SseEventDto {
    Open,
    Data { data: String },
    Error { message: String },
    Close,
}

/// Receives the events of a persistent SSE client; host applications
/// implement it.
pub trait SseEventObserver: Send + Sync {
    fn on_event(&self, event: SseEventDto);
}

/// The event for one line read from an SSE stream: the line's data, or the
/// error's message.
pub fn sse_line_event(line: Result<String, CoreError>) -> (r: SseEventDto)
    ensures
        match line {
            Ok(l) => r matches SseEventDto::Data { data } && data == l,
            Err(e) => r matches SseEventDto::Error { message } && message@ == message_spec(e),
        },
{
    match line {
        Ok(l) => SseEventDto::Data { data: l },
        Err(e) => SseEventDto::Error { message: e.to_string() },
    }
}

} // verus!
