//! The request an HTTP proxy receives: reading the head of the request,
//! telling a `CONNECT` tunnel from a forwarded request, and the answer a
//! test proxy gives to each.
use vstd::prelude::*;
use vstd::utf8::{decode_utf8, valid_utf8};
use crate::retry_after::{split_whitespace, words};
use crate::text::{chars_of, find_char, first_index_of, string_of, sub_chars, utf8_decode};

verus! {

/// The request an HTTP proxy received.
#[derive(Debug, Clone, PartialEq, Eq)]
pub enum HttpProxyRequest {
    /// A tunnel to `authority` (`host:port`).
    Connect { authority: String },
    /// A request to forward.
    Forward { method: String, uri: String },
}

/// Why a proxy request could not be read.
#[derive(Debug, Clone, Copy, PartialEq, Eq, Structural)]
pub enum ProxyRequestError {
    /// The bytes are not UTF-8.
    InvalidUtf8,
    /// There is no request line.
    MissingRequestLine,
    /// The request line names no method.
    MissingMethod,
    /// The request line names no target.
    MissingTarget,
}

/// The end of a request head, `\r\n\r\n`.
pub open spec fn head_end() -> Seq<u8> {
    seq![13u8, 10u8, 13u8, 10u8]
}

/// The bytes hold the end of a request head.
pub open spec fn has_head_end(b: Seq<u8>) -> bool {
    exists|i: int| 0 <= i && i + 4 <= b.len() && #[trigger] b.subrange(i, i + 4) == head_end()
}

/// Whether `bytes` hold the end of a request head.
pub fn head_complete(bytes: &Vec<u8>) -> (r: bool)
    ensures
        r == has_head_end(bytes@),
{
    let n = bytes.len();
    if n < 4 {
        assert forall|i: int| 0 <= i && i + 4 <= bytes@.len() implies #[trigger] bytes@.subrange(
            i,
            i + 4,
        ) != head_end() by {}
        return false;
    }
    let mut i: usize = 0;
    while i <= n - 4
        invariant
            n == bytes.len(),
            n >= 4,
            i <= n - 3,
            forall|j: int| 0 <= j < i ==> #[trigger] bytes@.subrange(j, j + 4) != head_end(),
        decreases n - i,
    {
        if bytes[i] == 13 && bytes[i + 1] == 10 && bytes[i + 2] == 13 && bytes[i + 3] == 10 {
            assert(bytes@.subrange(i as int, i + 4) =~= head_end());
            return true;
        }
        assert(bytes@.subrange(i as int, i + 4)[0] == bytes@[i as int]);
        assert(bytes@.subrange(i as int, i + 4)[1] == bytes@[i + 1]);
        assert(bytes@.subrange(i as int, i + 4)[2] == bytes@[i + 2]);
        assert(bytes@.subrange(i as int, i + 4)[3] == bytes@[i + 3]);
        i += 1;
    }
    false
}

/// What a proxy does after reading another chunk of a request head.
#[derive(Debug, Clone, Copy, PartialEq, Eq, Structural)]
pub enum HeadReadStep {
    /// The head is complete.
    Done,
    /// More bytes are needed.
    Continue,
    /// More than 8192 bytes came without the end of the head.
    TooLarge,
}

/// The step after a read: a complete head is done; otherwise more than
/// 8192 bytes is too large, and fewer call for another read.
pub fn head_read_step(bytes: &Vec<u8>) -> (r: HeadReadStep)
    ensures
        r == (if has_head_end(bytes@) {
            HeadReadStep::Done
        } else if bytes@.len() > 8192 {
            HeadReadStep::TooLarge
        } else {
            HeadReadStep::Continue
        }),
{
    if head_complete(bytes) {
        HeadReadStep::Done
    } else if bytes.len() > 8192 {
        HeadReadStep::TooLarge
    } else {
        HeadReadStep::Continue
    }
}

/// The first line of a text (`str::lines`): everything before the first
/// newline without one carriage return before it; the whole text when
/// there is no newline; none for the empty text.
pub open spec fn first_line(t: Seq<char>) -> Option<Seq<char>> {
    if t.len() == 0 {
        None
    } else {
        match first_index_of(t, '\n') {
            None => Some(t),
            Some(k) => {
                let seg = t.take(k);
                if seg.len() > 0 && seg.last() == '\r' {
                    Some(seg.drop_last())
                } else {
                    Some(seg)
                }
            },
        }
    }
}

/// ASCII case-insensitive character equality.
pub open spec fn ascii_fold(c: char) -> char {
    if 'A' <= c <= 'Z' {
        ((c as u32) + 32) as char
    } else {
        c
    }
}

/// Two texts equal up to ASCII letter case (`eq_ignore_ascii_case`).
pub open spec fn eq_ignore_ascii_case(a: Seq<char>, b: Seq<char>) -> bool {
    a.len() == b.len() && forall|i: int| 0 <= i < a.len() ==> ascii_fold(#[trigger] a[i]) == ascii_fold(b[i])
}

/// The request a proxy reads from the head bytes: the first two words of
/// the first line are the method and the target; a `CONNECT` method (in
/// any letter case) asks for a tunnel to the target, any other for a
/// forwarded request.
pub open spec fn proxy_request_spec(b: Seq<u8>) -> Result<(bool, Seq<char>, Seq<char>), ProxyRequestError> {
    if !valid_utf8(b) {
        Err(ProxyRequestError::InvalidUtf8)
    } else {
        match first_line(decode_utf8(b)) {
            None => Err(ProxyRequestError::MissingRequestLine),
            Some(line) => {
                let w = words(line);
                if w.len() == 0 {
                    Err(ProxyRequestError::MissingMethod)
                } else if w.len() == 1 {
                    Err(ProxyRequestError::MissingTarget)
                } else {
                    Ok((eq_ignore_ascii_case(w[0], "CONNECT"@), w[0], w[1]))
                }
            },
        }
    }
}

fn fold_char(c: char) -> (r: char)
    ensures
        r == ascii_fold(c),
{
    if 'A' <= c && c <= 'Z' {
        let b: u8 = (c as u8) + 32;
        b as char
    } else {
        c
    }
}

fn is_connect(w: &Vec<char>) -> (r: bool)
    ensures
        r == eq_ignore_ascii_case(w@, "CONNECT"@),
{
    let target = chars_of("CONNECT");
    if w.len() != target.len() {
        return false;
    }
    let mut i: usize = 0;
    while i < w.len()
        invariant
            target@ == "CONNECT"@,
            w.len() == target.len(),
            i <= w.len(),
            forall|j: int| 0 <= j < i ==> ascii_fold(#[trigger] w@[j]) == ascii_fold(target@[j]),
        decreases w.len() - i,
    {
        if fold_char(w[i]) != fold_char(target[i]) {
            return false;
        }
        i += 1;
    }
    true
}

/// Reads the request from the head bytes of a proxy connection.
pub fn parse_proxy_request(bytes: &[u8]) -> (r: Result<HttpProxyRequest, ProxyRequestError>)
    ensures
        match (r, proxy_request_spec(bytes@)) {
            (Ok(HttpProxyRequest::Connect { authority }), Ok((true, _, target))) => authority@
                == target,
            (Ok(HttpProxyRequest::Forward { method, uri }), Ok((false, m, target))) => method@ == m
                && uri@ == target,
            (Err(e), Err(f)) => e == f,
            _ => false,
        },
{
    let text = match utf8_decode(bytes) {
        Some(t) => t,
        None => {
            return Err(ProxyRequestError::InvalidUtf8);
        },
    };
    let tc = chars_of(text.as_str());
    if tc.len() == 0 {
        return Err(ProxyRequestError::MissingRequestLine);
    }
    let line = match find_char(&tc, 0, '\n') {
        None => {
            assert(tc@.subrange(0, tc@.len() as int) == tc@);
            sub_chars(&tc, 0, tc.len())
        },
        Some(k) => {
            assert(tc@.subrange(0, tc@.len() as int) == tc@);
            if k > 0 && tc[k - 1] == '\r' {
                sub_chars(&tc, 0, k - 1)
            } else {
                sub_chars(&tc, 0, k)
            }
        },
    };
    assert(first_line(tc@) == Some(line@));
    let w = split_whitespace(&line);
    assert(w@.len() == words(line@).len());
    if w.len() == 0 {
        return Err(ProxyRequestError::MissingMethod);
    }
    if w.len() == 1 {
        return Err(ProxyRequestError::MissingTarget);
    }
    assert(w@[0]@ == words(line@)[0]);
    assert(w@[1]@ == words(line@)[1]);
    if is_connect(&w[0]) {
        Ok(HttpProxyRequest::Connect { authority: string_of(&w[1]) })
    } else {
        Ok(HttpProxyRequest::Forward { method: string_of(&w[0]), uri: string_of(&w[1]) })
    }
}

/// The answer of a test proxy: a tunnel is established; a forwarded
/// request gets a two-byte `ok` body.
pub open spec fn proxy_answer(connect: bool) -> Seq<char> {
    if connect {
        "HTTP/1.1 200 Connection Established\r\nProxy-Agent: catcher-test\r\n\r\n"@
    } else {
        "HTTP/1.1 200 OK\r\nContent-Length: 2\r\nConnection: close\r\n\r\nok"@
    }
}

pub fn proxy_response(request: &HttpProxyRequest) -> (r: &'static str)
    ensures
        r@ == proxy_answer(request is Connect),
{
    match request {
        HttpProxyRequest::Connect { .. } => "HTTP/1.1 200 Connection Established\r\nProxy-Agent: catcher-test\r\n\r\n",
        HttpProxyRequest::Forward { .. } => "HTTP/1.1 200 OK\r\nContent-Length: 2\r\nConnection: close\r\n\r\nok",
    }
}

} // verus!
