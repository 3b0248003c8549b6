//! `multipart/form-data` encoder (RFC 7578).
//!
//! The whole body is built in memory. Each part is introduced by the
//! boundary line and a `Content-Disposition` header; file and raw parts
//! also carry a `Content-Type` header; the body ends with the closing
//! boundary line.
use vstd::prelude::*;
use vstd::utf8::encode_utf8;
use crate::text::{push_chars, string_of};

verus! {

/// A part of a multipart form.
#[derive(Debug, Clone)]
pub enum Part {
    /// A text field.
    Text { name: String, value: String },
    /// A file field.
    File { name: String, filename: String, content_type: String, data: Vec<u8> },
    /// A raw binary field with its own content type.
    Bytes { name: String, content_type: String, data: Vec<u8> },
}

/// The abstract value of a part.
pub ghost enum PartView {
    Text { name: Seq<char>, value: Seq<char> },
    File { name: Seq<char>, filename: Seq<char>, content_type: Seq<char>, data: Seq<u8> },
    Bytes { name: Seq<char>, content_type: Seq<char>, data: Seq<u8> },
}

pub open spec fn part_view(p: Part) -> PartView {
    match p {
        Part::Text { name, value } => PartView::Text { name: name@, value: value@ },
        Part::File { name, filename, content_type, data } => PartView::File {
            name: name@,
            filename: filename@,
            content_type: content_type@,
            data: data@,
        },
        Part::Bytes { name, content_type, data } => PartView::Bytes {
            name: name@,
            content_type: content_type@,
            data: data@,
        },
    }
}

/// UTF-8 bytes of a string.
pub open spec fn u(s: Seq<char>) -> Seq<u8> {
    encode_utf8(s)
}

/// The `Content-Disposition` header line of a part.
pub open spec fn disposition(name: Seq<char>, filename: Option<Seq<char>>) -> Seq<u8> {
    u("Content-Disposition: form-data; name=\""@) + u(name) + u("\""@) + match filename {
        Some(f) => u("; filename=\""@) + u(f) + u("\""@),
        None => Seq::<u8>::empty(),
    } + u("\r\n"@)
}

/// The encoding of one part with boundary `b`.
pub open spec fn part_bytes(p: PartView, b: Seq<char>) -> Seq<u8> {
    let head = u("--"@) + u(b) + u("\r\n"@);
    match p {
        PartView::Text { name, value } => head + disposition(name, None) + u("\r\n"@) + u(value)
            + u("\r\n"@),
        PartView::File { name, filename, content_type, data } => head + disposition(
            name,
            Some(filename),
        ) + u("Content-Type: "@) + u(content_type) + u("\r\n"@) + u("\r\n"@) + data + u(
            "\r\n"@,
        ),
        PartView::Bytes { name, content_type, data } => head + disposition(name, None) + u(
            "Content-Type: "@,
        ) + u(content_type) + u("\r\n"@) + u("\r\n"@) + data + u("\r\n"@),
    }
}

/// The encodings of the parts, in order.
pub open spec fn parts_bytes(ps: Seq<PartView>, b: Seq<char>) -> Seq<u8>
    decreases ps.len(),
{
    if ps.len() == 0 {
        Seq::empty()
    } else {
        parts_bytes(ps.drop_last(), b) + part_bytes(ps.last(), b)
    }
}

/// The whole body: every part, then the closing boundary line.
pub open spec fn body_spec(ps: Seq<PartView>, b: Seq<char>) -> Seq<u8> {
    parts_bytes(ps, b) + u("--"@) + u(b) + u("--\r\n"@)
}

/// The `Content-Type` header value of a body with boundary `b`.
pub open spec fn content_type_spec(b: Seq<char>) -> Seq<char> {
    "multipart/form-data; boundary="@ + b
}

pub open spec fn hex_char(d: nat) -> char {
    if d < 10 {
        (d + 48) as char
    } else {
        (d + 87) as char
    }
}

/// The last `k` hexadecimal digits of `n`, lowercase, zero-padded.
pub open spec fn hex_digits(n: nat, k: nat) -> Seq<char>
    decreases k,
{
    if k == 0 {
        Seq::empty()
    } else {
        hex_digits(n / 16, (k - 1) as nat).push(hex_char(n % 16))
    }
}

/// The boundary derived from a nanosecond timestamp: a fixed prefix and the
/// timestamp as 32 lowercase hexadecimal digits.
pub open spec fn boundary_spec(nanos: u128) -> Seq<char> {
    "----RustFormBoundary"@ + hex_digits(nanos as nat, 32)
}

/// Appends `bytes` to `buf`.
fn append_bytes(buf: &mut Vec<u8>, bytes: &[u8])
    ensures
        final(buf)@ == old(buf)@ + bytes@,
{
    let mut i: usize = 0;
    while i < bytes.len()
        invariant
            i <= bytes@.len(),
            buf@ == old(buf)@ + bytes@.take(i as int),
        decreases bytes@.len() - i,
    {
        buf.push(bytes[i]);
        i += 1;
        assert(bytes@.take(i as int) == bytes@.take(i - 1).push(bytes@[i - 1]));
    }
    assert(bytes@.take(i as int) == bytes@);
}

/// Appends the UTF-8 bytes of `s` to `buf`.
fn append_str(buf: &mut Vec<u8>, s: &str)
    ensures
        final(buf)@ == old(buf)@ + u(s@),
{
    append_bytes(buf, s.as_bytes());
}

/// Appends the `Content-Disposition` header line of a part.
pub fn write_disposition(buf: &mut Vec<u8>, name: &str, filename: Option<&str>)
    ensures
        final(buf)@ == old(buf)@ + disposition(
            name@,
            match filename {
                Some(f) => Some(f@),
                None => None,
            },
        ),
{
    append_str(buf, "Content-Disposition: form-data; name=\"");
    append_str(buf, name);
    append_str(buf, "\"");
    if let Some(fname) = filename {
        append_str(buf, "; filename=\"");
        append_str(buf, fname);
        append_str(buf, "\"");
    }
    append_str(buf, "\r\n");
}

/// Appends the boundary line that introduces a part.
fn write_part_head(buf: &mut Vec<u8>, boundary: &str)
    ensures
        final(buf)@ == old(buf)@ + (u("--"@) + u(boundary@) + u("\r\n"@)),
{
    append_str(buf, "--");
    append_str(buf, boundary);
    append_str(buf, "\r\n");
    assert(buf@ =~= old(buf)@ + (u("--"@) + u(boundary@) + u("\r\n"@)));
}

/// Appends a `Content-Type` header line and the blank line after it.
fn write_content_type(buf: &mut Vec<u8>, content_type: &str)
    ensures
        final(buf)@ == old(buf)@ + (u("Content-Type: "@) + u(content_type@) + u("\r\n"@) + u(
            "\r\n"@,
        )),
{
    append_str(buf, "Content-Type: ");
    append_str(buf, content_type);
    append_str(buf, "\r\n");
    append_str(buf, "\r\n");
    assert(buf@ =~= old(buf)@ + (u("Content-Type: "@) + u(content_type@) + u("\r\n"@) + u(
        "\r\n"@,
    )));
}

/// Appends the encoding of one part.
#[verifier::rlimit(40)]
fn write_part(buf: &mut Vec<u8>, part: &Part, boundary: &str)
    ensures
        final(buf)@ == old(buf)@ + part_bytes(part_view(*part), boundary@),
{
    write_part_head(buf, boundary);
    match part {
        Part::Text { name, value } => {
            write_disposition(buf, name.as_str(), None);
            append_str(buf, "\r\n");
            append_str(buf, value.as_str());
            append_str(buf, "\r\n");
            assert(buf@ =~= old(buf)@ + part_bytes(part_view(*part), boundary@));
        },
        Part::File { name, filename, content_type, data } => {
            write_disposition(buf, name.as_str(), Some(filename.as_str()));
            write_content_type(buf, content_type.as_str());
            append_bytes(buf, data.as_slice());
            append_str(buf, "\r\n");
            assert(buf@ =~= old(buf)@ + part_bytes(part_view(*part), boundary@));
        },
        Part::Bytes { name, content_type, data } => {
            write_disposition(buf, name.as_str(), None);
            write_content_type(buf, content_type.as_str());
            append_bytes(buf, data.as_slice());
            append_str(buf, "\r\n");
            assert(buf@ =~= old(buf)@ + part_bytes(part_view(*part), boundary@));
        },
    }
}

/// The time in nanoseconds since the Unix epoch (0 before the epoch).
/// Nothing is stated of the reading.
#[verifier::external_body]
fn now_nanos() -> u128 {
    std::time::SystemTime::now().duration_since(std::time::UNIX_EPOCH).unwrap_or_default().as_nanos()
}

/// The boundary for the timestamp `nanos`.
pub fn boundary_from_nanos(nanos: u128) -> (r: String)
    ensures
        r@ == boundary_spec(nanos),
{
    let mut digits: Vec<char> = Vec::new();
    let mut k: usize = 0;
    let mut n: u128 = nanos;
    proof {
        assert(pow16(0) == 1);
        assert(nanos as nat / pow16(0) == nanos as nat);
    }
    while k < 32
        invariant
            k <= 32,
            n as nat == nanos as nat / pow16(k as nat),
            digits@ == hex_digits(nanos as nat, k as nat),
        decreases 32 - k,
    {
        let d: u8 = (n % 16) as u8;
        let c: char = if d < 10 {
            (d + 48) as char
        } else {
            (d + 87) as char
        };
        proof {
            lemma_hex_step(nanos as nat, k as nat);
            assert(c == hex_char((n % 16) as nat));
            assert(seq![c] + digits@ =~= digits@.insert(0, c));
        }
        digits.insert(0, c);
        n = n / 16;
        proof {
            lemma_pow16_div(nanos as nat, k as nat);
        }
        k += 1;
    }
    let mut s = String::from_str("----RustFormBoundary");
    push_chars(&mut s, &digits, 0, digits.len());
    assert(digits@.subrange(0, digits@.len() as int) == digits@);
    s
}

pub open spec fn pow16(k: nat) -> nat
    decreases k,
{
    if k == 0 {
        1
    } else {
        16 * pow16((k - 1) as nat)
    }
}

proof fn lemma_pow16_pos(k: nat)
    ensures
        pow16(k) >= 1,
    decreases k,
{
    if k > 0 {
        lemma_pow16_pos((k - 1) as nat);
    }
}

proof fn lemma_pow16_div(n: nat, k: nat)
    ensures
        n / pow16(k) / 16 == n / pow16(k + 1),
{
    lemma_pow16_pos(k);
    assert(pow16(k + 1) == 16 * pow16(k));
    vstd::arithmetic::div_mod::lemma_div_denominator(n as int, pow16(k) as int, 16);
    assert(pow16(k) * 16 == 16 * pow16(k)) by (nonlinear_arith);
}

/// The digits of `n` for `k + 1` places extend those for `k` places by one
/// more significant digit.
proof fn lemma_hex_step(n: nat, k: nat)
    ensures
        hex_digits(n, k + 1) == seq![hex_char(n / pow16(k) % 16)] + hex_digits(n, k),
    decreases k,
{
    if k == 0 {
        assert(hex_digits(n / 16, 0) == Seq::<char>::empty());
        assert(hex_digits(n, 1) == Seq::<char>::empty().push(hex_char(n % 16)));
        assert(pow16(0) == 1);
        assert(n / pow16(0) == n);
    } else {
        lemma_hex_step(n / 16, (k - 1) as nat);
        lemma_pow16_pos((k - 1) as nat);
        vstd::arithmetic::div_mod::lemma_div_denominator(n as int, 16, pow16((k - 1) as nat) as int);
        assert(pow16(k) == 16 * pow16((k - 1) as nat));
        assert(n / 16 / pow16((k - 1) as nat) == n / pow16(k));
        assert(hex_digits(n, k + 1) == hex_digits(n / 16, k).push(hex_char(n % 16)));
        assert(hex_digits(n, k) == hex_digits(n / 16, (k - 1) as nat).push(hex_char(n % 16)));
    }
}

/// A fresh boundary derived from the current time.
pub fn generate_boundary() -> (r: String)
    ensures
        exists|nanos: u128| r@ == #[trigger] boundary_spec(nanos),
{
    let nanos = now_nanos();
    boundary_from_nanos(nanos)
}

/// Multipart form builder.
#[derive(Debug, Clone)]
pub struct MultipartForm {
    parts: Vec<Part>,
}

impl View for MultipartForm {
    type V = Seq<PartView>;

    closed spec fn view(&self) -> Seq<PartView> {
        self.parts@.map_values(|p: Part| part_view(p))
    }
}

impl MultipartForm {
    /// A form without parts.
    pub fn new() -> (r: Self)
        ensures
            r@ == Seq::<PartView>::empty(),
    {
        let r = MultipartForm { parts: Vec::new() };
        assert(r@ =~= Seq::<PartView>::empty());
        r
    }

    fn push(self, p: Part) -> (r: Self)
        ensures
            r@ == self@.push(part_view(p)),
    {
        let mut me = self;
        let ghost before = me.parts@;
        me.parts.push(p);
        assert(me@ =~= before.map_values(|p: Part| part_view(p)).push(part_view(p)));
        me
    }

    /// Adds a text field.
    pub fn text(self, name: &str, value: &str) -> (r: Self)
        ensures
            r@ == self@.push(PartView::Text { name: name@, value: value@ }),
    {
        self.push(Part::Text { name: String::from_str(name), value: String::from_str(value) })
    }

    /// Adds a file field.
    pub fn file(self, name: &str, filename: &str, content_type: &str, data: Vec<u8>) -> (r: Self)
        ensures
            r@ == self@.push(
                PartView::File {
                    name: name@,
                    filename: filename@,
                    content_type: content_type@,
                    data: data@,
                },
            ),
    {
        self.push(
            Part::File {
                name: String::from_str(name),
                filename: String::from_str(filename),
                content_type: String::from_str(content_type),
                data,
            },
        )
    }

    /// Adds a raw binary field.
    pub fn bytes(self, name: &str, content_type: &str, data: Vec<u8>) -> (r: Self)
        ensures
            r@ == self@.push(
                PartView::Bytes { name: name@, content_type: content_type@, data: data@ },
            ),
    {
        self.push(
            Part::Bytes {
                name: String::from_str(name),
                content_type: String::from_str(content_type),
                data,
            },
        )
    }

    /// The body for the boundary `boundary`, and the matching
    /// `Content-Type` header value.
    pub fn encode_with_boundary(&self, boundary: &str) -> (r: (Vec<u8>, String))
        ensures
            r.0@ == body_spec(self@, boundary@),
            r.1@ == content_type_spec(boundary@),
    {
        let mut content_type = String::from_str("multipart/form-data; boundary=");
        content_type.append(boundary);
        let mut buf: Vec<u8> = Vec::new();
        let mut i: usize = 0;
        while i < self.parts.len()
            invariant
                i <= self@.len(),
                self@.len() == self.parts@.len(),
                buf@ == parts_bytes(self@.take(i as int), boundary@),
            decreases self@.len() - i,
        {
            write_part(&mut buf, &self.parts[i], boundary);
            proof {
                assert(self@.take(i + 1).drop_last() == self@.take(i as int));
                assert(self@[i as int] == part_view(self.parts@[i as int]));
            }
            i += 1;
        }
        assert(self@.take(i as int) == self@);
        append_str(&mut buf, "--");
        append_str(&mut buf, boundary);
        append_str(&mut buf, "--\r\n");
        (buf, content_type)
    }

    /// The body with a fresh boundary derived from the current time, and
    /// the matching `Content-Type` header value.
    pub fn encode(&self) -> (r: (Vec<u8>, String))
        ensures
            exists|nanos: u128|
                r.0@ == body_spec(self@, #[trigger] boundary_spec(nanos)) && r.1@
                    == content_type_spec(boundary_spec(nanos)),
    {
        let nanos = now_nanos();
        let boundary = boundary_from_nanos(nanos);
        self.encode_with_boundary(boundary.as_str())
    }

    /// Number of parts.
    pub fn len(&self) -> (r: usize)
        ensures
            r == self@.len(),
    {
        self.parts.len()
    }

    /// Whether the form has no parts.
    pub fn is_empty(&self) -> (r: bool)
        ensures
            r == (self@.len() == 0),
    {
        self.parts.len() == 0
    }
}

impl Default for MultipartForm {
    fn default() -> (r: Self)
        ensures
            r@ == Seq::<PartView>::empty(),
    {
        Self::new()
    }
}

/// Adding a part changes the body only by inserting that part's encoding
/// before the closing boundary line.
pub proof fn law_encoding_is_compositional(ps: Seq<PartView>, p: PartView, b: Seq<char>)
    ensures
        body_spec(ps.push(p), b) == parts_bytes(ps, b) + part_bytes(p, b) + u("--"@) + u(b) + u(
            "--\r\n"@,
        ),
{
    assert(ps.push(p).drop_last() == ps);
}

/// A form without parts encodes to the closing boundary line alone.
pub proof fn law_empty_form_body(b: Seq<char>)
    ensures
        body_spec(Seq::empty(), b) == u("--"@) + u(b) + u("--\r\n"@),
{
    assert(parts_bytes(Seq::empty(), b) == Seq::<u8>::empty());
    assert(Seq::<u8>::empty() + u("--"@) == u("--"@));
}

/// Every boundary has the fixed prefix followed by exactly 32 hexadecimal digits.
pub proof fn law_boundary_shape(nanos: u128)
    ensures
        boundary_spec(nanos).len() == "----RustFormBoundary"@.len() + 32,
{
    lemma_hex_len(nanos as nat, 32);
}

proof fn lemma_hex_len(n: nat, k: nat)
    ensures
        hex_digits(n, k).len() == k,
    decreases k,
{
    if k > 0 {
        lemma_hex_len(n / 16, (k - 1) as nat);
    }
}

/// A file part's data appears verbatim in its encoding, just before the
/// part's closing CRLF: the encoding is that of the same part without data,
/// with the data inserted before its last two bytes (`\r\n`), and so
/// exactly `data.len()` bytes longer.
pub proof fn law_file_data_verbatim(
    name: Seq<char>,
    filename: Seq<char>,
    content_type: Seq<char>,
    data: Seq<u8>,
    b: Seq<char>,
)
    ensures
        ({
            let full = part_bytes(
                PartView::File { name, filename, content_type, data },
                b,
            );
            let bare = part_bytes(
                PartView::File { name, filename, content_type, data: Seq::empty() },
                b,
            );
            &&& bare.len() >= 2
            &&& full.len() == bare.len() + data.len()
            &&& full == bare.take(bare.len() - 2) + data + bare.skip(bare.len() - 2)
            &&& full.subrange(bare.len() - 2, bare.len() - 2 + data.len()) == data
            &&& bare.skip(bare.len() - 2) == u("\r\n"@)
        }),
{
    reveal_strlit("\r\n");
    let head = u("--"@) + u(b) + u("\r\n"@) + disposition(name, Some(filename)) + u(
        "Content-Type: "@,
    ) + u(content_type) + u("\r\n"@) + u("\r\n"@);
    let crlf = u("\r\n"@);
    assert(crlf.len() == 2) by {
        assert(vstd::utf8::is_ascii_chars("\r\n"@));
        vstd::utf8::is_ascii_chars_encode_utf8("\r\n"@);
    }
    let full = part_bytes(PartView::File { name, filename, content_type, data }, b);
    let bare = part_bytes(PartView::File { name, filename, content_type, data: Seq::empty() }, b);
    assert(full =~= head + data + crlf);
    assert(bare =~= head + crlf);
    assert(bare.take(bare.len() - 2) =~= head);
    assert(bare.skip(bare.len() - 2) =~= crlf);
    assert(full.subrange(bare.len() - 2, bare.len() - 2 + data.len()) =~= data);
}

/// A raw binary part's data appears verbatim in its encoding, just before
/// the part's closing CRLF, as for a file part.
pub proof fn law_bytes_data_verbatim(name: Seq<char>, content_type: Seq<char>, data: Seq<u8>, b: Seq<char>)
    ensures
        ({
            let full = part_bytes(PartView::Bytes { name, content_type, data }, b);
            let bare = part_bytes(PartView::Bytes { name, content_type, data: Seq::empty() }, b);
            &&& bare.len() >= 2
            &&& full.len() == bare.len() + data.len()
            &&& full == bare.take(bare.len() - 2) + data + bare.skip(bare.len() - 2)
            &&& full.subrange(bare.len() - 2, bare.len() - 2 + data.len()) == data
            &&& bare.skip(bare.len() - 2) == u("\r\n"@)
        }),
{
    reveal_strlit("\r\n");
    let head = u("--"@) + u(b) + u("\r\n"@) + disposition(name, None) + u("Content-Type: "@) + u(
        content_type,
    ) + u("\r\n"@) + u("\r\n"@);
    let crlf = u("\r\n"@);
    assert(crlf.len() == 2) by {
        assert(vstd::utf8::is_ascii_chars("\r\n"@));
        vstd::utf8::is_ascii_chars_encode_utf8("\r\n"@);
    }
    let full = part_bytes(PartView::Bytes { name, content_type, data }, b);
    let bare = part_bytes(PartView::Bytes { name, content_type, data: Seq::empty() }, b);
    assert(full =~= head + data + crlf);
    assert(bare =~= head + crlf);
    assert(bare.take(bare.len() - 2) =~= head);
    assert(bare.skip(bare.len() - 2) =~= crlf);
    assert(full.subrange(bare.len() - 2, bare.len() - 2 + data.len()) =~= data);
}

} // verus!
