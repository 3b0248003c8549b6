//! Standard Base64 encoding (RFC 4648 alphabet, with `=` padding), used for
//! the `Authorization: Basic` header.
use vstd::prelude::*;
use vstd::utf8::encode_utf8;

verus! {

/// The character of a 6-bit value in the standard alphabet.
pub open spec fn b64_char(i: nat) -> char {
    if i < 26 {
        (i + 65) as char
    } else if i < 52 {
        (i - 26 + 97) as char
    } else if i < 62 {
        (i - 52 + 48) as char
    } else if i == 62 {
        '+'
    } else {
        '/'
    }
}

/// The 24-bit value of a group of three bytes.
pub open spec fn group_value(a: u8, b: u8, c: u8) -> nat {
    a as nat * 65536 + b as nat * 256 + c as nat
}

/// The four characters of a full group of three bytes.
pub open spec fn encode_group(a: u8, b: u8, c: u8) -> Seq<char> {
    let n = group_value(a, b, c);
    seq![b64_char(n / 262144), b64_char(n / 4096 % 64), b64_char(n / 64 % 64), b64_char(n % 64)]
}

/// The encoding of the first `k` full groups of `s`.
pub open spec fn encode_groups(s: Seq<u8>, k: nat) -> Seq<char>
    decreases k,
{
    if k == 0 {
        Seq::empty()
    } else {
        let i = 3 * (k - 1);
        encode_groups(s, (k - 1) as nat) + encode_group(s[i], s[i + 1], s[i + 2])
    }
}

/// The encoding of the last one or two bytes, padded with `=` to four characters.
pub open spec fn encode_tail(t: Seq<u8>) -> Seq<char> {
    if t.len() == 1 {
        let n = group_value(t[0], 0, 0);
        seq![b64_char(n / 262144), b64_char(n / 4096 % 64), '=', '=']
    } else if t.len() == 2 {
        let n = group_value(t[0], t[1], 0);
        seq![b64_char(n / 262144), b64_char(n / 4096 % 64), b64_char(n / 64 % 64), '=']
    } else {
        Seq::empty()
    }
}

/// The Base64 encoding of `s`.
pub open spec fn base64_spec(s: Seq<u8>) -> Seq<char> {
    let k = s.len() / 3;
    encode_groups(s, k) + encode_tail(s.skip(3 * k as int))
}

fn b64(i: u32) -> (c: char)
    requires
        i < 64,
    ensures
        c == b64_char(i as nat),
{
    if i < 26 {
        ((i + 65) as u8) as char
    } else if i < 52 {
        ((i - 26 + 97) as u8) as char
    } else if i < 62 {
        ((i - 52 + 48) as u8) as char
    } else if i == 62 {
        '+'
    } else {
        '/'
    }
}

/// The Base64 encoding of the UTF-8 bytes of `input`.
pub fn base64_encode(input: &str) -> (r: String)
    ensures
        r@ == base64_spec(encode_utf8(input@)),
{
    let bytes = input.as_bytes();
    let ghost s = bytes@;
    let n: usize = bytes.len();
    let k: usize = n / 3;
    let mut out = String::new();
    let mut g: usize = 0;
    while g < k
        invariant
            s == bytes@,
            n == s.len(),
            k == n / 3,
            g <= k,
            out@ == encode_groups(s, g as nat),
        decreases k - g,
    {
        let i: usize = 3 * g;
        let v: u32 = (bytes[i] as u32) * 65536 + (bytes[i + 1] as u32) * 256 + (bytes[i + 2] as u32);
        assert(v as nat == group_value(s[i as int], s[i + 1], s[i + 2]));
        out.push(b64(v / 262144));
        out.push(b64(v / 4096 % 64));
        out.push(b64(v / 64 % 64));
        out.push(b64(v % 64));
        g += 1;
        assert(out@ =~= encode_groups(s, g as nat));
    }
    let rest: usize = n - 3 * k;
    assert(s.skip(3 * k as int).len() == rest);
    if rest == 1 {
        let v: u32 = (bytes[3 * k] as u32) * 65536;
        assert(s.skip(3 * k as int)[0] == s[3 * k as int]);
        assert(v as nat == group_value(s[3 * k as int], 0, 0));
        out.push(b64(v / 262144));
        out.push(b64(v / 4096 % 64));
        out.push('=');
        out.push('=');
    } else if rest == 2 {
        let v: u32 = (bytes[3 * k] as u32) * 65536 + (bytes[3 * k + 1] as u32) * 256;
        assert(s.skip(3 * k as int)[0] == s[3 * k as int]);
        assert(s.skip(3 * k as int)[1] == s[3 * k + 1]);
        assert(v as nat == group_value(s[3 * k as int], s[3 * k + 1], 0));
        out.push(b64(v / 262144));
        out.push(b64(v / 4096 % 64));
        out.push(b64(v / 64 % 64));
        out.push('=');
    }
    assert(out@ =~= base64_spec(s));
    out
}

proof fn lemma_groups_len(s: Seq<u8>, k: nat)
    ensures
        encode_groups(s, k).len() == 4 * k,
    decreases k,
{
    if k > 0 {
        lemma_groups_len(s, (k - 1) as nat);
    }
}

/// The encoding is four characters for every started group of three bytes.
pub proof fn law_base64_length(s: Seq<u8>)
    ensures
        base64_spec(s).len() == 4 * ((s.len() + 2) / 3),
{
    lemma_groups_len(s, s.len() / 3);
}

/// Input whose length is a multiple of three is encoded as full groups with
/// no padding; any other input ends with `=`.
pub proof fn law_base64_padding(s: Seq<u8>)
    ensures
        s.len() % 3 == 0 ==> base64_spec(s) == encode_groups(s, s.len() / 3),
        s.len() % 3 == 1 ==> base64_spec(s).last() == '=',
        s.len() % 3 == 2 ==> base64_spec(s).last() == '=',
{
    assert(s.skip(3 * (s.len() / 3) as int).len() == s.len() % 3);
    if s.len() % 3 == 0 {
        assert(encode_tail(s.skip(3 * (s.len() / 3) as int)) == Seq::<char>::empty());
        assert(base64_spec(s) =~= encode_groups(s, s.len() / 3));
    }
}

/// A character of the standard alphabet.
pub open spec fn b64_alphabet(c: char) -> bool {
    ('A' <= c && c <= 'Z') || ('a' <= c && c <= 'z') || ('0' <= c && c <= '9') || c == '+' || c
        == '/'
}

/// The 6-bit value of a character of the standard alphabet.
pub open spec fn b64_index(c: char) -> nat {
    if 'A' <= c && c <= 'Z' {
        (c as nat - 65) as nat
    } else if 'a' <= c && c <= 'z' {
        (c as nat - 97 + 26) as nat
    } else if '0' <= c && c <= '9' {
        (c as nat - 48 + 52) as nat
    } else if c == '+' {
        62
    } else {
        63
    }
}

/// The bytes of one group of four characters: three, or fewer when it
/// ends with `=` padding.
pub open spec fn decode_quad(q: Seq<char>) -> Seq<u8> {
    let v = b64_index(q[0]) * 262144 + b64_index(q[1]) * 4096 + (if q[2] == '=' {
        0
    } else {
        b64_index(q[2])
    }) * 64 + (if q[3] == '=' {
        0
    } else {
        b64_index(q[3])
    });
    if q[2] == '=' {
        seq![(v / 65536) as u8]
    } else if q[3] == '=' {
        seq![(v / 65536) as u8, (v / 256 % 256) as u8]
    } else {
        seq![(v / 65536) as u8, (v / 256 % 256) as u8, (v % 256) as u8]
    }
}

/// Standard Base64 decoding of a text made of groups of four characters.
pub open spec fn base64_decode_spec(t: Seq<char>) -> Seq<u8>
    decreases t.len(),
{
    if t.len() < 4 {
        Seq::empty()
    } else {
        decode_quad(t.take(4)) + base64_decode_spec(t.skip(4))
    }
}

proof fn lemma_char_roundtrip(i: nat)
    requires
        i < 64,
    ensures
        b64_alphabet(b64_char(i)),
        b64_char(i) != '=',
        b64_index(b64_char(i)) == i,
{
}

proof fn lemma_group_bits(a: int, b: int, c: int)
    by (nonlinear_arith)
    requires
        0 <= a < 256,
        0 <= b < 256,
        0 <= c < 256,
    ensures
        (a * 65536 + b * 256 + c) / 262144 < 64,
        ((a * 65536 + b * 256 + c) / 262144) * 262144 + ((a * 65536 + b * 256 + c) / 4096 % 64)
            * 4096 + ((a * 65536 + b * 256 + c) / 64 % 64) * 64 + (a * 65536 + b * 256 + c) % 64
            == a * 65536 + b * 256 + c,
        (a * 65536 + b * 256 + c) / 65536 == a,
        (a * 65536 + b * 256 + c) / 256 % 256 == b,
        (a * 65536 + b * 256 + c) % 256 == c,
        ((a * 65536 + b * 256) / 262144) * 262144 + ((a * 65536 + b * 256) / 4096 % 64) * 4096 + ((a
            * 65536 + b * 256) / 64 % 64) * 64 == a * 65536 + b * 256,
        ((a * 65536) / 262144) * 262144 + ((a * 65536) / 4096 % 64) * 4096 == a * 65536,
{
}

proof fn lemma_quad_full(a: u8, b: u8, c: u8)
    ensures
        decode_quad(encode_group(a, b, c)) == seq![a, b, c],
        forall|i: int| 0 <= i < 4 ==> b64_alphabet(#[trigger] encode_group(a, b, c)[i]),
{
    lemma_group_bits(a as int, b as int, c as int);
    let n = group_value(a, b, c);
    let q = encode_group(a, b, c);
    lemma_char_roundtrip(n / 262144);
    lemma_char_roundtrip(n / 4096 % 64);
    lemma_char_roundtrip(n / 64 % 64);
    lemma_char_roundtrip(n % 64);
    assert(q[0] == b64_char(n / 262144));
    assert(q[1] == b64_char(n / 4096 % 64));
    assert(q[2] == b64_char(n / 64 % 64));
    assert(q[3] == b64_char(n % 64));
    let v = b64_index(q[0]) * 262144 + b64_index(q[1]) * 4096 + b64_index(q[2]) * 64 + b64_index(
        q[3],
    );
    assert(v == n);
    assert(decode_quad(q) =~= seq![a, b, c]);
    assert forall|i: int| 0 <= i < 4 implies b64_alphabet(#[trigger] q[i]) by {
        if i == 0 {
        } else if i == 1 {
        } else if i == 2 {
        } else {
        }
    }
}

proof fn lemma_quad_one(a: u8)
    ensures
        decode_quad(encode_tail(seq![a])) == seq![a],
        b64_alphabet(encode_tail(seq![a])[0]) && b64_alphabet(encode_tail(seq![a])[1]),
        encode_tail(seq![a])[2] == '=' && encode_tail(seq![a])[3] == '=',
{
    lemma_group_bits(a as int, 0, 0);
    let n = group_value(a, 0, 0);
    let t = seq![a];
    assert(t.len() == 1);
    let q = encode_tail(t);
    lemma_char_roundtrip(n / 262144);
    lemma_char_roundtrip(n / 4096 % 64);
    assert(q[0] == b64_char(n / 262144));
    assert(q[1] == b64_char(n / 4096 % 64));
    let v = b64_index(q[0]) * 262144 + b64_index(q[1]) * 4096;
    assert(v == n);
    assert(decode_quad(q) =~= seq![a]);
}

proof fn lemma_quad_two(a: u8, b: u8)
    ensures
        decode_quad(encode_tail(seq![a, b])) == seq![a, b],
        b64_alphabet(encode_tail(seq![a, b])[0]) && b64_alphabet(encode_tail(seq![a, b])[1])
            && b64_alphabet(encode_tail(seq![a, b])[2]) && encode_tail(seq![a, b])[3] == '=',
{
    lemma_group_bits(a as int, b as int, 0);
    let n = group_value(a, b, 0);
    let t = seq![a, b];
    assert(t.len() == 2);
    let q = encode_tail(t);
    lemma_char_roundtrip(n / 262144);
    lemma_char_roundtrip(n / 4096 % 64);
    lemma_char_roundtrip(n / 64 % 64);
    assert(q[0] == b64_char(n / 262144));
    assert(q[1] == b64_char(n / 4096 % 64));
    assert(q[2] == b64_char(n / 64 % 64));
    let v = b64_index(q[0]) * 262144 + b64_index(q[1]) * 4096 + b64_index(q[2]) * 64;
    assert(v == n);
    assert(decode_quad(q) =~= seq![a, b]);
}

proof fn lemma_decode_append(x: Seq<char>, y: Seq<char>)
    requires
        x.len() % 4 == 0,
    ensures
        base64_decode_spec(x + y) == base64_decode_spec(x) + base64_decode_spec(y),
    decreases x.len(),
{
    if x.len() == 0 {
        assert(x + y =~= y);
    } else {
        lemma_decode_append(x.skip(4), y);
        assert((x + y).take(4) =~= x.take(4));
        assert((x + y).skip(4) =~= x.skip(4) + y);
    }
}

proof fn lemma_groups_decode(s: Seq<u8>, k: nat)
    requires
        3 * k <= s.len(),
    ensures
        encode_groups(s, k).len() == 4 * k,
        base64_decode_spec(encode_groups(s, k)) == s.take(3 * k as int),
        forall|i: int| 0 <= i < 4 * k ==> b64_alphabet(#[trigger] encode_groups(s, k)[i]),
    decreases k,
{
    if k == 0 {
        assert(s.take(0) =~= Seq::<u8>::empty());
    } else {
        let i = 3 * (k - 1);
        let g = encode_group(s[i], s[i + 1], s[i + 2]);
        lemma_groups_decode(s, (k - 1) as nat);
        lemma_quad_full(s[i], s[i + 1], s[i + 2]);
        lemma_decode_append(encode_groups(s, (k - 1) as nat), g);
        assert(g.len() == 4);
        assert(g.take(4) =~= g);
        assert(g.skip(4) =~= Seq::<char>::empty());
        assert(base64_decode_spec(g) == decode_quad(g) + base64_decode_spec(g.skip(4)));
        assert(base64_decode_spec(g) =~= seq![s[i], s[i + 1], s[i + 2]]);
        assert(s.take(3 * k as int) =~= s.take(i) + seq![s[i], s[i + 1], s[i + 2]]);
        assert forall|j: int| 0 <= j < 4 * k implies b64_alphabet(
            #[trigger] encode_groups(s, k)[j],
        ) by {
            if j >= 4 * (k - 1) {
                assert(encode_groups(s, k)[j] == g[j - 4 * (k - 1)]);
            } else {
                assert(encode_groups(s, k)[j] == encode_groups(s, (k - 1) as nat)[j]);
            }
        }
    }
}

proof fn lemma_decode_one_quad(e: Seq<char>)
    requires
        e.len() == 4,
    ensures
        base64_decode_spec(e) == decode_quad(e),
{
    assert(e.take(4) =~= e);
    assert(e.skip(4) =~= Seq::<char>::empty());
    assert(base64_decode_spec(e.skip(4)) == Seq::<u8>::empty());
    assert(base64_decode_spec(e) =~= decode_quad(e));
}

proof fn lemma_tail_one(t: Seq<u8>)
    requires
        t.len() == 1,
    ensures
        base64_decode_spec(encode_tail(t)) == t,
        encode_tail(t).len() == 4,
        forall|i: int|
            0 <= i < 4 ==> b64_alphabet(#[trigger] encode_tail(t)[i]) || (encode_tail(t)[i] == '='
                && i >= 2),
{
    assert(t =~= seq![t[0]]);
    lemma_quad_one(t[0]);
    lemma_decode_one_quad(encode_tail(t));
}

proof fn lemma_tail_two(t: Seq<u8>)
    requires
        t.len() == 2,
    ensures
        base64_decode_spec(encode_tail(t)) == t,
        encode_tail(t).len() == 4,
        forall|i: int|
            0 <= i < 4 ==> b64_alphabet(#[trigger] encode_tail(t)[i]) || (encode_tail(t)[i] == '='
                && i >= 2),
{
    assert(t =~= seq![t[0], t[1]]);
    lemma_quad_two(t[0], t[1]);
    lemma_decode_one_quad(encode_tail(t));
}

proof fn lemma_tail(t: Seq<u8>)
    requires
        t.len() < 3,
    ensures
        base64_decode_spec(encode_tail(t)) == t,
        encode_tail(t).len() == (if t.len() == 0 {
            0int
        } else {
            4int
        }),
        forall|i: int|
            0 <= i < encode_tail(t).len() ==> b64_alphabet(#[trigger] encode_tail(t)[i]) || (
            encode_tail(t)[i] == '=' && i >= 2),
{
    if t.len() == 0 {
        assert(encode_tail(t) =~= Seq::<char>::empty());
        assert(base64_decode_spec(encode_tail(t)) =~= t);
    } else if t.len() == 1 {
        lemma_tail_one(t);
    } else {
        lemma_tail_two(t);
    }
}

/// Standard Base64 decoding gives back the encoded bytes, and the encoding
/// uses only the standard alphabet, with `=` only in the last two places.
pub proof fn law_base64_round_trip(s: Seq<u8>)
    ensures
        base64_decode_spec(base64_spec(s)) == s,
        forall|i: int|
            0 <= i < base64_spec(s).len() ==> b64_alphabet(#[trigger] base64_spec(s)[i]) || (
            base64_spec(s)[i] == '=' && i >= base64_spec(s).len() - 2),
{
    let k = s.len() / 3;
    let g = encode_groups(s, k);
    let t = s.skip(3 * k as int);
    let e = encode_tail(t);
    lemma_groups_decode(s, k);
    lemma_decode_append(g, e);
    lemma_tail(t);
    assert(base64_spec(s) == g + e);
    assert(s =~= s.take(3 * k as int) + t);
    assert forall|i: int| 0 <= i < base64_spec(s).len() implies b64_alphabet(
        #[trigger] base64_spec(s)[i],
    ) || (base64_spec(s)[i] == '=' && i >= base64_spec(s).len() - 2) by {
        if i >= g.len() {
            assert(base64_spec(s)[i] == e[i - g.len()]);
        } else {
            assert(base64_spec(s)[i] == g[i]);
        }
    }
}

} // verus!
