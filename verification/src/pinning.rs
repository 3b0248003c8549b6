//! Certificate pinning: the configured Base64 SHA-256 fingerprints, and the
//! check that the server certificate matches one of them.
use vstd::prelude::*;
use base64::Engine;
use sha2::Digest;
use crate::text::{chars_of, string_of, trim, trim_chars};

verus! {

/// The bytes that the standard Base64 alphabet (with padding) decodes a
/// text to, `None` when the text is not valid Base64.
pub uninterp spec fn base64_decoded(s: Seq<char>) -> Option<Seq<u8>>;

/// The SHA-256 digest of a byte string.
pub uninterp spec fn sha256_digest(b: Seq<u8>) -> Seq<u8>;

/// `base64::engine::general_purpose::STANDARD.decode`: the decoded bytes,
/// or `None` when the text is not valid Base64. The decoding depends on the
/// text alone and is not written out.
#[verifier::external_body]
fn base64_decode(s: &str) -> (r: Option<Vec<u8>>)
    ensures
        match r {
            Some(v) => base64_decoded(s@) == Some(v@),
            None => base64_decoded(s@) is None,
        },
{
    base64::engine::general_purpose::STANDARD.decode(s).ok()
}

/// `sha2::Sha256::digest`: the 32-byte SHA-256 digest of the bytes.
#[verifier::external_body]
fn sha256(bytes: &[u8]) -> (r: Vec<u8>)
    ensures
        r@ == sha256_digest(bytes@),
        r@.len() == 32,
{
    sha2::Sha256::digest(bytes).to_vec()
}

/// The fingerprint a configured pin stands for: its Base64 decoding, once
/// surrounding whitespace is removed, when that is 32 bytes long.
pub open spec fn pin_bytes(p: Seq<char>) -> Option<Seq<u8>> {
    match base64_decoded(trim(p)) {
        Some(b) => if b.len() == 32 {
            Some(b)
        } else {
            None
        },
        None => None,
    }
}

/// The fingerprints of the configured pins, in order; pins that are not
/// Base64 or not 32 bytes long are left out.
pub open spec fn decoded_pins(ps: Seq<Seq<char>>) -> Seq<Seq<u8>>
    decreases ps.len(),
{
    if ps.len() == 0 {
        Seq::empty()
    } else {
        let rest = decoded_pins(ps.drop_last());
        match pin_bytes(ps.last()) {
            Some(b) => rest.push(b),
            None => rest,
        }
    }
}

/// The fingerprints among decoded pins, in order: a pin counts when it
/// decoded and is 32 bytes long.
pub open spec fn kept_pins(ds: Seq<Option<Seq<u8>>>) -> Seq<Seq<u8>>
    decreases ds.len(),
{
    if ds.len() == 0 {
        Seq::empty()
    } else {
        let rest = kept_pins(ds.drop_last());
        match ds.last() {
            Some(b) => if b.len() == 32 {
                rest.push(b)
            } else {
                rest
            },
            None => rest,
        }
    }
}

/// The decoded pins as byte sequences.
pub open spec fn decoded_view(ds: Seq<Option<Vec<u8>>>) -> Seq<Option<Seq<u8>>> {
    ds.map_values(
        |d: Option<Vec<u8>>|
            match d {
                Some(v) => Some(v@),
                None => None,
            },
    )
}

fn copy_bytes(b: &Vec<u8>) -> (r: Vec<u8>)
    ensures
        r@ == b@,
{
    let mut out: Vec<u8> = Vec::new();
    let mut i: usize = 0;
    while i < b.len()
        invariant
            i <= b.len(),
            out@ == b@.take(i as int),
        decreases b.len() - i,
    {
        out.push(b[i]);
        i += 1;
        assert(out@ =~= b@.take(i as int));
    }
    assert(b@.take(b.len() as int) =~= b@);
    out
}

/// Keeps the decoded pins that are fingerprints (32 bytes long), in order.
pub fn collect_pins(decoded: &Vec<Option<Vec<u8>>>) -> (r: Vec<Vec<u8>>)
    ensures
        r@.map_values(|v: Vec<u8>| v@) == kept_pins(decoded_view(decoded@)),
{
    let ghost all = decoded_view(decoded@);
    let mut out: Vec<Vec<u8>> = Vec::new();
    let mut i: usize = 0;
    while i < decoded.len()
        invariant
            i <= decoded.len(),
            all == decoded_view(decoded@),
            out@.map_values(|v: Vec<u8>| v@) == kept_pins(all.take(i as int)),
        decreases decoded.len() - i,
    {
        let ghost before = out@;
        proof {
            assert(all.take(i + 1).drop_last() =~= all.take(i as int));
            assert(all.take(i + 1).last() == all[i as int]);
        }
        match &decoded[i] {
            Some(b) => {
                if b.len() == 32 {
                    let c = copy_bytes(b);
                    out.push(c);
                    assert(out@.map_values(|v: Vec<u8>| v@) =~= before.map_values(|v: Vec<u8>| v@).push(
                        b@,
                    ));
                }
            },
            None => {},
        }
        i += 1;
    }
    assert(all.take(decoded.len() as int) =~= all);
    out
}

/// The Base64 decodings of the configured pins, each trimmed of
/// surrounding whitespace first.
pub open spec fn pin_decodings(ps: Seq<Seq<char>>) -> Seq<Option<Seq<u8>>> {
    ps.map_values(|p: Seq<char>| base64_decoded(trim(p)))
}

proof fn lemma_kept_is_decoded(ps: Seq<Seq<char>>)
    ensures
        kept_pins(pin_decodings(ps)) == decoded_pins(ps),
    decreases ps.len(),
{
    if ps.len() > 0 {
        lemma_kept_is_decoded(ps.drop_last());
        assert(pin_decodings(ps).drop_last() =~= pin_decodings(ps.drop_last()));
    }
}

/// Decodes the configured pins.
pub fn decode_pins(pins: &Vec<String>) -> (r: Vec<Vec<u8>>)
    ensures
        r@.map_values(|v: Vec<u8>| v@) == decoded_pins(pins@.map_values(|p: String| p@)),
{
    let ghost all = pins@.map_values(|p: String| p@);
    let mut decoded: Vec<Option<Vec<u8>>> = Vec::new();
    let mut i: usize = 0;
    while i < pins.len()
        invariant
            i <= pins.len(),
            all == pins@.map_values(|p: String| p@),
            decoded_view(decoded@) == pin_decodings(all.take(i as int)),
        decreases pins.len() - i,
    {
        let cs = chars_of(pins[i].as_str());
        let t = string_of(&trim_chars(&cs));
        let d = base64_decode(t.as_str());
        let ghost before = decoded@;
        decoded.push(d);
        proof {
            assert(all.take(i + 1) =~= all.take(i as int).push(pins@[i as int]@));
            assert(decoded_view(decoded@) =~= decoded_view(before).push(
                match d {
                    Some(v) => Some(v@),
                    None => None,
                },
            ));
            assert(pin_decodings(all.take(i + 1)) =~= pin_decodings(all.take(i as int)).push(
                base64_decoded(trim(pins@[i as int]@)),
            ));
        }
        i += 1;
    }
    assert(all.take(pins.len() as int) =~= all);
    proof {
        lemma_kept_is_decoded(all);
    }
    collect_pins(&decoded)
}

/// The certificate passes the pin check: no pins are set, or the digest of
/// its DER bytes is one of them.
pub open spec fn pins_accept(pins: Seq<Seq<u8>>, cert_der: Seq<u8>) -> bool {
    digest_accepted(pins, sha256_digest(cert_der))
}

/// A certificate digest passes the pin check: no pins are set, or it is one
/// of them.
pub open spec fn digest_accepted(pins: Seq<Seq<u8>>, digest: Seq<u8>) -> bool {
    pins.len() == 0 || exists|i: int| 0 <= i < pins.len() && pins[i] == digest
}

/// Every configured pin is accepted, whichever its position (a backup pin
/// as much as the primary one); with no pins every digest is accepted;
/// with pins, a digest equal to none of them is refused.
pub proof fn law_any_pin_accepted(pins: Seq<Seq<u8>>, digest: Seq<u8>)
    ensures
        forall|i: int| 0 <= i < pins.len() ==> digest_accepted(pins, #[trigger] pins[i]),
        pins.len() == 0 ==> digest_accepted(pins, digest),
        pins.len() > 0 && (forall|i: int| 0 <= i < pins.len() ==> #[trigger] pins[i] != digest)
            ==> !digest_accepted(pins, digest),
{
}

/// A certificate passes the pin check when the digest of its bytes equals
/// any one of the pins.
pub proof fn law_certificate_matching_any_pin(pins: Seq<Seq<u8>>, cert_der: Seq<u8>, i: int)
    requires
        0 <= i < pins.len(),
        pins[i] == sha256_digest(cert_der),
    ensures
        pins_accept(pins, cert_der),
{
}

/// Whether a certificate digest passes the pin check.
pub fn digest_pinned(pins: &Vec<Vec<u8>>, digest: &Vec<u8>) -> (r: bool)
    ensures
        r == digest_accepted(pins@.map_values(|v: Vec<u8>| v@), digest@),
{
    let ghost ps = pins@.map_values(|v: Vec<u8>| v@);
    if pins.len() == 0 {
        return true;
    }
    let mut i: usize = 0;
    while i < pins.len()
        invariant
            i <= pins.len(),
            ps == pins@.map_values(|v: Vec<u8>| v@),
            forall|j: int| 0 <= j < i ==> ps[j] != digest@,
        decreases pins.len() - i,
    {
        if bytes_equal(&pins[i], digest) {
            assert(ps[i as int] == digest@);
            return true;
        }
        i += 1;
    }
    false
}

/// Whether a certificate (its DER bytes) passes the pin check.
pub fn pins_match(pins: &Vec<Vec<u8>>, cert_der: &[u8]) -> (r: bool)
    ensures
        r == pins_accept(pins@.map_values(|v: Vec<u8>| v@), cert_der@),
{
    if pins.len() == 0 {
        return true;
    }
    let digest = sha256(cert_der);
    digest_pinned(pins, &digest)
}

fn bytes_equal(a: &Vec<u8>, b: &Vec<u8>) -> (r: bool)
    ensures
        r == (a@ == b@),
{
    if a.len() != b.len() {
        return false;
    }
    let mut i: usize = 0;
    while i < a.len()
        invariant
            a.len() == b.len(),
            i <= a.len(),
            forall|j: int| 0 <= j < i ==> a@[j] == b@[j],
        decreases a.len() - i,
    {
        if a[i] != b[i] {
            return false;
        }
        i += 1;
    }
    assert(a@ =~= b@);
    true
}

} // verus!
