//! The SOCKS5 handshake as a test proxy reads it: the greeting with the
//! offered authentication methods, then the `CONNECT` request with the
//! target address and port.
use vstd::prelude::*;
use vstd::utf8::{decode_utf8, valid_utf8};
use crate::text::utf8_decode;

verus! {

/// Why a SOCKS5 handshake was refused.
#[derive(Debug, Clone, Copy, PartialEq, Eq, Structural)]
pub enum Socks5Error {
    /// The bytes ended before the message did.
    UnexpectedEof,
    /// The protocol version is not 5.
    NotVersion5,
    /// The client did not offer "no authentication".
    NoAcceptableMethod,
    /// The request is not a `CONNECT`.
    NotConnect,
    /// The domain name is not UTF-8.
    InvalidDomain,
    /// The address type is none of IPv4, domain and IPv6.
    UnsupportedAddressType,
}

/// The target of a `CONNECT`.
#[derive(Debug, Clone, PartialEq, Eq)]
pub enum Socks5Address {
    /// A host name, to be resolved by the proxy.
    Domain(String),
    /// An IPv4 (4 octets) or IPv6 (16 octets) address.
    Ip(Vec<u8>),
}

/// A `CONNECT` request.
#[derive(Debug, Clone, PartialEq, Eq)]
pub struct Socks5Connect {
    pub address: Socks5Address,
    pub port: u16,
}

/// The greeting: version 5, a method count, then that many methods. `Ok`
/// holds the length of the greeting; the client must offer method 0 (no
/// authentication).
pub open spec fn greeting_spec(b: Seq<u8>) -> Result<nat, Socks5Error> {
    if b.len() < 1 {
        Err(Socks5Error::UnexpectedEof)
    } else if b[0] != 5 {
        Err(Socks5Error::NotVersion5)
    } else if b.len() < 2 || b.len() < 2 + b[1] {
        Err(Socks5Error::UnexpectedEof)
    } else if !b.subrange(2, 2 + b[1]).contains(0u8) {
        Err(Socks5Error::NoAcceptableMethod)
    } else {
        Ok((2 + b[1]) as nat)
    }
}

/// Reads the greeting at the start of `bytes`, returning its length.
pub fn read_greeting(bytes: &[u8]) -> (r: Result<usize, Socks5Error>)
    ensures
        match (r, greeting_spec(bytes@)) {
            (Ok(n), Ok(m)) => n == m,
            (Err(e), Err(f)) => e == f,
            _ => false,
        },
{
    if bytes.len() < 1 {
        return Err(Socks5Error::UnexpectedEof);
    }
    if bytes[0] != 5 {
        return Err(Socks5Error::NotVersion5);
    }
    if bytes.len() < 2 {
        return Err(Socks5Error::UnexpectedEof);
    }
    let n = bytes[1] as usize;
    if bytes.len() < 2 + n {
        return Err(Socks5Error::UnexpectedEof);
    }
    let mut i: usize = 2;
    while i < 2 + n
        invariant
            n == bytes@[1],
            bytes@[0] == 5u8,
            2 <= i <= 2 + n <= bytes.len(),
            forall|j: int| 2 <= j < i ==> bytes@[j] != 0u8,
        decreases 2 + n - i,
    {
        if bytes[i] == 0 {
            proof {
                assert(bytes@.subrange(2, 2 + n as int)[i - 2] == 0u8);
                assert(bytes@.subrange(2, 2 + n as int).contains(0u8));
            }
            return Ok(2 + n);
        }
        i += 1;
    }
    proof {
        assert forall|k: int| 0 <= k < n implies #[trigger] bytes@.subrange(2, 2 + n as int)[k] != 0u8 by {
            assert(bytes@.subrange(2, 2 + n as int)[k] == bytes@[2 + k]);
        }
        assert(!bytes@.subrange(2, 2 + n as int).contains(0u8));
    }
    Err(Socks5Error::NoAcceptableMethod)
}

/// The answer to a greeting: "no authentication" when it was offered,
/// "no acceptable method" otherwise.
pub fn greeting_reply(accepted: bool) -> (r: [u8; 2])
    ensures
        r@ == (if accepted {
            seq![5u8, 0u8]
        } else {
            seq![5u8, 0xffu8]
        }),
{
    if accepted {
        [5, 0]
    } else {
        [5, 0xff]
    }
}

/// A big-endian port.
pub open spec fn port_of(hi: u8, lo: u8) -> u16 {
    (hi as nat * 256 + lo as nat) as u16
}

/// What a `CONNECT` request holds: version 5, command 1, a reserved byte
/// and the address type, then the address (4 octets for type 1, a length
/// and that many name bytes for type 3, 16 octets for type 4) and a
/// big-endian port. A domain's bytes are checked to be UTF-8 as soon as
/// they are read, before the port. `Ok` holds whether the address is a domain, the address
/// bytes (the name's bytes for a domain), the port and the request's length.
pub open spec fn request_spec(b: Seq<u8>) -> Result<(bool, Seq<u8>, u16, nat), Socks5Error> {
    if b.len() < 4 {
        Err(Socks5Error::UnexpectedEof)
    } else if b[0] != 5 || b[1] != 1 {
        Err(Socks5Error::NotConnect)
    } else if b[3] == 1 {
        if b.len() < 10 {
            Err(Socks5Error::UnexpectedEof)
        } else {
            Ok((false, b.subrange(4, 8), port_of(b[8], b[9]), 10))
        }
    } else if b[3] == 3 {
        if b.len() < 5 || b.len() < 5 + b[4] {
            Err(Socks5Error::UnexpectedEof)
        } else if !valid_utf8(b.subrange(5, 5 + b[4])) {
            Err(Socks5Error::InvalidDomain)
        } else if b.len() < 5 + b[4] + 2 {
            Err(Socks5Error::UnexpectedEof)
        } else {
            Ok(
                (
                    true,
                    b.subrange(5, 5 + b[4]),
                    port_of(b[5 + b[4]], b[5 + b[4] + 1]),
                    (5 + b[4] + 2) as nat,
                ),
            )
        }
    } else if b[3] == 4 {
        if b.len() < 22 {
            Err(Socks5Error::UnexpectedEof)
        } else {
            Ok((false, b.subrange(4, 20), port_of(b[20], b[21]), 22))
        }
    } else {
        Err(Socks5Error::UnsupportedAddressType)
    }
}

fn copy_range(bytes: &[u8], from: usize, to: usize) -> (r: Vec<u8>)
    requires
        from <= to <= bytes.len(),
    ensures
        r@ == bytes@.subrange(from as int, to as int),
{
    let mut v: Vec<u8> = Vec::new();
    let mut i: usize = from;
    while i < to
        invariant
            from <= i <= to <= bytes.len(),
            v@ == bytes@.subrange(from as int, i as int),
        decreases to - i,
    {
        v.push(bytes[i]);
        i += 1;
        assert(v@ =~= bytes@.subrange(from as int, i as int));
    }
    v
}

fn port_from(hi: u8, lo: u8) -> (r: u16)
    ensures
        r == port_of(hi, lo),
{
    (hi as u16) * 256 + (lo as u16)
}

/// Reads the `CONNECT` request at the start of `bytes`, returning it with
/// its length.
pub fn read_connect(bytes: &[u8]) -> (r: Result<(Socks5Connect, usize), Socks5Error>)
    ensures
        match (r, request_spec(bytes@)) {
            (Ok((c, n)), Ok((domain, addr, port, m))) => n == m && c.port == port && match c.address {
                Socks5Address::Domain(d) => domain && d@ == decode_utf8(addr),
                Socks5Address::Ip(v) => !domain && v@ == addr,
            },
            (Err(e), Err(f)) => e == f,
            _ => false,
        },
{
    if bytes.len() < 4 {
        return Err(Socks5Error::UnexpectedEof);
    }
    if bytes[0] != 5 || bytes[1] != 1 {
        return Err(Socks5Error::NotConnect);
    }
    let atyp = bytes[3];
    if atyp == 1 {
        if bytes.len() < 10 {
            return Err(Socks5Error::UnexpectedEof);
        }
        let addr = copy_range(bytes, 4, 8);
        let port = port_from(bytes[8], bytes[9]);
        Ok((Socks5Connect { address: Socks5Address::Ip(addr), port }, 10))
    } else if atyp == 3 {
        if bytes.len() < 5 {
            return Err(Socks5Error::UnexpectedEof);
        }
        let len = bytes[4] as usize;
        if bytes.len() < 5 + len {
            return Err(Socks5Error::UnexpectedEof);
        }
        let name = copy_range(bytes, 5, 5 + len);
        let domain = match utf8_decode(name.as_slice()) {
            Some(d) => d,
            None => {
                return Err(Socks5Error::InvalidDomain);
            },
        };
        if bytes.len() < 5 + len + 2 {
            return Err(Socks5Error::UnexpectedEof);
        }
        let port = port_from(bytes[5 + len], bytes[5 + len + 1]);
        Ok((Socks5Connect { address: Socks5Address::Domain(domain), port }, 5 + len + 2))
    } else if atyp == 4 {
        if bytes.len() < 22 {
            return Err(Socks5Error::UnexpectedEof);
        }
        let addr = copy_range(bytes, 4, 20);
        let port = port_from(bytes[20], bytes[21]);
        Ok((Socks5Connect { address: Socks5Address::Ip(addr), port }, 22))
    } else {
        Err(Socks5Error::UnsupportedAddressType)
    }
}

/// The success reply of the test proxy: bound to 127.0.0.1, port 0.
pub fn connect_reply() -> (r: [u8; 10])
    ensures
        r@ == seq![5u8, 0u8, 0u8, 1u8, 127u8, 0u8, 0u8, 1u8, 0u8, 0u8],
{
    [5, 0, 0, 1, 127, 0, 0, 1, 0, 0]
}

} // verus!
