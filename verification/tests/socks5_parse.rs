use catcher::socks5::{
    connect_reply, greeting_reply, read_connect, read_greeting, Socks5Address, Socks5Connect,
    Socks5Error,
};

#[test]
fn socks5_greetings() {
    assert_eq!(read_greeting(&[5, 1, 0, 99]), Ok(3));
    assert_eq!(read_greeting(&[4, 1, 0]), Err(Socks5Error::NotVersion5));
    assert_eq!(read_greeting(&[5, 2, 0]), Err(Socks5Error::UnexpectedEof));
    assert_eq!(read_greeting(&[5, 1, 2]), Err(Socks5Error::NoAcceptableMethod));
    assert_eq!(greeting_reply(true), [5, 0]);
    assert_eq!(greeting_reply(false), [5, 0xff]);
    assert_eq!(connect_reply(), [5, 0, 0, 1, 127, 0, 0, 1, 0, 0]);
}

#[test]
fn socks5_connect_requests() {
    assert_eq!(
        read_connect(&[5, 1, 0, 1, 10, 0, 0, 1, 0x1f, 0x90]),
        Ok((Socks5Connect { address: Socks5Address::Ip(vec![10, 0, 0, 1]), port: 8080 }, 10))
    );
    let mut req = vec![5, 1, 0, 3, 4];
    req.extend_from_slice(b"a.io");
    req.extend_from_slice(&[0, 80]);
    assert_eq!(
        read_connect(&req),
        Ok((Socks5Connect { address: Socks5Address::Domain("a.io".to_string()), port: 80 }, 11))
    );
    assert_eq!(read_connect(&[5, 2, 0, 1]), Err(Socks5Error::NotConnect));
    assert_eq!(read_connect(&[5, 1, 0, 9]), Err(Socks5Error::UnsupportedAddressType));
    // A domain that is not UTF-8 is refused before the missing port is noticed.
    assert_eq!(read_connect(&[5, 1, 0, 3, 2, 0xff, 0xfe]), Err(Socks5Error::InvalidDomain));
    assert_eq!(read_connect(&[5, 1, 0, 3, 2, b'a', b'b']), Err(Socks5Error::UnexpectedEof));
    assert_eq!(read_connect(&[5, 1, 0, 3, 2, b'a']), Err(Socks5Error::UnexpectedEof));
}
