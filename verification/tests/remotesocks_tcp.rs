use lzc_sdk::remotesocks::udp::{
    associated_datagram, copy_payload, framed_datagram_length, framed_header,
    read_associated_datagram, receive_framed, receive_from_relay,
};
use lzc_sdk::{Error, SocketAddress, SocksAddress};

fn v4(a: u8, b: u8, c: u8, d: u8, port: u16) -> SocketAddress {
    SocketAddress::v4([a, b, c, d], port)
}

fn v6_loopback(port: u16) -> SocketAddress {
    let mut ip = [0_u8; 16];
    ip[15] = 1;
    SocketAddress::v6(ip, port)
}

#[test]
fn socks_address_codec_matches_rfc1928_and_lazycat_custom_fixtures() {
    let fixtures = [
        (
            SocksAddress::Ip(v4(127, 0, 0, 1, 8080)),
            b"\x01\x7f\x00\x00\x01\x1f\x90".as_slice(),
        ),
        (
            SocksAddress::Ip(v6_loopback(53)),
            b"\x04\x00\x00\x00\x00\x00\x00\x00\x00\x00\x00\x00\x00\x00\x00\x00\x01\x00\x35"
                .as_slice(),
        ),
        (
            SocksAddress::domain("example.com", 443).expect("domain address"),
            b"\x03\x0bexample.com\x01\xbb".as_slice(),
        ),
        (
            SocksAddress::custom("unix", "/tmp/socket").expect("custom address"),
            b"\x03\x1ddW5peA.L3RtcC9zb2NrZXQ.custom\x00\x00".as_slice(),
        ),
    ];

    for (address, bytes) in fixtures {
        assert_eq!(address.encode().expect("encode address"), bytes);
        assert_eq!(
            SocksAddress::decode(bytes).expect("decode address"),
            address
        );
    }
}

#[test]
fn socks_address_codec_rejects_malformed_or_oversized_input() {
    for encoded in [
        b"".as_slice(),
        b"\x02\x00\x00".as_slice(),
        b"\x01\x7f\x00\x00\x01\x00".as_slice(),
        b"\x04\x00\x00\x00\x00\x00\x00\x00\x00\x00\x00\x00\x00\x00\x00\x00\x01\x00".as_slice(),
        b"\x03\x03ab\x00\x50".as_slice(),
        b"\x03\x01\xff\x00\x50".as_slice(),
        b"\x03\x01a\x00\x50\x00".as_slice(),
        b"\x03\x0c%%%%.custom\x00\x00".as_slice(),
    ] {
        assert!(SocksAddress::decode(encoded).is_err(), "{encoded:?}");
    }

    let too_long = "a".repeat(256);
    assert!(matches!(
        SocksAddress::domain(&too_long, 80),
        Err(Error::SocksAddressTooLong)
    ));
    assert!(SocksAddress::domain("bad host", 80).is_err());
    assert!(SocksAddress::domain("2001:db8::1", 80).is_err());
    assert!(SocksAddress::parse("missing-port", None).is_err());
    assert!(SocksAddress::parse("[::1]", None).is_err());
}

#[test]
fn socks_address_errors_name_the_failing_field() {
    assert!(matches!(
        SocksAddress::decode(b"\x02\x00\x00"),
        Err(Error::UnsupportedSocksAddressType { address_type: 2 })
    ));
    assert!(matches!(
        SocksAddress::decode(b""),
        Err(Error::InvalidSocksAddress)
    ));
    assert!(matches!(
        SocksAddress::domain("", 80),
        Err(Error::InvalidSocksAddress)
    ));
    assert!(matches!(
        SocksAddress::custom("", "x"),
        Err(Error::InvalidSocksAddress)
    ));
    assert!(matches!(
        SocksAddress::custom(&"n".repeat(200), "x"),
        Err(Error::SocksAddressTooLong)
    ));
    assert!(SocksAddress::domain("tab\there", 1).is_err());
    assert!(SocksAddress::domain("nbsp\u{a0}here", 1).is_err());
    assert!(SocksAddress::domain("ümlaut.example", 1).is_ok());
}

#[test]
fn socks_address_parse_splits_at_the_last_colon() {
    let parsed = SocksAddress::parse("example.com:8080", None).expect("domain");
    assert_eq!(parsed, SocksAddress::domain("example.com", 8080).unwrap());
    assert_eq!(
        SocksAddress::parse("x:+80", None).expect("plus sign"),
        SocksAddress::domain("x", 80).unwrap()
    );
    assert!(SocksAddress::parse("x:65536", None).is_err());
    assert!(SocksAddress::parse(":80", None).is_err());
    assert!(SocksAddress::parse("[x:80", None).is_err());
    let numeric = v4(10, 0, 0, 1, 9);
    assert_eq!(
        SocksAddress::parse("10.0.0.1:9", Some(numeric)).unwrap(),
        SocksAddress::Ip(numeric)
    );
}

#[test]
fn socks_address_network_and_port() {
    let custom = SocksAddress::custom("unix", "/tmp/socket").unwrap();
    assert_eq!(custom.network(), "unix");
    assert_eq!(custom.port(), 0);
    let domain = SocksAddress::domain("example.com", 22).unwrap();
    assert_eq!(domain.network(), "socks5");
    assert_eq!(domain.port(), 22);
    assert_eq!(SocksAddress::Ip(v4(1, 2, 3, 4, 5)).port(), 5);
}

#[test]
fn socks_address_round_trips_through_the_wire() {
    let addresses = [
        SocksAddress::Ip(v4(192, 0, 2, 10, 3333)),
        SocksAddress::domain("proxy.lzcapp", 1080).unwrap(),
        SocksAddress::custom("tcp", "").unwrap(),
        SocksAddress::custom("ünicode", "a.b.c:9").unwrap(),
    ];
    for address in addresses {
        let bytes = address.encode().unwrap();
        assert_eq!(SocksAddress::decode(&bytes).unwrap(), address);
        let (prefix, consumed) = SocksAddress::decode_prefix(&[bytes.as_slice(), b"tail"].concat()).unwrap();
        assert_eq!(prefix, address);
        assert_eq!(consumed, bytes.len());
    }
    // A domain that ends in `.custom` with port zero reads back as a custom address attempt.
    let odd = SocksAddress::domain("abc.custom", 0).unwrap();
    assert!(SocksAddress::decode(&odd.encode().unwrap()).is_err());
}

#[test]
fn wire_length_reports_how_much_to_read() {
    assert_eq!(SocksAddress::wire_length(&[]).unwrap(), None);
    assert_eq!(SocksAddress::wire_length(&[1]).unwrap(), Some(7));
    assert_eq!(SocksAddress::wire_length(&[4]).unwrap(), Some(19));
    assert_eq!(SocksAddress::wire_length(&[3]).unwrap(), None);
    assert_eq!(SocksAddress::wire_length(&[3, 11]).unwrap(), Some(15));
    assert!(matches!(
        SocksAddress::wire_length(&[2]),
        Err(Error::UnsupportedSocksAddressType { address_type: 2 })
    ));
}

#[test]
fn associated_datagrams_round_trip_and_reject_bad_headers() {
    let target = SocksAddress::domain("example.com", 53).unwrap();
    let frame = associated_datagram(b"query", &target).unwrap();
    assert_eq!(frame, b"\x00\x00\x00\x03\x0bexample.com\x00\x35query");
    let mut payload = [0_u8; 32];
    let (length, source) = read_associated_datagram(&frame, &mut payload).unwrap();
    assert_eq!(&payload[..length], b"query");
    assert_eq!(source, target);

    let mut small = [0_u8; 2];
    let (length, _) = read_associated_datagram(&frame, &mut small).unwrap();
    assert_eq!(length, 2);
    assert_eq!(&small, b"qu");

    assert!(matches!(
        read_associated_datagram(b"\x01\x00\x00\x01\x7f\x00\x00\x01\x00\x35x", &mut payload),
        Err(Error::InvalidSocksUdpHeader)
    ));
    assert!(matches!(
        read_associated_datagram(b"\x00\x00\x01\x01\x7f\x00\x00\x01\x00\x35x", &mut payload),
        Err(Error::UnsupportedSocksUdpFragment { fragment: 1 })
    ));
    assert!(matches!(
        read_associated_datagram(b"\x00\x00\x00\x02", &mut payload),
        Err(Error::UnsupportedSocksAddressType { address_type: 2 })
    ));
    assert!(matches!(
        associated_datagram(&vec![0_u8; 65_500], &target),
        Err(Error::SocksUdpPayloadTooLarge)
    ));
}

#[test]
fn framed_udp_headers_match_lazycat_fixtures() {
    let target = SocksAddress::Ip(v4(8, 8, 8, 8, 53));
    let header = framed_header(5, &target).unwrap();
    assert_eq!(
        &header,
        b"\x00\x05\x00\x00\x00\x00\x00\x00\x00\x00\x00\x00\xff\xff\x08\x08\x08\x08\x00\x35"
    );
    assert_eq!(framed_datagram_length(&header), 5);
    let mut payload = [0_u8; 16];
    let (length, source) = receive_framed(&header, b"query", &mut payload).unwrap();
    assert_eq!(&payload[..length], b"query");
    assert_eq!(source, target);

    let mut ip = [0_u8; 16];
    ip[0] = 0x20;
    ip[1] = 0x01;
    ip[2] = 0x0d;
    ip[3] = 0xb8;
    ip[15] = 1;
    let header = framed_header(4, &SocksAddress::Ip(SocketAddress::v6(ip, 5353))).unwrap();
    assert_eq!(
        &header,
        b"\x00\x04\x20\x01\x0d\xb8\x00\x00\x00\x00\x00\x00\x00\x00\x00\x00\x00\x01\x14\xe9"
    );
    assert!(matches!(
        framed_header(1, &SocksAddress::domain("x", 1).unwrap()),
        Err(Error::InvalidSocksUdpAddress)
    ));
}

#[test]
fn copy_payload_truncates_to_the_destination() {
    let mut destination = [9_u8; 3];
    assert_eq!(copy_payload(&mut destination, b"abcdef"), 3);
    assert_eq!(&destination, b"abc");
    let mut destination = [9_u8; 4];
    assert_eq!(copy_payload(&mut destination, b"ab"), 2);
    assert_eq!(&destination, b"ab\x09\x09");
}

#[test]
fn only_the_relay_is_heard_on_an_association() {
    let relay = SocketAddress::v4([10, 0, 0, 1], 1080);
    let stranger = SocketAddress::v4([10, 0, 0, 2], 1080);
    let other_port = SocketAddress::v4([10, 0, 0, 1], 1081);
    let target = SocksAddress::domain("example.com", 53).unwrap();
    let frame = associated_datagram(b"answer", &target).unwrap();
    let mut payload = [7_u8; 16];

    assert!(receive_from_relay(&stranger, &relay, &frame, &mut payload).is_none());
    assert!(receive_from_relay(&other_port, &relay, &frame, &mut payload).is_none());
    assert_eq!(payload, [7_u8; 16]);

    let (length, source) = receive_from_relay(&relay, &relay, &frame, &mut payload)
        .expect("the relay is heard")
        .expect("a well-formed datagram");
    assert_eq!(&payload[..length], b"answer");
    assert_eq!(source, target);
    assert!(matches!(
        receive_from_relay(&relay, &relay, b"\x00\x00\x01", &mut payload),
        Some(Err(Error::UnsupportedSocksUdpFragment { fragment: 1 }))
    ));
}
