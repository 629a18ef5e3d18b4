use lzc_sdk::{Error, SocketAddress, SocksAddress};

#[test]
fn domain_addresses_render_as_host_and_port_and_parse_back() {
    let address = SocksAddress::domain("example.com", 443).expect("domain address");
    let text = address.to_string();
    assert_eq!(text, "example.com:443");
    let parsed = SocksAddress::parse(&text, None).expect("parse domain text");
    assert!(parsed == address);
}

#[test]
fn socket_and_custom_addresses_render_as_their_address() {
    let v4 = SocksAddress::Ip(SocketAddress::v4([127, 0, 0, 1], 8080));
    assert_eq!(v4.to_string(), "127.0.0.1:8080");
    let mut ip = [0_u8; 16];
    ip[0] = 0x20;
    ip[1] = 0x01;
    ip[2] = 0x0d;
    ip[3] = 0xb8;
    ip[15] = 1;
    let v6 = SocksAddress::Ip(SocketAddress::v6(ip, 53));
    assert_eq!(v6.to_string(), "[2001:db8::1]:53");
    let custom = SocksAddress::custom("unix", "/tmp/socket").expect("custom address");
    assert_eq!(custom.to_string(), "/tmp/socket");
}

#[test]
fn bracketed_or_portless_text_is_not_a_domain_address() {
    for value in ["[::1]", "[host:80", "host]:80", ":80", "host", "host:", "host:65536", "host:x"] {
        assert!(
            matches!(SocksAddress::parse(value, None), Err(Error::InvalidSocksAddress)),
            "{value}"
        );
    }
    let plus = SocksAddress::parse("host:+80", None).expect("a leading plus is accepted");
    assert_eq!(plus.port(), 80);
}

#[test]
fn equal_addresses_hash_alike() {
    let mut set = std::collections::HashSet::new();
    set.insert(SocksAddress::domain("example.com", 80).expect("domain"));
    set.insert(SocksAddress::domain("example.com", 80).expect("domain"));
    set.insert(SocksAddress::Ip(SocketAddress::v4([127, 0, 0, 1], 80)));
    assert_eq!(set.len(), 2);
}
