use std::str::FromStr;

use lzc_sdk::net_text::{ipv4_string, ipv6_string};
use lzc_sdk::{RemoteLocation, RemoteSocksEndpoint, SocketAddress};

#[test]
fn parses_supported_remote_socks_urls() {
    let domain =
        RemoteSocksEndpoint::from_str("socks5://proxy.lzcapp:1080").expect("domain endpoint");
    assert_eq!(domain.host(), "proxy.lzcapp");
    assert_eq!(domain.port(), 1080);
    assert_eq!(domain.to_string(), "socks5://proxy.lzcapp:1080");

    let ipv6 =
        RemoteSocksEndpoint::from_str("socks5h://[2001:db8::1]:2080").expect("IPv6 endpoint");
    assert_eq!(ipv6.host(), "2001:db8::1");
    assert_eq!(ipv6.authority(), "[2001:db8::1]:2080");
    assert!(ipv6.resolves_hostname_remotely());
}

#[test]
fn rejects_ambiguous_remote_socks_urls() {
    for value in [
        "http://127.0.0.1:1080",
        "socks5://127.0.0.1",
        "socks5://user@127.0.0.1:1080",
        "socks5://127.0.0.1:1080/path",
        "socks5://127.0.0.1:1080?query=yes",
    ] {
        assert!(RemoteSocksEndpoint::from_str(value).is_err(), "{value}");
    }
}

#[test]
fn endpoints_keep_their_authority() {
    let local: RemoteSocksEndpoint = "socks5://127.0.0.1:1080".parse().unwrap();
    assert_eq!(local.authority(), "127.0.0.1:1080");
    assert!(!local.resolves_hostname_remotely());
    let remote: RemoteSocksEndpoint = "socks5h://[::1]:2080".parse().unwrap();
    assert_eq!(remote.authority(), "[::1]:2080");
    assert_eq!(remote.to_string(), "socks5h://[::1]:2080");
    assert!("socks5://127.0.0.1".parse::<RemoteSocksEndpoint>().is_err());
    assert!("socks5://127.0.0.1:1080#frag".parse::<RemoteSocksEndpoint>().is_err());
    assert!("socks5://127.0.0.1:1080/".parse::<RemoteSocksEndpoint>().is_ok());
}

#[test]
fn remote_locations_follow_the_target() {
    assert_eq!(RemoteLocation::from_target(""), RemoteLocation::Local);
    assert_eq!(
        RemoteLocation::from_string("peer-42".to_owned()),
        RemoteLocation::Remote { target: "peer-42".to_owned() }
    );
}

#[test]
fn ip_text_matches_the_standard_library() {
    assert_eq!(ipv4_string([192, 0, 2, 128]), "192.0.2.128");
    let cases: [([u8; 16], &str); 6] = [
        ([0; 16], "::"),
        ([0, 0, 0, 0, 0, 0, 0, 0, 0, 0, 0, 0, 0, 0, 0, 1], "::1"),
        ([0x20, 1, 0x0d, 0xb8, 0, 0, 0, 0, 0, 0, 0, 0, 0, 0, 0, 1], "2001:db8::1"),
        ([0x20, 1, 0x0d, 0xb8, 0, 0, 0, 1, 0, 0, 0, 0, 0, 1, 0, 0], "2001:db8:0:1::1:0"),
        ([0, 0, 0, 0, 0, 0, 0, 0, 0, 0, 0xff, 0xff, 192, 0, 2, 128], "::ffff:192.0.2.128"),
        ([0xfe, 0x80, 0, 0, 0, 0, 0, 0, 0, 0, 0, 0, 0, 0, 0, 0xab], "fe80::ab"),
    ];
    for (octets, text) in cases {
        assert_eq!(ipv6_string(octets), text);
    }
    let mut ip = [0_u8; 16];
    ip[0] = 0xfe;
    ip[1] = 0x80;
    ip[15] = 1;
    let scoped = SocketAddress::V6 { ip, port: 80, flowinfo: 0, scope_id: 2 };
    assert_eq!(scoped.to_string(), "[fe80::1%2]:80");
    assert_eq!(SocketAddress::v4([1, 2, 3, 4], 5).to_string(), "1.2.3.4:5");
}

#[test]
fn accepted_endpoints_keep_bare_hosts_and_bracket_only_ipv6() {
    for (value, host, authority) in [
        ("socks5://proxy.lzcapp:1080", "proxy.lzcapp", "proxy.lzcapp:1080"),
        ("socks5://127.0.0.1:1080", "127.0.0.1", "127.0.0.1:1080"),
        ("socks5h://[::1]:2080", "::1", "[::1]:2080"),
        ("socks5://[::ffff:10.0.0.1]:9", "::ffff:10.0.0.1", "[::ffff:10.0.0.1]:9"),
    ] {
        let endpoint = RemoteSocksEndpoint::from_str(value).expect(value);
        assert_eq!(endpoint.host(), host);
        assert_eq!(endpoint.authority(), authority);
    }
}

#[test]
fn written_endpoints_parse_back() {
    for text in [
        "socks5://proxy.lzcapp:1080",
        "socks5h://[2001:db8::1]:2080/",
        "socks5h://10.0.0.1:9",
    ] {
        let endpoint = RemoteSocksEndpoint::from_str(text).expect("endpoint");
        let written = endpoint.to_string();
        let again = RemoteSocksEndpoint::from_str(&written).expect("written endpoint");
        assert!(again == endpoint);
        assert_eq!(again.to_string(), written);
    }
}
