use std::io;

use lzc_sdk::service_address::{
    unspecified_bind_address, RouteSearch, ROUTE_PROBE_PORT, SERVICE_HOST,
};
use lzc_sdk::{Error, SocketAddress};

fn ipv6_loopback(port: u16) -> SocketAddress {
    let mut ip = [0_u8; 16];
    ip[15] = 1;
    SocketAddress::v6(ip, port)
}

#[test]
fn iterates_candidates_until_a_route_succeeds() {
    let first = SocketAddress::v4([192, 0, 2, 1], 9);
    let second = SocketAddress::v4([127, 0, 0, 1], 9);
    let mut search = RouteSearch::new(vec![first, second]);
    let mut visited = Vec::new();
    let result = loop {
        let candidate = search.next_candidate().expect("a candidate is left");
        visited.push(candidate);
        if candidate == first {
            search.record_failure(io::Error::new(io::ErrorKind::NetworkUnreachable, "first"));
        } else {
            break candidate;
        }
    };
    assert!(result == second);
    assert_eq!(visited.len(), 2);
    assert!(visited[0] == first && visited[1] == second);
}

#[test]
fn preserves_the_last_route_error() {
    let mut search = RouteSearch::new(vec![
        SocketAddress::v4([192, 0, 2, 1], 9),
        SocketAddress::v4([198, 51, 100, 1], 9),
    ]);
    while let Some(candidate) = search.next_candidate() {
        let kind = if candidate == SocketAddress::v4([192, 0, 2, 1], 9) {
            io::ErrorKind::NetworkUnreachable
        } else {
            io::ErrorKind::ConnectionRefused
        };
        search.record_failure(io::Error::new(kind, "route probe"));
    }
    match search.into_error() {
        Error::ServiceAddressNoRoute {
            source: Some(source),
        } => assert_eq!(source.kind(), io::ErrorKind::ConnectionRefused),
        other => panic!("unexpected error: {other:?}"),
    }
}

#[test]
fn reports_no_route_when_dns_returns_no_candidates() {
    let search = RouteSearch::new(Vec::new());
    assert!(search.next_candidate().is_none());
    assert!(matches!(
        search.into_error(),
        Error::ServiceAddressNoRoute { source: None }
    ));
}

#[test]
fn binds_an_unspecified_socket_of_the_candidate_family() {
    assert!(
        unspecified_bind_address(&SocketAddress::v4([127, 0, 0, 1], 9))
            == SocketAddress::v4([0, 0, 0, 0], 0)
    );
    assert!(unspecified_bind_address(&ipv6_loopback(9)) == SocketAddress::v6([0; 16], 0));
}

#[test]
fn probes_target_the_host_service() {
    assert_eq!(SERVICE_HOST, "host.lzcapp");
    assert_eq!(ROUTE_PROBE_PORT, 9);
}
