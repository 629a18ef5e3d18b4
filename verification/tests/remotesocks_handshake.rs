use std::str::FromStr;

use lzc_sdk::remotesocks::client::{
    check_method_selection, check_reply_header, command_request, greeting, EndpointCache,
    ProxyDialStep, ASSOCIATE_COMMAND, BIND_COMMAND,
    CONNECT_COMMAND,
};
use lzc_sdk::remotesocks::udp::{check_udp_payload, MAX_UDP_PAYLOAD};
use lzc_sdk::{Error, RemoteSocksEndpoint, SocksAddress};

fn endpoint(text: &str) -> RemoteSocksEndpoint {
    RemoteSocksEndpoint::from_str(text).expect("proxy endpoint")
}

/// Run one proxy connection: resolve through `cache` with `resolve`, dial
/// with `dial`, and return the endpoint that was reached, or the error of the
/// failed dial that is reported ("first dial" or "second dial").
fn connect(
    cache: &mut EndpointCache,
    resolve: &mut dyn FnMut() -> RemoteSocksEndpoint,
    dial: &dyn Fn(&RemoteSocksEndpoint) -> bool,
) -> Result<RemoteSocksEndpoint, &'static str> {
    let mut step = ProxyDialStep::start();
    let mut dials = 0;
    loop {
        step = match step {
            ProxyDialStep::Done(outcome) => return outcome,
            ProxyDialStep::Resolve { state, use_cache } => {
                let endpoint = match cache.lookup(use_cache) {
                    Some(endpoint) => endpoint,
                    None => {
                        let endpoint = resolve();
                        cache.record(&endpoint);
                        endpoint
                    }
                };
                state.resolved(Ok(endpoint))
            }
            ProxyDialStep::Dial { state, endpoint } => {
                dials += 1;
                let outcome = if dial(&endpoint) {
                    Ok(endpoint)
                } else if dials == 1 {
                    Err("first dial")
                } else {
                    Err("second dial")
                };
                state.dialed(outcome)
            }
        };
    }
}

#[test]
fn remote_tcp_rejects_malformed_authentication_and_command_replies() {
    assert!(matches!(
        check_method_selection(&[4, 0]),
        Err(Error::UnexpectedSocksVersion { version: 4 })
    ));
    assert!(matches!(
        check_method_selection(&[5, 0xff]),
        Err(Error::SocksNoAcceptableAuthentication)
    ));
    assert!(matches!(
        check_method_selection(&[5, 2]),
        Err(Error::UnsupportedSocksAuthentication { method: 2 })
    ));
    assert!(check_method_selection(&[5, 0]).is_ok());
    assert!(matches!(
        check_reply_header(&[5, 5, 0]),
        Err(Error::SocksReply { code: 5 })
    ));
    assert!(matches!(
        check_reply_header(&[5, 0, 1]),
        Err(Error::InvalidSocksReservedByte { reserved: 1 })
    ));
    assert!(check_reply_header(&[5, 0, 0]).is_ok());
    assert!(matches!(
        SocksAddress::wire_length(&[2]),
        Err(Error::UnsupportedSocksAddressType { address_type: 2 })
    ));
}

#[test]
fn connect_requests_offer_no_authentication_and_carry_the_target() {
    assert_eq!(greeting(), [5, 1, 0]);
    let target = SocksAddress::domain("example.com", 22).expect("target");
    assert_eq!(
        command_request(CONNECT_COMMAND, &target).expect("CONNECT request"),
        b"\x05\x01\x00\x03\x0bexample.com\x00\x16"
    );
    assert_eq!(
        command_request(BIND_COMMAND, &target).expect("BIND request")[..3],
        [5, 2, 0]
    );
    assert_eq!(ASSOCIATE_COMMAND, 3);
}

#[test]
fn remote_tcp_refreshes_a_failed_endpoint_once_and_caches_the_replacement() {
    let unavailable = endpoint("socks5://127.0.0.1:1");
    let replacement = endpoint("socks5://127.0.0.1:1080");
    let mut resolutions = 0;
    let mut resolve = || {
        resolutions += 1;
        if resolutions == 1 {
            unavailable.clone()
        } else {
            replacement.clone()
        }
    };
    let dial = |endpoint: &RemoteSocksEndpoint| endpoint.port() == 1080;
    let mut cache = EndpointCache::new();

    let first = connect(&mut cache, &mut resolve, &dial).expect("changed endpoint retry");
    let second = connect(&mut cache, &mut resolve, &dial).expect("cached replacement endpoint");

    assert!(first == replacement && second == replacement);
    assert_eq!(resolutions, 2);
}

#[test]
fn an_unchanged_endpoint_is_not_dialled_twice() {
    let unavailable = endpoint("socks5://127.0.0.1:1");
    let mut resolutions = 0;
    let mut resolve = || {
        resolutions += 1;
        unavailable.clone()
    };
    let dials = std::cell::Cell::new(0);
    let dial = |_: &RemoteSocksEndpoint| {
        dials.set(dials.get() + 1);
        false
    };
    let mut cache = EndpointCache::new();

    assert_eq!(connect(&mut cache, &mut resolve, &dial), Err("first dial"));
    assert_eq!(dials.get(), 1);
    assert_eq!(resolutions, 2);
}

#[test]
fn a_second_failure_reports_the_second_dial() {
    let mut resolutions = 0;
    let mut resolve = || {
        resolutions += 1;
        endpoint(&format!("socks5://127.0.0.1:{}", 1000 + resolutions))
    };
    let dial = |_: &RemoteSocksEndpoint| false;
    let mut cache = EndpointCache::new();
    assert_eq!(connect(&mut cache, &mut resolve, &dial), Err("second dial"));
}

#[test]
fn udp_payloads_are_bounded() {
    assert_eq!(MAX_UDP_PAYLOAD, 65_507);
    assert!(check_udp_payload(0).is_ok());
    assert!(check_udp_payload(MAX_UDP_PAYLOAD).is_ok());
    assert!(matches!(
        check_udp_payload(MAX_UDP_PAYLOAD + 1),
        Err(Error::SocksUdpPayloadTooLarge)
    ));
}

#[test]
fn a_failed_refresh_reports_the_first_dial_error() {
    let first = endpoint("socks5://127.0.0.1:1");
    let step: ProxyDialStep<(), &str> = ProxyDialStep::start();
    let ProxyDialStep::Resolve { state, use_cache } = step else {
        panic!("reaching the proxy starts by resolving");
    };
    assert!(use_cache);
    let ProxyDialStep::Dial { state, endpoint: dialed } = state.resolved::<()>(Ok(first.clone())) else {
        panic!("a resolved endpoint is dialed");
    };
    assert!(dialed == first);
    let ProxyDialStep::Resolve { state, use_cache } = state.dialed::<(), &str>(Err("refused")) else {
        panic!("a failed first dial resolves again");
    };
    assert!(!use_cache);
    assert!(matches!(state.resolved::<()>(Err("resolver down")), ProxyDialStep::Done(Err("refused"))));
}
