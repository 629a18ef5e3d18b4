use lzc_sdk::connection::{gateway_candidate_text, gateway_override, gateway_uri_from};
use lzc_sdk::{
    normalize_gateway_address, with_real_uid, CredentialPaths, Error, APP_CERT_PATH, APP_KEY_PATH,
    CA_PATH, PORTAL_SOCKET_PATH, REAL_UID_METADATA_KEY, RUNTIME_SOCKET_PATH,
};
use tonic::Request;

#[test]
fn runtime_credential_paths_match_lazycat_contract() {
    let paths = CredentialPaths::runtime();

    assert_eq!(paths.box_certificate, CA_PATH);
    assert_eq!(paths.application_certificate, APP_CERT_PATH);
    assert_eq!(paths.application_private_key, APP_KEY_PATH);
    assert_eq!(RUNTIME_SOCKET_PATH, "/lzcapp/run/sys/lzc-apis.socket");
}

#[test]
fn runtime_paths_are_the_mounted_files() {
    assert_eq!(CA_PATH, "/lzcapp/run/certs/box.crt");
    assert_eq!(APP_CERT_PATH, "/lzcapp/run/certs/app.crt");
    assert_eq!(APP_KEY_PATH, "/lzcapp/run/certs/app.key");
    assert_eq!(PORTAL_SOCKET_PATH, "/lzcapp/run/sys/portal-server.socket");
    assert!(CredentialPaths::default() == CredentialPaths::runtime());
}

#[test]
fn real_uid_metadata_matches_grpc_wire_key() {
    let mut request = Request::new(());

    with_real_uid(&mut request, "user-42").expect("valid metadata");

    assert_eq!(
        request
            .metadata()
            .get("x-hc-user-id")
            .expect("real UID metadata"),
        "user-42"
    );
    assert_eq!(REAL_UID_METADATA_KEY.to_ascii_lowercase(), "x-hc-user-id");
}

#[test]
fn empty_real_uid_is_a_noop_and_invalid_values_are_rejected() {
    let mut request = Request::new(());
    with_real_uid(&mut request, "").expect("empty UID is a no-op");
    assert!(request.metadata().get("x-hc-user-id").is_none());

    let error = with_real_uid(&mut request, "invalid\nuid").expect_err("invalid metadata value");
    assert!(matches!(error, Error::InvalidMetadataValue(_)));
    assert!(request.metadata().get("x-hc-user-id").is_none());
}

#[test]
fn real_uid_accepts_tabs_and_rejects_delete() {
    let mut request = Request::new(());
    with_real_uid(&mut request, "a\tb").expect("tab is allowed");
    assert!(matches!(
        with_real_uid(&mut request, "a\u{7f}b"),
        Err(Error::InvalidMetadataValue(_))
    ));
    assert_eq!(request.metadata().get_all("x-hc-user-id").iter().count(), 1);
}

#[test]
fn normalizes_plaintext_gateway_overrides() {
    assert_eq!(
        normalize_gateway_address("127.0.0.1:1234").expect("host and port"),
        "http://127.0.0.1:1234"
    );
    assert_eq!(
        normalize_gateway_address("https://gateway.example:8443/path").expect("HTTP URI"),
        "http://gateway.example:8443"
    );
}

#[test]
fn gateway_overrides_are_trimmed_and_need_an_authority() {
    assert_eq!(
        normalize_gateway_address("  gateway.lzcapp:80\n").expect("trimmed"),
        "http://gateway.lzcapp:80"
    );
    assert!(matches!(
        normalize_gateway_address("unix:///run/socket"),
        Err(Error::InvalidGatewayAddress)
    ));
    assert!(matches!(
        normalize_gateway_address("http://bad host:1"),
        Err(Error::InvalidGatewayAddress)
    ));
}

#[test]
fn gateway_candidate_adds_a_scheme_only_when_missing() {
    assert_eq!(gateway_candidate_text(" 10.0.0.1:9 "), "http://10.0.0.1:9");
    assert_eq!(gateway_candidate_text("grpc://x:1"), "grpc://x:1");
    assert_eq!(
        gateway_uri_from(Some(Some("host:7".to_owned()))).expect("authority"),
        "http://host:7"
    );
    assert!(matches!(
        gateway_uri_from(Some(None)),
        Err(Error::InvalidGatewayAddress)
    ));
    assert!(matches!(gateway_uri_from(None), Err(Error::InvalidGatewayAddress)));
}

#[test]
fn blank_gateway_overrides_are_ignored() {
    assert_eq!(gateway_override(None), None);
    assert_eq!(gateway_override(Some(" \t ".to_owned())), None);
    assert_eq!(
        gateway_override(Some(" 1.2.3.4:5 ".to_owned())),
        Some(" 1.2.3.4:5 ".to_owned())
    );
}

#[test]
fn unicode_white_space_is_trimmed_from_overrides() {
    assert_eq!(
        gateway_candidate_text("\u{3000}\u{2003}gateway.lzcapp:80\u{85}\u{a0}"),
        "http://gateway.lzcapp:80"
    );
    assert_eq!(gateway_override(Some("\u{2028}\u{3000}".to_owned())), None);
}
