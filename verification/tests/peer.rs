use lzc_sdk::peer::application_from_certificates;
use lzc_sdk::Error;
use rcgen::{
    BasicConstraints, CertificateParams, DistinguishedName, DnType, IsCa, Issuer, KeyPair,
};

#[test]
fn rejects_zero_or_multiple_peer_certificates() {
    let zero = application_from_certificates(&vec![]).expect_err("zero certificates");
    assert!(matches!(
        zero,
        Error::InvalidPeerCertificateCount { count: 0 }
    ));

    let invalid = vec![0_u8];
    let multiple = application_from_certificates(&vec![invalid.clone(), invalid])
        .expect_err("multiple certificates");
    assert!(matches!(
        multiple,
        Error::InvalidPeerCertificateCount { count: 2 }
    ));
}

#[test]
fn rejects_a_certificate_that_is_not_x509() {
    let error = application_from_certificates(&vec![vec![0_u8]]).expect_err("not X.509");
    assert!(matches!(error, Error::InvalidPeerCertificate));
}

#[test]
fn reads_application_box_and_domain_from_the_client_certificate() {
    let mut ca_params = CertificateParams::new(Vec::<String>::new()).expect("CA params");
    ca_params.is_ca = IsCa::Ca(BasicConstraints::Unconstrained);
    ca_params
        .distinguished_name
        .push(DnType::CommonName, "LazyCat Test CA");
    ca_params
        .distinguished_name
        .push(DnType::from_oid(&[2, 5, 4, 5]), "box-456");
    let ca_key = KeyPair::generate().expect("CA key");
    let issuer = Issuer::new(ca_params, ca_key);

    let client_key = KeyPair::generate().expect("client key");
    let mut client_params = CertificateParams::new(Vec::<String>::new()).expect("client params");
    client_params
        .distinguished_name
        .push(DnType::CommonName, "app.example.test");
    client_params
        .distinguished_name
        .push(DnType::from_oid(&[2, 5, 4, 5]), "app-123");
    let client = client_params
        .signed_by(&client_key, &issuer)
        .expect("client certificate");

    let application =
        application_from_certificates(&vec![client.der().to_vec()]).expect("application");
    assert_eq!(application.app_id, "app-123");
    assert_eq!(application.box_id, "box-456");
    assert_eq!(application.app_domain, "app.example.test");
}

#[test]
fn missing_name_attributes_read_as_empty() {
    let key = KeyPair::generate().expect("key");
    let mut params = CertificateParams::new(Vec::<String>::new()).expect("params");
    params.distinguished_name = DistinguishedName::new();
    params.distinguished_name.push(DnType::OrganizationName, "LazyCat");
    let certificate = params.self_signed(&key).expect("certificate");

    let application =
        application_from_certificates(&vec![certificate.der().to_vec()]).expect("application");
    assert_eq!(application.app_id, "");
    assert_eq!(application.box_id, "");
    assert_eq!(application.app_domain, "");
}
