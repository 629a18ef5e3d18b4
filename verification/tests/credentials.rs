use ed25519_dalek::{Signature as Ed25519Signature, Verifier as _};
use lzc_sdk::credentials::{
    ValidatedCredentials, INVALID_X509_CERTIFICATE, KEY_CERTIFICATE_MISMATCH,
    MALFORMED_PEM_CERTIFICATE, MALFORMED_PEM_PRIVATE_KEY, NO_CERTIFICATE_FOUND,
    NO_PRIVATE_KEY_FOUND,
};
use lzc_sdk::{CredentialMaterial, CredentialPaths, Error};
use rcgen::{
    BasicConstraints, CertificateParams, DnType, ExtendedKeyUsagePurpose, IsCa, Issuer, KeyPair,
    KeyUsagePurpose, PKCS_ED25519,
};
use rsa::pkcs1::EncodeRsaPrivateKey as _;
use rsa::pkcs1v15::Pkcs1v15Sign;
use rsa::pkcs8::{DecodePrivateKey as _, EncodePrivateKey as _, LineEnding};
use rsa::{RsaPrivateKey, RsaPublicKey};

/// A fresh RSA key, with its PKCS#8 PEM document.
fn rsa_test_key() -> (RsaPrivateKey, String) {
    let key = RsaPrivateKey::new(&mut rsa::rand_core::OsRng, 2048).expect("generate RSA key");
    let pem = key
        .to_pkcs8_pem(LineEnding::LF)
        .expect("encode PKCS#8 test key")
        .to_string();
    (key, pem)
}

struct Pki {
    ca_certificate_pem: String,
    application_certificate_pem: String,
}

fn paths() -> CredentialPaths {
    CredentialPaths {
        box_certificate: "box.crt".to_owned(),
        application_certificate: "app.crt".to_owned(),
        application_private_key: "app.key".to_owned(),
    }
}

fn issue(app_key: &KeyPair) -> Pki {
    let mut ca_params = CertificateParams::new(Vec::<String>::new()).expect("CA params");
    ca_params.is_ca = IsCa::Ca(BasicConstraints::Unconstrained);
    ca_params
        .distinguished_name
        .push(DnType::CommonName, "LazyCat Test CA");
    ca_params
        .distinguished_name
        .push(DnType::from_oid(&[2, 5, 4, 5]), "box-456");
    ca_params.key_usages = vec![
        KeyUsagePurpose::DigitalSignature,
        KeyUsagePurpose::KeyCertSign,
        KeyUsagePurpose::CrlSign,
    ];
    let ca_key = KeyPair::generate().expect("CA key");
    let ca_certificate = ca_params.self_signed(&ca_key).expect("CA certificate");
    let issuer = Issuer::new(ca_params, ca_key);

    let mut app_params = CertificateParams::new(Vec::<String>::new()).expect("app params");
    app_params
        .distinguished_name
        .push(DnType::CommonName, "app.example.test");
    app_params
        .distinguished_name
        .push(DnType::from_oid(&[2, 5, 4, 5]), "app-123");
    app_params.key_usages = vec![KeyUsagePurpose::DigitalSignature];
    app_params.extended_key_usages = vec![ExtendedKeyUsagePurpose::ClientAuth];
    let app_certificate = app_params
        .signed_by(app_key, &issuer)
        .expect("application certificate");
    Pki {
        ca_certificate_pem: ca_certificate.pem(),
        application_certificate_pem: app_certificate.pem(),
    }
}

fn load(pki: &Pki, key_pem: &str) -> Result<CredentialMaterial, Error> {
    CredentialMaterial::from_pem(
        paths(),
        pki.ca_certificate_pem.clone().into_bytes(),
        pki.application_certificate_pem.clone().into_bytes(),
        key_pem.as_bytes().to_vec(),
    )
}

fn certificate_error(error: Error) -> (String, &'static str) {
    match error {
        Error::InvalidCertificate { path, reason } => (path, reason),
        other => panic!("unexpected error: {other:?}"),
    }
}

fn key_error(error: Error) -> (String, &'static str) {
    match error {
        Error::InvalidPrivateKey { path, reason } => (path, reason),
        other => panic!("unexpected error: {other:?}"),
    }
}

#[test]
fn ed25519_credentials_sign_the_application_id() {
    let app_key = KeyPair::generate_for(&PKCS_ED25519).expect("Ed25519 key");
    let pki = issue(&app_key);
    let material = load(&pki, &app_key.serialize_pem()).expect("load Ed25519 credentials");

    assert_eq!(material.application_id(), "app-123");
    assert!(*material.paths() == paths());
    assert_eq!(material.box_certificate_pem(), pki.ca_certificate_pem.as_bytes());
    assert_eq!(
        material.application_certificate_pem(),
        pki.application_certificate_pem.as_bytes()
    );
    assert_eq!(
        material.application_private_key_pem(),
        app_key.serialize_pem().as_bytes()
    );

    let request = material.auth_request_material().expect("sign request");
    assert_eq!(request.box_certificate, pki.ca_certificate_pem.as_bytes());
    assert_eq!(
        request.application_certificate,
        pki.application_certificate_pem.as_bytes()
    );
    assert_eq!(request.signature.len(), 64);
    let key = ed25519_dalek::SigningKey::from_pkcs8_der(&app_key.serialize_der())
        .expect("decode Ed25519 test key");
    let signature = Ed25519Signature::from_slice(&request.signature).expect("signature bytes");
    key.verifying_key()
        .verify(b"app-123", &signature)
        .expect("signature verifies");
}

#[test]
fn rsa_pkcs1_auth_signature_is_go_compatible() {
    let (key, pkcs8_pem) = rsa_test_key();
    let app_key = KeyPair::from_pem(&pkcs8_pem).expect("RSA key pair");
    let pki = issue(&app_key);
    let pkcs1_pem = key
        .to_pkcs1_pem(LineEnding::LF)
        .expect("encode PKCS#1 test key")
        .to_string();
    let material = load(&pki, &pkcs1_pem).expect("load RSA credentials");

    let request = material.auth_request_material().expect("RSA signature");
    RsaPublicKey::from(&key)
        .verify(Pkcs1v15Sign::new_unprefixed(), b"app-123", &request.signature)
        .expect("PKCS#1 v1.5 signature of the application ID");
}

#[test]
fn rsa_pkcs8_keys_sign_requests_too() {
    let (key, pkcs8_pem) = rsa_test_key();
    let app_key = KeyPair::from_pem(&pkcs8_pem).expect("RSA key pair");
    let pki = issue(&app_key);
    let material = load(&pki, &pkcs8_pem).expect("load RSA PKCS#8 credentials");

    let request = material.auth_request_material().expect("RSA signature");
    RsaPublicKey::from(&key)
        .verify(Pkcs1v15Sign::new_unprefixed(), b"app-123", &request.signature)
        .expect("PKCS#1 v1.5 signature of the application ID");
}

#[test]
fn ecdsa_keys_load_but_cannot_sign_requests() {
    let app_key = KeyPair::generate().expect("ECDSA key");
    let pki = issue(&app_key);
    let material = load(&pki, &app_key.serialize_pem()).expect("load ECDSA credentials");

    assert_eq!(material.application_id(), "app-123");
    assert!(matches!(
        material.auth_request_material(),
        Err(Error::UnsupportedAuthSigningKey)
    ));
}

#[test]
fn certificate_files_are_checked_in_order() {
    let app_key = KeyPair::generate_for(&PKCS_ED25519).expect("Ed25519 key");
    let pki = issue(&app_key);
    let key_pem = app_key.serialize_pem();

    let empty = CredentialMaterial::from_pem(
        paths(),
        Vec::new(),
        Vec::new(),
        Vec::new(),
    )
    .err()
    .expect("empty box certificate");
    assert_eq!(
        certificate_error(empty),
        ("box.crt".to_owned(), NO_CERTIFICATE_FOUND)
    );

    let malformed = CredentialMaterial::from_pem(
        paths(),
        pki.ca_certificate_pem.clone().into_bytes(),
        b"-----BEGIN CERTIFICATE-----\n!!!!\n-----END CERTIFICATE-----\n".to_vec(),
        key_pem.clone().into_bytes(),
    )
    .err()
    .expect("malformed application certificate");
    assert_eq!(
        certificate_error(malformed),
        ("app.crt".to_owned(), MALFORMED_PEM_CERTIFICATE)
    );

    let not_x509 = CredentialMaterial::from_pem(
        paths(),
        b"-----BEGIN CERTIFICATE-----\nAAECAw==\n-----END CERTIFICATE-----\n".to_vec(),
        pki.application_certificate_pem.clone().into_bytes(),
        key_pem.into_bytes(),
    )
    .err()
    .expect("box certificate that is not X.509");
    assert_eq!(
        certificate_error(not_x509),
        ("box.crt".to_owned(), INVALID_X509_CERTIFICATE)
    );
}

#[test]
fn private_key_files_are_checked() {
    let app_key = KeyPair::generate_for(&PKCS_ED25519).expect("Ed25519 key");
    let pki = issue(&app_key);

    let missing = load(&pki, "").err().expect("no key");
    assert_eq!(key_error(missing), ("app.key".to_owned(), NO_PRIVATE_KEY_FOUND));

    let malformed_pem = format!("-----BEGIN {0}-----\n!!!!\n-----END {0}-----\n", "PRIVATE KEY");
    let malformed = load(&pki, &malformed_pem)
        .err()
        .expect("malformed key");
    assert_eq!(
        key_error(malformed),
        ("app.key".to_owned(), MALFORMED_PEM_PRIVATE_KEY)
    );

    let other_key = KeyPair::generate_for(&PKCS_ED25519).expect("other Ed25519 key");
    let mismatch = load(&pki, &other_key.serialize_pem())
        .err()
        .expect("key of another certificate");
    assert_eq!(
        key_error(mismatch),
        ("app.key".to_owned(), KEY_CERTIFICATE_MISMATCH)
    );
}

#[test]
fn a_rejected_key_match_reports_the_key_file() {
    let app_key = KeyPair::generate_for(&PKCS_ED25519).expect("Ed25519 key");
    let pki = issue(&app_key);
    let validated = ValidatedCredentials::validate(
        paths(),
        pki.ca_certificate_pem.clone().into_bytes(),
        pki.application_certificate_pem.clone().into_bytes(),
        app_key.serialize_pem().into_bytes(),
    )
    .expect("validated files");
    assert!(validated.key_matches_certificate());
    let error = validated.finish(false).err().expect("rejected match");
    assert_eq!(key_error(error), ("app.key".to_owned(), KEY_CERTIFICATE_MISMATCH));
}

