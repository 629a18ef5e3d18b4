//! The `LazyCat` application identity: certificate and private-key
//! validation, the application ID, and the signature of device
//! authentication requests.

use ed25519_dalek::pkcs8::DecodePrivateKey as _;
use ed25519_dalek::{Signer as _, SigningKey as Ed25519SigningKey};
use rsa::pkcs1::DecodeRsaPrivateKey as _;
use rsa::pkcs1v15::Pkcs1v15Sign;
use rsa::RsaPrivateKey;
use rustls::pki_types::{CertificateDer, PrivateKeyDer};
use rustls::sign::CertifiedKey;
use vstd::prelude::*;
use vstd::utf8::*;

use crate::certificate::{
    certificate_names, first_attribute, first_attribute_text, x509_names,
    SERIAL_NUMBER_OID,
};
use crate::Error;

verus! {

broadcast use vstd::string::group_string_axioms;

/// Runtime box certificate path used by `LazyCat` applications.
pub const CA_PATH: &'static str = "/lzcapp/run/certs/box.crt";

/// Runtime application certificate path used by `LazyCat` applications.
pub const APP_CERT_PATH: &'static str = "/lzcapp/run/certs/app.crt";

/// Runtime application private-key path used by `LazyCat` applications.
pub const APP_KEY_PATH: &'static str = "/lzcapp/run/certs/app.key";

/// Files that make up a `LazyCat` application client identity.
#[derive(Clone, Debug)]
pub struct CredentialPaths {
    /// Box certificate sent to the device authentication API.
    pub box_certificate: String,
    /// Application certificate presented for mTLS.
    pub application_certificate: String,
    /// Application private key presented for mTLS and request signing.
    pub application_private_key: String,
}

/// Model of [`CredentialPaths`].
pub struct CredentialPathsView {
    pub box_certificate: Seq<char>,
    pub application_certificate: Seq<char>,
    pub application_private_key: Seq<char>,
}

impl View for CredentialPaths {
    type V = CredentialPathsView;

    open spec fn view(&self) -> CredentialPathsView {
        CredentialPathsView {
            box_certificate: self.box_certificate@,
            application_certificate: self.application_certificate@,
            application_private_key: self.application_private_key@,
        }
    }
}

impl CredentialPaths {
    /// Return the fixed credential paths mounted into `LazyCat` applications.
    pub fn runtime() -> (r: CredentialPaths)
        ensures
            r.box_certificate@ == CA_PATH@,
            r.application_certificate@ == APP_CERT_PATH@,
            r.application_private_key@ == APP_KEY_PATH@,
    {
        CredentialPaths {
            box_certificate: String::from_str(CA_PATH),
            application_certificate: String::from_str(APP_CERT_PATH),
            application_private_key: String::from_str(APP_KEY_PATH),
        }
    }
}

impl Default for CredentialPaths {
    fn default() -> (r: CredentialPaths)
        ensures
            r.box_certificate@ == CA_PATH@,
            r.application_certificate@ == APP_CERT_PATH@,
            r.application_private_key@ == APP_KEY_PATH@,
    {
        CredentialPaths::runtime()
    }
}

impl PartialEq for CredentialPaths {
    fn eq(&self, other: &Self) -> (r: bool) {
        self.box_certificate == other.box_certificate && self.application_certificate
            == other.application_certificate && self.application_private_key
            == other.application_private_key
    }
}

impl vstd::std_specs::cmp::PartialEqSpecImpl for CredentialPaths {
    open spec fn obeys_eq_spec() -> bool {
        true
    }

    open spec fn eq_spec(&self, other: &CredentialPaths) -> bool {
        self@ == other@
    }
}

impl Eq for CredentialPaths {}

// ---------------------------------------------------------------------------
// PEM documents and keys
// ---------------------------------------------------------------------------

/// The certificates of a PEM document, each as its DER bytes.
pub open spec fn der_views(documents: Seq<Vec<u8>>) -> Seq<Seq<u8>> {
    documents.map_values(|d: Vec<u8>| d@)
}

/// What `rustls_pemfile::certs` yields for `pem`, collected: the DER bytes of
/// each certificate section in order, or `None` where a section is
/// malformed.
pub uninterp spec fn pem_certificates(pem: Seq<u8>) -> Option<Seq<Seq<u8>>>;

/// Read the certificate sections of a PEM document.
///
/// Calls `rustls_pemfile::certs` and collects its items; the contract only
/// names the result, which depends on the bytes alone.
#[verifier::external_body]
fn read_pem_certificates(pem: &[u8]) -> (r: Option<Vec<Vec<u8>>>)
    ensures
        match r {
            Some(c) => pem_certificates(pem@) == Some(der_views(c@)),
            None => pem_certificates(pem@) is None,
        },
{
    let certificates = rustls_pemfile::certs(&mut std::io::Cursor::new(pem))
        .collect::<Result<Vec<_>, _>>()
        .ok()?;
    Some(certificates.iter().map(|c| c.as_ref().to_vec()).collect())
}

/// The encoding of a private key.
#[derive(Clone, Copy, Debug, PartialEq, Eq, Structural)]
pub enum PrivateKeyKind {
    /// PKCS#1 RSA private key.
    Pkcs1,
    /// SEC1 elliptic-curve private key.
    Sec1,
    /// PKCS#8 private key.
    Pkcs8,
    /// An encoding this SDK does not know.
    Other,
}

/// A private key read from a PEM document.
#[derive(Clone, Debug)]
pub struct PrivateKeyDocument {
    /// Its encoding.
    pub kind: PrivateKeyKind,
    /// Its DER bytes.
    pub der: Vec<u8>,
}

/// Model of a [`PrivateKeyDocument`].
pub struct PrivateKeyDocumentView {
    pub kind: PrivateKeyKind,
    pub der: Seq<u8>,
}

impl View for PrivateKeyDocument {
    type V = PrivateKeyDocumentView;

    open spec fn view(&self) -> PrivateKeyDocumentView {
        PrivateKeyDocumentView { kind: self.kind, der: self.der@ }
    }
}

/// What `rustls_pemfile::private_key` yields for `pem`: the first private
/// key section, `Ok(None)` when there is none, `Err` where a section before
/// it is malformed.
pub uninterp spec fn pem_private_key(pem: Seq<u8>) -> Result<Option<PrivateKeyDocumentView>, ()>;

/// Read the first private key of a PEM document.
///
/// Calls `rustls_pemfile::private_key` and keeps the key's encoding and DER
/// bytes (`PrivateKeyDer::secret_der`); the contract only names the result,
/// which depends on the bytes alone.
#[verifier::external_body]
fn read_pem_private_key(pem: &[u8]) -> (r: Result<Option<PrivateKeyDocument>, ()>)
    ensures
        match r {
            Ok(Some(k)) => pem_private_key(pem@) == Ok::<Option<PrivateKeyDocumentView>, ()>(Some(k@)),
            Ok(None) => pem_private_key(pem@) == Ok::<Option<PrivateKeyDocumentView>, ()>(None),
            Err(_) => pem_private_key(pem@) is Err,
        },
{
    let key = rustls_pemfile::private_key(&mut std::io::Cursor::new(pem)).map_err(|_| ())?;
    Ok(key.map(|key| PrivateKeyDocument {
        der: key.secret_der().to_vec(),
        kind: match key {
            PrivateKeyDer::Pkcs1(_) => PrivateKeyKind::Pkcs1,
            PrivateKeyDer::Sec1(_) => PrivateKeyKind::Sec1,
            PrivateKeyDer::Pkcs8(_) => PrivateKeyKind::Pkcs8,
            _ => PrivateKeyKind::Other,
        },
    }))
}

/// Check that a private key is usable for TLS and matches the first
/// certificate of a chain.
///
/// Calls `rustls::sign::CertifiedKey::from_der` with the `ring` crypto
/// provider. Nothing is stated of the answer: loading an elliptic-curve key
/// draws on the system's random source.
#[verifier::external_body]
fn certified_key_accepts(chain: &Vec<Vec<u8>>, key: &PrivateKeyDocument) -> (r: bool)
    requires
        key.kind != PrivateKeyKind::Other,
{
    let chain = chain.iter().map(|c| CertificateDer::from(c.clone())).collect();
    let key = match key.kind {
        PrivateKeyKind::Pkcs1 => PrivateKeyDer::Pkcs1(key.der.clone().into()),
        PrivateKeyKind::Sec1 => PrivateKeyDer::Sec1(key.der.clone().into()),
        PrivateKeyKind::Pkcs8 | PrivateKeyKind::Other => PrivateKeyDer::Pkcs8(key.der.clone().into()),
    };
    CertifiedKey::from_der(chain, key, &rustls::crypto::ring::default_provider()).is_ok()
}

/// Whether `ed25519_dalek::SigningKey::from_pkcs8_der` accepts `der`.
pub uninterp spec fn ed25519_pkcs8_valid(der: Seq<u8>) -> bool;

/// The signature that `ed25519_dalek` makes of `message` with the key whose
/// PKCS#8 document is `der`.
pub uninterp spec fn ed25519_pkcs8_signature(der: Seq<u8>, message: Seq<u8>) -> Seq<u8>;

/// Whether `der` is a PKCS#8 Ed25519 key.
///
/// Calls `ed25519_dalek::SigningKey::from_pkcs8_der`.
#[verifier::external_body]
fn ed25519_pkcs8_loads(der: &[u8]) -> (r: bool)
    ensures
        r == ed25519_pkcs8_valid(der@),
{
    Ed25519SigningKey::from_pkcs8_der(der).is_ok()
}

/// Sign `message` with the PKCS#8 Ed25519 key `der`.
///
/// Calls `ed25519_dalek::SigningKey::from_pkcs8_der`, then `Signer::sign`,
/// which cannot fail, and `Signature::to_bytes`: the sixty-four bytes of an
/// Ed25519 signature.
#[verifier::external_body]
fn ed25519_pkcs8_sign(der: &[u8], message: &[u8]) -> (r: Option<Vec<u8>>)
    ensures
        r.is_some() == ed25519_pkcs8_valid(der@),
        r matches Some(s) ==> s@ == ed25519_pkcs8_signature(der@, message@) && s@.len() == 64,
{
    let key = Ed25519SigningKey::from_pkcs8_der(der).ok()?;
    Some(key.sign(message).to_bytes().to_vec())
}

/// Whether `rsa::RsaPrivateKey::from_pkcs8_der` accepts `der`.
pub uninterp spec fn rsa_pkcs8_valid(der: Seq<u8>) -> bool;

/// Whether `rsa::RsaPrivateKey::from_pkcs1_der` accepts `der`.
pub uninterp spec fn rsa_pkcs1_valid(der: Seq<u8>) -> bool;

/// The unprefixed PKCS#1 v1.5 signature that `rsa` makes of `message` with
/// the key whose PKCS#8 document is `der`; `None` where the key does not load
/// or the message is too long for its modulus.
pub uninterp spec fn rsa_pkcs8_signature(der: Seq<u8>, message: Seq<u8>) -> Option<Seq<u8>>;

/// The same as [`rsa_pkcs8_signature`] for a PKCS#1 key document.
pub uninterp spec fn rsa_pkcs1_signature(der: Seq<u8>, message: Seq<u8>) -> Option<Seq<u8>>;

/// Whether `der` is a PKCS#8 RSA key.
///
/// Calls `rsa::RsaPrivateKey::from_pkcs8_der`.
#[verifier::external_body]
fn rsa_pkcs8_loads(der: &[u8]) -> (r: bool)
    ensures
        r == rsa_pkcs8_valid(der@),
{
    RsaPrivateKey::from_pkcs8_der(der).is_ok()
}

/// Whether `der` is a PKCS#1 RSA key.
///
/// Calls `rsa::RsaPrivateKey::from_pkcs1_der`.
#[verifier::external_body]
fn rsa_pkcs1_loads(der: &[u8]) -> (r: bool)
    ensures
        r == rsa_pkcs1_valid(der@),
{
    RsaPrivateKey::from_pkcs1_der(der).is_ok()
}

/// Sign `message` with the PKCS#8 RSA key `der`.
///
/// Calls `rsa::RsaPrivateKey::from_pkcs8_der`, then `RsaPrivateKey::sign`
/// with `Pkcs1v15Sign::new_unprefixed`, which signs without a random source.
#[verifier::external_body]
fn rsa_pkcs8_sign(der: &[u8], message: &[u8]) -> (r: Option<Vec<u8>>)
    ensures
        r matches Some(s) ==> rsa_pkcs8_signature(der@, message@) == Some(s@),
        r is None ==> rsa_pkcs8_signature(der@, message@) is None,
{
    let key = RsaPrivateKey::from_pkcs8_der(der).ok()?;
    key.sign(Pkcs1v15Sign::new_unprefixed(), message).ok()
}

/// Sign `message` with the PKCS#1 RSA key `der`.
///
/// Calls `rsa::RsaPrivateKey::from_pkcs1_der`, then `RsaPrivateKey::sign`
/// with `Pkcs1v15Sign::new_unprefixed`, which signs without a random source.
#[verifier::external_body]
fn rsa_pkcs1_sign(der: &[u8], message: &[u8]) -> (r: Option<Vec<u8>>)
    ensures
        r matches Some(s) ==> rsa_pkcs1_signature(der@, message@) == Some(s@),
        r is None ==> rsa_pkcs1_signature(der@, message@) is None,
{
    let key = RsaPrivateKey::from_pkcs1_der(der).ok()?;
    key.sign(Pkcs1v15Sign::new_unprefixed(), message).ok()
}

/// How the application signs device authentication requests.
#[derive(Clone, Copy, Debug, PartialEq, Eq, Structural)]
pub enum SigningKeyKind {
    /// A PKCS#8 Ed25519 key.
    Ed25519,
    /// A PKCS#8 RSA key.
    RsaPkcs8,
    /// A PKCS#1 RSA key.
    RsaPkcs1,
    /// A key that cannot sign requests.
    Unsupported,
}

/// The signing key that a private key makes: PKCS#8 documents are tried as
/// Ed25519 keys first and RSA keys second; PKCS#1 documents as RSA keys;
/// anything else cannot sign.
pub open spec fn signing_key_kind(key: PrivateKeyDocumentView) -> SigningKeyKind {
    match key.kind {
        PrivateKeyKind::Pkcs8 => if ed25519_pkcs8_valid(key.der) {
            SigningKeyKind::Ed25519
        } else if rsa_pkcs8_valid(key.der) {
            SigningKeyKind::RsaPkcs8
        } else {
            SigningKeyKind::Unsupported
        },
        PrivateKeyKind::Pkcs1 => if rsa_pkcs1_valid(key.der) {
            SigningKeyKind::RsaPkcs1
        } else {
            SigningKeyKind::Unsupported
        },
        _ => SigningKeyKind::Unsupported,
    }
}

/// Classify a private key by the signing key it makes.
fn application_signing_key(key: &PrivateKeyDocument) -> (r: SigningKeyKind)
    ensures
        r == signing_key_kind(key@),
{
    match key.kind {
        PrivateKeyKind::Pkcs8 => {
            if ed25519_pkcs8_loads(key.der.as_slice()) {
                SigningKeyKind::Ed25519
            } else if rsa_pkcs8_loads(key.der.as_slice()) {
                SigningKeyKind::RsaPkcs8
            } else {
                SigningKeyKind::Unsupported
            }
        },
        PrivateKeyKind::Pkcs1 => {
            if rsa_pkcs1_loads(key.der.as_slice()) {
                SigningKeyKind::RsaPkcs1
            } else {
                SigningKeyKind::Unsupported
            }
        },
        _ => SigningKeyKind::Unsupported,
    }
}

// ---------------------------------------------------------------------------
// Validation
// ---------------------------------------------------------------------------

/// Reason given when a certificate file is not valid PEM.
pub const MALFORMED_PEM_CERTIFICATE: &'static str = "malformed PEM certificate";

/// Reason given when a certificate file holds no certificate.
pub const NO_CERTIFICATE_FOUND: &'static str = "no certificate found";

/// Reason given when a certificate does not parse as X.509.
pub const INVALID_X509_CERTIFICATE: &'static str = "invalid X.509 certificate";

/// Reason given when a private-key file is not valid PEM.
pub const MALFORMED_PEM_PRIVATE_KEY: &'static str = "malformed PEM private key";

/// Reason given when a private-key file holds no private key.
pub const NO_PRIVATE_KEY_FOUND: &'static str = "no private key found";

/// Reason given when the private key is unusable or does not match the
/// application certificate.
pub const KEY_CERTIFICATE_MISMATCH: &'static str = "unsupported key or certificate mismatch";

/// Why a credential file was rejected.
#[allow(inconsistent_fields)]
pub enum CredentialFailure {
    /// A certificate file, by path, with the reason.
    Certificate { path: Seq<char>, reason: Seq<char> },
    /// The private-key file, by path, with the reason.
    PrivateKey { path: Seq<char>, reason: Seq<char> },
}

/// Whether `e` is the error that reports `failure`.
pub open spec fn reports(e: Error, failure: CredentialFailure) -> bool {
    match failure {
        CredentialFailure::Certificate { path, reason } => e matches Error::InvalidCertificate {
            path: p,
            reason: m,
        } && p@ == path && m@ == reason,
        CredentialFailure::PrivateKey { path, reason } => e matches Error::InvalidPrivateKey {
            path: p,
            reason: m,
        } && p@ == path && m@ == reason,
    }
}

/// Whether every certificate parses as X.509.
pub open spec fn all_parse(certificates: Seq<Seq<u8>>) -> bool {
    forall|i: int| 0 <= i < certificates.len() ==> (#[trigger] x509_names(certificates[i])) is Some
}

/// The certificates of a PEM file, or why the file is rejected.
pub open spec fn certificate_check(pem: Seq<u8>) -> Result<Seq<Seq<u8>>, Seq<char>> {
    match pem_certificates(pem) {
        None => Err(MALFORMED_PEM_CERTIFICATE@),
        Some(certificates) => if certificates.len() == 0 {
            Err(NO_CERTIFICATE_FOUND@)
        } else if !all_parse(certificates) {
            Err(INVALID_X509_CERTIFICATE@)
        } else {
            Ok(certificates)
        },
    }
}

/// The private key of a PEM file, or why the file is rejected.
pub open spec fn private_key_check(pem: Seq<u8>) -> Result<PrivateKeyDocumentView, Seq<char>> {
    match pem_private_key(pem) {
        Err(_) => Err(MALFORMED_PEM_PRIVATE_KEY@),
        Ok(None) => Err(NO_PRIVATE_KEY_FOUND@),
        Ok(Some(key)) => Ok(key),
    }
}

/// The application ID: the subject serial number of the first certificate,
/// empty when it has none.
pub open spec fn application_serial(certificates: Seq<Seq<u8>>) -> Seq<char> {
    if certificates.len() == 0 {
        Seq::empty()
    } else {
        match x509_names(certificates[0]) {
            Some(names) => first_attribute_text(names.subject, SERIAL_NUMBER_OID@),
            None => Seq::empty(),
        }
    }
}

/// Model of validated credential material.
pub struct CredentialMaterialView {
    pub paths: CredentialPathsView,
    pub box_certificate_pem: Seq<u8>,
    pub application_certificate_pem: Seq<u8>,
    pub application_private_key_pem: Seq<u8>,
    pub application_certificates: Seq<Seq<u8>>,
    pub private_key: PrivateKeyDocumentView,
    pub application_id: Seq<char>,
    pub signing_key: SigningKeyKind,
}

/// The material that three credential files make, or the first failure:
/// the box certificate file, then the application certificate file, then
/// the private-key file.
pub open spec fn spec_validate(
    paths: CredentialPathsView,
    box_pem: Seq<u8>,
    application_pem: Seq<u8>,
    key_pem: Seq<u8>,
) -> Result<CredentialMaterialView, CredentialFailure> {
    match certificate_check(box_pem) {
        Err(reason) => Err(CredentialFailure::Certificate { path: paths.box_certificate, reason }),
        Ok(_) => match certificate_check(application_pem) {
            Err(reason) => Err(
                CredentialFailure::Certificate { path: paths.application_certificate, reason },
            ),
            Ok(chain) => match private_key_check(key_pem) {
                Err(reason) => Err(
                    CredentialFailure::PrivateKey { path: paths.application_private_key, reason },
                ),
                Ok(key) => Ok(
                    CredentialMaterialView {
                        paths,
                        box_certificate_pem: box_pem,
                        application_certificate_pem: application_pem,
                        application_private_key_pem: key_pem,
                        application_certificates: chain,
                        private_key: key,
                        application_id: application_serial(chain),
                        signing_key: signing_key_kind(key),
                    },
                ),
            },
        },
    }
}

/// The failure reported when the key does not make a TLS identity with the
/// application certificate.
pub open spec fn key_mismatch(paths: CredentialPathsView) -> CredentialFailure {
    CredentialFailure::PrivateKey {
        path: paths.application_private_key,
        reason: KEY_CERTIFICATE_MISMATCH@,
    }
}

/// Read and check the certificates of a PEM file.
fn validate_certificates(path: &String, pem: &[u8]) -> (r: Result<Vec<Vec<u8>>, Error>)
    ensures
        match certificate_check(pem@) {
            Ok(certificates) => r matches Ok(c) && der_views(c@) == certificates,
            Err(reason) => r matches Err(e) && reports(
                e,
                CredentialFailure::Certificate { path: path@, reason },
            ),
        },
{
    let certificates = match read_pem_certificates(pem) {
        Some(c) => c,
        None => {
            return Err(Error::InvalidCertificate { path: path.clone(), reason: MALFORMED_PEM_CERTIFICATE });
        },
    };
    if certificates.len() == 0 {
        return Err(Error::InvalidCertificate { path: path.clone(), reason: NO_CERTIFICATE_FOUND });
    }
    let ghost views = der_views(certificates@);
    let mut i: usize = 0;
    while i < certificates.len()
        invariant
            i <= certificates@.len(),
            views == der_views(certificates@),
            pem_certificates(pem@) == Some(views),
            views.len() > 0,
            forall|j: int| 0 <= j < i ==> (#[trigger] x509_names(views[j])) is Some,
        decreases certificates@.len() - i,
    {
        let names = certificate_names(certificates[i].as_slice());
        assert(views[i as int] == certificates@[i as int]@);
        if names.is_none() {
            assert(x509_names(views[i as int]) is None);
            assert(!all_parse(views));
            return Err(Error::InvalidCertificate { path: path.clone(), reason: INVALID_X509_CERTIFICATE });
        }
        i = i + 1;
    }
    Ok(certificates)
}

/// Read the private key of a PEM file.
fn validate_private_key(path: &String, pem: &[u8]) -> (r: Result<PrivateKeyDocument, Error>)
    ensures
        match private_key_check(pem@) {
            Ok(key) => r matches Ok(k) && k@ == key,
            Err(reason) => r matches Err(e) && reports(
                e,
                CredentialFailure::PrivateKey { path: path@, reason },
            ),
        },
{
    match read_pem_private_key(pem) {
        Ok(Some(key)) => Ok(key),
        Ok(None) => Err(Error::InvalidPrivateKey { path: path.clone(), reason: NO_PRIVATE_KEY_FOUND }),
        Err(_) => Err(Error::InvalidPrivateKey { path: path.clone(), reason: MALFORMED_PEM_PRIVATE_KEY }),
    }
}

/// The application ID of a checked certificate chain.
fn application_serial_number(certificates: &Vec<Vec<u8>>) -> (r: String)
    ensures
        r@ == application_serial(der_views(certificates@)),
{
    if certificates.len() == 0 {
        return String::new();
    }
    match certificate_names(certificates[0].as_slice()) {
        Some(names) => first_attribute(&names.subject, &SERIAL_NUMBER_OID),
        None => String::new(),
    }
}

// ---------------------------------------------------------------------------
// Credential material
// ---------------------------------------------------------------------------

/// Credential files whose certificates and private key have been read and
/// checked, before the key is matched against the application certificate.
pub struct ValidatedCredentials {
    paths: CredentialPaths,
    box_certificate_pem: Vec<u8>,
    application_certificate_pem: Vec<u8>,
    application_private_key_pem: Vec<u8>,
    application_certificates: Vec<Vec<u8>>,
    private_key: PrivateKeyDocument,
    application_id: String,
    signing_key: SigningKeyKind,
}

impl View for ValidatedCredentials {
    type V = CredentialMaterialView;

    closed spec fn view(&self) -> CredentialMaterialView {
        CredentialMaterialView {
            paths: self.paths@,
            box_certificate_pem: self.box_certificate_pem@,
            application_certificate_pem: self.application_certificate_pem@,
            application_private_key_pem: self.application_private_key_pem@,
            application_certificates: der_views(self.application_certificates@),
            private_key: self.private_key@,
            application_id: self.application_id@,
            signing_key: self.signing_key,
        }
    }
}

impl CredentialMaterialView {
    /// The signing key is the one the private key makes.
    pub open spec fn wf(self) -> bool {
        self.signing_key == signing_key_kind(self.private_key)
    }
}

impl ValidatedCredentials {
    #[verifier::type_invariant]
    closed spec fn inv(self) -> bool {
        self@.wf()
    }

    /// Read and check the contents of the three credential files.
    pub fn validate(
        paths: CredentialPaths,
        box_certificate_pem: Vec<u8>,
        application_certificate_pem: Vec<u8>,
        application_private_key_pem: Vec<u8>,
    ) -> (r: Result<ValidatedCredentials, Error>)
        ensures
            match spec_validate(
                paths@,
                box_certificate_pem@,
                application_certificate_pem@,
                application_private_key_pem@,
            ) {
                Ok(v) => r matches Ok(c) && c@ == v,
                Err(f) => r matches Err(e) && reports(e, f),
            },
    {
        match validate_certificates(&paths.box_certificate, box_certificate_pem.as_slice()) {
            Ok(_) => {},
            Err(e) => {
                return Err(e);
            },
        }
        let application_certificates = match validate_certificates(
            &paths.application_certificate,
            application_certificate_pem.as_slice(),
        ) {
            Ok(c) => c,
            Err(e) => {
                return Err(e);
            },
        };
        let application_id = application_serial_number(&application_certificates);
        let private_key = match validate_private_key(
            &paths.application_private_key,
            application_private_key_pem.as_slice(),
        ) {
            Ok(k) => k,
            Err(e) => {
                return Err(e);
            },
        };
        let signing_key = application_signing_key(&private_key);
        Ok(
            ValidatedCredentials {
                paths,
                box_certificate_pem,
                application_certificate_pem,
                application_private_key_pem,
                application_certificates,
                private_key,
                application_id,
                signing_key,
            },
        )
    }

    /// Ask whether the private key makes a TLS identity with the application
    /// certificate chain. A key of an encoding this SDK does not know never
    /// does.
    pub fn key_matches_certificate(&self) -> (r: bool)
        ensures
            self@.private_key.kind == PrivateKeyKind::Other ==> !r,
    {
        if self.private_key.kind == PrivateKeyKind::Other {
            false
        } else {
            certified_key_accepts(&self.application_certificates, &self.private_key)
        }
    }

    /// Complete the credentials once the key has been matched against the
    /// application certificate: `key_matches` is the answer of
    /// [`ValidatedCredentials::key_matches_certificate`].
    pub fn finish(self, key_matches: bool) -> (r: Result<CredentialMaterial, Error>)
        ensures
            key_matches ==> (r matches Ok(m) && m@ == self@),
            !key_matches ==> (r matches Err(e) && reports(e, key_mismatch(self@.paths))),
    {
        proof {
            use_type_invariant(&self);
        }
        if !key_matches {
            return Err(
                Error::InvalidPrivateKey {
                    path: self.paths.application_private_key.clone(),
                    reason: KEY_CERTIFICATE_MISMATCH,
                },
            );
        }
        Ok(
            CredentialMaterial {
                paths: self.paths,
                box_certificate_pem: self.box_certificate_pem,
                application_certificate_pem: self.application_certificate_pem,
                application_private_key_pem: self.application_private_key_pem,
                application_certificates: self.application_certificates,
                private_key: self.private_key,
                application_id: self.application_id,
                signing_key: self.signing_key,
            },
        )
    }
}

/// A validated `LazyCat` application identity: the certificate and key
/// documents, the application ID, and how requests are signed.
pub struct CredentialMaterial {
    paths: CredentialPaths,
    box_certificate_pem: Vec<u8>,
    application_certificate_pem: Vec<u8>,
    application_private_key_pem: Vec<u8>,
    application_certificates: Vec<Vec<u8>>,
    private_key: PrivateKeyDocument,
    application_id: String,
    signing_key: SigningKeyKind,
}

impl View for CredentialMaterial {
    type V = CredentialMaterialView;

    closed spec fn view(&self) -> CredentialMaterialView {
        CredentialMaterialView {
            paths: self.paths@,
            box_certificate_pem: self.box_certificate_pem@,
            application_certificate_pem: self.application_certificate_pem@,
            application_private_key_pem: self.application_private_key_pem@,
            application_certificates: der_views(self.application_certificates@),
            private_key: self.private_key@,
            application_id: self.application_id@,
            signing_key: self.signing_key,
        }
    }
}

/// What a device authentication request is signed with.
pub struct AuthRequestMaterial {
    /// The box certificate file, as PEM.
    pub box_certificate: Vec<u8>,
    /// The application certificate file, as PEM.
    pub application_certificate: Vec<u8>,
    /// The signature of the application ID.
    pub signature: Vec<u8>,
}

/// The outcome of signing the application ID.
pub enum SignatureOutcome {
    /// The signature.
    Signed(Seq<u8>),
    /// The key cannot sign requests.
    Unsupported,
    /// Signing failed.
    Failed,
}

/// The signature of a device authentication request: the application ID,
/// UTF-8 encoded, signed with the application key.
pub open spec fn auth_signature(m: CredentialMaterialView) -> SignatureOutcome {
    let message = encode_utf8(m.application_id);
    match m.signing_key {
        SigningKeyKind::Ed25519 => SignatureOutcome::Signed(
            ed25519_pkcs8_signature(m.private_key.der, message),
        ),
        SigningKeyKind::RsaPkcs8 => match rsa_pkcs8_signature(m.private_key.der, message) {
            Some(s) => SignatureOutcome::Signed(s),
            None => SignatureOutcome::Failed,
        },
        SigningKeyKind::RsaPkcs1 => match rsa_pkcs1_signature(m.private_key.der, message) {
            Some(s) => SignatureOutcome::Signed(s),
            None => SignatureOutcome::Failed,
        },
        SigningKeyKind::Unsupported => SignatureOutcome::Unsupported,
    }
}

impl CredentialMaterial {
    #[verifier::type_invariant]
    closed spec fn inv(self) -> bool {
        self@.wf()
    }

    /// Load and validate credential material from the contents of the three
    /// credential files.
    ///
    /// The files are checked in order (box certificate, application
    /// certificate, private key); then the key is matched against the
    /// application certificate, which the TLS library decides.
    pub fn from_pem(
        paths: CredentialPaths,
        box_certificate_pem: Vec<u8>,
        application_certificate_pem: Vec<u8>,
        application_private_key_pem: Vec<u8>,
    ) -> (r: Result<CredentialMaterial, Error>)
        ensures
            match spec_validate(
                paths@,
                box_certificate_pem@,
                application_certificate_pem@,
                application_private_key_pem@,
            ) {
                Err(f) => r matches Err(e) && reports(e, f),
                Ok(v) => match r {
                    Ok(m) => m@ == v,
                    Err(e) => reports(e, key_mismatch(v.paths)),
                },
            },
    {
        let validated = match ValidatedCredentials::validate(
            paths,
            box_certificate_pem,
            application_certificate_pem,
            application_private_key_pem,
        ) {
            Ok(v) => v,
            Err(e) => {
                return Err(e);
            },
        };
        let key_matches = validated.key_matches_certificate();
        validated.finish(key_matches)
    }

    /// The paths from which this identity was loaded.
    pub fn paths(&self) -> (r: &CredentialPaths)
        ensures
            r@ == self@.paths,
    {
        &self.paths
    }

    /// The box certificate file, as PEM.
    pub fn box_certificate_pem(&self) -> (r: &[u8])
        ensures
            r@ == self@.box_certificate_pem,
    {
        self.box_certificate_pem.as_slice()
    }

    /// The application certificate file, as PEM.
    pub fn application_certificate_pem(&self) -> (r: &[u8])
        ensures
            r@ == self@.application_certificate_pem,
    {
        self.application_certificate_pem.as_slice()
    }

    /// The application private-key file, as PEM.
    pub fn application_private_key_pem(&self) -> (r: &[u8])
        ensures
            r@ == self@.application_private_key_pem,
    {
        self.application_private_key_pem.as_slice()
    }

    /// The application ID: the subject serial number of the application
    /// certificate.
    pub fn application_id(&self) -> (r: &str)
        ensures
            r@ == self@.application_id,
    {
        self.application_id.as_str()
    }

    /// The certificates and signature of a device authentication request.
    pub fn auth_request_material(&self) -> (r: Result<AuthRequestMaterial, Error>)
        ensures
            match auth_signature(self@) {
                SignatureOutcome::Signed(s) => r matches Ok(a) && a.signature@ == s
                    && a.box_certificate@ == self@.box_certificate_pem
                    && a.application_certificate@ == self@.application_certificate_pem,
                SignatureOutcome::Unsupported => r matches Err(Error::UnsupportedAuthSigningKey),
                SignatureOutcome::Failed => r matches Err(Error::AuthSigning),
            },
    {
        proof {
            use_type_invariant(self);
        }
        let message = self.application_id.as_str().as_bytes();
        let der = self.private_key.der.as_slice();
        let signature = match self.signing_key {
            SigningKeyKind::Ed25519 => match ed25519_pkcs8_sign(der, message) {
                Some(s) => s,
                None => {
                    return Err(Error::AuthSigning);
                },
            },
            SigningKeyKind::RsaPkcs8 => match rsa_pkcs8_sign(der, message) {
                Some(s) => s,
                None => {
                    return Err(Error::AuthSigning);
                },
            },
            SigningKeyKind::RsaPkcs1 => match rsa_pkcs1_sign(der, message) {
                Some(s) => s,
                None => {
                    return Err(Error::AuthSigning);
                },
            },
            SigningKeyKind::Unsupported => {
                return Err(Error::UnsupportedAuthSigningKey);
            },
        };
        Ok(
            AuthRequestMaterial {
                box_certificate: crate::codec::to_byte_vec(self.box_certificate_pem.as_slice()),
                application_certificate: crate::codec::to_byte_vec(
                    self.application_certificate_pem.as_slice(),
                ),
                signature,
            },
        )
    }
}

} // verus!
