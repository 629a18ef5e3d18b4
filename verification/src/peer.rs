//! The `LazyCat` application identity carried by a peer's client certificate.

use vstd::prelude::*;

use crate::certificate::{
    certificate_names, first_attribute, first_attribute_text, x509_names,
    COMMON_NAME_OID, SERIAL_NUMBER_OID,
};
use crate::Error;

verus! {

broadcast use vstd::string::group_string_axioms;

/// Identity encoded in a `LazyCat` application client certificate.
#[derive(Clone, Debug)]
pub struct Application {
    /// Application ID from the subject serial-number attribute.
    pub app_id: String,
    /// Box ID from the issuer serial-number attribute.
    pub box_id: String,
    /// Application domain from the subject common name.
    pub app_domain: String,
}

/// Model of an [`Application`].
pub struct ApplicationView {
    pub app_id: Seq<char>,
    pub box_id: Seq<char>,
    pub app_domain: Seq<char>,
}

impl View for Application {
    type V = ApplicationView;

    open spec fn view(&self) -> ApplicationView {
        ApplicationView { app_id: self.app_id@, box_id: self.box_id@, app_domain: self.app_domain@ }
    }
}

impl PartialEq for Application {
    fn eq(&self, other: &Self) -> (r: bool) {
        self.app_id == other.app_id && self.box_id == other.box_id && self.app_domain
            == other.app_domain
    }
}

impl vstd::std_specs::cmp::PartialEqSpecImpl for Application {
    open spec fn obeys_eq_spec() -> bool {
        true
    }

    open spec fn eq_spec(&self, other: &Application) -> bool {
        self@ == other@
    }
}

impl Eq for Application {}

/// The identity that a certificate's names carry: the subject and issuer
/// serial numbers and the subject common name.
pub open spec fn application_of(names: crate::certificate::CertificateNamesView) -> ApplicationView {
    ApplicationView {
        app_id: first_attribute_text(names.subject, SERIAL_NUMBER_OID@),
        box_id: first_attribute_text(names.issuer, SERIAL_NUMBER_OID@),
        app_domain: first_attribute_text(names.subject, COMMON_NAME_OID@),
    }
}

/// Extract the application identity from the certificates a TLS peer
/// presented.
///
/// Exactly one certificate is accepted; it must parse as X.509. Missing name
/// attributes, or attributes whose value is not text, give empty strings.
pub fn application_from_certificates(certificates: &Vec<Vec<u8>>) -> (r: Result<Application, Error>)
    ensures
        certificates@.len() != 1 ==> (r matches Err(Error::InvalidPeerCertificateCount { count })
            && count == certificates@.len()),
        certificates@.len() == 1 ==> match x509_names(certificates@[0]@) {
            None => r matches Err(Error::InvalidPeerCertificate),
            Some(names) => r matches Ok(a) && a@ == application_of(names),
        },
{
    if certificates.len() != 1 {
        return Err(Error::InvalidPeerCertificateCount { count: certificates.len() });
    }
    match certificate_names(certificates[0].as_slice()) {
        None => Err(Error::InvalidPeerCertificate),
        Some(names) => {
            let app_id = first_attribute(&names.subject, &SERIAL_NUMBER_OID);
            let box_id = first_attribute(&names.issuer, &SERIAL_NUMBER_OID);
            let app_domain = first_attribute(&names.subject, &COMMON_NAME_OID);
            Ok(Application { app_id, box_id, app_domain })
        },
    }
}

} // verus!
