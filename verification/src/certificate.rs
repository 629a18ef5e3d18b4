//! X.509 certificates as the identity checks read them: the attributes of
//! the subject and issuer names, in the order the certificate lists them.

use vstd::prelude::*;
use x509_parser::parse_x509_certificate;
use x509_parser::x509::X509Name;

use crate::codec::bytes_eq;

verus! {

broadcast use vstd::string::group_string_axioms;

/// DER content bytes of the `serialNumber` attribute type (OID 2.5.4.5).
pub const SERIAL_NUMBER_OID: [u8; 3] = [0x55, 0x04, 0x05];

/// DER content bytes of the `commonName` attribute type (OID 2.5.4.3).
pub const COMMON_NAME_OID: [u8; 3] = [0x55, 0x04, 0x03];

/// One attribute of a distinguished name.
#[derive(Clone, Debug)]
pub struct NameAttribute {
    /// DER content bytes of the attribute type's object identifier.
    pub oid: Vec<u8>,
    /// The value as text, when it is a numeric, printable, UTF-8 or IA5
    /// string holding valid UTF-8.
    pub text: Option<String>,
}

/// Model of a [`NameAttribute`].
pub struct NameAttributeView {
    pub oid: Seq<u8>,
    pub text: Option<Seq<char>>,
}

impl View for NameAttribute {
    type V = NameAttributeView;

    open spec fn view(&self) -> NameAttributeView {
        NameAttributeView {
            oid: self.oid@,
            text: match self.text {
                Some(t) => Some(t@),
                None => None,
            },
        }
    }
}

/// The models of a list of attributes.
pub open spec fn attribute_views(attributes: Seq<NameAttribute>) -> Seq<NameAttributeView> {
    attributes.map_values(|a: NameAttribute| a@)
}

/// The subject and issuer names of a certificate.
#[derive(Clone, Debug)]
pub struct CertificateNames {
    /// Subject attributes, relative distinguished names in order.
    pub subject: Vec<NameAttribute>,
    /// Issuer attributes, relative distinguished names in order.
    pub issuer: Vec<NameAttribute>,
}

/// Model of [`CertificateNames`].
pub struct CertificateNamesView {
    pub subject: Seq<NameAttributeView>,
    pub issuer: Seq<NameAttributeView>,
}

impl View for CertificateNames {
    type V = CertificateNamesView;

    open spec fn view(&self) -> CertificateNamesView {
        CertificateNamesView {
            subject: attribute_views(self.subject@),
            issuer: attribute_views(self.issuer@),
        }
    }
}

/// What `x509_parser::parse_x509_certificate` yields for `der`, as the
/// attributes of its subject and issuer names; `None` where it reports an
/// error.
pub uninterp spec fn x509_names(der: Seq<u8>) -> Option<CertificateNamesView>;

/// Parse a DER certificate and list the attributes of its names.
///
/// Calls `x509_parser::parse_x509_certificate`, then for the subject and the
/// issuer `X509Name::iter_attributes`, keeping each attribute's type
/// (`Oid::as_bytes`) and its text (`AttributeTypeAndValue::as_str`). The
/// contract only names the result: it depends on the bytes alone.
#[verifier::external_body]
pub(crate) fn certificate_names(der: &[u8]) -> (r: Option<CertificateNames>)
    ensures
        match r {
            Some(n) => x509_names(der@) == Some(n@),
            None => x509_names(der@) is None,
        },
{
    let (_, certificate) = parse_x509_certificate(der).ok()?;
    let list = |name: &X509Name| -> Vec<NameAttribute> {
        name.iter_attributes().map(|a| NameAttribute {
            oid: a.attr_type().as_bytes().to_vec(),
            text: a.as_str().ok().map(String::from),
        }).collect()
    };
    Some(CertificateNames { subject: list(certificate.subject()), issuer: list(certificate.issuer()) })
}

/// The text of the first attribute of type `oid`; empty when there is no
/// such attribute or its value is not text.
pub open spec fn first_attribute_text(attributes: Seq<NameAttributeView>, oid: Seq<u8>) -> Seq<char>
    decreases attributes.len(),
{
    if attributes.len() == 0 {
        Seq::empty()
    } else if attributes[0].oid == oid {
        match attributes[0].text {
            Some(t) => t,
            None => Seq::empty(),
        }
    } else {
        first_attribute_text(attributes.drop_first(), oid)
    }
}

proof fn lemma_first_attribute_text_skip(attributes: Seq<NameAttributeView>, oid: Seq<u8>, i: int)
    requires
        0 <= i < attributes.len(),
        forall|j: int| 0 <= j < i ==> attributes[j].oid != oid,
    ensures
        first_attribute_text(attributes, oid) == first_attribute_text(attributes.subrange(i, attributes.len() as int), oid),
    decreases i,
{
    if i > 0 {
        let rest = attributes.drop_first();
        assert(rest.subrange(i - 1, rest.len() as int) =~= attributes.subrange(i, attributes.len() as int));
        lemma_first_attribute_text_skip(rest, oid, i - 1);
    } else {
        assert(attributes.subrange(0, attributes.len() as int) =~= attributes);
    }
}

/// The text of the first attribute of type `oid`, or an empty string.
pub fn first_attribute(attributes: &Vec<NameAttribute>, oid: &[u8]) -> (r: String)
    ensures
        r@ == first_attribute_text(attribute_views(attributes@), oid@),
{
    let ghost views = attribute_views(attributes@);
    let mut i: usize = 0;
    while i < attributes.len()
        invariant
            i <= attributes@.len(),
            views == attribute_views(attributes@),
            forall|j: int| 0 <= j < i ==> views[j].oid != oid@,
        decreases attributes@.len() - i,
    {
        let attribute = &attributes[i];
        if bytes_eq(attribute.oid.as_slice(), oid) {
            proof {
                lemma_first_attribute_text_skip(views, oid@, i as int);
            }
            return match &attribute.text {
                Some(text) => text.clone(),
                None => String::new(),
            };
        }
        i = i + 1;
    }
    proof {
        assert forall|k: int| 0 <= k <= views.len() implies
            first_attribute_text(views.subrange(k, views.len() as int), oid@) == Seq::<char>::empty() by {
            lemma_tail_without_oid(views, oid@, k);
        }
        if views.len() > 0 {
            lemma_first_attribute_text_skip(views, oid@, 0);
        }
        assert(views.subrange(0, views.len() as int) =~= views);
    }
    String::new()
}

proof fn lemma_tail_without_oid(views: Seq<NameAttributeView>, oid: Seq<u8>, k: int)
    requires
        0 <= k <= views.len(),
        forall|j: int| 0 <= j < views.len() ==> views[j].oid != oid,
    ensures
        first_attribute_text(views.subrange(k, views.len() as int), oid) == Seq::<char>::empty(),
    decreases views.len() - k,
{
    let tail = views.subrange(k, views.len() as int);
    if k < views.len() {
        assert(tail[0] == views[k]);
        assert(tail.drop_first() =~= views.subrange(k + 1, views.len() as int));
        lemma_tail_without_oid(views, oid, k + 1);
    }
}

} // verus!
