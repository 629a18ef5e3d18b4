//! The parts of a URL that the endpoint checks read, as parsed by the `url`
//! crate (WHATWG URL Standard).

use url::{Host, Url};
use vstd::prelude::*;

verus! {

/// The host of a parsed URL.
#[derive(Clone, Debug)]
pub enum UrlHost {
    /// A domain, or the opaque host of a non-special URL.
    Domain(String),
    /// IPv4 octets.
    Ipv4([u8; 4]),
    /// IPv6 octets.
    Ipv6([u8; 16]),
}

/// Model of a [`UrlHost`].
#[verifier::ext_equal]
pub enum UrlHostView {
    Domain(Seq<char>),
    Ipv4(Seq<u8>),
    Ipv6(Seq<u8>),
}

impl View for UrlHost {
    type V = UrlHostView;

    open spec fn view(&self) -> UrlHostView {
        match self {
            UrlHost::Domain(d) => UrlHostView::Domain(d@),
            UrlHost::Ipv4(o) => UrlHostView::Ipv4(o@),
            UrlHost::Ipv6(o) => UrlHostView::Ipv6(o@),
        }
    }
}

/// The parts of a parsed URL.
#[derive(Clone, Debug)]
pub struct UrlParts {
    /// Lowercase scheme.
    pub scheme: String,
    /// User name, empty when absent.
    pub username: String,
    /// Password, when present.
    pub password: Option<String>,
    /// Path.
    pub path: String,
    /// Query, when present.
    pub query: Option<String>,
    /// Fragment, when present.
    pub fragment: Option<String>,
    /// Host, when present.
    pub host: Option<UrlHost>,
    /// Explicit port, when present and not the scheme's default.
    pub port: Option<u16>,
    /// Explicit port, or the default port of a known scheme.
    pub port_or_known_default: Option<u16>,
}

/// Model of [`UrlParts`].
#[verifier::ext_equal]
pub struct UrlPartsView {
    pub scheme: Seq<char>,
    pub username: Seq<char>,
    pub password: Option<Seq<char>>,
    pub path: Seq<char>,
    pub query: Option<Seq<char>>,
    pub fragment: Option<Seq<char>>,
    pub host: Option<UrlHostView>,
    pub port: Option<u16>,
    pub port_or_known_default: Option<u16>,
}

/// The view of an optional string.
pub open spec fn opt_text(s: Option<String>) -> Option<Seq<char>> {
    match s {
        Some(t) => Some(t@),
        None => None,
    }
}

impl View for UrlParts {
    type V = UrlPartsView;

    open spec fn view(&self) -> UrlPartsView {
        UrlPartsView {
            scheme: self.scheme@,
            username: self.username@,
            password: opt_text(self.password),
            path: self.path@,
            query: opt_text(self.query),
            fragment: opt_text(self.fragment),
            host: match self.host {
                Some(h) => Some(h@),
                None => None,
            },
            port: self.port,
            port_or_known_default: self.port_or_known_default,
        }
    }
}

/// The model of an optional parsed URL.
pub open spec fn url_view(url: Option<UrlParts>) -> Option<UrlPartsView> {
    match url {
        Some(u) => Some(u@),
        None => None,
    }
}

/// Whether a URL host, when it is a domain, holds none of `:`, `[` and `]`.
pub open spec fn domain_host_clean(host: Option<UrlHostView>) -> bool {
    match host {
        Some(UrlHostView::Domain(d)) => forall|i: int|
            0 <= i < d.len() ==> #[trigger] d[i] != ':' && d[i] != '[' && d[i] != ']',
        _ => true,
    }
}

/// The default port of a scheme the `url` crate knows: 80 for `http` and
/// `ws`, 443 for `https` and `wss`, 21 for `ftp`.
pub open spec fn known_default_port(scheme: Seq<char>) -> Option<u16> {
    if scheme == seq!['h', 't', 't', 'p'] || scheme == seq!['w', 's'] {
        Some(80)
    } else if scheme == seq!['h', 't', 't', 'p', 's'] || scheme == seq!['w', 's', 's'] {
        Some(443)
    } else if scheme == seq!['f', 't', 'p'] {
        Some(21)
    } else {
        None
    }
}

/// What `url::Url::parse` yields for `text`, as its parts; `None` where it
/// reports an error.
pub uninterp spec fn url_parse(text: Seq<char>) -> Option<UrlPartsView>;

/// Parse a URL and read its parts.
///
/// Calls `url::Url::parse` and its accessors `scheme`, `username`,
/// `password`, `path`, `query`, `fragment`, `host`, `port` and
/// `port_or_known_default`. The contract names the result: it depends on the
/// text alone, and what it is the WHATWG URL Standard defines. It states one
/// fact of it: a domain host holds no `:`, `[` or `]`, which the standard
/// forbids in hosts and both of the crate's host parsers reject (the opaque
/// host parser by its list of invalid host characters, the domain parser by
/// the IDNA `URL` deny list; percent-encoded forms stay encoded or are
/// decoded and then rejected). It states a second: `port_or_known_default`
/// is the explicit port, or else the default port of the scheme
/// (`Url::port_or_known_default` returns `self.port` or
/// `parser::default_port(self.scheme())`).
#[verifier::external_body]
pub(crate) fn parse_url(text: &str) -> (r: Option<UrlParts>)
    ensures
        match r {
            Some(u) => url_parse(text@) == Some(u@),
            None => url_parse(text@) is None,
        },
        r matches Some(u) ==> domain_host_clean(u@.host),
        r matches Some(u) ==> u@.port_or_known_default == match u@.port {
            Some(p) => Some(p),
            None => known_default_port(u@.scheme),
        },
{
    let u = Url::parse(text).ok()?;
    let host = u.host().map(|h| match h {
        Host::Domain(d) => UrlHost::Domain(d.into()),
        Host::Ipv4(a) => UrlHost::Ipv4(a.octets()),
        Host::Ipv6(a) => UrlHost::Ipv6(a.octets()),
    });
    Some(UrlParts {
        scheme: u.scheme().into(), username: u.username().into(), password: u.password().map(Into::into),
        path: u.path().into(), query: u.query().map(Into::into), fragment: u.fragment().map(Into::into),
        host, port: u.port(), port_or_known_default: u.port_or_known_default(),
    })
}

} // verus!
