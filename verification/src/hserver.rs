//! `HPortalSys` locations and the `RemoteSocks` endpoints it returns.

use vstd::prelude::*;
use vstd::string::StringExecFns;

use crate::codec::text_eq;
use crate::net_text::{
    decimal_string, decimal_text, ip_text_char, ipv4_string, ipv4_text, ipv6_string, ipv6_text,
    lemma_ipv4_text_shape, lemma_ipv6_text_shape,
};
use crate::url_parts::{
    domain_host_clean, parse_url, url_parse, url_view, UrlHost, UrlHostView, UrlParts, UrlPartsView,
};
use crate::Error;

verus! {

broadcast use vstd::string::group_string_axioms;

/// Physical network location where `HPortalSys` should expose `RemoteSocks`.
#[derive(Clone, Debug)]
pub enum RemoteLocation {
    /// Use the `HServer`'s local physical network stack.
    Local,
    /// Use the physical network stack of a connected `HClient` peer.
    Remote {
        /// `HClient` peer identifier.
        target: String,
    },
}

/// Model of a [`RemoteLocation`].
#[verifier::ext_equal]
pub enum RemoteLocationView {
    Local,
    Remote { target: Seq<char> },
}

impl View for RemoteLocation {
    type V = RemoteLocationView;

    open spec fn view(&self) -> RemoteLocationView {
        match self {
            RemoteLocation::Local => RemoteLocationView::Local,
            RemoteLocation::Remote { target } => RemoteLocationView::Remote { target: target@ },
        }
    }
}

/// The location an `HClient` target names: the empty target is the local
/// network stack.
pub open spec fn location_of(target: Seq<char>) -> RemoteLocationView {
    if target.len() == 0 {
        RemoteLocationView::Local
    } else {
        RemoteLocationView::Remote { target }
    }
}

impl RemoteLocation {
    /// The location for a target: empty selects [`RemoteLocation::Local`],
    /// anything else [`RemoteLocation::Remote`].
    pub fn from_target(target: &str) -> (r: RemoteLocation)
        ensures
            r@ == location_of(target@),
    {
        if target.is_empty() {
            RemoteLocation::Local
        } else {
            RemoteLocation::Remote { target: target.to_owned() }
        }
    }

    /// [`RemoteLocation::from_target`] for an owned target.
    pub fn from_string(target: String) -> (r: RemoteLocation)
        ensures
            r@ == location_of(target@),
    {
        if target.as_str().is_empty() {
            RemoteLocation::Local
        } else {
            RemoteLocation::Remote { target }
        }
    }
}

impl PartialEq for RemoteLocation {
    fn eq(&self, other: &Self) -> (r: bool) {
        match self {
            RemoteLocation::Local => match other {
                RemoteLocation::Local => true,
                _ => false,
            },
            RemoteLocation::Remote { target: a } => match other {
                RemoteLocation::Remote { target: b } => {
                    let r = *a == *b;
                    assert(r == (self@ == other@));
                    r
                },
                _ => false,
            },
        }
    }
}

impl vstd::std_specs::cmp::PartialEqSpecImpl for RemoteLocation {
    open spec fn obeys_eq_spec() -> bool {
        true
    }

    open spec fn eq_spec(&self, other: &RemoteLocation) -> bool {
        self@ == other@
    }
}

impl Eq for RemoteLocation {}

/// Validated `RemoteSocks` server endpoint returned by `HPortalSys`.
#[derive(Debug)]
pub struct RemoteSocksEndpoint {
    host: String,
    port: u16,
    authority: String,
    resolves_hostname_remotely: bool,
}

/// Model of a [`RemoteSocksEndpoint`].
#[verifier::ext_equal]
pub struct RemoteSocksEndpointView {
    pub host: Seq<char>,
    pub port: u16,
    pub authority: Seq<char>,
    pub resolves_hostname_remotely: bool,
}

impl View for RemoteSocksEndpoint {
    type V = RemoteSocksEndpointView;

    closed spec fn view(&self) -> RemoteSocksEndpointView {
        RemoteSocksEndpointView {
            host: self.host@,
            port: self.port,
            authority: self.authority@,
            resolves_hostname_remotely: self.resolves_hostname_remotely,
        }
    }
}

/// `socks5`
pub open spec fn socks5() -> Seq<char> {
    seq!['s', 'o', 'c', 'k', 's', '5']
}

/// `socks5h`
pub open spec fn socks5h() -> Seq<char> {
    seq!['s', 'o', 'c', 'k', 's', '5', 'h']
}

/// The host text of a URL host, and whether it is IPv6: a non-empty domain,
/// dotted-quad IPv4 or RFC 5952 IPv6.
pub open spec fn endpoint_host(host: Option<UrlHostView>) -> Option<(Seq<char>, bool)> {
    match host {
        Some(UrlHostView::Domain(d)) => if d.len() > 0 {
            Some((d, false))
        } else {
            None
        },
        Some(UrlHostView::Ipv4(o)) => Some((ipv4_text(o), false)),
        Some(UrlHostView::Ipv6(o)) => Some((ipv6_text(o), true)),
        None => None,
    }
}

/// `host:port`, with the host in brackets when it is IPv6.
pub open spec fn authority_text(host: Seq<char>, ipv6: bool, port: u16) -> Seq<char> {
    if ipv6 {
        seq!['['] + host + seq![']', ':'] + decimal_text(port as nat)
    } else {
        host + seq![':'] + decimal_text(port as nat)
    }
}

/// The endpoint that a `RemoteSocks` URL denotes: scheme `socks5` or
/// `socks5h`, no credentials, an empty or `/` path, no query or fragment,
/// a host and an explicit port.
pub open spec fn endpoint_of_url(url: Option<UrlPartsView>) -> Result<RemoteSocksEndpointView, Error> {
    match url {
        None => Err(Error::InvalidRemoteSocksEndpoint),
        Some(u) => if !(u.scheme == socks5() || u.scheme == socks5h()) {
            Err(Error::InvalidRemoteSocksEndpoint)
        } else if u.username.len() != 0 || u.password is Some || !(u.path.len() == 0 || u.path
            == seq!['/']) || u.query is Some || u.fragment is Some {
            Err(Error::InvalidRemoteSocksEndpoint)
        } else {
            match (endpoint_host(u.host), u.port) {
                (Some((host, ipv6)), Some(port)) => Ok(
                    RemoteSocksEndpointView {
                        host,
                        port,
                        authority: authority_text(host, ipv6, port),
                        resolves_hostname_remotely: u.scheme == socks5h(),
                    },
                ),
                _ => Err(Error::InvalidRemoteSocksEndpoint),
            }
        },
    }
}

/// The endpoint that the `RemoteSocks` URL `text` denotes.
pub open spec fn spec_parse_endpoint(text: Seq<char>) -> Result<RemoteSocksEndpointView, Error> {
    endpoint_of_url(url_parse(text))
}

/// The shape of an endpoint: a non-empty host without brackets, and an
/// authority that is `host:port`, with the host in brackets when it holds
/// a `:` (an IPv6 address).
pub open spec fn endpoint_shape(e: RemoteSocksEndpointView) -> bool {
    &&& e.host.len() > 0
    &&& !e.host.contains('[')
    &&& !e.host.contains(']')
    &&& e.authority == authority_text(e.host, e.host.contains(':'), e.port)
}

/// The scheme an endpoint is written with: `socks5h` when the proxy
/// resolves host names, else `socks5`.
pub open spec fn endpoint_scheme(e: RemoteSocksEndpointView) -> Seq<char> {
    if e.resolves_hostname_remotely {
        socks5h()
    } else {
        socks5()
    }
}

/// The URL an endpoint is written as: `scheme://authority`.
pub open spec fn endpoint_text(e: RemoteSocksEndpointView) -> Seq<char> {
    endpoint_scheme(e) + seq![':', '/', '/'] + e.authority
}

/// Whether the URL parts `u` read back the scheme, host and port of `e`,
/// with no credentials, no path beyond `/`, and no query or fragment.
pub open spec fn url_reads_back(u: UrlPartsView, e: RemoteSocksEndpointView) -> bool {
    &&& u.scheme == endpoint_scheme(e)
    &&& u.username.len() == 0
    &&& u.password is None
    &&& u.path.len() == 0 || u.path == seq!['/']
    &&& u.query is None
    &&& u.fragment is None
    &&& endpoint_host(u.host) == Some((e.host, e.host.contains(':')))
    &&& u.port == Some(e.port)
}

/// Writing an endpoint as a URL and parsing that URL gives the endpoint
/// back, wherever the URL parser reads back from the written text the
/// scheme, host and port that it shows: the rest of the round trip is this
/// library's own.
pub proof fn lemma_endpoint_text_round_trip(e: RemoteSocksEndpointView)
    requires
        endpoint_shape(e),
        url_parse(endpoint_text(e)) matches Some(u) && url_reads_back(u, e),
    ensures
        spec_parse_endpoint(endpoint_text(e)) == Ok::<RemoteSocksEndpointView, Error>(e),
{
    let u = url_parse(endpoint_text(e))->Some_0;
    assert(socks5() != socks5h()) by {
        assert(socks5().len() != socks5h().len());
    }
    assert(endpoint_of_url(Some(u)) == Ok::<RemoteSocksEndpointView, Error>(e));
}

/// Whether the IP hosts of a URL have their full length of octets.
pub open spec fn ip_hosts_sized(host: Option<UrlHostView>) -> bool {
    match host {
        Some(UrlHostView::Ipv4(o)) => o.len() == 4,
        Some(UrlHostView::Ipv6(o)) => o.len() == 16,
        _ => true,
    }
}

proof fn lemma_url_host_sized(u: UrlParts)
    ensures
        ip_hosts_sized(u@.host),
{
}

proof fn lemma_endpoint_shape(u: UrlPartsView)
    requires
        domain_host_clean(u.host),
        ip_hosts_sized(u.host),
        endpoint_of_url(Some(u)) is Ok,
    ensures
        endpoint_shape(endpoint_of_url(Some(u))->Ok_0),
{
    match u.host {
        Some(UrlHostView::Domain(d)) => {
            assert(!d.contains('[') && !d.contains(']') && !d.contains(':')) by {
                if d.contains('[') {
                    let i = choose|i: int| 0 <= i < d.len() && d[i] == '[';
                    assert(d[i] != '[');
                }
                if d.contains(']') {
                    let i = choose|i: int| 0 <= i < d.len() && d[i] == ']';
                    assert(d[i] != ']');
                }
                if d.contains(':') {
                    let i = choose|i: int| 0 <= i < d.len() && d[i] == ':';
                    assert(d[i] != ':');
                }
            }
        },
        Some(UrlHostView::Ipv4(o)) => {
            lemma_ipv4_text_shape(o);
            let t = ipv4_text(o);
            assert(!t.contains('[') && !t.contains(']')) by {
                if t.contains('[') {
                    let i = choose|i: int| 0 <= i < t.len() && t[i] == '[';
                    assert(ip_text_char(t[i]));
                }
                if t.contains(']') {
                    let i = choose|i: int| 0 <= i < t.len() && t[i] == ']';
                    assert(ip_text_char(t[i]));
                }
            }
        },
        Some(UrlHostView::Ipv6(o)) => {
            lemma_ipv6_text_shape(o);
            let t = ipv6_text(o);
            assert(!t.contains('[') && !t.contains(']')) by {
                if t.contains('[') {
                    let i = choose|i: int| 0 <= i < t.len() && t[i] == '[';
                    assert(ip_text_char(t[i]));
                }
                if t.contains(']') {
                    let i = choose|i: int| 0 <= i < t.len() && t[i] == ']';
                    assert(ip_text_char(t[i]));
                }
            }
        },
        None => {},
    }
}

impl RemoteSocksEndpoint {
    /// Endpoint host without IPv6 brackets.
    pub fn host(&self) -> (r: &str)
        ensures
            r@ == self@.host,
    {
        self.host.as_str()
    }

    /// Endpoint TCP port.
    pub fn port(&self) -> (r: u16)
        ensures
            r == self@.port,
    {
        self.port
    }

    /// Endpoint authority suitable for `TcpStream::connect`.
    pub fn authority(&self) -> (r: &str)
        ensures
            r@ == self@.authority,
    {
        self.authority.as_str()
    }

    /// Whether the endpoint used the `socks5h` scheme.
    pub fn resolves_hostname_remotely(&self) -> (r: bool)
        ensures
            r == self@.resolves_hostname_remotely,
    {
        self.resolves_hostname_remotely
    }

    /// Parse and validate a `RemoteSocks` URL.
    ///
    /// An accepted endpoint has a non-empty host without brackets, and its
    /// authority is `host:port`, or `[host]:port` for an IPv6 host.
    pub fn parse(value: &str) -> (r: Result<RemoteSocksEndpoint, Error>)
        ensures
            match r {
                Ok(e) => spec_parse_endpoint(value@) == Ok::<RemoteSocksEndpointView, Error>(e@),
                Err(e) => spec_parse_endpoint(value@) == Err::<RemoteSocksEndpointView, Error>(e),
            },
            r matches Ok(e) ==> endpoint_shape(e@),
    {
        let url = parse_url(value);
        proof {
            if url is Some {
                let u = url->Some_0;
                lemma_url_host_sized(u);
                if endpoint_of_url(Some(u@)) is Ok {
                    lemma_endpoint_shape(u@);
                }
            }
        }
        RemoteSocksEndpoint::from_url(url)
    }

    /// Validate a parsed `RemoteSocks` URL, as [`endpoint_of_url`] says.
    pub fn from_url(url: Option<UrlParts>) -> (r: Result<RemoteSocksEndpoint, Error>)
        ensures
            match r {
                Ok(e) => endpoint_of_url(url_view(url)) == Ok::<RemoteSocksEndpointView, Error>(e@),
                Err(e) => endpoint_of_url(url_view(url)) == Err::<RemoteSocksEndpointView, Error>(e),
            },
    {
        let url = match url {
            Some(url) => url,
            None => return Err(Error::InvalidRemoteSocksEndpoint),
        };
        proof {
            reveal_strlit("socks5");
            reveal_strlit("socks5h");
            reveal_strlit("/");
            assert("socks5"@ =~= socks5());
            assert("socks5h"@ =~= socks5h());
            assert("/"@ =~= seq!['/']);
        }
        let resolves_hostname_remotely = if text_eq(url.scheme.as_str(), "socks5") {
            false
        } else if text_eq(url.scheme.as_str(), "socks5h") {
            true
        } else {
            return Err(Error::InvalidRemoteSocksEndpoint);
        };
        assert("socks5"@ =~= socks5());
        assert("socks5h"@ =~= socks5h());
        assert("/"@ =~= seq!['/']);
        if !url.username.as_str().is_empty() || url.password.is_some() || !(url.path.as_str().is_empty()
            || text_eq(url.path.as_str(), "/")) || url.query.is_some() || url.fragment.is_some() {
            return Err(Error::InvalidRemoteSocksEndpoint);
        }
        let (host, ipv6) = match &url.host {
            Some(UrlHost::Domain(host)) => {
                if host.as_str().is_empty() {
                    return Err(Error::InvalidRemoteSocksEndpoint);
                }
                (host.clone(), false)
            },
            Some(UrlHost::Ipv4(octets)) => (ipv4_string(*octets), false),
            Some(UrlHost::Ipv6(octets)) => (ipv6_string(*octets), true),
            None => return Err(Error::InvalidRemoteSocksEndpoint),
        };
        let port = match url.port {
            Some(port) => port,
            None => return Err(Error::InvalidRemoteSocksEndpoint),
        };
        let port_text = decimal_string(port as u32);
        let authority = if ipv6 {
            let mut text = String::from_str("[");
            text.append(host.as_str());
            text.append("]:");
            text.append(port_text.as_str());
            text
        } else {
            let mut text = host.clone();
            text.append(":");
            text.append(port_text.as_str());
            text
        };
        proof {
            reveal_strlit("[");
            reveal_strlit("]:");
            reveal_strlit(":");
            assert(authority@ =~= authority_text(host@, ipv6, port));
        }
        Ok(RemoteSocksEndpoint { host, port, authority, resolves_hostname_remotely })
    }

    /// The endpoint URL: `socks5://authority` or `socks5h://authority`.
    pub fn to_string(&self) -> (r: String)
        ensures
            r@ == endpoint_text(self@),
    {
        let mut text = if self.resolves_hostname_remotely {
            String::from_str("socks5h://")
        } else {
            String::from_str("socks5://")
        };
        text.append(self.authority.as_str());
        proof {
            reveal_strlit("socks5h://");
            reveal_strlit("socks5://");
        }
        assert(text@ =~= endpoint_text(self@));
        text
    }
}

impl Clone for RemoteSocksEndpoint {
    fn clone(&self) -> (r: RemoteSocksEndpoint)
        ensures
            r@ == self@,
    {
        RemoteSocksEndpoint {
            host: self.host.clone(),
            port: self.port,
            authority: self.authority.clone(),
            resolves_hostname_remotely: self.resolves_hostname_remotely,
        }
    }
}

impl PartialEq for RemoteSocksEndpoint {
    fn eq(&self, other: &Self) -> (r: bool) {
        let r = self.host == other.host && self.port == other.port && self.authority
            == other.authority && self.resolves_hostname_remotely
            == other.resolves_hostname_remotely;
        assert(r == (self@ == other@));
        r
    }
}

impl vstd::std_specs::cmp::PartialEqSpecImpl for RemoteSocksEndpoint {
    open spec fn obeys_eq_spec() -> bool {
        true
    }

    open spec fn eq_spec(&self, other: &RemoteSocksEndpoint) -> bool {
        self@ == other@
    }
}

impl Eq for RemoteSocksEndpoint {}

impl core::str::FromStr for RemoteSocksEndpoint {
    type Err = Error;

    fn from_str(value: &str) -> (r: Result<RemoteSocksEndpoint, Error>)
        ensures
            match r {
                Ok(e) => spec_parse_endpoint(value@) == Ok::<RemoteSocksEndpointView, Error>(e@),
                Err(e) => spec_parse_endpoint(value@) == Err::<RemoteSocksEndpointView, Error>(e),
            },
            r matches Ok(e) ==> endpoint_shape(e@),
    {
        RemoteSocksEndpoint::parse(value)
    }
}

} // verus!
