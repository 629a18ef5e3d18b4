//! The mTLS endpoint of a remote `LazyCat` device API.

use vstd::prelude::*;

use crate::codec::text_eq;
use crate::net_text::{decimal_string, decimal_text, ipv4_string, ipv4_text, ipv6_string, ipv6_text};
use crate::url_parts::{parse_url, url_parse, url_view, UrlHost, UrlHostView, UrlParts, UrlPartsView};
use crate::Error;

verus! {

broadcast use vstd::string::group_string_axioms;

/// Metadata key that carries the device auth token on every device call.
pub const AUTH_TOKEN_HEADER: &'static str = "lzc_dapi_auth_token";

/// The `http` scheme.
pub const HTTP_SCHEME: &'static str = "http";

/// The `https` scheme.
pub const HTTPS_SCHEME: &'static str = "https";

/// Scheme prefix of a device endpoint URI.
pub const HTTPS_PREFIX: &'static str = "https://";

/// Where a device API is dialled: the URI of its authority, and the name
/// its TLS certificate is checked against.
#[derive(Clone, Debug)]
pub struct DeviceEndpoint {
    /// `https://host:port`, with an IPv6 host in brackets.
    pub uri: String,
    /// The host, without brackets.
    pub tls_server_name: String,
}

/// Model of a [`DeviceEndpoint`].
pub struct DeviceEndpointView {
    pub uri: Seq<char>,
    pub tls_server_name: Seq<char>,
}

impl View for DeviceEndpoint {
    type V = DeviceEndpointView;

    open spec fn view(&self) -> DeviceEndpointView {
        DeviceEndpointView { uri: self.uri@, tls_server_name: self.tls_server_name@ }
    }
}

/// The host as it stands in an authority, and as a TLS server name.
pub open spec fn device_host(host: UrlHostView) -> (Seq<char>, Seq<char>) {
    match host {
        UrlHostView::Ipv6(o) => (seq!['['] + ipv6_text(o) + seq![']'], ipv6_text(o)),
        UrlHostView::Ipv4(o) => (ipv4_text(o), ipv4_text(o)),
        UrlHostView::Domain(d) => (d, d),
    }
}

/// The device endpoint of a parsed API URL: an `http` or `https` URL
/// without credentials, with a host and a port (explicit or the scheme's
/// default). The endpoint always uses `https`.
pub open spec fn device_endpoint_of(url: Option<UrlPartsView>) -> Option<DeviceEndpointView> {
    match url {
        None => None,
        Some(u) => if !(u.scheme == HTTP_SCHEME@ || u.scheme == HTTPS_SCHEME@) || u.username.len()
            != 0 || u.password is Some {
            None
        } else {
            match (u.host, u.port_or_known_default) {
                (Some(host), Some(port)) => Some(
                    DeviceEndpointView {
                        uri: HTTPS_PREFIX@ + device_host(host).0 + seq![':'] + decimal_text(
                            port as nat,
                        ),
                        tls_server_name: device_host(host).1,
                    },
                ),
                _ => None,
            }
        },
    }
}

/// Build the device endpoint of a parsed API URL, as
/// [`device_endpoint_of`] says.
pub fn device_endpoint_from_url(url: Option<UrlParts>) -> (r: Result<DeviceEndpoint, Error>)
    ensures
        match device_endpoint_of(url_view(url)) {
            Some(e) => r matches Ok(d) && d@ == e,
            None => r matches Err(Error::InvalidDeviceUrl),
        },
{
    let url = match url {
        Some(u) => u,
        None => {
            return Err(Error::InvalidDeviceUrl);
        },
    };
    if !(text_eq(url.scheme.as_str(), HTTP_SCHEME) || text_eq(url.scheme.as_str(), HTTPS_SCHEME))
        || url.username.unicode_len() != 0 || url.password.is_some() {
        return Err(Error::InvalidDeviceUrl);
    }
    let host = match &url.host {
        Some(h) => h,
        None => {
            return Err(Error::InvalidDeviceUrl);
        },
    };
    let port = match url.port_or_known_default {
        Some(p) => p,
        None => {
            return Err(Error::InvalidDeviceUrl);
        },
    };
    let (authority_host, tls_server_name) = match host {
        UrlHost::Ipv6(o) => {
            let name = ipv6_string(*o);
            let mut bracketed = String::from_str("[");
            bracketed.append(name.as_str());
            bracketed.append("]");
            proof {
                reveal_strlit("[");
                reveal_strlit("]");
                assert(bracketed@ =~= seq!['['] + ipv6_text(o@) + seq![']']);
            }
            (bracketed, name)
        },
        UrlHost::Ipv4(o) => {
            let name = ipv4_string(*o);
            (name.clone(), name)
        },
        UrlHost::Domain(d) => (d.clone(), d.clone()),
    };
    let mut uri = String::from_str(HTTPS_PREFIX);
    uri.append(authority_host.as_str());
    uri.append(":");
    let port_text = decimal_string(port as u32);
    uri.append(port_text.as_str());
    proof {
        reveal_strlit(":");
        assert(uri@ =~= HTTPS_PREFIX@ + device_host(host@).0 + seq![':'] + decimal_text(port as nat));
    }
    Ok(DeviceEndpoint { uri, tls_server_name })
}

/// The device endpoint of an API URL such as
/// `https://[2001:db8::1]:8443/ignored`: `https://[2001:db8::1]:8443`,
/// checked against the TLS server name `2001:db8::1`.
pub fn device_endpoint(api_url: &str) -> (r: Result<DeviceEndpoint, Error>)
    ensures
        match device_endpoint_of(url_parse(api_url@)) {
            Some(e) => r matches Ok(d) && d@ == e,
            None => r matches Err(Error::InvalidDeviceUrl),
        },
        url_parse(api_url@) matches Some(u) && (u.scheme == HTTP_SCHEME@ || u.scheme
            == HTTPS_SCHEME@) && u.username.len() == 0 && u.password is None && u.host is Some
            ==> r is Ok,
{
    let url = parse_url(api_url);
    proof {
        reveal_strlit("http");
        reveal_strlit("https");
        assert(HTTP_SCHEME@ =~= seq!['h', 't', 't', 'p']);
        assert(HTTPS_SCHEME@ =~= seq!['h', 't', 't', 'p', 's']);
    }
    device_endpoint_from_url(url)
}

} // verus!
