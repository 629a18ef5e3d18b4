//! Where the `LazyCat` runtime API is reached: the mounted sockets and the
//! plaintext gateway override.

use vstd::prelude::*;

use crate::codec::{contains_text, str_trim, text_contains, trimmed};
use crate::url_parts::opt_text;
use crate::Error;

verus! {

broadcast use vstd::string::group_string_axioms;

/// Runtime API Unix socket mounted into `LazyCat` applications.
pub const RUNTIME_SOCKET_PATH: &'static str = "/lzcapp/run/sys/lzc-apis.socket";

/// `HPortalSys` Unix socket mounted into `LazyCat` applications.
pub const PORTAL_SOCKET_PATH: &'static str = "/lzcapp/run/sys/portal-server.socket";

/// Environment variable that selects a plaintext API gateway.
pub const API_GATEWAY_ADDRESS_ENV: &'static str = "LZCAPP_API_GATEWAY_ADDRESS";

/// Scheme separator of a URI.
pub const SCHEME_SEPARATOR: &'static str = "://";

/// Scheme prefix of a plaintext HTTP URI.
pub const HTTP_PREFIX: &'static str = "http://";

/// The gateway override that an environment value selects: a value that is
/// not blank.
pub open spec fn override_of(value: Option<Seq<char>>) -> Option<Seq<char>> {
    match value {
        Some(v) => if trimmed(v).len() > 0 {
            Some(v)
        } else {
            None
        },
        None => None,
    }
}

/// Select the gateway override from the value of
/// [`API_GATEWAY_ADDRESS_ENV`]: blank values are ignored.
pub fn gateway_override(value: Option<String>) -> (r: Option<String>)
    ensures
        match r {
            Some(v) => override_of(opt_text(value)) == Some(v@),
            None => override_of(opt_text(value)) is None,
        },
{
    match value {
        Some(v) => {
            if str_trim(v.as_str()).unicode_len() > 0 {
                Some(v)
            } else {
                None
            }
        },
        None => None,
    }
}

/// The URI that a gateway override is read as: trimmed, with `http://` in
/// front unless it names a scheme.
pub open spec fn gateway_candidate(address: Seq<char>) -> Seq<char> {
    let a = trimmed(address);
    if contains_text(a, SCHEME_SEPARATOR@) {
        a
    } else {
        HTTP_PREFIX@ + a
    }
}

/// Build the URI that a gateway override is read as.
pub fn gateway_candidate_text(address: &str) -> (r: String)
    ensures
        r@ == gateway_candidate(address@),
{
    let a = str_trim(address);
    if text_contains(a, SCHEME_SEPARATOR) {
        a.to_owned()
    } else {
        let mut text = String::from_str(HTTP_PREFIX);
        text.append(a);
        text
    }
}

/// What `http::Uri` parses `text` to, as its authority: `None` where it
/// reports an error, `Some(None)` for a URI without authority.
pub uninterp spec fn uri_authority(text: Seq<char>) -> Option<Option<Seq<char>>>;

/// Parse a URI and read its authority.
///
/// Calls `str::parse::<http::Uri>` and `Uri::authority`, keeping the
/// authority's text (`Authority::as_str`). The contract only names the
/// result, which depends on the text alone.
#[verifier::external_body]
fn parse_uri_authority(text: &str) -> (r: Option<Option<String>>)
    ensures
        match r {
            Some(Some(a)) => uri_authority(text@) == Some(Some(a@)),
            Some(None) => uri_authority(text@) == Some(None::<Seq<char>>),
            None => uri_authority(text@) is None,
        },
{
    let uri = text.parse::<http::Uri>().ok()?;
    Some(uri.authority().map(|a| a.as_str().to_owned()))
}

/// The plaintext gateway URI for a parsed override: `http://` and the
/// authority; `None` when the override has no authority or does not parse.
pub open spec fn gateway_uri(parsed: Option<Option<Seq<char>>>) -> Option<Seq<char>> {
    match parsed {
        Some(Some(authority)) => Some(HTTP_PREFIX@ + authority),
        _ => None,
    }
}

/// Build the plaintext gateway URI from a parsed override, as
/// [`gateway_uri`] says.
pub fn gateway_uri_from(parsed: Option<Option<String>>) -> (r: Result<String, Error>)
    ensures
        match gateway_uri(
            match parsed {
                Some(Some(a)) => Some(Some(a@)),
                Some(None) => Some(None),
                None => None,
            },
        ) {
            Some(uri) => r matches Ok(s) && s@ == uri,
            None => r matches Err(Error::InvalidGatewayAddress),
        },
{
    match parsed {
        Some(Some(authority)) => {
            let mut text = String::from_str(HTTP_PREFIX);
            text.append(authority.as_str());
            Ok(text)
        },
        _ => Err(Error::InvalidGatewayAddress),
    }
}

/// Normalize a gateway override to the plaintext URI of its authority:
/// `127.0.0.1:1234` and `https://gateway.example:8443/path` become
/// `http://127.0.0.1:1234` and `http://gateway.example:8443`.
pub fn normalize_gateway_address(address: &str) -> (r: Result<String, Error>)
    ensures
        match gateway_uri(uri_authority(gateway_candidate(address@))) {
            Some(uri) => r matches Ok(s) && s@ == uri,
            None => r matches Err(Error::InvalidGatewayAddress),
        },
{
    let candidate = gateway_candidate_text(address);
    let parsed = parse_uri_authority(candidate.as_str());
    gateway_uri_from(parsed)
}

} // verus!
