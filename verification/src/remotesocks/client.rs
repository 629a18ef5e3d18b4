//! The SOCKS5 client side of `RemoteSocks`: the no-authentication
//! handshake, command requests and replies, and how a proxy endpoint is
//! chosen, cached and retried.

use vstd::prelude::*;

use crate::hserver::{RemoteSocksEndpoint, RemoteSocksEndpointView};
use crate::remotesocks::address::{spec_encode, SocksAddress};
use crate::Error;

verus! {

/// SOCKS protocol version 5.
pub const SOCKS_VERSION: u8 = 0x05;
/// The "no authentication required" method.
pub const NO_AUTHENTICATION: u8 = 0x00;
/// The "no acceptable methods" reply.
pub const NO_ACCEPTABLE_AUTHENTICATION: u8 = 0xff;
/// The CONNECT command.
pub const CONNECT_COMMAND: u8 = 0x01;
/// The BIND command.
pub const BIND_COMMAND: u8 = 0x02;
/// The UDP ASSOCIATE command.
pub const ASSOCIATE_COMMAND: u8 = 0x03;
/// Default deadline for reaching the proxy and completing a command, in seconds.
pub const DEFAULT_DIAL_TIMEOUT_SECS: u64 = 60;

// ---------------------------------------------------------------------------
// Handshake messages
// ---------------------------------------------------------------------------

/// The outcome of a method-selection reply to a greeting that offers only
/// "no authentication".
pub open spec fn spec_method_selection(response: Seq<u8>) -> Result<(), Error> {
    if response[0] != 5 {
        Err(Error::UnexpectedSocksVersion { version: response[0] })
    } else if response[1] == 0 {
        Ok(())
    } else if response[1] == 0xff {
        Err(Error::SocksNoAcceptableAuthentication)
    } else {
        Err(Error::UnsupportedSocksAuthentication { method: response[1] })
    }
}

/// The outcome of the fixed part of a command reply: version, reply code,
/// reserved byte.
pub open spec fn spec_reply_header(header: Seq<u8>) -> Result<(), Error> {
    if header[0] != 5 {
        Err(Error::UnexpectedSocksVersion { version: header[0] })
    } else if header[2] != 0 {
        Err(Error::InvalidSocksReservedByte { reserved: header[2] })
    } else if header[1] != 0 {
        Err(Error::SocksReply { code: header[1] })
    } else {
        Ok(())
    }
}

/// The greeting that offers only "no authentication": `05 01 00`.
pub fn greeting() -> (r: [u8; 3])
    ensures
        r@ == seq![5u8, 1u8, 0u8],
{
    let r = [SOCKS_VERSION, 1, NO_AUTHENTICATION];
    assert(r@ =~= seq![5u8, 1u8, 0u8]);
    r
}

/// Check the proxy's method selection: it must speak version 5 and accept
/// "no authentication".
pub fn check_method_selection(response: &[u8; 2]) -> (r: Result<(), Error>)
    ensures
        r == spec_method_selection(response@),
{
    if response[0] != SOCKS_VERSION {
        return Err(Error::UnexpectedSocksVersion { version: response[0] });
    }
    if response[1] == NO_AUTHENTICATION {
        Ok(())
    } else if response[1] == NO_ACCEPTABLE_AUTHENTICATION {
        Err(Error::SocksNoAcceptableAuthentication)
    } else {
        Err(Error::UnsupportedSocksAuthentication { method: response[1] })
    }
}

/// The request for `command` on `address`: `05 command 00` and the address.
pub fn command_request(command: u8, address: &SocksAddress) -> (r: Result<Vec<u8>, Error>)
    ensures
        match r {
            Ok(v) => spec_encode(address@) matches Ok(a) && v@ == seq![5u8, command, 0u8] + a,
            Err(e) => spec_encode(address@) == Err::<Seq<u8>, Error>(e),
        },
{
    let encoded = address.encode()?;
    let mut request: Vec<u8> = Vec::with_capacity(3 + encoded.len());
    request.push(SOCKS_VERSION);
    request.push(command);
    request.push(0);
    crate::codec::append_bytes(&mut request, encoded.as_slice());
    assert(request@ =~= seq![5u8, command, 0u8] + encoded@);
    Ok(request)
}

/// Check the fixed part of a command reply; the bound address follows it.
pub fn check_reply_header(header: &[u8; 3]) -> (r: Result<(), Error>)
    ensures
        r == spec_reply_header(header@),
{
    if header[0] != SOCKS_VERSION {
        return Err(Error::UnexpectedSocksVersion { version: header[0] });
    }
    if header[2] != 0 {
        return Err(Error::InvalidSocksReservedByte { reserved: header[2] });
    }
    if header[1] != 0 {
        return Err(Error::SocksReply { code: header[1] });
    }
    Ok(())
}

// ---------------------------------------------------------------------------
// Proxy endpoint cache
// ---------------------------------------------------------------------------

/// The last proxy endpoint that resolving gave.
pub struct EndpointCache {
    cached: Option<RemoteSocksEndpoint>,
}

impl View for EndpointCache {
    type V = Option<RemoteSocksEndpointView>;

    closed spec fn view(&self) -> Option<RemoteSocksEndpointView> {
        match self.cached {
            Some(e) => Some(e@),
            None => None,
        }
    }
}

impl EndpointCache {
    /// An empty cache.
    pub fn new() -> (r: EndpointCache)
        ensures
            r@ is None,
    {
        EndpointCache { cached: None }
    }

    /// The cached endpoint, when `use_cache` asks for it and there is one;
    /// otherwise the endpoint must be resolved.
    pub fn lookup(&self, use_cache: bool) -> (r: Option<RemoteSocksEndpoint>)
        ensures
            match r {
                Some(e) => use_cache && self@ == Some(e@),
                None => !use_cache || self@ is None,
            },
    {
        if use_cache {
            match &self.cached {
                Some(endpoint) => Some(endpoint.clone()),
                None => None,
            }
        } else {
            None
        }
    }

    /// Remember a freshly resolved endpoint.
    pub fn record(&mut self, endpoint: &RemoteSocksEndpoint)
        ensures
            final(self)@ == Some(endpoint@),
    {
        self.cached = Some(endpoint.clone());
    }
}

// ---------------------------------------------------------------------------
// Reaching the proxy: one retry, only with a changed endpoint
// ---------------------------------------------------------------------------

/// Waiting for an endpoint: the first resolution (from the cache when it
/// holds one), or the fresh one after the first dial failed with `error`.
pub enum AwaitingEndpoint<E> {
    /// The first resolution.
    Initial,
    /// The fresh resolution after dialing `failed` failed with `error`.
    Refresh { failed: RemoteSocksEndpoint, error: E },
}

/// Waiting for a dial: the first, or the one retry with a changed endpoint.
pub enum AwaitingDial {
    /// Dialing the first endpoint.
    First { endpoint: RemoteSocksEndpoint },
    /// Dialing `endpoint`, which differs from `failed`, the endpoint of the
    /// failed first dial.
    Second { failed: RemoteSocksEndpoint, endpoint: RemoteSocksEndpoint },
}

/// The next step of reaching the proxy, with the state that waits for its
/// outcome.
#[allow(inconsistent_fields)]
pub enum ProxyDialStep<S, E> {
    /// Resolve the endpoint, from the cache when `use_cache` allows it, and
    /// hand the outcome to `state`.
    Resolve { state: AwaitingEndpoint<E>, use_cache: bool },
    /// Open a TCP connection to `endpoint`, and hand the outcome to `state`.
    Dial { state: AwaitingDial, endpoint: RemoteSocksEndpoint },
    /// Reaching the proxy is over: the connected stream, or the error to
    /// report.
    Done(Result<S, E>),
}

impl<S, E> ProxyDialStep<S, E> {
    /// How many more dials can follow this step, counting the one it asks
    /// for.
    pub open spec fn dials_left(&self) -> nat {
        match self {
            ProxyDialStep::Resolve { state: AwaitingEndpoint::Initial, .. } => 2,
            ProxyDialStep::Resolve { state: AwaitingEndpoint::Refresh { .. }, .. } => 1,
            ProxyDialStep::Dial { state: AwaitingDial::First { .. }, .. } => 2,
            ProxyDialStep::Dial { state: AwaitingDial::Second { .. }, .. } => 1,
            ProxyDialStep::Done(_) => 0,
        }
    }

    /// Begin reaching the proxy: resolve the endpoint, using the cache.
    pub fn start() -> (r: ProxyDialStep<S, E>)
        ensures
            r matches ProxyDialStep::Resolve { state, use_cache } && state is Initial && use_cache,
    {
        ProxyDialStep::Resolve { state: AwaitingEndpoint::Initial, use_cache: true }
    }
}

impl<E> AwaitingEndpoint<E> {
    /// The next step once resolving gave `result`.
    ///
    /// The first endpoint is dialed; a failed first resolution is reported.
    /// After a failed first dial, a fresh endpoint is dialed only when it
    /// differs from the failed one; otherwise, and when the fresh resolution
    /// fails, the first dial's error is reported.
    pub fn resolved<S>(self, result: Result<RemoteSocksEndpoint, E>) -> (r: ProxyDialStep<S, E>)
        ensures
            proxy_resolved_spec(self, result, r),
    {
        match self {
            AwaitingEndpoint::Initial => match result {
                Ok(endpoint) => {
                    let dial = endpoint.clone();
                    ProxyDialStep::Dial { state: AwaitingDial::First { endpoint }, endpoint: dial }
                },
                Err(error) => ProxyDialStep::Done(Err(error)),
            },
            AwaitingEndpoint::Refresh { failed, error } => match result {
                Ok(endpoint) => {
                    if endpoint == failed {
                        ProxyDialStep::Done(Err(error))
                    } else {
                        let dial = endpoint.clone();
                        ProxyDialStep::Dial {
                            state: AwaitingDial::Second { failed, endpoint },
                            endpoint: dial,
                        }
                    }
                },
                Err(_) => ProxyDialStep::Done(Err(error)),
            },
        }
    }
}

impl AwaitingDial {
    /// The next step once the dial gave `result`.
    ///
    /// A connected stream ends the attempt. A failed first dial asks for a
    /// fresh resolution, bypassing the cache; a failed second dial is
    /// reported.
    pub fn dialed<S, E>(self, result: Result<S, E>) -> (r: ProxyDialStep<S, E>)
        ensures
            proxy_dialed_spec(self, result, r),
    {
        match result {
            Ok(stream) => ProxyDialStep::Done(Ok(stream)),
            Err(error) => match self {
                AwaitingDial::First { endpoint } => ProxyDialStep::Resolve {
                    state: AwaitingEndpoint::Refresh { failed: endpoint, error },
                    use_cache: false,
                },
                AwaitingDial::Second { .. } => ProxyDialStep::Done(Err(error)),
            },
        }
    }
}

/// A run of proxy-dial steps uses at most two dials: each step leads to one
/// with no more dials left, and a dial uses one up. A second dial only
/// follows a failed first dial and a fresh resolution, and its endpoint
/// differs from the failed one.
pub proof fn proxy_dial_law<S, E>(
    awaiting_endpoint: AwaitingEndpoint<E>,
    awaiting_dial: AwaitingDial,
    endpoint_result: Result<RemoteSocksEndpoint, E>,
    dial_result: Result<S, E>,
    after_resolve: ProxyDialStep<S, E>,
    after_dial: ProxyDialStep<S, E>,
)
    requires
        proxy_resolved_spec(awaiting_endpoint, endpoint_result, after_resolve),
        proxy_dialed_spec(awaiting_dial, dial_result, after_dial),
    ensures
        after_resolve.dials_left() <= (ProxyDialStep::<S, E>::Resolve {
            state: awaiting_endpoint,
            use_cache: true,
        }).dials_left(),
        after_dial.dials_left() < (ProxyDialStep::<S, E>::Dial {
            state: awaiting_dial,
            endpoint: match awaiting_dial {
                AwaitingDial::First { endpoint } => endpoint,
                AwaitingDial::Second { endpoint, .. } => endpoint,
            },
        }).dials_left(),
        after_resolve matches ProxyDialStep::Dial { state: AwaitingDial::Second { failed, endpoint }, .. }
            ==> awaiting_endpoint matches AwaitingEndpoint::Refresh { failed: f, .. } && f@
            == failed@ && endpoint@ != failed@,
        after_dial is Resolve ==> awaiting_dial is First && dial_result is Err,
{
}

/// The retry rule over a run that starts with a resolved endpoint `first`
/// whose dial fails with `first_error`: the endpoint is resolved again,
/// bypassing the cache; a failed resolution, or one that gives `first`
/// again, ends the run with `first_error` and no second dial; a changed
/// endpoint is dialed once, and that dial's outcome ends the run.
pub proof fn proxy_retry_rule<S, E>(
    first: RemoteSocksEndpoint,
    first_error: E,
    refreshed: Result<RemoteSocksEndpoint, E>,
    second_dial: Result<S, E>,
    after_first_resolve: ProxyDialStep<S, E>,
    after_first_dial: ProxyDialStep<S, E>,
    after_refresh: ProxyDialStep<S, E>,
    after_second_dial: ProxyDialStep<S, E>,
)
    requires
        proxy_resolved_spec(AwaitingEndpoint::Initial, Ok(first), after_first_resolve),
        after_first_resolve matches ProxyDialStep::Dial { state, .. } && proxy_dialed_spec(
            state,
            Err(first_error),
            after_first_dial,
        ),
        after_first_dial matches ProxyDialStep::Resolve { state, .. } && proxy_resolved_spec(
            state,
            refreshed,
            after_refresh,
        ),
        after_refresh matches ProxyDialStep::Dial { state, .. } ==> proxy_dialed_spec(
            state,
            second_dial,
            after_second_dial,
        ),
    ensures
        after_first_resolve matches ProxyDialStep::Dial { endpoint, .. } && endpoint@ == first@,
        after_first_dial matches ProxyDialStep::Resolve { use_cache, .. } && !use_cache,
        match refreshed {
            Ok(e) => if e@ == first@ {
                after_refresh == ProxyDialStep::<S, E>::Done(Err(first_error))
            } else {
                &&& after_refresh matches ProxyDialStep::Dial { endpoint, .. } && endpoint@ == e@
                &&& after_second_dial == ProxyDialStep::<S, E>::Done(second_dial)
            },
            Err(_) => after_refresh == ProxyDialStep::<S, E>::Done(Err(first_error)),
        },
{
}

/// What [`AwaitingEndpoint::resolved`] ensures of its result `r`.
pub open spec fn proxy_resolved_spec<S, E>(
    state: AwaitingEndpoint<E>,
    result: Result<RemoteSocksEndpoint, E>,
    r: ProxyDialStep<S, E>,
) -> bool {
    match state {
        AwaitingEndpoint::Initial => match result {
            Ok(e) => r matches ProxyDialStep::Dial { state: AwaitingDial::First { endpoint }, endpoint: d }
                && endpoint@ == e@ && d@ == e@,
            Err(error) => r == ProxyDialStep::<S, E>::Done(Err(error)),
        },
        AwaitingEndpoint::Refresh { failed, error } => match result {
            Ok(e) => if e@ == failed@ {
                r == ProxyDialStep::<S, E>::Done(Err(error))
            } else {
                r matches ProxyDialStep::Dial {
                    state: AwaitingDial::Second { failed: f, endpoint },
                    endpoint: d,
                } && f@ == failed@ && endpoint@ == e@ && d@ == e@
            },
            Err(_) => r == ProxyDialStep::<S, E>::Done(Err(error)),
        },
    }
}

/// What [`AwaitingDial::dialed`] ensures of its result `r`.
pub open spec fn proxy_dialed_spec<S, E>(state: AwaitingDial, result: Result<S, E>, r: ProxyDialStep<S, E>) -> bool {
    match result {
        Ok(stream) => r == ProxyDialStep::<S, E>::Done(Ok(stream)),
        Err(error) => match state {
            AwaitingDial::First { endpoint } => r matches ProxyDialStep::Resolve {
                state: AwaitingEndpoint::Refresh { failed, error: e },
                use_cache,
            } && !use_cache && failed@ == endpoint@ && e == error,
            AwaitingDial::Second { .. } => r == ProxyDialStep::<S, E>::Done(Err(error)),
        },
    }
}

} // verus!
