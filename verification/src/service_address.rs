//! The source address towards the `LazyCat` host service: the candidates that
//! DNS gives for `host.lzcapp` are probed in order until the kernel has a
//! route to one of them.

use vstd::prelude::*;

use crate::net::{SocketAddress, SocketAddressView};
use crate::remotesocks::udp::unspecified_for;
use crate::Error;

verus! {

/// Host name of the `LazyCat` host service.
pub const SERVICE_HOST: &'static str = "host.lzcapp";

/// Port used when asking the kernel for a route; nothing is sent to it.
pub const ROUTE_PROBE_PORT: u16 = 9;

/// The models of a list of socket addresses.
pub open spec fn address_views(addresses: Seq<SocketAddress>) -> Seq<SocketAddressView> {
    addresses.map_values(|a: SocketAddress| a@)
}

/// The progress of a route search over resolved candidates.
pub struct RouteSearch {
    candidates: Vec<SocketAddress>,
    next: usize,
    last_error: Option<std::io::Error>,
}

/// Model of a [`RouteSearch`]: the candidates, how many have been probed
/// without success, and the last probe failure.
pub struct RouteSearchView {
    pub candidates: Seq<SocketAddressView>,
    pub next: nat,
    pub last_error: Option<std::io::Error>,
}

impl View for RouteSearch {
    type V = RouteSearchView;

    closed spec fn view(&self) -> RouteSearchView {
        RouteSearchView {
            candidates: address_views(self.candidates@),
            next: self.next as nat,
            last_error: self.last_error,
        }
    }
}

impl RouteSearch {
    #[verifier::type_invariant]
    closed spec fn inv(self) -> bool {
        self.next <= self.candidates@.len()
    }

    /// Start a search over the candidates in the order DNS gave them.
    pub fn new(candidates: Vec<SocketAddress>) -> (r: RouteSearch)
        ensures
            r@.candidates == address_views(candidates@),
            r@.next == 0,
            r@.last_error is None,
    {
        RouteSearch { candidates, next: 0, last_error: None }
    }

    /// The next candidate to probe, or `None` once every candidate has
    /// failed.
    pub fn next_candidate(&self) -> (r: Option<SocketAddress>)
        ensures
            r is Some <==> self@.next < self@.candidates.len(),
            r matches Some(c) ==> c@ == self@.candidates[self@.next as int],
    {
        proof {
            use_type_invariant(self);
        }
        if self.next < self.candidates.len() {
            Some(self.candidates[self.next])
        } else {
            None
        }
    }

    /// Record that probing the current candidate failed, and move to the
    /// next one.
    pub fn record_failure(&mut self, error: std::io::Error)
        ensures
            final(self)@.candidates == old(self)@.candidates,
            final(self)@.next == if old(self)@.next < old(self)@.candidates.len() {
                old(self)@.next + 1
            } else {
                old(self)@.next
            },
            final(self)@.last_error == Some(error),
    {
        proof {
            use_type_invariant(&*self);
        }
        if self.next < self.candidates.len() {
            self.next = self.next + 1;
        }
        self.last_error = Some(error);
    }

    /// The error once no candidate has a route: it carries the last probe
    /// failure, or none when there was no candidate.
    pub fn into_error(self) -> (r: Error)
        ensures
            r == (Error::ServiceAddressNoRoute { source: self@.last_error }),
    {
        Error::ServiceAddressNoRoute { source: self.last_error }
    }
}

/// The unspecified local address of the candidate's family, port zero: the
/// address a route probe binds.
pub fn unspecified_bind_address(candidate: &SocketAddress) -> (r: SocketAddress)
    ensures
        r@ == candidate@.unspecified(),
{
    unspecified_for(candidate)
}

} // verus!
