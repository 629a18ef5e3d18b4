//! Device service availability: the state mapping and the request helpers.

use vstd::prelude::*;

use crate::Error;

verus! {

broadcast use vstd::string::group_string_axioms;

/// Public service availability state used across device API versions.
#[derive(Clone, Copy, Debug, PartialEq, Eq, Hash, Structural)]
pub enum ServiceState {
    Unknown,
    Available,
    Unavailable,
}

impl Default for ServiceState {
    fn default() -> (r: ServiceState)
        ensures
            r == ServiceState::Unknown,
    {
        ServiceState::Unknown
    }
}

/// The Go-compatible lowercase name of a state.
pub open spec fn state_name(state: ServiceState) -> Seq<char> {
    match state {
        ServiceState::Unknown => seq!['u', 'n', 'k', 'n', 'o', 'w', 'n'],
        ServiceState::Available => seq!['a', 'v', 'a', 'i', 'l', 'a', 'b', 'l', 'e'],
        ServiceState::Unavailable => seq!['u', 'n', 'a', 'v', 'a', 'i', 'l', 'a', 'b', 'l', 'e'],
    }
}

impl ServiceState {
    /// Return the Go-compatible lowercase state name.
    pub fn as_str(self) -> (r: &'static str)
        ensures
            r@ == state_name(self),
    {
        proof {
            reveal_strlit("unknown");
            reveal_strlit("available");
            reveal_strlit("unavailable");
        }
        match self {
            ServiceState::Unknown => {
                assert("unknown"@ =~= state_name(self));
                "unknown"
            },
            ServiceState::Available => {
                assert("available"@ =~= state_name(self));
                "available"
            },
            ServiceState::Unavailable => {
                assert("unavailable"@ =~= state_name(self));
                "unavailable"
            },
        }
    }
}

/// Availability and optional device-provided reason for a local service.
#[derive(Clone, Debug)]
pub struct ServiceStatus {
    pub state: ServiceState,
    pub reason: String,
}

impl Default for ServiceStatus {
    fn default() -> (r: ServiceStatus)
        ensures
            r.state == ServiceState::Unknown,
            r.reason@ == Seq::<char>::empty(),
    {
        ServiceStatus { state: ServiceState::Unknown, reason: String::new() }
    }
}

impl PartialEq for ServiceStatus {
    fn eq(&self, other: &Self) -> (r: bool) {
        self.state == other.state && self.reason == other.reason
    }
}

impl vstd::std_specs::cmp::PartialEqSpecImpl for ServiceStatus {
    open spec fn obeys_eq_spec() -> bool {
        true
    }

    open spec fn eq_spec(&self, other: &ServiceStatus) -> bool {
        self.state == other.state && self.reason@ == other.reason@
    }
}

impl Eq for ServiceStatus {}

/// The status of a queried service: the reported one, or `Unknown` with an
/// empty reason when the device's reply omits the service.
pub fn status_or_unknown(reported: Option<ServiceStatus>) -> (r: ServiceStatus)
    ensures
        match reported {
            Some(s) => r.state == s.state && r.reason@ == s.reason@,
            None => r.state == ServiceState::Unknown && r.reason@ == Seq::<char>::empty(),
        },
{
    match reported {
        Some(s) => s,
        None => ServiceStatus::default(),
    }
}

/// A service status as the device reports it: the wire value of its
/// `LocalServiceState` and a reason.
#[derive(Clone, Debug)]
pub struct LocalServiceStatus {
    /// Wire value of the device's `LocalServiceState`.
    pub state: i32,
    /// Device-provided reason.
    pub reason: String,
}

/// The public state of a device state wire value: `1` available, `2`
/// unavailable, anything else (including values this SDK does not know)
/// unknown.
pub open spec fn state_of_wire(state: i32) -> ServiceState {
    if state == 1 {
        ServiceState::Available
    } else if state == 2 {
        ServiceState::Unavailable
    } else {
        ServiceState::Unknown
    }
}

/// Map a device-reported status to the public status, keeping its reason.
pub fn convert_status(status: LocalServiceStatus) -> (r: ServiceStatus)
    ensures
        r.state == state_of_wire(status.state),
        r.reason@ == status.reason@,
{
    let state = if status.state == 1 {
        ServiceState::Available
    } else if status.state == 2 {
        ServiceState::Unavailable
    } else {
        ServiceState::Unknown
    };
    ServiceStatus { state, reason: status.reason }
}

/// The distinct elements of `s`, each at its first occurrence, in order.
pub open spec fn first_occurrences(s: Seq<Seq<char>>) -> Seq<Seq<char>>
    decreases s.len(),
{
    if s.len() == 0 {
        seq![]
    } else {
        let prev = first_occurrences(s.drop_last());
        if prev.contains(s.last()) {
            prev
        } else {
            prev.push(s.last())
        }
    }
}

/// The texts of a list of strings.
pub open spec fn texts(v: Seq<String>) -> Seq<Seq<char>> {
    v.map_values(|s: String| s@)
}

proof fn lemma_contains_push(s: Seq<Seq<char>>, a: Seq<char>, x: Seq<char>)
    ensures
        s.push(a).contains(x) <==> (s.contains(x) || x == a),
{
    if s.push(a).contains(x) {
        let i = choose|i: int| 0 <= i < s.push(a).len() && s.push(a)[i] == x;
        if i < s.len() {
            assert(s[i] == x);
        }
    }
    if s.contains(x) {
        let i = choose|i: int| 0 <= i < s.len() && s[i] == x;
        assert(s.push(a)[i] == x);
    }
    if x == a {
        assert(s.push(a)[s.len() as int] == x);
    }
}

proof fn lemma_first_occurrences_members(s: Seq<Seq<char>>)
    ensures
        forall|x: Seq<char>| first_occurrences(s).contains(x) <==> s.contains(x),
        first_occurrences(s).no_duplicates(),
    decreases s.len(),
{
    if s.len() > 0 {
        let t = s.drop_last();
        let a = s.last();
        lemma_first_occurrences_members(t);
        let prev = first_occurrences(t);
        assert(s =~= t.push(a));
        assert forall|x: Seq<char>| first_occurrences(s).contains(x) <==> s.contains(x) by {
            lemma_contains_push(t, a, x);
            lemma_contains_push(prev, a, x);
        }
        if !prev.contains(a) {
            assert forall|i: int, j: int| 0 <= i < j < prev.push(a).len() implies prev.push(a)[i]
                != prev.push(a)[j] by {
                if j == prev.len() {
                    assert(prev[i] == prev.push(a)[i]);
                }
            }
        }
    }
}

/// The service names of a status query with duplicates removed: each name
/// once, at its first occurrence, in order.
pub fn distinct_service_names(service_names: &Vec<String>) -> (r: Vec<String>)
    ensures
        texts(r@) == first_occurrences(texts(service_names@)),
        texts(r@).no_duplicates(),
        forall|x: Seq<char>| texts(r@).contains(x) <==> texts(service_names@).contains(x),
{
    let mut distinct: Vec<String> = Vec::new();
    let mut i: usize = 0;
    while i < service_names.len()
        invariant
            i <= service_names@.len(),
            texts(distinct@) == first_occurrences(texts(service_names@.subrange(0, i as int))),
        decreases service_names@.len() - i,
    {
        let name = &service_names[i];
        let mut seen = false;
        let mut j: usize = 0;
        while j < distinct.len()
            invariant
                j <= distinct@.len(),
                seen == exists|k: int| 0 <= k < j && distinct@[k]@ == name@,
            decreases distinct@.len() - j,
        {
            if distinct[j] == *name {
                seen = true;
            }
            j = j + 1;
        }
        proof {
            let prefix = texts(service_names@.subrange(0, i as int));
            assert(texts(service_names@.subrange(0, i + 1)).drop_last() =~= prefix);
            assert(texts(service_names@.subrange(0, i + 1)).last() == name@);
            if seen {
                let k = choose|k: int| 0 <= k < j && distinct@[k]@ == name@;
                assert(texts(distinct@)[k] == name@);
            } else {
                assert forall|k: int| 0 <= k < texts(distinct@).len() implies texts(distinct@)[k] != name@ by {
                    assert(distinct@[k]@ != name@);
                }
            }
        }
        if !seen {
            distinct.push(name.clone());
            assert(texts(distinct@) =~= first_occurrences(texts(service_names@.subrange(0, i + 1))));
        }
        i = i + 1;
    }
    assert(service_names@.subrange(0, service_names@.len() as int) =~= service_names@);
    proof {
        lemma_first_occurrences_members(texts(service_names@));
    }
    distinct
}

/// The gRPC status code of a method that the server does not implement.
pub const UNIMPLEMENTED_CODE: i32 = 12;

/// The code that a gRPC status carries, as its wire number
/// (`tonic::Status::code`, converted with `i32::from`).
pub uninterp spec fn status_code(status: tonic::Status) -> i32;

/// The code of a gRPC status, as its wire number.
///
/// Calls `tonic::Status::code`, which returns the code the status was made
/// with, and converts the `tonic::Code` with `i32::from`; the codes are
/// numbered from 0 to 16.
#[verifier::external_body]
fn grpc_status_code(status: &tonic::Status) -> (r: i32)
    ensures
        r == status_code(*status),
        0 <= r <= 16,
{
    i32::from(status.code())
}

/// The error for a failed status query whose status has the given code:
/// an unimplemented method means the device lacks the status API.
pub fn status_query_error_for(status: tonic::Status, code: i32) -> (r: Error)
    ensures
        code == UNIMPLEMENTED_CODE ==> r is ServiceStatusUnsupported,
        code != UNIMPLEMENTED_CODE ==> r == Error::GrpcStatus(status),
{
    if code == UNIMPLEMENTED_CODE {
        Error::ServiceStatusUnsupported
    } else {
        Error::GrpcStatus(status)
    }
}

/// The error for a failed status query: [`status_query_error_for`] applied
/// to the status's code.
pub fn status_query_error(status: tonic::Status) -> (r: Error)
    ensures
        status_code(status) == UNIMPLEMENTED_CODE ==> r is ServiceStatusUnsupported,
        status_code(status) != UNIMPLEMENTED_CODE ==> r == Error::GrpcStatus(status),
{
    let code = grpc_status_code(&status);
    status_query_error_for(status, code)
}

} // verus!
