use vstd::prelude::*;

verus! {

/// An IPv4 or IPv6 socket address, as the wire formats carry it.
///
/// The IPv6 form keeps the flow label and scope identifier that a textual
/// address such as `[fe80::1%2]:80` can carry; the SOCKS wire format does not.
#[derive(Clone, Copy, Debug, Hash)]
#[allow(inconsistent_fields)]
pub enum SocketAddress {
    /// IPv4 octets and port.
    V4 { ip: [u8; 4], port: u16 },
    /// IPv6 octets, port, flow label and scope identifier.
    V6 { ip: [u8; 16], port: u16, flowinfo: u32, scope_id: u32 },
}

/// Mathematical model of a [`SocketAddress`]: the octets as a sequence.
#[verifier::ext_equal]
#[allow(inconsistent_fields)]
pub enum SocketAddressView {
    V4 { ip: Seq<u8>, port: u16 },
    V6 { ip: Seq<u8>, port: u16, flowinfo: u32, scope_id: u32 },
}

impl View for SocketAddress {
    type V = SocketAddressView;

    open spec fn view(&self) -> SocketAddressView {
        match *self {
            SocketAddress::V4 { ip, port } => SocketAddressView::V4 { ip: ip@, port },
            SocketAddress::V6 { ip, port, flowinfo, scope_id } => SocketAddressView::V6 {
                ip: ip@,
                port,
                flowinfo,
                scope_id,
            },
        }
    }
}

impl SocketAddressView {
    /// The destination port.
    pub open spec fn port(self) -> u16 {
        match self {
            SocketAddressView::V4 { port, .. } => port,
            SocketAddressView::V6 { port, .. } => port,
        }
    }

    /// Well-formed: four octets for IPv4, sixteen for IPv6.
    pub open spec fn wf(self) -> bool {
        match self {
            SocketAddressView::V4 { ip, .. } => ip.len() == 4,
            SocketAddressView::V6 { ip, .. } => ip.len() == 16,
        }
    }

    /// The unspecified address of the same family with port zero.
    pub open spec fn unspecified(self) -> SocketAddressView {
        match self {
            SocketAddressView::V4 { .. } => SocketAddressView::V4 { ip: seq![0u8; 4], port: 0 },
            SocketAddressView::V6 { .. } => SocketAddressView::V6 {
                ip: seq![0u8; 16],
                port: 0,
                flowinfo: 0,
                scope_id: 0,
            },
        }
    }

    /// The sixteen IPv6 octets of this address; IPv4 addresses are mapped to
    /// `::ffff:a.b.c.d`.
    pub open spec fn mapped_octets(self) -> Seq<u8> {
        match self {
            SocketAddressView::V4 { ip, .. } => seq![0u8; 10] + seq![0xffu8, 0xffu8] + ip,
            SocketAddressView::V6 { ip, .. } => ip,
        }
    }
}

/// Whether sixteen octets hold an IPv4-mapped IPv6 address (`::ffff:a.b.c.d`).
pub open spec fn is_ipv4_mapped(octets: Seq<u8>) -> bool {
    &&& octets.len() == 16
    &&& octets.subrange(0, 10) == seq![0u8; 10]
    &&& octets[10] == 0xff
    &&& octets[11] == 0xff
}

/// The socket address that sixteen octets and a port denote, where an
/// IPv4-mapped IPv6 address stands for the IPv4 address it maps.
pub open spec fn from_mapped_octets(octets: Seq<u8>, port: u16) -> SocketAddressView {
    if is_ipv4_mapped(octets) {
        SocketAddressView::V4 { ip: octets.subrange(12, 16), port }
    } else {
        SocketAddressView::V6 { ip: octets, port, flowinfo: 0, scope_id: 0 }
    }
}

fn bytes_equal<const N: usize>(a: &[u8; N], b: &[u8; N]) -> (r: bool)
    ensures
        r == (a@ == b@),
{
    let mut i: usize = 0;
    while i < N
        invariant
            i <= N,
            a@.len() == N,
            b@.len() == N,
            forall|j: int| 0 <= j < i ==> a@[j] == b@[j],
        decreases N - i,
    {
        if a[i] != b[i] {
            return false;
        }
        i = i + 1;
    }
    assert(a@ =~= b@);
    true
}

impl PartialEq for SocketAddress {
    fn eq(&self, other: &Self) -> (r: bool) {
        match (self, other) {
            (SocketAddress::V4 { ip: a, port: p }, SocketAddress::V4 { ip: b, port: q }) => {
                *p == *q && bytes_equal(a, b)
            },
            (
                SocketAddress::V6 { ip: a, port: p, flowinfo: f, scope_id: s },
                SocketAddress::V6 { ip: b, port: q, flowinfo: g, scope_id: t },
            ) => *p == *q && *f == *g && *s == *t && bytes_equal(a, b),
            _ => false,
        }
    }
}

impl vstd::std_specs::cmp::PartialEqSpecImpl for SocketAddress {
    open spec fn obeys_eq_spec() -> bool {
        true
    }

    open spec fn eq_spec(&self, other: &SocketAddress) -> bool {
        self@ == other@
    }
}

impl Eq for SocketAddress {}

impl SocketAddress {
    /// An IPv4 socket address.
    pub fn v4(ip: [u8; 4], port: u16) -> (r: SocketAddress)
        ensures
            r@ == (SocketAddressView::V4 { ip: ip@, port }),
    {
        SocketAddress::V4 { ip, port }
    }

    /// An IPv6 socket address with no flow label and no scope.
    pub fn v6(ip: [u8; 16], port: u16) -> (r: SocketAddress)
        ensures
            r@ == (SocketAddressView::V6 { ip: ip@, port, flowinfo: 0, scope_id: 0 }),
    {
        SocketAddress::V6 { ip, port, flowinfo: 0, scope_id: 0 }
    }

    /// The destination port.
    pub fn port(&self) -> (r: u16)
        ensures
            r == self@.port(),
    {
        match self {
            SocketAddress::V4 { port, .. } => *port,
            SocketAddress::V6 { port, .. } => *port,
        }
    }

    /// The sixteen IPv6 octets of this address, mapping IPv4 to `::ffff:a.b.c.d`.
    pub fn mapped_octets(&self) -> (r: [u8; 16])
        ensures
            r@ == self@.mapped_octets(),
    {
        match self {
            SocketAddress::V4 { ip, .. } => {
                let r = [0, 0, 0, 0, 0, 0, 0, 0, 0, 0, 0xff, 0xff, ip[0], ip[1], ip[2], ip[3]];
                assert(r@ =~= self@.mapped_octets());
                r
            },
            SocketAddress::V6 { ip, .. } => *ip,
        }
    }

    /// The socket address that sixteen octets and a port denote, where an
    /// IPv4-mapped IPv6 address stands for the IPv4 address it maps.
    pub fn from_mapped_octets(octets: [u8; 16], port: u16) -> (r: SocketAddress)
        ensures
            r@ == from_mapped_octets(octets@, port),
    {
        if octets_are_ipv4_mapped(&octets) {
            let r = SocketAddress::V4 { ip: [octets[12], octets[13], octets[14], octets[15]], port };
            assert(r@ == from_mapped_octets(octets@, port)) by {
                if let SocketAddress::V4 { ip, .. } = r {
                    assert(ip@ =~= octets@.subrange(12, 16));
                }
            }
            r
        } else {
            SocketAddress::V6 { ip: octets, port, flowinfo: 0, scope_id: 0 }
        }
    }
}

/// Whether sixteen octets hold an IPv4-mapped IPv6 address.
pub fn octets_are_ipv4_mapped(octets: &[u8; 16]) -> (r: bool)
    ensures
        r == is_ipv4_mapped(octets@),
{
    let mut prefix_zero = true;
    let mut i: usize = 0;
    while i < 10
        invariant
            i <= 10,
            octets@.len() == 16,
            prefix_zero == (forall|j: int| 0 <= j < i ==> octets@[j] == 0),
        decreases 10 - i,
    {
        if octets[i] != 0 {
            prefix_zero = false;
        }
        i = i + 1;
    }
    if prefix_zero && octets[10] == 0xff && octets[11] == 0xff {
        assert(octets@.subrange(0, 10) =~= seq![0u8; 10]);
        true
    } else {
        proof {
            if !prefix_zero {
                let j = choose|j: int| 0 <= j < 10 && octets@[j] != 0;
                assert(octets@.subrange(0, 10)[j] != 0);
                assert(octets@.subrange(0, 10) != seq![0u8; 10]);
            }
        }
        false
    }
}

} // verus!
