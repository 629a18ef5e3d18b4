//! UDP over `RemoteSocks`: RFC 1928 associated datagrams and the `LazyCat`
//! length/IP/port stream framing used by the `0xe2` and `0xe3` commands.

use vstd::prelude::*;

use crate::net::{from_mapped_octets, is_ipv4_mapped, SocketAddress, SocketAddressView};
use crate::remotesocks::address::{
    be16, be16_value, spec_decode_prefix, spec_encode, spec_wire_length,
    SocksAddress, SocksAddressView,
};
use crate::Error;

verus! {

/// Largest UDP payload a `RemoteSocks` datagram carries.
pub const MAX_UDP_PAYLOAD: usize = 65_507;
/// Length of the `LazyCat` framed-UDP header: length, IPv6 octets, port.
pub const FRAMED_UDP_HEADER_LENGTH: usize = 20;
/// The `LazyCat` ConnectUDP command.
pub const CONNECT_UDP_COMMAND: u8 = 0xe2;
/// The `LazyCat` BindUDP command.
pub const BIND_UDP_COMMAND: u8 = 0xe3;

// ---------------------------------------------------------------------------
// Specification
// ---------------------------------------------------------------------------

/// An RFC 1928 UDP datagram: reserved bytes, fragment zero, address, payload.
pub open spec fn spec_associated_datagram(payload: Seq<u8>, target: SocksAddressView) -> Result<
    Seq<u8>,
    Error,
> {
    match spec_encode(target) {
        Err(e) => Err(e),
        Ok(address) => if 3 + address.len() + payload.len() > 65_507 {
            Err(Error::SocksUdpPayloadTooLarge)
        } else {
            Ok(seq![0u8, 0u8, 0u8] + address + payload)
        },
    }
}

/// The source address and payload of a received RFC 1928 UDP datagram.
pub open spec fn spec_parse_associated(packet: Seq<u8>) -> Result<(SocksAddressView, Seq<u8>), Error> {
    if packet.len() < 3 || packet[0] != 0 || packet[1] != 0 {
        Err(Error::InvalidSocksUdpHeader)
    } else if packet[2] != 0 {
        Err(Error::UnsupportedSocksUdpFragment { fragment: packet[2] })
    } else {
        match spec_decode_prefix(packet.subrange(3, packet.len() as int)) {
            Err(e) => Err(e),
            Ok((source, n)) => Ok((source, packet.subrange(3 + n as int, packet.len() as int))),
        }
    }
}

/// The `LazyCat` framed-UDP header: big-endian length, the target as
/// sixteen IPv6 octets (IPv4 mapped), big-endian port.
pub open spec fn spec_framed_header(length: u16, target: SocketAddressView) -> Seq<u8> {
    be16(length) + target.mapped_octets() + be16(target.port())
}

/// The payload length a framed-UDP header announces.
pub open spec fn spec_framed_length(header: Seq<u8>) -> nat {
    be16_value(header[0], header[1]) as nat
}

/// The source address a framed-UDP header carries.
pub open spec fn spec_framed_source(header: Seq<u8>) -> SocketAddressView {
    from_mapped_octets(header.subrange(2, 18), be16_value(header[18], header[19]))
}

/// What copying `source` into `old` gives: as many bytes as fit.
pub open spec fn copied_into(old: Seq<u8>, source: Seq<u8>, n: nat) -> Seq<u8> {
    source.subrange(0, n as int) + old.subrange(n as int, old.len() as int)
}

/// The smaller of two lengths.
pub open spec fn min_len(a: nat, b: nat) -> nat {
    if a <= b {
        a
    } else {
        b
    }
}

/// The concrete socket address a UDP frame can carry.
pub open spec fn spec_concrete_ip(address: SocksAddressView) -> Result<SocketAddressView, Error> {
    match address {
        SocksAddressView::Ip(a) => Ok(a),
        _ => Err(Error::InvalidSocksUdpAddress),
    }
}

/// The UDP target to use for `address`, given the first result of resolving
/// a domain locally.
pub open spec fn spec_udp_target(address: SocksAddressView, lookup: Option<SocketAddressView>) -> Result<
    SocksAddressView,
    Error,
> {
    match address {
        SocksAddressView::Ip(_) => Ok(address),
        SocksAddressView::Domain { .. } => match lookup {
            Some(a) => Ok(SocksAddressView::Ip(a)),
            None => Err(Error::InvalidSocksUdpAddress),
        },
        SocksAddressView::Custom { .. } => Err(Error::InvalidSocksUdpAddress),
    }
}

// ---------------------------------------------------------------------------
// Lemmas
// ---------------------------------------------------------------------------

/// An RFC 1928 datagram can be built exactly when the target encodes and
/// the whole frame (three header bytes, the address, the payload) fits in
/// one UDP datagram; the payload alone is never refused below that bound.
/// The frame starts with three zero bytes, then the encoded target, then
/// the payload unchanged; a refused frame is refused as too large only
/// when it is.
pub proof fn lemma_associated_datagram_fits(payload: Seq<u8>, target: SocksAddressView)
    ensures
        spec_associated_datagram(payload, target) is Ok <==> (spec_encode(target) matches Ok(a)
            && 3 + a.len() + payload.len() <= MAX_UDP_PAYLOAD),
        spec_associated_datagram(payload, target) matches Ok(frame) ==> (spec_encode(
            target,
        ) matches Ok(a) && frame.len() == 3 + a.len() + payload.len() && frame.subrange(0, 3)
            == seq![0u8, 0u8, 0u8] && frame.subrange(3, 3 + a.len() as int) == a && frame.subrange(
            3 + a.len() as int,
            frame.len() as int,
        ) == payload),
        spec_associated_datagram(payload, target) == Err::<Seq<u8>, Error>(
            Error::SocksUdpPayloadTooLarge,
        ) ==> (spec_encode(target) matches Ok(a) && 3 + a.len() + payload.len()
            > MAX_UDP_PAYLOAD),
{
    if let Ok(frame) = spec_associated_datagram(payload, target) {
        let a = spec_encode(target)->Ok_0;
        assert(frame.subrange(0, 3) =~= seq![0u8, 0u8, 0u8]);
        assert(frame.subrange(3, 3 + a.len() as int) =~= a);
        assert(frame.subrange(3 + a.len() as int, frame.len() as int) =~= payload);
    }
}

/// The UDP target of a numeric address is that address; a domain is used
/// as the address that resolving it gave, and refused only when resolving
/// gave none; a custom-network address is never a UDP target.
pub proof fn lemma_udp_target_law(address: SocksAddressView, lookup: Option<SocketAddressView>)
    ensures
        address is Ip ==> spec_udp_target(address, lookup) == Ok::<SocksAddressView, Error>(
            address,
        ),
        address is Domain ==> match lookup {
            Some(found) => spec_udp_target(address, lookup) == Ok::<SocksAddressView, Error>(
                SocksAddressView::Ip(found),
            ),
            None => spec_udp_target(address, lookup) == Err::<SocksAddressView, Error>(
                Error::InvalidSocksUdpAddress,
            ),
        },
        address is Custom ==> spec_udp_target(address, lookup) == Err::<SocksAddressView, Error>(
            Error::InvalidSocksUdpAddress,
        ),
        spec_udp_target(address, lookup) matches Ok(t) ==> t is Ip,
{
}

/// An encoded address announces its own length, whatever follows it.
proof fn lemma_wire_length_of_encoding(a: SocksAddressView, rest: Seq<u8>)
    requires
        spec_encode(a) is Ok,
        a.wf(),
    ensures
        spec_wire_length(spec_encode(a)->Ok_0 + rest) == Ok::<Option<nat>, Error>(
            Some(spec_encode(a)->Ok_0.len()),
        ),
{
    let e = spec_encode(a)->Ok_0;
    assert((e + rest)[0] == e[0]);
    if e[0] == 3 {
        assert((e + rest)[1] == e[1]);
    }
}

/// Framed-UDP headers decode to the length and target they were built from,
/// for targets that the frame can carry exactly: IPv4 addresses, and IPv6
/// addresses that are not IPv4-mapped and have no flow label or scope.
pub proof fn framed_header_round_trip(length: u16, target: SocketAddressView)
    requires
        target.wf(),
        match target {
            SocketAddressView::V4 { .. } => true,
            SocketAddressView::V6 { ip, flowinfo, scope_id, .. } => !is_ipv4_mapped(ip) && flowinfo
                == 0 && scope_id == 0,
        },
    ensures
        spec_framed_header(length, target).len() == 20,
        spec_framed_length(spec_framed_header(length, target)) == length,
        spec_framed_source(spec_framed_header(length, target)) == target,
{
    let h = spec_framed_header(length, target);
    assert(h.subrange(2, 18) =~= target.mapped_octets());
    match target {
        SocketAddressView::V4 { ip, port } => {
            let m = target.mapped_octets();
            assert(m.subrange(0, 10) =~= seq![0u8; 10]);
            assert(m.subrange(12, 16) =~= ip);
        },
        SocketAddressView::V6 { .. } => {},
    }
}

// ---------------------------------------------------------------------------
// Implementation
// ---------------------------------------------------------------------------

/// Copy as much of `source` as fits into `destination`, returning the number
/// of bytes copied.
pub fn copy_payload(destination: &mut [u8], source: &[u8]) -> (r: usize)
    ensures
        r == min_len(old(destination)@.len(), source@.len()),
        final(destination)@ == copied_into(old(destination)@, source@, r as nat),
{
    let copied = if destination.len() <= source.len() {
        destination.len()
    } else {
        source.len()
    };
    let mut i: usize = 0;
    while i < copied
        invariant
            i <= copied,
            copied == min_len(old(destination)@.len(), source@.len()),
            destination@.len() == old(destination)@.len(),
            forall|j: int| 0 <= j < i ==> destination@[j] == source@[j],
            forall|j: int| i <= j < destination@.len() ==> destination@[j] == old(destination)@[j],
        decreases copied - i,
    {
        destination[i] = source[i];
        i = i + 1;
    }
    assert(destination@ =~= copied_into(old(destination)@, source@, copied as nat));
    copied
}

/// Build the RFC 1928 UDP datagram that carries `payload` to `target`.
pub fn associated_datagram(payload: &[u8], target: &SocksAddress) -> (r: Result<Vec<u8>, Error>)
    ensures
        match r {
            Ok(frame) => spec_associated_datagram(payload@, target@) == Ok::<Seq<u8>, Error>(
                frame@,
            ),
            Err(e) => spec_associated_datagram(payload@, target@) == Err::<Seq<u8>, Error>(e),
        },
        r is Ok <==> (spec_encode(target@) matches Ok(a) && 3 + a.len() + payload@.len()
            <= MAX_UDP_PAYLOAD),
        r matches Ok(frame) ==> (spec_encode(target@) matches Ok(a) && frame@.len() == 3
            + a.len() + payload@.len() && frame@.subrange(0, 3) == seq![0u8, 0u8, 0u8]
            && frame@.subrange(3, 3 + a.len() as int) == a && frame@.subrange(
            3 + a.len() as int,
            frame@.len() as int,
        ) == payload@),
        r matches Err(Error::SocksUdpPayloadTooLarge) ==> (spec_encode(target@) matches Ok(a)
            && 3 + a.len() + payload@.len() > MAX_UDP_PAYLOAD),
        target@.wf() && target@.survives_wire() ==> match r {
            Ok(frame) => spec_parse_associated(frame@) == Ok::<(SocksAddressView, Seq<u8>), Error>(
                (target@, payload@),
            ),
            Err(e) => e == Error::SocksUdpPayloadTooLarge,
        },
{
    let address = target.encode()?;
    if address.len() > MAX_UDP_PAYLOAD || payload.len() > MAX_UDP_PAYLOAD - address.len() - 3 {
        return Err(Error::SocksUdpPayloadTooLarge);
    }
    let mut frame: Vec<u8> = Vec::with_capacity(3 + address.len() + payload.len());
    frame.push(0);
    frame.push(0);
    frame.push(0);
    crate::codec::append_bytes(&mut frame, address.as_slice());
    crate::codec::append_bytes(&mut frame, payload);
    proof {
        assert(frame@ =~= seq![0u8, 0u8, 0u8] + address@ + payload@);
        if target@.wf() && target@.survives_wire() {
            lemma_wire_length_of_encoding(target@, payload@);
            let rest = frame@.subrange(3, frame@.len() as int);
            assert(rest =~= address@ + payload@);
            assert(rest.subrange(0, address@.len() as int) =~= address@);
            assert(frame@.subrange(3 + address@.len() as int, frame@.len() as int) =~= payload@);
        }
    }
    Ok(frame)
}

/// Check that a payload fits in one `RemoteSocks` UDP datagram.
pub fn check_udp_payload(length: usize) -> (r: Result<(), Error>)
    ensures
        length <= MAX_UDP_PAYLOAD ==> r is Ok,
        length > MAX_UDP_PAYLOAD ==> r matches Err(Error::SocksUdpPayloadTooLarge),
{
    if length > MAX_UDP_PAYLOAD {
        Err(Error::SocksUdpPayloadTooLarge)
    } else {
        Ok(())
    }
}

/// What reading the RFC 1928 UDP datagram `packet` into a buffer that held
/// `before` and holds `after` once read gives: the datagram's source address
/// and the number of payload bytes copied, or the error that `packet`
/// carries.
pub open spec fn associated_read(
    packet: Seq<u8>,
    before: Seq<u8>,
    after: Seq<u8>,
    r: Result<(usize, SocksAddress), Error>,
) -> bool {
    match r {
        Ok((n, source)) => {
            &&& spec_parse_associated(packet) matches Ok((s, data))
            &&& s == source@
            &&& n == min_len(before.len(), data.len())
            &&& after == copied_into(before, data, n as nat)
        },
        Err(e) => spec_parse_associated(packet) == Err::<(SocksAddressView, Seq<u8>), Error>(e)
            && after == before,
    }
}

/// Read a received RFC 1928 UDP datagram: check its header, decode its
/// source address and copy its payload into `payload`.
pub fn read_associated_datagram(packet: &[u8], payload: &mut [u8]) -> (r: Result<
    (usize, SocksAddress),
    Error,
>)
    ensures
        associated_read(packet@, old(payload)@, final(payload)@, r),
{
    if packet.len() < 3 || packet[0] != 0 || packet[1] != 0 {
        return Err(Error::InvalidSocksUdpHeader);
    }
    if packet[2] != 0 {
        return Err(Error::UnsupportedSocksUdpFragment { fragment: packet[2] });
    }
    let body = &packet[3..packet.len()];
    let (source, consumed) = SocksAddress::decode_prefix(body)?;
    let datagram = &packet[3 + consumed..packet.len()];
    let copied = copy_payload(payload, datagram);
    Ok((copied, source))
}

/// Take a datagram that reached an RFC 1928 association from `source`.
/// Datagrams that another sender than the negotiated `relay` sent are
/// skipped (`None`, with `payload` untouched); one from the relay is read as
/// [`read_associated_datagram`] does.
pub fn receive_from_relay(
    source: &SocketAddress,
    relay: &SocketAddress,
    packet: &[u8],
    payload: &mut [u8],
) -> (r: Option<Result<(usize, SocksAddress), Error>>)
    ensures
        source@ != relay@ ==> r is None && final(payload)@ == old(payload)@,
        source@ == relay@ ==> (r matches Some(read) && associated_read(
            packet@,
            old(payload)@,
            final(payload)@,
            read,
        )),
{
    if *source == *relay {
        Some(read_associated_datagram(packet, payload))
    } else {
        None
    }
}

/// The concrete socket address that a framed UDP datagram can carry.
pub fn concrete_ip_address(address: &SocksAddress) -> (r: Result<SocketAddress, Error>)
    ensures
        match r {
            Ok(a) => spec_concrete_ip(address@) == Ok::<SocketAddressView, Error>(a@),
            Err(e) => spec_concrete_ip(address@) == Err::<SocketAddressView, Error>(e),
        },
{
    match address {
        SocksAddress::Ip(address) => Ok(*address),
        _ => Err(Error::InvalidSocksUdpAddress),
    }
}

/// The header of a `LazyCat` framed UDP datagram carrying `payload_length`
/// bytes to `target`.
pub fn framed_header(payload_length: usize, target: &SocksAddress) -> (r: Result<[u8; 20], Error>)
    ensures
        match target@ {
            SocksAddressView::Ip(a) => if payload_length > 65535 {
                r == Err::<[u8; 20], Error>(Error::SocksUdpPayloadTooLarge)
            } else {
                r matches Ok(h) && h@ == spec_framed_header(payload_length as u16, a)
            },
            _ => r == Err::<[u8; 20], Error>(Error::InvalidSocksUdpAddress),
        },
{
    let target = concrete_ip_address(target)?;
    if payload_length > 65535 {
        return Err(Error::SocksUdpPayloadTooLarge);
    }
    let length = payload_length as u16;
    let o = target.mapped_octets();
    let port = target.port();
    let h: [u8; 20] = [
        (length / 256) as u8, (length % 256) as u8,
        o[0], o[1], o[2], o[3], o[4], o[5], o[6], o[7],
        o[8], o[9], o[10], o[11], o[12], o[13], o[14], o[15],
        (port / 256) as u8, (port % 256) as u8,
    ];
    assert(h@ =~= spec_framed_header(length, target@));
    Ok(h)
}

/// The payload length a framed-UDP header announces.
pub fn framed_datagram_length(header: &[u8; 20]) -> (r: usize)
    ensures
        r == spec_framed_length(header@),
{
    (header[0] as usize) * 256 + (header[1] as usize)
}

/// Finish receiving a framed UDP datagram: reject an oversized one, decode
/// the source from the header and copy the datagram into `payload`.
pub fn receive_framed(header: &[u8; 20], datagram: &[u8], payload: &mut [u8]) -> (r: Result<
    (usize, SocksAddress),
    Error,
>)
    requires
        datagram@.len() == spec_framed_length(header@),
    ensures
        match r {
            Ok((n, source)) => {
                &&& datagram@.len() <= MAX_UDP_PAYLOAD
                &&& source@ == SocksAddressView::Ip(spec_framed_source(header@))
                &&& n == min_len(old(payload)@.len(), datagram@.len())
                &&& final(payload)@ == copied_into(old(payload)@, datagram@, n as nat)
            },
            Err(e) => datagram@.len() > MAX_UDP_PAYLOAD && e == Error::SocksUdpPayloadTooLarge
                && final(payload)@ == old(payload)@,
        },
{
    if datagram.len() > MAX_UDP_PAYLOAD {
        return Err(Error::SocksUdpPayloadTooLarge);
    }
    let octets: [u8; 16] = [
        header[2], header[3], header[4], header[5], header[6], header[7], header[8], header[9],
        header[10], header[11], header[12], header[13], header[14], header[15], header[16],
        header[17],
    ];
    assert(octets@ =~= header@.subrange(2, 18));
    let port = (header[18] as u16) * 256 + (header[19] as u16);
    let source = SocketAddress::from_mapped_octets(octets, port);
    let copied = copy_payload(payload, datagram);
    Ok((copied, SocksAddress::Ip(source)))
}

/// The lookup result as a model.
pub open spec fn lookup_view(lookup: Option<SocketAddress>) -> Option<SocketAddressView> {
    match lookup {
        Some(l) => Some(l@),
        None => None,
    }
}

/// The concrete socket address of `address`: a numeric address as it is, a
/// domain as the first address that resolving it locally gave (`lookup`);
/// custom-network addresses have none.
pub fn resolve_socket_address(address: &SocksAddress, lookup: Option<SocketAddress>) -> (r: Result<
    SocketAddress,
    Error,
>)
    ensures
        match r {
            Ok(a) => spec_udp_target(address@, lookup_view(lookup)) == Ok::<SocksAddressView, Error>(
                SocksAddressView::Ip(a@),
            ),
            Err(e) => spec_udp_target(address@, lookup_view(lookup)) == Err::<SocksAddressView, Error>(e),
        },
        address@ matches SocksAddressView::Ip(a) ==> (r matches Ok(x) && x@ == a),
        address@ is Domain ==> match lookup {
            Some(found) => r matches Ok(x) && x@ == found@,
            None => r matches Err(Error::InvalidSocksUdpAddress),
        },
        address@ is Custom ==> r matches Err(Error::InvalidSocksUdpAddress),
{
    match address {
        SocksAddress::Ip(address) => Ok(*address),
        SocksAddress::Domain { .. } => match lookup {
            Some(resolved) => Ok(resolved),
            None => Err(Error::InvalidSocksUdpAddress),
        },
        SocksAddress::Custom { .. } => Err(Error::InvalidSocksUdpAddress),
    }
}

/// The UDP target to use for `address`: numeric addresses as they are, a
/// domain as the first address that resolving it locally gave (`lookup`);
/// custom-network addresses have none.
pub fn resolve_udp_target(address: SocksAddress, lookup: Option<SocketAddress>) -> (r: Result<
    SocksAddress,
    Error,
>)
    ensures
        match r {
            Ok(a) => spec_udp_target(address@, lookup_view(lookup)) == Ok::<SocksAddressView, Error>(a@),
            Err(e) => spec_udp_target(address@, lookup_view(lookup)) == Err::<SocksAddressView, Error>(e),
        },
        address@ is Ip ==> (r matches Ok(x) && x@ == address@),
        address@ is Domain ==> match lookup {
            Some(found) => r matches Ok(x) && x@ == SocksAddressView::Ip(found@),
            None => r matches Err(Error::InvalidSocksUdpAddress),
        },
        address@ is Custom ==> r matches Err(Error::InvalidSocksUdpAddress),
{
    let resolved = resolve_socket_address(&address, lookup)?;
    Ok(SocksAddress::Ip(resolved))
}

/// The unspecified local address of the same family as `address`, port zero.
pub fn unspecified_for(address: &SocketAddress) -> (r: SocketAddress)
    ensures
        r@ == address@.unspecified(),
{
    match address {
        SocketAddress::V4 { .. } => {
            let r = SocketAddress::V4 { ip: [0, 0, 0, 0], port: 0 };
            assert(r@ =~= address@.unspecified());
            r
        },
        SocketAddress::V6 { .. } => {
            let r = SocketAddress::V6 { ip: [0; 16], port: 0, flowinfo: 0, scope_id: 0 };
            assert(r@ =~= address@.unspecified());
            r
        },
    }
}

} // verus!
