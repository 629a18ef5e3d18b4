//! RFC 1928 SOCKS addresses and `LazyCat` custom-network addresses.

use vstd::prelude::*;
use vstd::utf8::*;

use vstd::string::{StrSliceExecFns, StringExecFns};

use crate::codec::{
    append_bytes, base64_decode, base64_encode, base64_no_pad_decode, base64_no_pad_encode,
    bytes_end_with, char_is_control, char_is_whitespace, ends_with, is_base64_char, is_control,
    is_white_space, lemma_encode_utf8_ascii, lemma_encode_utf8_concat, utf8_str,
};
use crate::net::{SocketAddress, SocketAddressView};
use crate::net_text::{decimal_string, decimal_text, digit_char, socket_text};
use crate::Error;

verus! {

broadcast use vstd::string::group_string_axioms;

const IPV4_ADDRESS: u8 = 0x01;
const DOMAIN_ADDRESS: u8 = 0x03;
const IPV6_ADDRESS: u8 = 0x04;

/// An RFC 1928 SOCKS address or `LazyCat` custom-network address.
#[derive(Clone, Debug, Hash)]
pub enum SocksAddress {
    /// Numeric IPv4 or IPv6 socket address.
    Ip(SocketAddress),
    /// Domain name and port resolved by the SOCKS server.
    Domain {
        /// Domain name carried on the wire without DNS resolution.
        host: String,
        /// Destination port.
        port: u16,
    },
    /// `LazyCat` custom network encoded into the SOCKS domain field.
    Custom {
        /// Custom network identifier, such as `unix`.
        network: String,
        /// Address interpreted by the custom network implementation.
        address: String,
    },
}

/// Mathematical model of a [`SocksAddress`]: strings as character sequences.
#[verifier::ext_equal]
pub enum SocksAddressView {
    Ip(SocketAddressView),
    Domain { host: Seq<char>, port: u16 },
    Custom { network: Seq<char>, address: Seq<char> },
}

impl View for SocksAddress {
    type V = SocksAddressView;

    open spec fn view(&self) -> SocksAddressView {
        match self {
            SocksAddress::Ip(a) => SocksAddressView::Ip(a@),
            SocksAddress::Domain { host, port } => SocksAddressView::Domain { host: host@, port: *port },
            SocksAddress::Custom { network, address } => SocksAddressView::Custom {
                network: network@,
                address: address@,
            },
        }
    }
}

// ---------------------------------------------------------------------------
// Specification
// ---------------------------------------------------------------------------

/// Big-endian bytes of a port.
pub open spec fn be16(port: u16) -> Seq<u8> {
    seq![(port / 256) as u8, (port % 256) as u8]
}

/// The port that two big-endian bytes denote.
pub open spec fn be16_value(hi: u8, lo: u8) -> u16 {
    (hi as int * 256 + lo as int) as u16
}

/// The characters `.custom`.
pub open spec fn custom_suffix() -> Seq<char> {
    seq!['.', 'c', 'u', 's', 't', 'o', 'm']
}

/// The UTF-8 bytes of `.custom`.
pub open spec fn custom_suffix_bytes() -> Seq<u8> {
    seq![0x2eu8, 0x63u8, 0x75u8, 0x73u8, 0x74u8, 0x6fu8, 0x6du8]
}

/// A string that fits the one-byte SOCKS length field: non-empty, at most
/// 255 bytes.
pub open spec fn wire_length_check(len: nat) -> Result<(), Error> {
    if len == 0 {
        Err(Error::InvalidSocksAddress)
    } else if len > 255 {
        Err(Error::SocksAddressTooLong)
    } else {
        Ok(())
    }
}

/// A character that may appear in a SOCKS domain host.
pub open spec fn host_char_ok(c: char) -> bool {
    c != ':' && !is_white_space(c) && !is_control(c)
}

/// What [`SocksAddress::domain`] gives for `host` and `port`.
pub open spec fn domain_result(host: Seq<char>, port: u16) -> Result<SocksAddressView, Error> {
    match wire_length_check(encode_utf8(host).len()) {
        Err(e) => Err(e),
        Ok(_) => if forall|i: int| 0 <= i < host.len() ==> host_char_ok(#[trigger] host[i]) {
            Ok(SocksAddressView::Domain { host, port })
        } else {
            Err(Error::InvalidSocksAddress)
        },
    }
}

/// The domain text that carries a custom-network address:
/// `base64(network).base64(address).custom`, unpadded standard base64.
pub open spec fn custom_text(network: Seq<char>, address: Seq<char>) -> Seq<char> {
    base64_no_pad_encode(encode_utf8(network)) + seq!['.'] + base64_no_pad_encode(
        encode_utf8(address),
    ) + custom_suffix()
}

/// What [`SocksAddress::custom`] gives for `network` and `address`.
pub open spec fn custom_result(network: Seq<char>, address: Seq<char>) -> Result<
    SocksAddressView,
    Error,
> {
    if network.len() == 0 {
        Err(Error::InvalidSocksAddress)
    } else if encode_utf8(network).len() > 255 || encode_utf8(address).len() > 255 {
        Err(Error::SocksAddressTooLong)
    } else {
        match wire_length_check(encode_utf8(custom_text(network, address)).len()) {
            Err(e) => Err(e),
            Ok(_) => Ok(SocksAddressView::Custom { network, address }),
        }
    }
}

/// The RFC 1928 domain encoding `0x03, len, domain, port`.
pub open spec fn encode_domain_bytes(domain: Seq<u8>, port: u16) -> Result<Seq<u8>, Error> {
    match wire_length_check(domain.len()) {
        Err(e) => Err(e),
        Ok(_) => Ok(seq![3u8, domain.len() as u8] + domain + be16(port)),
    }
}

/// The wire encoding of an address, or the error that encoding reports.
pub open spec fn spec_encode(a: SocksAddressView) -> Result<Seq<u8>, Error> {
    match a {
        SocksAddressView::Ip(SocketAddressView::V4 { ip, port }) => Ok(
            seq![1u8] + ip + be16(port),
        ),
        SocksAddressView::Ip(SocketAddressView::V6 { ip, port, .. }) => Ok(
            seq![4u8] + ip + be16(port),
        ),
        SocksAddressView::Domain { host, port } => encode_domain_bytes(encode_utf8(host), port),
        SocksAddressView::Custom { network, address } => if encode_utf8(network).len() > 255
            || encode_utf8(address).len() > 255 {
            Err(Error::SocksAddressTooLong)
        } else {
            encode_domain_bytes(encode_utf8(custom_text(network, address)), 0)
        },
    }
}

/// The two fields of a custom domain with its `.custom` suffix removed:
/// the text must hold exactly one `.`, with a non-empty network before it.
pub open spec fn split_custom(stripped: Seq<u8>) -> Option<(Seq<u8>, Seq<u8>)> {
    if exists|k: int|
        0 < k < stripped.len() && stripped[k] == 0x2e && (forall|j: int|
            0 <= j < stripped.len() && j != k ==> stripped[j] != 0x2e) {
        let k = choose|k: int|
            0 < k < stripped.len() && stripped[k] == 0x2e && (forall|j: int|
                0 <= j < stripped.len() && j != k ==> stripped[j] != 0x2e);
        Some((stripped.subrange(0, k), stripped.subrange(k + 1, stripped.len() as int)))
    } else {
        None
    }
}

/// What decoding a custom domain (the host bytes, ending in `.custom`)
/// yields: the network and address texts.
pub open spec fn decode_custom_domain_spec(domain: Seq<u8>) -> Result<(Seq<char>, Seq<char>), Error> {
    let stripped = domain.subrange(0, domain.len() - 7);
    match split_custom(stripped) {
        None => Err(Error::InvalidSocksAddress),
        Some((n, a)) => match (base64_no_pad_decode(n), base64_no_pad_decode(a)) {
            (Some(nb), Some(ab)) => if valid_utf8(nb) && valid_utf8(ab) {
                Ok((decode_utf8(nb), decode_utf8(ab)))
            } else {
                Err(Error::InvalidSocksAddress)
            },
            _ => Err(Error::InvalidSocksAddress),
        },
    }
}

/// What decoding the part of an encoded address after the domain type byte
/// yields.
pub open spec fn decode_domain_spec(r: Seq<u8>) -> Result<SocksAddressView, Error> {
    if r.len() == 0 {
        Err(Error::InvalidSocksAddress)
    } else {
        let n = r[0] as int;
        if n == 0 || r.len() != n + 3 {
            Err(Error::InvalidSocksAddress)
        } else {
            let host = r.subrange(1, n + 1);
            let port = be16_value(r[n + 1], r[n + 2]);
            if !valid_utf8(host) {
                Err(Error::InvalidSocksAddress)
            } else if port == 0 && ends_with(host, custom_suffix_bytes()) {
                match decode_custom_domain_spec(host) {
                    Err(e) => Err(e),
                    Ok((network, address)) => custom_result(network, address),
                }
            } else {
                domain_result(decode_utf8(host), port)
            }
        }
    }
}

/// The address that exactly the bytes `e` encode, or the error decoding reports.
pub open spec fn spec_decode(e: Seq<u8>) -> Result<SocksAddressView, Error> {
    if e.len() == 0 {
        Err(Error::InvalidSocksAddress)
    } else if e[0] == 1 {
        if e.len() != 7 {
            Err(Error::InvalidSocksAddress)
        } else {
            Ok(SocksAddressView::Ip(SocketAddressView::V4 { ip: e.subrange(1, 5), port: be16_value(e[5], e[6]) }))
        }
    } else if e[0] == 4 {
        if e.len() != 19 {
            Err(Error::InvalidSocksAddress)
        } else {
            Ok(SocksAddressView::Ip(SocketAddressView::V6 {
                ip: e.subrange(1, 17),
                port: be16_value(e[17], e[18]),
                flowinfo: 0,
                scope_id: 0,
            }))
        }
    } else if e[0] == 3 {
        decode_domain_spec(e.subrange(1, e.len() as int))
    } else {
        Err(Error::UnsupportedSocksAddressType { address_type: e[0] })
    }
}

/// How many bytes the encoded address starting with `prefix` occupies:
/// `None` while the prefix is too short to tell (no type byte yet, or a
/// domain without its length byte).
pub open spec fn spec_wire_length(prefix: Seq<u8>) -> Result<Option<nat>, Error> {
    if prefix.len() == 0 {
        Ok(None)
    } else if prefix[0] == 1 {
        Ok(Some(7))
    } else if prefix[0] == 4 {
        Ok(Some(19))
    } else if prefix[0] == 3 {
        if prefix.len() < 2 {
            Ok(None)
        } else {
            Ok(Some(prefix[1] as nat + 4))
        }
    } else {
        Err(Error::UnsupportedSocksAddressType { address_type: prefix[0] })
    }
}

/// The address at the front of `bytes` and the number of bytes it occupies.
pub open spec fn spec_decode_prefix(bytes: Seq<u8>) -> Result<(SocksAddressView, nat), Error> {
    match spec_wire_length(bytes) {
        Err(e) => Err(e),
        Ok(None) => Err(Error::InvalidSocksAddress),
        Ok(Some(n)) => if n > bytes.len() {
            Err(Error::InvalidSocksAddress)
        } else {
            match spec_decode(bytes.subrange(0, n as int)) {
                Ok(a) => Ok((a, n)),
                Err(e) => Err(e),
            }
        },
    }
}

/// The value of a decimal port text: an optional `+` and one or more ASCII
/// digits, at most 65535.
pub open spec fn port_text_value(text: Seq<char>) -> Option<u16> {
    let digits = port_digits(text);
    if digits.len() > 0 && all_digits(digits) && decimal_value(digits) <= 65535 {
        Some(decimal_value(digits) as u16)
    } else {
        None
    }
}

/// The digits of a port text: the text without one leading `+`.
pub open spec fn port_digits(text: Seq<char>) -> Seq<char> {
    if text.len() > 0 && text[0] == '+' {
        text.subrange(1, text.len() as int)
    } else {
        text
    }
}

/// The number that decimal digits denote.
pub open spec fn decimal_value(digits: Seq<char>) -> nat
    decreases digits.len(),
{
    if digits.len() == 0 {
        0
    } else {
        decimal_value(digits.drop_last()) * 10 + (digits.last() as nat - '0' as nat) as nat
    }
}

/// What parsing `text` as `host:port` yields when it is not a numeric socket
/// address: split at the last `:`, reject an empty or bracketed host, parse
/// the port, and build a domain address.
pub open spec fn parse_domain_text(text: Seq<char>) -> Result<SocksAddressView, Error> {
    if exists|k: int| 0 <= k < text.len() && text[k] == ':' {
        let k = choose|k: int|
            0 <= k < text.len() && text[k] == ':' && (forall|j: int| k < j < text.len() ==> text[j] != ':');
        let host = text.subrange(0, k);
        let port = text.subrange(k + 1, text.len() as int);
        if host.len() == 0 || host[0] == '[' || host.last() == ']' {
            Err(Error::InvalidSocksAddress)
        } else {
            match port_text_value(port) {
                None => Err(Error::InvalidSocksAddress),
                Some(p) => domain_result(host, p),
            }
        }
    } else {
        Err(Error::InvalidSocksAddress)
    }
}

impl SocksAddressView {
    /// A value one of the constructors accepts.
    pub open spec fn wf(self) -> bool {
        match self {
            SocksAddressView::Ip(a) => a.wf(),
            SocksAddressView::Domain { host, port } => domain_result(host, port).is_ok(),
            SocksAddressView::Custom { network, address } => custom_result(network, address).is_ok(),
        }
    }

    /// The addresses that decoding gives back exactly: all but IPv6 addresses
    /// with a flow label or scope (which the wire does not carry) and domains
    /// ending in `.custom` with port zero (which decoding reads as custom).
    pub open spec fn survives_wire(self) -> bool {
        match self {
            SocksAddressView::Ip(SocketAddressView::V6 { flowinfo, scope_id, .. }) => flowinfo == 0
                && scope_id == 0,
            SocksAddressView::Domain { host, port } => !(port == 0 && ends_with(
                encode_utf8(host),
                custom_suffix_bytes(),
            )),
            _ => true,
        }
    }

    /// The network name: the custom network, or `socks5`.
    pub open spec fn network(self) -> Seq<char> {
        match self {
            SocksAddressView::Custom { network, .. } => network,
            _ => seq!['s', 'o', 'c', 'k', 's', '5'],
        }
    }

    /// The destination port; zero for custom-network addresses.
    pub open spec fn port(self) -> u16 {
        match self {
            SocksAddressView::Ip(a) => a.port(),
            SocksAddressView::Domain { port, .. } => port,
            SocksAddressView::Custom { .. } => 0,
        }
    }
}

/// A result of this crate related to its model.
pub open spec fn address_result_is(r: Result<SocksAddress, Error>, s: Result<SocksAddressView, Error>) -> bool {
    match r {
        Ok(a) => s == Ok::<SocksAddressView, Error>(a@),
        Err(e) => s == Err::<SocksAddressView, Error>(e),
    }
}

/// Encoded bytes of this crate related to their model.
pub open spec fn bytes_result_is(r: Result<Vec<u8>, Error>, s: Result<Seq<u8>, Error>) -> bool {
    match r {
        Ok(v) => s == Ok::<Seq<u8>, Error>(v@),
        Err(e) => s == Err::<Seq<u8>, Error>(e),
    }
}

// ---------------------------------------------------------------------------
// Implementation
// ---------------------------------------------------------------------------

/// Check that a string fits the one-byte SOCKS length field.
pub fn validate_wire_string(value: &str) -> (r: Result<(), Error>)
    ensures
        r == wire_length_check(encode_utf8(value@).len()),
{
    let length = value.as_bytes().len();
    if length == 0 {
        return Err(Error::InvalidSocksAddress);
    }
    if length > 255 {
        return Err(Error::SocksAddressTooLong);
    }
    Ok(())
}

/// Big-endian bytes of a port.
fn port_bytes(port: u16) -> (r: [u8; 2])
    ensures
        r@ == be16(port),
{
    let r = [(port / 256) as u8, (port % 256) as u8];
    assert(r@ =~= be16(port));
    r
}

/// The port that two big-endian bytes denote.
fn port_value(hi: u8, lo: u8) -> (r: u16)
    ensures
        r == be16_value(hi, lo),
        be16(r) == seq![hi, lo],
{
    let r = (hi as u16) * 256 + (lo as u16);
    assert(be16(r) =~= seq![hi, lo]);
    r
}

proof fn lemma_port_round_trip(port: u16)
    ensures
        be16_value(be16(port)[0], be16(port)[1]) == port,
{
}

/// Whether every character of `host` may appear in a SOCKS domain host.
fn host_chars_ok(host: &str) -> (r: bool)
    ensures
        r == (forall|i: int| 0 <= i < host@.len() ==> host_char_ok(#[trigger] host@[i])),
{
    let n = host.unicode_len();
    let mut i: usize = 0;
    while i < n
        invariant
            n == host@.len(),
            i <= n,
            forall|j: int| 0 <= j < i ==> host_char_ok(#[trigger] host@[j]),
        decreases n - i,
    {
        let c = host.get_char(i);
        if c == ':' || char_is_whitespace(c) || char_is_control(c) {
            assert(!host_char_ok(host@[i as int]));
            return false;
        }
        i = i + 1;
    }
    true
}

/// Append the RFC 1928 domain encoding of `domain` and `port`.
fn encode_domain(encoded: &mut Vec<u8>, domain: &str, port: u16) -> (r: Result<(), Error>)
    ensures
        match r {
            Ok(_) => encode_domain_bytes(encode_utf8(domain@), port) == Ok::<Seq<u8>, Error>(
                final(encoded)@.subrange(old(encoded)@.len() as int, final(encoded)@.len() as int),
            ) && final(encoded)@.subrange(0, old(encoded)@.len() as int) == old(encoded)@,
            Err(e) => encode_domain_bytes(encode_utf8(domain@), port) == Err::<Seq<u8>, Error>(e),
        },
{
    validate_wire_string(domain)?;
    let bytes = domain.as_bytes();
    let ghost before = encoded@;
    encoded.push(DOMAIN_ADDRESS);
    encoded.push(bytes.len() as u8);
    append_bytes(encoded, bytes);
    let port_be = port_bytes(port);
    append_bytes(encoded, &port_be);
    assert(encoded@.subrange(before.len() as int, encoded@.len() as int) =~= seq![3u8, bytes@.len() as u8] + bytes@ + be16(port));
    assert(encoded@.subrange(0, before.len() as int) =~= before);
    Ok(())
}

/// What the unpadded base64 encoder is known to give for the fields of a
/// custom address: standard-alphabet text of `ceil(4n/3)` characters that
/// decodes back to the field's bytes.
pub open spec fn base64_field_facts(field: Seq<char>) -> bool {
    let text = base64_no_pad_encode(encode_utf8(field));
    &&& text.len() == (4 * encode_utf8(field).len() + 2) / 3
    &&& forall|i: int| 0 <= i < text.len() ==> is_base64_char(#[trigger] text[i])
    &&& base64_no_pad_decode(encode_utf8(text)) == Some(encode_utf8(field))
}

proof fn lemma_domain_round_trip(host: Seq<char>, port: u16)
    requires
        domain_result(host, port).is_ok(),
        !(port == 0 && ends_with(encode_utf8(host), custom_suffix_bytes())),
    ensures
        spec_encode(SocksAddressView::Domain { host, port }) matches Ok(b) && spec_decode(b) == Ok::<
            SocksAddressView,
            Error,
        >(SocksAddressView::Domain { host, port }),
{
    let hb = encode_utf8(host);
    let n = hb.len();
    let b = seq![3u8, n as u8] + hb + be16(port);
    assert(spec_encode(SocksAddressView::Domain { host, port }) == Ok::<Seq<u8>, Error>(b));
    let r = b.subrange(1, b.len() as int);
    assert(r =~= seq![n as u8] + hb + be16(port));
    assert(r.subrange(1, n as int + 1) =~= hb);
    encode_utf8_valid_utf8(host);
    encode_utf8_decode_utf8(host);
    lemma_port_round_trip(port);
}

/// Whether the bytes of a base64 text hold no `.`.
proof fn lemma_base64_bytes(text: Seq<char>)
    requires
        forall|i: int| 0 <= i < text.len() ==> is_base64_char(#[trigger] text[i]),
    ensures
        encode_utf8(text).len() == text.len(),
        forall|i: int| 0 <= i < text.len() ==> #[trigger] encode_utf8(text)[i] != 0x2e,
{
    assert(is_ascii_chars(text)) by {
        assert forall|i: int| 0 <= i < text.len() implies '\0' <= #[trigger] text[i] <= '\u{7f}' by {
            assert(is_base64_char(text[i]));
        }
    }
    lemma_encode_utf8_ascii(text);
    assert forall|i: int| 0 <= i < text.len() implies #[trigger] encode_utf8(text)[i] != 0x2e by {
        assert(is_base64_char(text[i]));
        assert(encode_utf8(text)[i] == text[i] as u8);
    }
}

/// The bytes of a custom text: the two base64 fields around a `.`, then `.custom`.
proof fn lemma_custom_text_bytes(network: Seq<char>, address: Seq<char>)
    ensures
        encode_utf8(custom_text(network, address)) == encode_utf8(
            base64_no_pad_encode(encode_utf8(network)),
        ) + seq![0x2eu8] + encode_utf8(base64_no_pad_encode(encode_utf8(address)))
            + custom_suffix_bytes(),
{
    let bn = base64_no_pad_encode(encode_utf8(network));
    let ba = base64_no_pad_encode(encode_utf8(address));
    lemma_encode_utf8_concat(bn + seq!['.'] + ba, custom_suffix());
    lemma_encode_utf8_concat(bn + seq!['.'], ba);
    lemma_encode_utf8_concat(bn, seq!['.']);
    assert(encode_utf8(seq!['.']) =~= seq![0x2eu8]) by {
        lemma_encode_utf8_ascii(seq!['.']);
    }
    assert(encode_utf8(custom_suffix()) =~= custom_suffix_bytes()) by {
        lemma_encode_utf8_ascii(custom_suffix());
    }
}

/// Two dot-free fields joined by one `.` split back into those fields.
proof fn lemma_split_custom(nt: Seq<u8>, at: Seq<u8>)
    requires
        nt.len() > 0,
        forall|i: int| 0 <= i < nt.len() ==> #[trigger] nt[i] != 0x2e,
        forall|i: int| 0 <= i < at.len() ==> #[trigger] at[i] != 0x2e,
    ensures
        split_custom(nt + seq![0x2eu8] + at) == Some((nt, at)),
{
    let stripped = nt + seq![0x2eu8] + at;
    let k = nt.len() as int;
    assert(stripped[k] == 0x2e);
    assert forall|j: int| 0 <= j < stripped.len() && j != k implies stripped[j] != 0x2e by {
        if j < k {
            assert(stripped[j] == nt[j]);
        } else {
            assert(stripped[j] == at[j - k - 1]);
        }
    }
    let kk = choose|k3: int|
        0 < k3 < stripped.len() && stripped[k3] == 0x2e && (forall|j: int|
            0 <= j < stripped.len() && j != k3 ==> stripped[j] != 0x2e);
    assert(kk == k);
    assert(stripped.subrange(0, k) =~= nt);
    assert(stripped.subrange(k + 1, stripped.len() as int) =~= at);
}

/// A non-empty character sequence has a non-empty UTF-8 encoding.
proof fn lemma_encode_utf8_nonempty(s: Seq<char>)
    requires
        s.len() > 0,
    ensures
        encode_utf8(s).len() > 0,
{
    assert(encode_utf8(s) =~= encode_scalar(s[0] as u32) + encode_utf8(s.drop_first()));
}

proof fn lemma_custom_decode_fields(network: Seq<char>, address: Seq<char>)
    requires
        network.len() > 0,
        base64_field_facts(network),
        base64_field_facts(address),
    ensures
        decode_custom_domain_spec(encode_utf8(custom_text(network, address))) == Ok::<
            (Seq<char>, Seq<char>),
            Error,
        >((network, address)),
        ends_with(encode_utf8(custom_text(network, address)), custom_suffix_bytes()),
        valid_utf8(encode_utf8(custom_text(network, address))),
{
    let bn = base64_no_pad_encode(encode_utf8(network));
    let ba = base64_no_pad_encode(encode_utf8(address));
    let nt = encode_utf8(bn);
    let at = encode_utf8(ba);
    lemma_base64_bytes(bn);
    lemma_base64_bytes(ba);
    lemma_custom_text_bytes(network, address);
    let tb = encode_utf8(custom_text(network, address));
    assert(tb.subrange(tb.len() - 7, tb.len() as int) =~= custom_suffix_bytes());
    assert(tb.subrange(0, tb.len() - 7) =~= nt + seq![0x2eu8] + at);
    lemma_encode_utf8_nonempty(network);
    lemma_split_custom(nt, at);
    encode_utf8_valid_utf8(network);
    encode_utf8_valid_utf8(address);
    encode_utf8_decode_utf8(network);
    encode_utf8_decode_utf8(address);
    encode_utf8_valid_utf8(custom_text(network, address));
}

proof fn lemma_custom_round_trip(network: Seq<char>, address: Seq<char>)
    requires
        custom_result(network, address).is_ok(),
        base64_field_facts(network),
        base64_field_facts(address),
    ensures
        spec_encode(SocksAddressView::Custom { network, address }) matches Ok(b) && spec_decode(b)
            == Ok::<SocksAddressView, Error>(SocksAddressView::Custom { network, address }),
{
    lemma_custom_decode_fields(network, address);
    let tb = encode_utf8(custom_text(network, address));
    let n = tb.len();
    let b = seq![3u8, n as u8] + tb + be16(0);
    assert(spec_encode(SocksAddressView::Custom { network, address }) == Ok::<Seq<u8>, Error>(b));
    let r = b.subrange(1, b.len() as int);
    assert(r =~= seq![n as u8] + tb + be16(0));
    assert(r.subrange(1, n as int + 1) =~= tb);
    lemma_port_round_trip(0);
    assert(decode_domain_spec(r) == custom_result(network, address));
}

/// The custom-domain text `base64(network).base64(address).custom`.
fn encode_custom_domain(network: &str, address: &str) -> (r: String)
    requires
        encode_utf8(network@).len() <= 255,
        encode_utf8(address@).len() <= 255,
    ensures
        r@ == custom_text(network@, address@),
        base64_field_facts(network@),
        base64_field_facts(address@),
{
    let mut text = base64_encode(network.as_bytes());
    text.append(".");
    let encoded_address = base64_encode(address.as_bytes());
    text.append(encoded_address.as_str());
    text.append(".custom");
    proof {
        reveal_strlit(".");
        reveal_strlit(".custom");
        assert(".custom"@ =~= custom_suffix());
        assert(text@ =~= custom_text(network@, address@));
    }
    text
}

/// Position of the first `.` byte at or after `from`, if any.
fn find_dot(bytes: &[u8], from: usize) -> (r: Option<usize>)
    requires
        from <= bytes@.len(),
    ensures
        match r {
            Some(k) => from <= k < bytes@.len() && bytes@[k as int] == 0x2e && forall|j: int|
                from <= j < k ==> bytes@[j] != 0x2e,
            None => forall|j: int| from <= j < bytes@.len() ==> bytes@[j] != 0x2e,
        },
{
    let mut i = from;
    while i < bytes.len()
        invariant
            from <= i <= bytes@.len(),
            forall|j: int| from <= j < i ==> bytes@[j] != 0x2e,
        decreases bytes@.len() - i,
    {
        if bytes[i] == 0x2e {
            return Some(i);
        }
        i = i + 1;
    }
    None
}

/// Decode the network and address of a custom domain (host bytes ending in
/// `.custom`).
fn decode_custom_domain(domain: &[u8]) -> (r: Result<(String, String), Error>)
    requires
        ends_with(domain@, custom_suffix_bytes()),
    ensures
        match r {
            Ok((network, address)) => {
                &&& decode_custom_domain_spec(domain@) == Ok::<(Seq<char>, Seq<char>), Error>(
                    (network@, address@),
                )
                &&& encode_utf8(custom_text(network@, address@)) == domain@
            },
            Err(e) => decode_custom_domain_spec(domain@) == Err::<(Seq<char>, Seq<char>), Error>(
                e,
            ),
        },
{
    let stripped = &domain[0..domain.len() - 7];
    assert(stripped@ == domain@.subrange(0, domain@.len() - 7));
    let k = match find_dot(stripped, 0) {
        Some(k) => k,
        None => {
            assert(split_custom(stripped@) is None);
            return Err(Error::InvalidSocksAddress);
        },
    };
    if k == 0 {
        proof {
            if exists|k2: int|
                0 < k2 < stripped@.len() && stripped@[k2] == 0x2e && (forall|j: int|
                    0 <= j < stripped@.len() && j != k2 ==> stripped@[j] != 0x2e) {
                let k2 = choose|k2: int|
                    0 < k2 < stripped@.len() && stripped@[k2] == 0x2e && (forall|j: int|
                        0 <= j < stripped@.len() && j != k2 ==> stripped@[j] != 0x2e);
                assert(stripped@[0] != 0x2e);
            }
        }
        return Err(Error::InvalidSocksAddress);
    }
    if let Some(k2) = find_dot(stripped, k + 1) {
        proof {
            if exists|k3: int|
                0 < k3 < stripped@.len() && stripped@[k3] == 0x2e && (forall|j: int|
                    0 <= j < stripped@.len() && j != k3 ==> stripped@[j] != 0x2e) {
                let k3 = choose|k3: int|
                    0 < k3 < stripped@.len() && stripped@[k3] == 0x2e && (forall|j: int|
                        0 <= j < stripped@.len() && j != k3 ==> stripped@[j] != 0x2e);
                if k3 == k {
                    assert(stripped@[k2 as int] != 0x2e);
                } else {
                    assert(stripped@[k as int] != 0x2e);
                }
            }
        }
        return Err(Error::InvalidSocksAddress);
    }
    let network_text = &stripped[0..k];
    let address_text = &stripped[k + 1..stripped.len()];
    proof {
        assert(forall|j: int| 0 <= j < stripped@.len() && j != k ==> stripped@[j] != 0x2e);
        let kk = choose|k3: int|
            0 < k3 < stripped@.len() && stripped@[k3] == 0x2e && (forall|j: int|
                0 <= j < stripped@.len() && j != k3 ==> stripped@[j] != 0x2e);
        assert(kk == k);
        assert(split_custom(stripped@) == Some((network_text@, address_text@)));
    }
    let network_bytes = match base64_decode(network_text) {
        Some(bytes) => bytes,
        None => return Err(Error::InvalidSocksAddress),
    };
    let address_bytes = match base64_decode(address_text) {
        Some(bytes) => bytes,
        None => return Err(Error::InvalidSocksAddress),
    };
    let network = match utf8_str(network_bytes.as_slice()) {
        Some(text) => text,
        None => return Err(Error::InvalidSocksAddress),
    };
    let address = match utf8_str(address_bytes.as_slice()) {
        Some(text) => text,
        None => return Err(Error::InvalidSocksAddress),
    };
    proof {
        decode_utf8_encode_utf8(network_bytes@);
        decode_utf8_encode_utf8(address_bytes@);
        lemma_encode_utf8_concat(
            base64_no_pad_encode(encode_utf8(network@)) + seq!['.'] + base64_no_pad_encode(encode_utf8(address@)),
            custom_suffix(),
        );
        lemma_encode_utf8_concat(
            base64_no_pad_encode(encode_utf8(network@)) + seq!['.'],
            base64_no_pad_encode(encode_utf8(address@)),
        );
        lemma_encode_utf8_concat(base64_no_pad_encode(encode_utf8(network@)), seq!['.']);
        assert(encode_utf8(seq!['.']) =~= seq![0x2eu8]) by {
            lemma_encode_utf8_ascii(seq!['.']);
        }
        assert(encode_utf8(custom_suffix()) =~= custom_suffix_bytes()) by {
            lemma_encode_utf8_ascii(custom_suffix());
        }
        assert(stripped@ =~= network_text@ + seq![0x2eu8] + address_text@);
        assert(domain@ =~= stripped@ + custom_suffix_bytes());
    }
    Ok((network.to_owned(), address.to_owned()))
}

/// Decode the part of an RFC 1928 domain address after its type byte.
fn decode_domain(remainder: &[u8]) -> (r: Result<SocksAddress, Error>)
    ensures
        address_result_is(r, decode_domain_spec(remainder@)),
        r matches Ok(a) ==> a@.wf() && spec_encode(a@) == Ok::<Seq<u8>, Error>(
            seq![3u8] + remainder@,
        ),
{
    if remainder.len() == 0 {
        return Err(Error::InvalidSocksAddress);
    }
    let length = remainder[0] as usize;
    if length == 0 || remainder.len() != length + 3 {
        return Err(Error::InvalidSocksAddress);
    }
    let host_bytes = &remainder[1..length + 1];
    let port = port_value(remainder[length + 1], remainder[length + 2]);
    let host = match utf8_str(host_bytes) {
        Some(host) => host,
        None => return Err(Error::InvalidSocksAddress),
    };
    proof {
        decode_utf8_encode_utf8(host_bytes@);
        assert(remainder@ =~= seq![remainder@[0]] + host_bytes@ + seq![
            remainder@[length + 1],
            remainder@[length + 2],
        ]);
        assert(seq![3u8] + remainder@ =~= seq![3u8, host_bytes@.len() as u8] + host_bytes@ + be16(port));
    }
    if port == 0 && bytes_end_with(host_bytes, &[0x2e, 0x63, 0x75, 0x73, 0x74, 0x6f, 0x6d]) {
        proof {
            assert([0x2eu8, 0x63u8, 0x75u8, 0x73u8, 0x74u8, 0x6fu8, 0x6du8]@ =~= custom_suffix_bytes());
        }
        let (network, address) = decode_custom_domain(host_bytes)?;
        SocksAddress::custom(network.as_str(), address.as_str())
    } else {
        proof {
            assert([0x2eu8, 0x63u8, 0x75u8, 0x73u8, 0x74u8, 0x6fu8, 0x6du8]@ =~= custom_suffix_bytes());
        }
        SocksAddress::domain(host, port)
    }
}

/// Whether every character of `s` is an ASCII digit.
pub open spec fn all_digits(s: Seq<char>) -> bool {
    forall|i: int| 0 <= i < s.len() ==> '0' <= #[trigger] s[i] <= '9'
}

/// The value of digits only grows as digits are appended.
proof fn lemma_decimal_value_prefix(s: Seq<char>, k: int)
    requires
        0 <= k <= s.len(),
        all_digits(s),
    ensures
        decimal_value(s.subrange(0, k)) <= decimal_value(s),
    decreases s.len() - k,
{
    if k < s.len() {
        let t = s.drop_last();
        assert(all_digits(t)) by {
            assert forall|i: int| 0 <= i < t.len() implies '0' <= #[trigger] t[i] <= '9' by {
                assert(t[i] == s[i]);
            }
        }
        assert(t.subrange(0, k) =~= s.subrange(0, k));
        lemma_decimal_value_prefix(t, k);
        assert('0' <= s.last() <= '9');
        assert(decimal_value(t) <= decimal_value(s));
    } else {
        assert(s.subrange(0, k) =~= s);
    }
}

/// Parse a decimal port as `str::parse::<u16>` does: an optional `+`
/// followed by one or more ASCII digits whose value fits in a `u16`.
fn parse_port(text: &str) -> (r: Option<u16>)
    ensures
        r == port_text_value(text@),
{
    let n = text.unicode_len();
    let start: usize = if n > 0 && text.get_char(0) == '+' {
        1
    } else {
        0
    };
    let ghost digits = text@.subrange(start as int, n as int);
    assert(digits == port_digits(text@)) by {
        if start == 0 {
            assert(text@.subrange(0, n as int) =~= text@);
        }
    }
    if start >= n {
        return None;
    }
    let mut value: u32 = 0;
    let mut i: usize = start;
    while i < n
        invariant
            start <= i <= n,
            n == text@.len(),
            start < n,
            digits == text@.subrange(start as int, n as int),
            value == decimal_value(digits.subrange(0, i - start)),
            value <= 65535,
            forall|k: int| 0 <= k < i - start ==> '0' <= #[trigger] digits[k] <= '9',
            port_text_value(text@) == (if digits.len() > 0 && all_digits(digits) && decimal_value(
                digits,
            ) <= 65535 {
                Some(decimal_value(digits) as u16)
            } else {
                None
            }),
        decreases n - i,
    {
        let c = text.get_char(i);
        assert(c == digits[i - start]);
        if !('0' <= c && c <= '9') {
            assert(!all_digits(digits));
            return None;
        }
        let d: u32 = (c as u32) - ('0' as u32);
        proof {
            let p = digits.subrange(0, i + 1 - start);
            assert(p.drop_last() =~= digits.subrange(0, i - start));
            assert(p.last() == c);
            assert(decimal_value(p) == decimal_value(p.drop_last()) * 10 + (c as nat - '0' as nat));
            assert(d == c as nat - '0' as nat);
        }
        value = value * 10 + d;
        if value > 65535 {
            proof {
                if all_digits(digits) {
                    lemma_decimal_value_prefix(digits, i + 1 - start);
                }
            }
            return None;
        }
        i = i + 1;
    }
    assert(digits.subrange(0, n - start) =~= digits);
    assert(all_digits(digits));
    Some(value as u16)
}

/// Position of the last `:` in `text`.
fn last_colon(text: &str) -> (r: Option<usize>)
    ensures
        match r {
            Some(k) => k < text@.len() && text@[k as int] == ':' && forall|j: int|
                k < j < text@.len() ==> text@[j] != ':',
            None => forall|j: int| 0 <= j < text@.len() ==> text@[j] != ':',
        },
{
    let n = text.unicode_len();
    let mut i = n;
    while i > 0
        invariant
            n == text@.len(),
            i <= n,
            forall|j: int| i <= j < n ==> text@[j] != ':',
        decreases i,
    {
        if text.get_char(i - 1) == ':' {
            return Some(i - 1);
        }
        i = i - 1;
    }
    None
}

impl PartialEq for SocksAddress {
    fn eq(&self, other: &Self) -> (r: bool) {
        match self {
            SocksAddress::Ip(a) => match other {
                SocksAddress::Ip(b) => {
                    let r = a == b;
                    assert(r == (self@ == other@));
                    r
                },
                _ => false,
            },
            SocksAddress::Domain { host: h, port: p } => match other {
                SocksAddress::Domain { host: g, port: q } => {
                    let r = *p == *q && *h == *g;
                    assert(r == (self@ == other@));
                    r
                },
                _ => false,
            },
            SocksAddress::Custom { network: n, address: a } => match other {
                SocksAddress::Custom { network: m, address: b } => {
                    let r = *n == *m && *a == *b;
                    assert(r == (self@ == other@));
                    r
                },
                _ => false,
            },
        }
    }
}

impl vstd::std_specs::cmp::PartialEqSpecImpl for SocksAddress {
    open spec fn obeys_eq_spec() -> bool {
        true
    }

    open spec fn eq_spec(&self, other: &SocksAddress) -> bool {
        self@ == other@
    }
}

impl Eq for SocksAddress {}

impl From<SocketAddress> for SocksAddress {
    fn from(address: SocketAddress) -> (r: SocksAddress) {
        SocksAddress::Ip(address)
    }
}

impl vstd::std_specs::convert::FromSpecImpl<SocketAddress> for SocksAddress {
    open spec fn obeys_from_spec() -> bool {
        true
    }

    open spec fn from_spec(v: SocketAddress) -> SocksAddress {
        SocksAddress::Ip(v)
    }
}

impl SocksAddress {
    /// Parse a `host:port` text, given what parsing it as a numeric socket
    /// address yielded (`numeric`): a numeric address is taken as it is;
    /// otherwise the text is split at its last `:` into a domain host and a
    /// decimal port.
    pub fn parse(value: &str, numeric: Option<SocketAddress>) -> (r: Result<SocksAddress, Error>)
        ensures
            match numeric {
                Some(a) => r matches Ok(b) && b@ == SocksAddressView::Ip(a@),
                None => address_result_is(r, parse_domain_text(value@)),
            },
    {
        if let Some(address) = numeric {
            return Ok(SocksAddress::Ip(address));
        }
        let k = match last_colon(value) {
            Some(k) => k,
            None => return Err(Error::InvalidSocksAddress),
        };
        let n = value.unicode_len();
        let host = value.substring_char(0, k);
        let port = value.substring_char(k + 1, n);
        proof {
            let kk = choose|k2: int|
                0 <= k2 < value@.len() && value@[k2] == ':' && (forall|j: int|
                    k2 < j < value@.len() ==> value@[j] != ':');
            if kk < k {
                assert(value@[k as int] != ':');
            } else if kk > k {
                assert(value@[kk] != ':');
            }
        }
        if k == 0 || host.get_char(0) == '[' || host.get_char(k - 1) == ']' {
            return Err(Error::InvalidSocksAddress);
        }
        let port = match parse_port(port) {
            Some(port) => port,
            None => return Err(Error::InvalidSocksAddress),
        };
        SocksAddress::domain(host, port)
    }

    /// The address as text: a socket address as `ip:port` (IPv6 in
    /// brackets), a domain as `host:port`, a custom address as its address.
    pub fn to_string(&self) -> (r: String)
        ensures
            r@ == match self@ {
                SocksAddressView::Ip(a) => socket_text(a),
                SocksAddressView::Domain { host, port } => host + seq![':'] + decimal_text(port as nat),
                SocksAddressView::Custom { address, .. } => address,
            },
    {
        match self {
            SocksAddress::Ip(a) => a.to_string(),
            SocksAddress::Domain { host, port } => {
                let mut text = host.clone();
                text.append(":");
                let port_text = decimal_string(*port as u32);
                text.append(port_text.as_str());
                proof {
                    reveal_strlit(":");
                }
                text
            },
            SocksAddress::Custom { address, .. } => address.clone(),
        }
    }

    /// Network name associated with this address.
    pub fn network(&self) -> (r: &str)
        ensures
            r@ == self@.network(),
    {
        match self {
            SocksAddress::Custom { network, .. } => network.as_str(),
            _ => {
                let name = "socks5";
                proof {
                    reveal_strlit("socks5");
                }
                assert(name@ =~= seq!['s', 'o', 'c', 'k', 's', '5']);
                name
            },
        }
    }

    /// Destination port, or zero for custom-network addresses.
    pub fn port(&self) -> (r: u16)
        ensures
            r == self@.port(),
    {
        match self {
            SocksAddress::Ip(address) => address.port(),
            SocksAddress::Domain { port, .. } => *port,
            SocksAddress::Custom { .. } => 0,
        }
    }

    /// How many bytes the encoded address starting with `prefix` occupies, or
    /// `None` while `prefix` is too short to tell; an error for an address
    /// type that RFC 1928 does not define.
    pub fn wire_length(prefix: &[u8]) -> (r: Result<Option<usize>, Error>)
        ensures
            match r {
                Ok(Some(n)) => spec_wire_length(prefix@) == Ok::<Option<nat>, Error>(Some(n as nat)),
                Ok(None) => spec_wire_length(prefix@) == Ok::<Option<nat>, Error>(None),
                Err(e) => spec_wire_length(prefix@) == Err::<Option<nat>, Error>(e),
            },
    {
        if prefix.len() == 0 {
            return Ok(None);
        }
        let address_type = prefix[0];
        if address_type == IPV4_ADDRESS {
            Ok(Some(7))
        } else if address_type == IPV6_ADDRESS {
            Ok(Some(19))
        } else if address_type == DOMAIN_ADDRESS {
            if prefix.len() < 2 {
                Ok(None)
            } else {
                Ok(Some(prefix[1] as usize + 4))
            }
        } else {
            Err(Error::UnsupportedSocksAddressType { address_type })
        }
    }

    /// Decode one address at the front of `bytes`, returning it and the number
    /// of bytes it occupies.
    pub fn decode_prefix(bytes: &[u8]) -> (r: Result<(SocksAddress, usize), Error>)
        ensures
            match r {
                Ok((a, n)) => spec_decode_prefix(bytes@) == Ok::<(SocksAddressView, nat), Error>(
                    (a@, n as nat),
                ),
                Err(e) => spec_decode_prefix(bytes@) == Err::<(SocksAddressView, nat), Error>(e),
            },
    {
        let length = match SocksAddress::wire_length(bytes)? {
            Some(length) => length,
            None => return Err(Error::InvalidSocksAddress),
        };
        if length > bytes.len() {
            return Err(Error::InvalidSocksAddress);
        }
        let address = SocksAddress::decode(&bytes[0..length])?;
        Ok((address, length))
    }

    /// Decode exactly one RFC 1928 address.
    ///
    /// Returns an error for truncated data, trailing bytes, invalid UTF-8,
    /// malformed custom addresses, or unsupported address types.
    pub fn decode(encoded: &[u8]) -> (r: Result<SocksAddress, Error>)
        ensures
            address_result_is(r, spec_decode(encoded@)),
            r matches Ok(a) ==> a@.wf() && spec_encode(a@) == Ok::<Seq<u8>, Error>(encoded@),
    {
        if encoded.len() == 0 {
            return Err(Error::InvalidSocksAddress);
        }
        let address_type = encoded[0];
        let remainder = &encoded[1..encoded.len()];
        assert(encoded@ =~= seq![address_type] + remainder@);
        if address_type == IPV4_ADDRESS {
            if remainder.len() != 6 {
                return Err(Error::InvalidSocksAddress);
            }
            let ip = [remainder[0], remainder[1], remainder[2], remainder[3]];
            let port = port_value(remainder[4], remainder[5]);
            let r = SocksAddress::Ip(SocketAddress::V4 { ip, port });
            assert(ip@ =~= encoded@.subrange(1, 5));
            assert(seq![1u8] + ip@ + be16(port) =~= encoded@);
            Ok(r)
        } else if address_type == IPV6_ADDRESS {
            if remainder.len() != 18 {
                return Err(Error::InvalidSocksAddress);
            }
            let ip = [
                remainder[0], remainder[1], remainder[2], remainder[3], remainder[4], remainder[5],
                remainder[6], remainder[7], remainder[8], remainder[9], remainder[10], remainder[11],
                remainder[12], remainder[13], remainder[14], remainder[15],
            ];
            let port = port_value(remainder[16], remainder[17]);
            let r = SocksAddress::Ip(SocketAddress::V6 { ip, port, flowinfo: 0, scope_id: 0 });
            assert(ip@ =~= encoded@.subrange(1, 17));
            assert(seq![4u8] + ip@ + be16(port) =~= encoded@);
            Ok(r)
        } else if address_type == DOMAIN_ADDRESS {
            decode_domain(remainder)
        } else {
            Err(Error::UnsupportedSocksAddressType { address_type })
        }
    }

    /// Construct a `LazyCat` custom-network address.
    ///
    /// Returns an error for an empty network, or when the encoded custom domain
    /// is longer than 255 bytes.
    pub fn custom(network: &str, address: &str) -> (r: Result<SocksAddress, Error>)
        ensures
            address_result_is(r, custom_result(network@, address@)),
    {
        if network.is_empty() {
            return Err(Error::InvalidSocksAddress);
        }
        if network.as_bytes().len() > 255 || address.as_bytes().len() > 255 {
            return Err(Error::SocksAddressTooLong);
        }
        let encoded = encode_custom_domain(network, address);
        validate_wire_string(encoded.as_str())?;
        Ok(SocksAddress::Custom { network: network.to_owned(), address: address.to_owned() })
    }

    /// Encode this address using the RFC 1928 wire representation.
    ///
    /// Returns an error if a string address cannot fit in the one-byte length
    /// field.
    pub fn encode(&self) -> (r: Result<Vec<u8>, Error>)
        ensures
            bytes_result_is(r, spec_encode(self@)),
            self@.wf() && self@.survives_wire() ==> (r matches Ok(v) && spec_decode(v@) == Ok::<
                SocksAddressView,
                Error,
            >(self@)),
    {
        let mut encoded: Vec<u8> = Vec::with_capacity(19);
        match self {
            SocksAddress::Ip(SocketAddress::V4 { ip, port }) => {
                encoded.push(IPV4_ADDRESS);
                append_bytes(&mut encoded, ip);
                let port_be = port_bytes(*port);
                append_bytes(&mut encoded, &port_be);
                assert(encoded@ =~= seq![1u8] + ip@ + be16(*port));
                proof {
                    lemma_port_round_trip(*port);
                    assert(encoded@.subrange(1, 5) =~= ip@);
                }
            },
            SocksAddress::Ip(SocketAddress::V6 { ip, port, .. }) => {
                encoded.push(IPV6_ADDRESS);
                append_bytes(&mut encoded, ip);
                let port_be = port_bytes(*port);
                append_bytes(&mut encoded, &port_be);
                assert(encoded@ =~= seq![4u8] + ip@ + be16(*port));
                proof {
                    lemma_port_round_trip(*port);
                    assert(encoded@.subrange(1, 17) =~= ip@);
                }
            },
            SocksAddress::Domain { host, port } => {
                encode_domain(&mut encoded, host.as_str(), *port)?;
                assert(encoded@ =~= encoded@.subrange(0, encoded@.len() as int));
                proof {
                    if self@.wf() && self@.survives_wire() {
                        lemma_domain_round_trip(host@, *port);
                    }
                }
            },
            SocksAddress::Custom { network, address } => {
                if network.as_str().as_bytes().len() > 255 || address.as_str().as_bytes().len() > 255 {
                    return Err(Error::SocksAddressTooLong);
                }
                let text = encode_custom_domain(network.as_str(), address.as_str());
                encode_domain(&mut encoded, text.as_str(), 0)?;
                assert(encoded@ =~= encoded@.subrange(0, encoded@.len() as int));
                proof {
                    if self@.wf() {
                        lemma_custom_round_trip(network@, address@);
                    }
                }
            },
        }
        Ok(encoded)
    }

    /// Construct a domain address without resolving it locally.
    ///
    /// Returns an error for an empty host, a host longer than 255 bytes, or
    /// one holding `:`, whitespace or a control character.
    pub fn domain(host: &str, port: u16) -> (r: Result<SocksAddress, Error>)
        ensures
            address_result_is(r, domain_result(host@, port)),
    {
        validate_wire_string(host)?;
        if !host_chars_ok(host) {
            return Err(Error::InvalidSocksAddress);
        }
        Ok(SocksAddress::Domain { host: host.to_owned(), port })
    }
}


// ---------------------------------------------------------------------------
// Text round trip of domain addresses
// ---------------------------------------------------------------------------

proof fn lemma_decimal_text_digits(n: nat)
    ensures
        decimal_text(n).len() > 0,
        forall|i: int|
            0 <= i < decimal_text(n).len() ==> '0' <= #[trigger] decimal_text(n)[i] <= '9',
        decimal_value(decimal_text(n)) == n,
    decreases n,
{
    if n >= 10 {
        lemma_decimal_text_digits(n / 10);
        let t = decimal_text(n);
        assert(t.drop_last() =~= decimal_text(n / 10));
        assert(t.last() == digit_char(n % 10));
        assert(digit_char(n % 10) as nat - '0' as nat == n % 10);
        assert(decimal_value(t) == decimal_value(decimal_text(n / 10)) * 10 + n % 10);
        assert((n / 10) * 10 + n % 10 == n);
        assert forall|i: int| 0 <= i < t.len() implies '0' <= #[trigger] t[i] <= '9' by {
            if i < t.len() - 1 {
                assert(t[i] == decimal_text(n / 10)[i]);
            }
        }
    } else {
        let t = decimal_text(n);
        assert(t.drop_last() =~= Seq::<char>::empty());
        assert(t.last() == digit_char(n));
        assert(digit_char(n) as nat - '0' as nat == n);
        assert(decimal_value(t.drop_last()) == 0);
        assert(decimal_value(t) == n);
    }
}

/// A domain address written as `host:port` reads back as the same address:
/// for a host that [`SocksAddress::domain`] accepts and that neither starts
/// with `[` nor ends with `]`, the text that [`SocksAddress::to_string`]
/// gives parses (as a non-numeric address) to the domain address.
pub proof fn domain_text_round_trip(host: Seq<char>, port: u16)
    requires
        domain_result(host, port).is_ok(),
        host.len() > 0,
        host[0] != '[',
        host.last() != ']',
    ensures
        parse_domain_text(host + seq![':'] + decimal_text(port as nat)) == domain_result(
            host,
            port,
        ),
{
    let digits = decimal_text(port as nat);
    let text = host + seq![':'] + digits;
    let k0 = host.len() as int;
    lemma_decimal_text_digits(port as nat);
    assert(forall|i: int| 0 <= i < host.len() ==> host_char_ok(#[trigger] host[i]));
    assert(text[k0] == ':');
    assert forall|j: int| k0 < j < text.len() implies text[j] != ':' by {
        assert(text[j] == digits[j - k0 - 1]);
    }
    let k = choose|k: int|
        0 <= k < text.len() && text[k] == ':' && (forall|j: int| k < j < text.len() ==> text[j] != ':');
    if k < k0 {
        assert(text[k] == host[k]);
        assert(host_char_ok(host[k]));
    }
    assert(k == k0);
    assert(text.subrange(0, k) =~= host);
    assert(text.subrange(k + 1, text.len() as int) =~= digits);
    assert(digits[0] != '+');
}

} // verus!
