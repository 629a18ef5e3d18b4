//! Textual forms of socket addresses, as the standard library writes them:
//! dotted-quad IPv4, RFC 5952 IPv6 (with the IPv4-mapped form), and
//! `ip:port` / `[ip%scope]:port` socket addresses.

use vstd::prelude::*;
use vstd::utf8::*;

use crate::codec::{lemma_encode_utf8_ascii, utf8_str};
use crate::net::{is_ipv4_mapped, octets_are_ipv4_mapped, SocketAddress, SocketAddressView};

verus! {

// ---------------------------------------------------------------------------
// Specification
// ---------------------------------------------------------------------------

/// The decimal digit character for `d < 10`.
pub open spec fn digit_char(d: nat) -> char {
    ('0' as nat + d) as char
}

/// The lowercase hexadecimal digit character for `d < 16`.
pub open spec fn hex_digit_char(d: nat) -> char {
    if d < 10 {
        ('0' as nat + d) as char
    } else {
        ('a' as nat + d - 10) as char
    }
}

/// Decimal digits of `n`, without leading zeros.
pub open spec fn decimal_text(n: nat) -> Seq<char>
    decreases n,
{
    if n < 10 {
        seq![digit_char(n)]
    } else {
        decimal_text(n / 10) + seq![digit_char(n % 10)]
    }
}

/// Lowercase hexadecimal digits of `n`, without leading zeros.
pub open spec fn hex_text(n: nat) -> Seq<char>
    decreases n,
{
    if n < 16 {
        seq![hex_digit_char(n)]
    } else {
        hex_text(n / 16) + seq![hex_digit_char(n % 16)]
    }
}

/// Dotted-quad text of four IPv4 octets.
pub open spec fn ipv4_text(o: Seq<u8>) -> Seq<char> {
    decimal_text(o[0] as nat) + seq!['.'] + decimal_text(o[1] as nat) + seq!['.'] + decimal_text(
        o[2] as nat,
    ) + seq!['.'] + decimal_text(o[3] as nat)
}

/// The eight 16-bit segments of sixteen IPv6 octets.
pub open spec fn segments(o: Seq<u8>) -> Seq<nat> {
    Seq::new(8, |i: int| o[2 * i] as nat * 256 + o[2 * i + 1] as nat)
}

/// Segments in hexadecimal, joined by `:`.
pub open spec fn hex_join(s: Seq<nat>) -> Seq<char>
    decreases s.len(),
{
    if s.len() == 0 {
        seq![]
    } else if s.len() == 1 {
        hex_text(s[0])
    } else {
        hex_join(s.drop_last()) + seq![':'] + hex_text(s.last())
    }
}

/// `l` consecutive zero segments start at `s`.
pub open spec fn zero_run(segs: Seq<nat>, s: int, l: int) -> bool {
    &&& 0 <= s
    &&& 0 <= l
    &&& s + l <= segs.len()
    &&& forall|i: int| s <= i < s + l ==> segs[i] == 0
}

/// The first of the longest runs of zero segments: `(start, length)`.
pub open spec fn longest_zero_run(segs: Seq<nat>) -> (int, int) {
    choose|r: (int, int)|
        zero_run(segs, r.0, r.1) && forall|s: int, l: int|
            #[trigger] zero_run(segs, s, l) ==> l < r.1 || (l == r.1 && r.0 <= s)
}

/// RFC 5952 text of sixteen IPv6 octets, as `std` writes it: the
/// IPv4-mapped form `::ffff:a.b.c.d`, or hexadecimal segments with the first
/// longest run of two or more zero segments written `::`.
pub open spec fn ipv6_text(o: Seq<u8>) -> Seq<char> {
    if is_ipv4_mapped(o) {
        seq![':', ':', 'f', 'f', 'f', 'f', ':'] + ipv4_text(o.subrange(12, 16))
    } else {
        let segs = segments(o);
        let (s, l) = longest_zero_run(segs);
        if l > 1 {
            hex_join(segs.subrange(0, s)) + seq![':', ':'] + hex_join(segs.subrange(s + l, 8))
        } else {
            hex_join(segs)
        }
    }
}

/// Text of a socket address: `a.b.c.d:port`, `[ip]:port`, or
/// `[ip%scope]:port` for a scoped IPv6 address.
pub open spec fn socket_text(a: SocketAddressView) -> Seq<char> {
    match a {
        SocketAddressView::V4 { ip, port } => ipv4_text(ip) + seq![':'] + decimal_text(port as nat),
        SocketAddressView::V6 { ip, port, scope_id, .. } => if scope_id == 0 {
            seq!['['] + ipv6_text(ip) + seq![']', ':'] + decimal_text(port as nat)
        } else {
            seq!['['] + ipv6_text(ip) + seq!['%'] + decimal_text(scope_id as nat) + seq![']', ':']
                + decimal_text(port as nat)
        },
    }
}

/// The bytes of ASCII characters.
pub open spec fn ascii_bytes(s: Seq<char>) -> Seq<u8> {
    s.map_values(|c: char| c as u8)
}

/// Only ASCII characters.
pub open spec fn all_ascii(s: Seq<char>) -> bool {
    is_ascii_chars(s)
}

// ---------------------------------------------------------------------------
// Lemmas
// ---------------------------------------------------------------------------

proof fn lemma_decimal_ascii(n: nat)
    ensures
        all_ascii(decimal_text(n)),
        decimal_text(n).len() >= 1,
    decreases n,
{
    if n >= 10 {
        lemma_decimal_ascii(n / 10);
    }
}

proof fn lemma_hex_ascii(n: nat)
    ensures
        all_ascii(hex_text(n)),
    decreases n,
{
    if n >= 16 {
        lemma_hex_ascii(n / 16);
    }
}

proof fn lemma_hex_join_ascii(s: Seq<nat>)
    ensures
        all_ascii(hex_join(s)),
    decreases s.len(),
{
    if s.len() == 1 {
        lemma_hex_ascii(s[0]);
    } else if s.len() > 1 {
        lemma_hex_join_ascii(s.drop_last());
        lemma_hex_ascii(s.last());
    }
}

proof fn lemma_ipv4_ascii(o: Seq<u8>)
    ensures
        all_ascii(ipv4_text(o)),
{
    lemma_decimal_ascii(o[0] as nat);
    lemma_decimal_ascii(o[1] as nat);
    lemma_decimal_ascii(o[2] as nat);
    lemma_decimal_ascii(o[3] as nat);
}

/// A character of an IP address text: a decimal or lowercase hexadecimal
/// digit, `.` or `:`.
pub open spec fn ip_text_char(c: char) -> bool {
    ('0' <= c <= '9') || ('a' <= c <= 'f') || c == '.' || c == ':'
}

/// Only IP address text characters.
pub open spec fn ip_text_chars(s: Seq<char>) -> bool {
    forall|i: int| 0 <= i < s.len() ==> ip_text_char(#[trigger] s[i])
}

proof fn lemma_decimal_digits(n: nat)
    ensures
        forall|i: int|
            0 <= i < decimal_text(n).len() ==> '0' <= #[trigger] decimal_text(n)[i] <= '9',
        decimal_text(n).len() >= 1,
    decreases n,
{
    if n >= 10 {
        lemma_decimal_digits(n / 10);
        let t = decimal_text(n);
        assert forall|i: int| 0 <= i < t.len() implies '0' <= #[trigger] t[i] <= '9' by {
            if i < t.len() - 1 {
                assert(t[i] == decimal_text(n / 10)[i]);
            }
        }
    }
}

proof fn lemma_hex_digits(n: nat)
    ensures
        forall|i: int|
            0 <= i < hex_text(n).len() ==> ('0' <= #[trigger] hex_text(n)[i] <= '9') || ('a'
                <= hex_text(n)[i] <= 'f'),
        hex_text(n).len() >= 1,
    decreases n,
{
    if n >= 16 {
        lemma_hex_digits(n / 16);
        let t = hex_text(n);
        assert forall|i: int| 0 <= i < t.len() implies ('0' <= #[trigger] t[i] <= '9') || ('a'
            <= t[i] <= 'f') by {
            if i < t.len() - 1 {
                assert(t[i] == hex_text(n / 16)[i]);
            }
        }
    }
}

proof fn lemma_hex_join_chars(s: Seq<nat>)
    ensures
        ip_text_chars(hex_join(s)),
        s.len() >= 2 ==> hex_join(s).contains(':'),
    decreases s.len(),
{
    if s.len() == 1 {
        lemma_hex_digits(s[0]);
    } else if s.len() > 1 {
        lemma_hex_join_chars(s.drop_last());
        lemma_hex_digits(s.last());
        let a = hex_join(s.drop_last());
        let b = hex_text(s.last());
        let t = hex_join(s);
        assert(t == a + seq![':'] + b);
        assert forall|i: int| 0 <= i < t.len() implies ip_text_char(#[trigger] t[i]) by {
            if i < a.len() {
                assert(t[i] == a[i]);
            } else if i > a.len() {
                assert(t[i] == b[i - a.len() - 1]);
            }
        }
        assert(t[a.len() as int] == ':');
    }
}

/// Dotted-quad text is made of digits and dots: no `:` and no brackets.
pub proof fn lemma_ipv4_text_shape(o: Seq<u8>)
    ensures
        ipv4_text(o).len() > 0,
        ip_text_chars(ipv4_text(o)),
        !ipv4_text(o).contains(':'),
{
    let (a, b, c, d) = (
        decimal_text(o[0] as nat),
        decimal_text(o[1] as nat),
        decimal_text(o[2] as nat),
        decimal_text(o[3] as nat),
    );
    lemma_decimal_digits(o[0] as nat);
    lemma_decimal_digits(o[1] as nat);
    lemma_decimal_digits(o[2] as nat);
    lemma_decimal_digits(o[3] as nat);
    let t = ipv4_text(o);
    assert forall|i: int| 0 <= i < t.len() implies ('0' <= #[trigger] t[i] <= '9') || t[i]
        == '.' by {
        let p1 = a.len() as int;
        let p2 = p1 + 1 + b.len();
        let p3 = p2 + 1 + c.len();
        if i < p1 {
            assert(t[i] == a[i]);
        } else if i == p1 || i == p2 || i == p3 {
        } else if i < p2 {
            assert(t[i] == b[i - p1 - 1]);
        } else if i < p3 {
            assert(t[i] == c[i - p2 - 1]);
        } else {
            assert(t[i] == d[i - p3 - 1]);
        }
    }
}

/// RFC 5952 text is made of hexadecimal digits, `:` and dots, and holds a
/// `:`.
pub proof fn lemma_ipv6_text_shape(o: Seq<u8>)
    requires
        o.len() == 16,
    ensures
        ipv6_text(o).len() > 0,
        ip_text_chars(ipv6_text(o)),
        ipv6_text(o).contains(':'),
{
    let t = ipv6_text(o);
    if is_ipv4_mapped(o) {
        let prefix = seq![':', ':', 'f', 'f', 'f', 'f', ':'];
        let v4 = ipv4_text(o.subrange(12, 16));
        lemma_ipv4_text_shape(o.subrange(12, 16));
        assert(t == prefix + v4);
        assert forall|i: int| 0 <= i < t.len() implies ip_text_char(#[trigger] t[i]) by {
            if i >= 7 {
                assert(t[i] == v4[i - 7]);
                assert(('0' <= v4[i - 7] <= '9') || v4[i - 7] == '.' || v4[i - 7] == ':' || ('a'
                    <= v4[i - 7] <= 'f'));
            }
        }
        assert(t[0] == ':');
    } else {
        let segs = segments(o);
        let (s, l) = longest_zero_run(segs);
        if l > 1 {
            let a = hex_join(segs.subrange(0, s));
            let b = hex_join(segs.subrange(s + l, 8));
            lemma_hex_join_chars(segs.subrange(0, s));
            lemma_hex_join_chars(segs.subrange(s + l, 8));
            assert(t == a + seq![':', ':'] + b);
            assert forall|i: int| 0 <= i < t.len() implies ip_text_char(#[trigger] t[i]) by {
                if i < a.len() {
                    assert(t[i] == a[i]);
                } else if i >= a.len() + 2 {
                    assert(t[i] == b[i - a.len() - 2]);
                }
            }
            assert(t[a.len() as int] == ':');
        } else {
            lemma_hex_join_chars(segs);
        }
    }
}

proof fn lemma_ascii_bytes_utf8(t: Seq<char>)
    requires
        all_ascii(t),
    ensures
        encode_utf8(t) == ascii_bytes(t),
{
    lemma_encode_utf8_ascii(t);
}

// ---------------------------------------------------------------------------
// Implementation
// ---------------------------------------------------------------------------

/// Append the decimal digits of `n`.
fn push_decimal(out: &mut Vec<u8>, n: u32)
    ensures
        final(out)@ == old(out)@ + ascii_bytes(decimal_text(n as nat)),
    decreases n,
{
    if n >= 10 {
        push_decimal(out, n / 10);
    }
    let d = (n % 10) as u8;
    out.push(48 + d);
    proof {
        assert(digit_char(d as nat) as u8 == 48 + d);
        if n >= 10 {
            assert(decimal_text(n as nat) == decimal_text((n / 10) as nat) + seq![digit_char(
                (n % 10) as nat,
            )]);
        }
        assert(final(out)@ =~= old(out)@ + ascii_bytes(decimal_text(n as nat)));
    }
}

/// Append the lowercase hexadecimal digits of `n`.
fn push_hex(out: &mut Vec<u8>, n: u16)
    ensures
        final(out)@ == old(out)@ + ascii_bytes(hex_text(n as nat)),
    decreases n,
{
    if n >= 16 {
        push_hex(out, n / 16);
    }
    let d = (n % 16) as u8;
    if d < 10 {
        out.push(48 + d);
        assert(hex_digit_char(d as nat) as u8 == 48 + d);
    } else {
        out.push(87 + d);
        assert(hex_digit_char(d as nat) as u8 == 87 + d);
    }
    proof {
        if n >= 16 {
            assert(hex_text(n as nat) == hex_text((n / 16) as nat) + seq![hex_digit_char(
                (n % 16) as nat,
            )]);
        }
        assert(final(out)@ =~= old(out)@ + ascii_bytes(hex_text(n as nat)));
    }
}

/// Append dotted-quad IPv4 text.
fn push_ipv4(out: &mut Vec<u8>, o: &[u8; 4])
    ensures
        final(out)@ == old(out)@ + ascii_bytes(ipv4_text(o@)),
{
    push_decimal(out, o[0] as u32);
    out.push(46);
    push_decimal(out, o[1] as u32);
    out.push(46);
    push_decimal(out, o[2] as u32);
    out.push(46);
    push_decimal(out, o[3] as u32);
    assert(final(out)@ =~= old(out)@ + ascii_bytes(ipv4_text(o@)));
}

/// Every run's property of being the first longest holds of one run only.
proof fn lemma_longest_zero_run_unique(segs: Seq<nat>, bs: int, bl: int)
    requires
        zero_run(segs, bs, bl),
        forall|s: int, l: int| #[trigger] zero_run(segs, s, l) ==> l < bl || (l == bl && bs <= s),
    ensures
        longest_zero_run(segs) == (bs, bl),
{
    let w = (bs, bl);
    assert(zero_run(segs, w.0, w.1) && forall|s: int, l: int|
        #[trigger] zero_run(segs, s, l) ==> l < w.1 || (l == w.1 && w.0 <= s));
    let r = longest_zero_run(segs);
    assert(zero_run(segs, r.0, r.1));
    assert(zero_run(segs, bs, bl));
}

/// The first of the longest runs of zero segments of sixteen IPv6 octets.
fn find_longest_zero_run(o: &[u8; 16]) -> (r: (usize, usize))
    ensures
        longest_zero_run(segments(o@)) == (r.0 as int, r.1 as int),
        r.0 + r.1 <= 8,
{
    let ghost segs = segments(o@);
    let mut best_s: usize = 0;
    let mut best_l: usize = 0;
    let mut cur_s: usize = 0;
    let mut cur_l: usize = 0;
    let mut i: usize = 0;
    while i < 8
        invariant
            segs == segments(o@),
            segs.len() == 8,
            i <= 8,
            cur_s + cur_l == i,
            zero_run(segs, cur_s as int, cur_l as int),
            cur_s == 0 || segs[cur_s - 1] != 0,
            zero_run(segs, best_s as int, best_l as int),
            best_s + best_l <= i,
            forall|s: int, l: int|
                #[trigger] zero_run(segs, s, l) && s + l <= i ==> l < best_l || (l == best_l
                    && best_s <= s),
        decreases 8 - i,
    {
        let seg = (o[2 * i] as u16) * 256 + (o[2 * i + 1] as u16);
        assert(seg as nat == segs[i as int]);
        let ghost old_best_s = best_s;
        let ghost old_best_l = best_l;
        let ghost old_cur_s = cur_s;
        if seg == 0 {
            cur_l = cur_l + 1;
            if cur_l > best_l {
                best_s = cur_s;
                best_l = cur_l;
            }
            proof {
                assert(zero_run(segs, cur_s as int, cur_l as int));
                assert forall|s: int, l: int|
                    #[trigger] zero_run(segs, s, l) && s + l <= i + 1 implies l < best_l || (l
                        == best_l && best_s <= s) by {
                    if s + l <= i {
                    } else if l > 0 {
                        if s < cur_s {
                            assert(segs[cur_s - 1] == 0);
                        }
                    }
                }
            }
        } else {
            cur_s = i + 1;
            cur_l = 0;
            proof {
                assert forall|s: int, l: int|
                    #[trigger] zero_run(segs, s, l) && s + l <= i + 1 implies l < best_l || (l
                        == best_l && best_s <= s) by {
                    if s + l == i + 1 && l > 0 {
                        assert(segs[i as int] == 0);
                    }
                }
            }
        }
        i = i + 1;
    }
    proof {
        lemma_longest_zero_run_unique(segs, best_s as int, best_l as int);
    }
    (best_s, best_l)
}

/// Append the segments `from..to` of sixteen IPv6 octets in hexadecimal,
/// joined by `:`.
fn push_hex_segments(out: &mut Vec<u8>, o: &[u8; 16], from: usize, to: usize)
    requires
        from <= to <= 8,
    ensures
        final(out)@ == old(out)@ + ascii_bytes(hex_join(segments(o@).subrange(from as int, to as int))),
{
    let ghost segs = segments(o@);
    let mut j = from;
    while j < to
        invariant
            segs == segments(o@),
            from <= j <= to <= 8,
            out@ == old(out)@ + ascii_bytes(hex_join(segs.subrange(from as int, j as int))),
        decreases to - j,
    {
        let seg = (o[2 * j] as u16) * 256 + (o[2 * j + 1] as u16);
        assert(seg as nat == segs[j as int]);
        let ghost before = out@;
        if j > from {
            out.push(58);
        }
        push_hex(out, seg);
        proof {
            let sub = segs.subrange(from as int, j + 1);
            assert(sub.drop_last() =~= segs.subrange(from as int, j as int));
            if j == from {
                assert(hex_join(segs.subrange(from as int, j as int)) =~= Seq::<char>::empty());
                assert(out@ =~= old(out)@ + ascii_bytes(hex_join(sub)));
            } else {
                assert(out@ =~= old(out)@ + ascii_bytes(hex_join(sub)));
            }
        }
        j = j + 1;
    }
}

/// Append RFC 5952 IPv6 text.
fn push_ipv6(out: &mut Vec<u8>, o: &[u8; 16])
    ensures
        final(out)@ == old(out)@ + ascii_bytes(ipv6_text(o@)),
{
    if octets_are_ipv4_mapped(o) {
        out.push(58);
        out.push(58);
        out.push(102);
        out.push(102);
        out.push(102);
        out.push(102);
        out.push(58);
        let v4 = [o[12], o[13], o[14], o[15]];
        push_ipv4(out, &v4);
        assert(v4@ =~= o@.subrange(12, 16));
        assert(final(out)@ =~= old(out)@ + ascii_bytes(ipv6_text(o@)));
    } else {
        let (s, l) = find_longest_zero_run(o);
        if l > 1 {
            push_hex_segments(out, o, 0, s);
            out.push(58);
            out.push(58);
            push_hex_segments(out, o, s + l, 8);
        } else {
            push_hex_segments(out, o, 0, 8);
            assert(segments(o@).subrange(0, 8) =~= segments(o@));
        }
        assert(final(out)@ =~= old(out)@ + ascii_bytes(ipv6_text(o@)));
    }
}

/// The string whose characters are the ASCII text `t` with bytes `bytes`.
fn ascii_string(bytes: &[u8], Ghost(t): Ghost<Seq<char>>) -> (r: String)
    requires
        bytes@ == ascii_bytes(t),
        all_ascii(t),
    ensures
        r@ == t,
{
    proof {
        lemma_ascii_bytes_utf8(t);
        encode_utf8_valid_utf8(t);
        encode_utf8_decode_utf8(t);
    }
    match utf8_str(bytes) {
        Some(text) => text.to_owned(),
        None => {
            assert(false);
            String::new()
        },
    }
}

/// Decimal text of a number.
pub fn decimal_string(n: u32) -> (r: String)
    ensures
        r@ == decimal_text(n as nat),
{
    let mut out: Vec<u8> = Vec::new();
    push_decimal(&mut out, n);
    proof {
        lemma_decimal_ascii(n as nat);
        assert(out@ =~= ascii_bytes(decimal_text(n as nat)));
    }
    ascii_string(out.as_slice(), Ghost(decimal_text(n as nat)))
}

/// Dotted-quad text of IPv4 octets.
pub fn ipv4_string(o: [u8; 4]) -> (r: String)
    ensures
        r@ == ipv4_text(o@),
{
    let mut out: Vec<u8> = Vec::new();
    push_ipv4(&mut out, &o);
    proof {
        lemma_ipv4_ascii(o@);
        assert(out@ =~= ascii_bytes(ipv4_text(o@)));
    }
    ascii_string(out.as_slice(), Ghost(ipv4_text(o@)))
}

proof fn lemma_ipv6_ascii(o: Seq<u8>)
    requires
        o.len() == 16,
    ensures
        all_ascii(ipv6_text(o)),
{
    if is_ipv4_mapped(o) {
        lemma_ipv4_ascii(o.subrange(12, 16));
    } else {
        let segs = segments(o);
        let (s, l) = longest_zero_run(segs);
        lemma_hex_join_ascii(segs);
        lemma_hex_join_ascii(segs.subrange(0, s));
        lemma_hex_join_ascii(segs.subrange(s + l, 8));
    }
}

/// RFC 5952 text of IPv6 octets, as `std` writes an `Ipv6Addr`.
pub fn ipv6_string(o: [u8; 16]) -> (r: String)
    ensures
        r@ == ipv6_text(o@),
{
    let mut out: Vec<u8> = Vec::new();
    push_ipv6(&mut out, &o);
    proof {
        lemma_ipv6_ascii(o@);
        assert(out@ =~= ascii_bytes(ipv6_text(o@)));
    }
    ascii_string(out.as_slice(), Ghost(ipv6_text(o@)))
}

impl SocketAddress {
    /// Text of this socket address, as `std` writes a `SocketAddr`:
    /// `a.b.c.d:port`, `[ip]:port`, or `[ip%scope]:port`.
    pub fn to_string(&self) -> (r: String)
        ensures
            r@ == socket_text(self@),
    {
        let mut out: Vec<u8> = Vec::new();
        match self {
            SocketAddress::V4 { ip, port } => {
                push_ipv4(&mut out, ip);
                out.push(58);
                push_decimal(&mut out, *port as u32);
                proof {
                    lemma_ipv4_ascii(ip@);
                    lemma_decimal_ascii(*port as nat);
                    assert(out@ =~= ascii_bytes(socket_text(self@)));
                }
            },
            SocketAddress::V6 { ip, port, scope_id, .. } => {
                out.push(91);
                push_ipv6(&mut out, ip);
                if *scope_id != 0 {
                    out.push(37);
                    push_decimal(&mut out, *scope_id);
                }
                out.push(93);
                out.push(58);
                push_decimal(&mut out, *port as u32);
                proof {
                    lemma_ipv6_ascii(ip@);
                    lemma_decimal_ascii(*port as nat);
                    lemma_decimal_ascii(*scope_id as nat);
                    assert(out@ =~= ascii_bytes(socket_text(self@)));
                }
            },
        }
        ascii_string(out.as_slice(), Ghost(socket_text(self@)))
    }
}

} // verus!
