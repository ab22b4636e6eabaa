//! Addresses with a port, and the text of those of IPv4.

use vstd::prelude::*;
use crate::context::SourceIp;
use crate::text::{
    all_digits, chars_of, decimal_digits, digits_value, find_char, is_digit, lemma_decimal_digits,
    lemma_decimal_digits_shape, lemma_next_char_is, next_char, parse_decimal, push_decimal,
    push_text,
};

verus! {

/// An IPv4 address and a port.
#[derive(Debug, Clone, Copy, PartialEq, Eq)]
pub struct PeerAddr {
    /// The four octets, first to last.
    pub ip: [u8; 4],
    pub port: u16,
}

/// An address of either family and a port.
#[derive(Debug, Clone, Copy, PartialEq, Eq)]
pub struct RemoteAddr {
    pub ip: SourceIp,
    pub port: u16,
}

impl PeerAddr {
    /// The same address among those of either family.
    pub open spec fn remote(self) -> RemoteAddr {
        RemoteAddr { ip: SourceIp::V4(self.ip), port: self.port }
    }

    /// The same address among those of either family.
    pub fn as_remote(&self) -> (r: RemoteAddr)
        ensures
            r == self.remote(),
    {
        RemoteAddr { ip: SourceIp::V4(self.ip), port: self.port }
    }
}

/// The address in dotted decimal.
pub open spec fn ipv4_text(ip: [u8; 4]) -> Seq<char> {
    decimal_digits(ip[0] as nat) + "."@ + decimal_digits(ip[1] as nat) + "."@ + decimal_digits(
        ip[2] as nat,
    ) + "."@ + decimal_digits(ip[3] as nat)
}

/// The address in dotted decimal, a colon, and the port.
pub open spec fn addr_text(addr: PeerAddr) -> Seq<char> {
    ipv4_text(addr.ip) + ":"@ + decimal_digits(addr.port as nat)
}

/// Appends the address in dotted decimal.
pub fn push_ipv4(out: &mut Vec<char>, ip: [u8; 4])
    ensures
        final(out)@ == old(out)@ + ipv4_text(ip),
{
    push_decimal(out, ip[0] as u64);
    push_text(out, ".");
    push_decimal(out, ip[1] as u64);
    push_text(out, ".");
    push_decimal(out, ip[2] as u64);
    push_text(out, ".");
    push_decimal(out, ip[3] as u64);
}

/// Appends the address in dotted decimal, a colon, and the port.
pub fn push_addr(out: &mut Vec<char>, addr: PeerAddr)
    ensures
        final(out)@ == old(out)@ + addr_text(addr),
{
    push_ipv4(out, addr.ip);
    push_text(out, ":");
    push_decimal(out, addr.port as u64);
}

/// The octet that `s` writes: one to three digits, without a leading zero
/// before another digit, no greater than 255.
pub open spec fn octet_of(s: Seq<char>) -> Option<u8> {
    if 1 <= s.len() <= 3 && all_digits(s) && (s.len() == 1 || s[0] != '0') && digits_value(s)
        <= 255 {
        Some(digits_value(s) as u8)
    } else {
        None
    }
}

/// The address that `s` writes in dotted decimal: four octets with a dot
/// between each two, and nothing else.
pub open spec fn ipv4_of(s: Seq<char>) -> Option<[u8; 4]> {
    let d1 = next_char(s, '.', 0);
    let d2 = next_char(s, '.', d1 + 1);
    let d3 = next_char(s, '.', d2 + 1);
    if d1 < d2 < d3 < s.len() {
        match (
            octet_of(s.subrange(0, d1)),
            octet_of(s.subrange(d1 + 1, d2)),
            octet_of(s.subrange(d2 + 1, d3)),
            octet_of(s.subrange(d3 + 1, s.len() as int)),
        ) {
            (Some(a), Some(b), Some(c), Some(d)) => Some([a, b, c, d]),
            _ => None,
        }
    } else {
        None
    }
}

fn parse_octet(s: &[char], from: usize, to: usize) -> (r: Option<u8>)
    requires
        from <= to <= s.len(),
    ensures
        r == octet_of(s@.subrange(from as int, to as int)),
{
    if to - from < 1 || to - from > 3 {
        return None;
    }
    if s[from] == '+' {
        return None;
    }
    if to - from > 1 && s[from] == '0' {
        return None;
    }
    match parse_decimal(s, from, to, 255) {
        Some(n) => Some(n as u8),
        None => None,
    }
}

/// Parses `s[from..to]` as an address in dotted decimal.
pub(crate) fn parse_ipv4(s: &[char], from: usize, to: usize) -> (r: Option<[u8; 4]>)
    requires
        from <= to <= s.len(),
    ensures
        r == ipv4_of(s@.subrange(from as int, to as int)),
{
    let mut part: Vec<char> = Vec::new();
    crate::text::push_range(&mut part, s, from, to);
    let p = part.as_slice();
    let d1 = find_char(p, '.', 0);
    if d1 >= p.len() {
        return None;
    }
    let d2 = find_char(p, '.', d1 + 1);
    if d2 >= p.len() {
        return None;
    }
    let d3 = find_char(p, '.', d2 + 1);
    if d3 >= p.len() {
        return None;
    }
    let a = parse_octet(p, 0, d1);
    let b = parse_octet(p, d1 + 1, d2);
    let c = parse_octet(p, d2 + 1, d3);
    let d = parse_octet(p, d3 + 1, p.len());
    match (a, b, c, d) {
        (Some(a), Some(b), Some(c), Some(d)) => Some([a, b, c, d]),
        _ => None,
    }
}

/// The address that a text writes in dotted decimal, if it writes one.
pub fn parse_ipv4_text(text: &str) -> (r: Option<[u8; 4]>)
    ensures
        r == ipv4_of(text@),
{
    let c = chars_of(text);
    assert(c@.subrange(0, c@.len() as int) =~= c@);
    parse_ipv4(c.as_slice(), 0, c.len())
}

/// The decimal writing of an octet is read back as that octet.
pub proof fn lemma_octet_round_trip(n: u8)
    ensures
        octet_of(decimal_digits(n as nat)) == Some(n),
        forall|i: int|
            0 <= i < decimal_digits(n as nat).len() ==> is_digit(
                #[trigger] decimal_digits(n as nat)[i],
            ),
{
    lemma_decimal_digits(n as nat);
    lemma_decimal_digits_shape(n as nat);
}

/// The dotted decimal writing of an address is read back as that address,
/// and holds no colon.
pub proof fn lemma_ipv4_round_trip(ip: [u8; 4])
    ensures
        ipv4_of(ipv4_text(ip)) == Some(ip),
        forall|i: int| 0 <= i < ipv4_text(ip).len() ==> #[trigger] ipv4_text(ip)[i] != ':',
{
    reveal_strlit(".");
    let a = decimal_digits(ip[0] as nat);
    let b = decimal_digits(ip[1] as nat);
    let c = decimal_digits(ip[2] as nat);
    let d = decimal_digits(ip[3] as nat);
    let dot = "."@;
    let s = ipv4_text(ip);
    lemma_octet_round_trip(ip[0]);
    lemma_octet_round_trip(ip[1]);
    lemma_octet_round_trip(ip[2]);
    lemma_octet_round_trip(ip[3]);
    let d1 = a.len() as int;
    let d2 = d1 + 1 + b.len();
    let d3 = d2 + 1 + c.len();
    assert(s.len() == d3 + 1 + d.len());
    assert forall|j: int| 0 <= j < s.len() implies (if j == d1 || j == d2 || j == d3 {
        s[j] == '.'
    } else {
        is_digit(#[trigger] s[j])
    }) by {
        if j < d1 {
            assert(s[j] == a[j]);
        } else if j == d1 {
            assert(s[j] == dot[0]);
        } else if j < d2 {
            assert(s[j] == b[j - d1 - 1]);
        } else if j == d2 {
            assert(s[j] == dot[0]);
        } else if j < d3 {
            assert(s[j] == c[j - d2 - 1]);
        } else if j == d3 {
            assert(s[j] == dot[0]);
        } else {
            assert(s[j] == d[j - d3 - 1]);
        }
    }
    assert forall|i: int| 0 <= i < s.len() implies #[trigger] s[i] != ':' by {
        if !(i == d1 || i == d2 || i == d3) {
            assert(is_digit(s[i]));
        }
    }
    assert(forall|j: int| 0 <= j < d1 ==> s[j] != '.') by {
        assert forall|j: int| 0 <= j < d1 implies s[j] != '.' by {
            assert(is_digit(s[j]));
        }
    }
    assert(forall|j: int| d1 + 1 <= j < d2 ==> s[j] != '.') by {
        assert forall|j: int| d1 + 1 <= j < d2 implies s[j] != '.' by {
            assert(is_digit(s[j]));
        }
    }
    assert(forall|j: int| d2 + 1 <= j < d3 ==> s[j] != '.') by {
        assert forall|j: int| d2 + 1 <= j < d3 implies s[j] != '.' by {
            assert(is_digit(s[j]));
        }
    }
    assert(s[d1] == '.');
    assert(s[d2] == '.');
    assert(s[d3] == '.');
    lemma_next_char_is(s, '.', 0, d1);
    lemma_next_char_is(s, '.', d1 + 1, d2);
    lemma_next_char_is(s, '.', d2 + 1, d3);
    assert(s.subrange(0, d1) =~= a);
    assert(s.subrange(d1 + 1, d2) =~= b);
    assert(s.subrange(d2 + 1, d3) =~= c);
    assert(s.subrange(d3 + 1, s.len() as int) =~= d);
    assert([ip[0], ip[1], ip[2], ip[3]] =~= ip);
}

} // verus!
