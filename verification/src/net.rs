//! IPv4 addresses and ports, as text and as numbers.

use vstd::prelude::*;
use vstd::string::*;
use crate::text::{
    all_digits,
    decimal,
    digits_value,
    from_chars,
    is_digit,
    lemma_decimal_round_trip,
    lemma_decimal_shape,
    parse_decimal,
    parse_unsigned,
    push_decimal,
    to_chars,
};
use crate::words::{lemma_one_more_piece, lemma_one_piece, pieces, rows, split_on};

verus! {

/// An IPv4 address: its four octets, the first first.
#[derive(Debug, Clone, Copy, PartialEq, Eq, Structural)]
pub struct Ipv4 {
    pub a: u8,
    pub b: u8,
    pub c: u8,
    pub d: u8,
}

/// The octet that `part` denotes in dotted notation: one to three digits, no
/// leading zero but for zero itself, at most 255.
pub open spec fn octet_of(part: Seq<char>) -> Option<u8> {
    if 1 <= part.len() <= 3 && all_digits(part) && (part.len() == 1 || part[0] != '0')
        && digits_value(part) <= 255 {
        Some(digits_value(part) as u8)
    } else {
        None
    }
}

/// The address that `s` denotes in dotted notation: four octets with a dot
/// between each two.
pub open spec fn ipv4_of(s: Seq<char>) -> Option<Ipv4> {
    let parts = pieces(s, '.');
    if parts.len() == 4 && octet_of(parts[0]) is Some && octet_of(parts[1]) is Some && octet_of(
        parts[2],
    ) is Some && octet_of(parts[3]) is Some {
        Some(
            Ipv4 {
                a: octet_of(parts[0])->0,
                b: octet_of(parts[1])->0,
                c: octet_of(parts[2])->0,
                d: octet_of(parts[3])->0,
            },
        )
    } else {
        None
    }
}

/// The dotted notation of `ip`.
pub open spec fn ipv4_text(ip: Ipv4) -> Seq<char> {
    decimal(ip.a as nat) + seq!['.'] + decimal(ip.b as nat) + seq!['.'] + decimal(ip.c as nat)
        + seq!['.'] + decimal(ip.d as nat)
}

/// `host`, a colon, and the port in decimal.
pub open spec fn host_port_text(host: Seq<char>, port: u16) -> Seq<char> {
    host + seq![':'] + decimal(port as nat)
}

/// The address of the HTTP service at `host` and `port`.
pub open spec fn http_url(host: Seq<char>, port: u16) -> Seq<char> {
    "http://"@ + host_port_text(host, port)
}

fn parse_octet(part: &[char]) -> (r: Option<u8>)
    ensures
        r == octet_of(part@),
{
    let n = part.len();
    if n < 1 || n > 3 {
        return None;
    }
    let first = part[0];
    if !('0' <= first && first <= '9') {
        return None;
    }
    if n > 1 && first == '0' {
        return None;
    }
    proof {
        assert(part@.subrange(0, n as int) =~= part@);
    }
    match parse_decimal(part, 255) {
        Some(v) => Some(v as u8),
        None => None,
    }
}

/// Reads an IPv4 address in dotted notation.
pub fn parse_ipv4(s: &[char]) -> (r: Option<Ipv4>)
    ensures
        r == ipv4_of(s@),
{
    let parts = split_on(s, '.');
    if parts.len() != 4 {
        return None;
    }
    assert(rows(parts@)[0] == parts@[0]@ && rows(parts@)[1] == parts@[1]@ && rows(parts@)[2]
        == parts@[2]@ && rows(parts@)[3] == parts@[3]@);
    let a = parse_octet(parts[0].as_slice());
    let b = parse_octet(parts[1].as_slice());
    let c = parse_octet(parts[2].as_slice());
    let d = parse_octet(parts[3].as_slice());
    match (a, b, c, d) {
        (Some(a), Some(b), Some(c), Some(d)) => Some(Ipv4 { a, b, c, d }),
        _ => None,
    }
}

/// Appends the dotted notation of `ip` to `out`.
pub fn push_ipv4(out: &mut Vec<char>, ip: Ipv4)
    ensures
        final(out)@ == old(out)@ + ipv4_text(ip),
{
    push_decimal(out, ip.a as u64);
    out.push('.');
    push_decimal(out, ip.b as u64);
    out.push('.');
    push_decimal(out, ip.c as u64);
    out.push('.');
    push_decimal(out, ip.d as u64);
    proof {
        assert(final(out)@ =~= old(out)@ + ipv4_text(ip));
    }
}

/// The dotted notation of `ip`.
pub fn format_ipv4(ip: Ipv4) -> (out: String)
    ensures
        out@ == ipv4_text(ip),
{
    let mut buf: Vec<char> = Vec::new();
    push_ipv4(&mut buf, ip);
    proof {
        assert(Seq::<char>::empty() + ipv4_text(ip) =~= ipv4_text(ip));
    }
    from_chars(buf.as_slice())
}

/// `host`, a colon, and `port`.
pub fn format_host_port(host: &str, port: u16) -> (out: String)
    ensures
        out@ == host_port_text(host@, port),
{
    let mut buf = to_chars(host);
    buf.push(':');
    push_decimal(&mut buf, port as u64);
    from_chars(buf.as_slice())
}

/// The address of the HTTP service at `host` and `port`.
pub fn format_http_url(host: &str, port: u16) -> (out: String)
    ensures
        out@ == http_url(host@, port),
{
    let mut out = String::from_str("http://");
    out.append(format_host_port(host, port).as_str());
    out
}

/// The port that a listening address names: what follows its first colon,
/// up to the next, read as a number of at most 65535; `fallback` where there
/// is no colon or no such number.
pub open spec fn port_of(address: Seq<char>, fallback: u16) -> u16 {
    let parts = pieces(address, ':');
    if parts.len() >= 2 {
        match parse_unsigned(parts[1], 65535) {
            Some(v) => v as u16,
            None => fallback,
        }
    } else {
        fallback
    }
}

/// Reads the port out of a listening address.
pub fn listen_port(address: &str, fallback: u16) -> (port: u16)
    ensures
        port == port_of(address@, fallback),
{
    let chars = to_chars(address);
    let parts = split_on(chars.as_slice(), ':');
    if parts.len() >= 2 {
        assert(rows(parts@)[1] == parts@[1]@);
        match parse_decimal(parts[1].as_slice(), 65535) {
            Some(v) => v as u16,
            None => fallback,
        }
    } else {
        fallback
    }
}


proof fn lemma_octet_is_read_back(n: u8)
    ensures
        octet_of(decimal(n as nat)) == Some(n),
        forall|i: int| 0 <= i < decimal(n as nat).len() ==> decimal(n as nat)[i] != '.',
{
    lemma_decimal_shape(n as nat);
    lemma_decimal_round_trip(n as nat);
    assert forall|i: int| 0 <= i < decimal(n as nat).len() implies decimal(n as nat)[i]
        != '.' by {
        assert(is_digit(decimal(n as nat)[i]));
    }
}

/// An address that is written in dotted notation is read back as itself.
pub proof fn lemma_ipv4_is_read_back(ip: Ipv4)
    ensures
        ipv4_of(ipv4_text(ip)) == Some(ip),
{
    let a = decimal(ip.a as nat);
    let b = decimal(ip.b as nat);
    let c = decimal(ip.c as nat);
    let d = decimal(ip.d as nat);
    lemma_octet_is_read_back(ip.a);
    lemma_octet_is_read_back(ip.b);
    lemma_octet_is_read_back(ip.c);
    lemma_octet_is_read_back(ip.d);
    lemma_one_piece(a, '.');
    lemma_one_more_piece(a, b, '.');
    lemma_one_more_piece(a.push('.') + b, c, '.');
    lemma_one_more_piece((a.push('.') + b).push('.') + c, d, '.');
    assert(ipv4_text(ip) =~= ((a.push('.') + b).push('.') + c).push('.') + d);
    let parts = pieces(ipv4_text(ip), '.');
    assert(parts =~= seq![a, b, c, d]);
}

} // verus!
