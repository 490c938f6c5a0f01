//! IPv4 socket endpoints of game connections, and their textual form.

use vstd::prelude::*;
use crate::text::{decimal, push_decimal, string_from_chars};

verus! {

/// An IPv4 address (most significant octet first) and a TCP port.
#[derive(Debug, Clone, Copy, PartialEq, Eq, Structural, Hash)]
pub struct Endpoint {
    pub ip: u32,
    pub port: u16,
}

/// Octet `k` (0 to 3, most significant first) of an address.
pub open spec fn octet(ip: u32, k: int) -> nat {
    if k == 0 {
        (ip / 16777216) as nat
    } else if k == 1 {
        ((ip / 65536) % 256) as nat
    } else if k == 2 {
        ((ip / 256) % 256) as nat
    } else {
        (ip % 256) as nat
    }
}

/// The textual form `a.b.c.d:port`.
pub open spec fn endpoint_text(e: Endpoint) -> Seq<char> {
    decimal(octet(e.ip, 0)) + seq!['.'] + decimal(octet(e.ip, 1)) + seq!['.'] + decimal(octet(e.ip, 2))
        + seq!['.'] + decimal(octet(e.ip, 3)) + seq![':'] + decimal(e.port as nat)
}

/// The octets of an address built from four bytes are those bytes.
proof fn lemma_octets(a: int, b: int, c: int, d: int)
    requires
        0 <= a < 256,
        0 <= b < 256,
        0 <= c < 256,
        0 <= d < 256,
    ensures
        (a * 16777216 + b * 65536 + c * 256 + d) / 16777216 == a,
        ((a * 16777216 + b * 65536 + c * 256 + d) / 65536) % 256 == b,
        ((a * 16777216 + b * 65536 + c * 256 + d) / 256) % 256 == c,
        (a * 16777216 + b * 65536 + c * 256 + d) % 256 == d,
{
    let x = a * 16777216 + b * 65536 + c * 256 + d;
    assert(x / 16777216 == a) by (nonlinear_arith)
        requires x == a * 16777216 + b * 65536 + c * 256 + d, 0 <= b * 65536 + c * 256 + d < 16777216, 0 <= a;
    assert(x / 65536 == a * 256 + b) by (nonlinear_arith)
        requires x == (a * 256 + b) * 65536 + c * 256 + d, 0 <= c * 256 + d < 65536, 0 <= a * 256 + b;
    assert((a * 256 + b) % 256 == b) by (nonlinear_arith)
        requires 0 <= b < 256, 0 <= a;
    assert(x / 256 == (a * 65536 + b * 256 + c)) by (nonlinear_arith)
        requires x == (a * 65536 + b * 256 + c) * 256 + d, 0 <= d < 256, 0 <= a * 65536 + b * 256 + c;
    assert((a * 65536 + b * 256 + c) % 256 == c) by (nonlinear_arith)
        requires 0 <= c < 256, 0 <= a * 256 + b, a * 65536 + b * 256 + c == (a * 256 + b) * 256 + c;
    assert(x % 256 == d) by (nonlinear_arith)
        requires x == (a * 65536 + b * 256 + c) * 256 + d, 0 <= d < 256, 0 <= a * 65536 + b * 256 + c;
}

impl Endpoint {
    /// The endpoint of four octets and a port.
    pub fn new(a: u8, b: u8, c: u8, d: u8, port: u16) -> (e: Endpoint)
        ensures
            octet(e.ip, 0) == a,
            octet(e.ip, 1) == b,
            octet(e.ip, 2) == c,
            octet(e.ip, 3) == d,
            e.port == port,
    {
        let ip: u32 = (a as u32) * 16777216 + (b as u32) * 65536 + (c as u32) * 256 + (d as u32);
        proof { lemma_octets(a as int, b as int, c as int, d as int); }
        Endpoint { ip, port }
    }

    /// The octets, most significant first.
    pub fn octets(&self) -> (o: [u8; 4])
        ensures
            o@ == seq![octet(self.ip, 0) as u8, octet(self.ip, 1) as u8, octet(self.ip, 2) as u8, octet(self.ip, 3) as u8],
    {
        [
            (self.ip / 16777216) as u8,
            ((self.ip / 65536) % 256) as u8,
            ((self.ip / 256) % 256) as u8,
            (self.ip % 256) as u8,
        ]
    }

    /// The textual form `a.b.c.d:port`.
    pub fn to_text(&self) -> (s: String)
        ensures
            s@ == endpoint_text(*self),
    {
        let mut v: Vec<char> = Vec::new();
        push_decimal(&mut v, (self.ip / 16777216) as u64);
        v.push('.');
        push_decimal(&mut v, ((self.ip / 65536) % 256) as u64);
        v.push('.');
        push_decimal(&mut v, ((self.ip / 256) % 256) as u64);
        v.push('.');
        push_decimal(&mut v, (self.ip % 256) as u64);
        v.push(':');
        push_decimal(&mut v, self.port as u64);
        assert(v@ =~= endpoint_text(*self));
        string_from_chars(&v)
    }
}

} // verus!
