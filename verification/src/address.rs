//! Network endpoint identifiers.

use vstd::prelude::*;

verus! {

/// The host part of an endpoint, as the number its bytes spell in network
/// order.
#[derive(Clone, Copy, Debug, PartialEq, Eq, Hash, Structural)]
pub enum IpAddress {
    V4(u32),
    V6(u128),
}

/// A network endpoint: host and port. Two endpoints are the same exactly
/// when both parts are.
#[derive(Clone, Copy, Debug, PartialEq, Eq, Hash, Structural)]
pub struct Address {
    pub ip: IpAddress,
    pub port: u16,
}

/// The number that the four bytes of an IPv4 host spell, first byte highest.
pub open spec fn v4_bits(a: u8, b: u8, c: u8, d: u8) -> int {
    a * 16777216 + b * 65536 + c * 256 + d
}

impl Address {
    /// The endpoint `a.b.c.d:port`.
    pub fn v4(a: u8, b: u8, c: u8, d: u8, port: u16) -> (r: Address)
        ensures
            r.ip == IpAddress::V4(v4_bits(a, b, c, d) as u32),
            v4_bits(a, b, c, d) <= u32::MAX,
            r.port == port,
    {
        let a: u32 = a as u32;
        let b: u32 = b as u32;
        let c: u32 = c as u32;
        let d: u32 = d as u32;
        Address { ip: IpAddress::V4(a * 16777216 + b * 65536 + c * 256 + d), port }
    }

    /// The IPv6 endpoint whose host is `bits` read as sixteen bytes in
    /// network order.
    pub fn v6(bits: u128, port: u16) -> (r: Address)
        ensures
            r.ip == IpAddress::V6(bits),
            r.port == port,
    {
        Address { ip: IpAddress::V6(bits), port }
    }
}

} // verus!
