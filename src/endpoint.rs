use vstd::prelude::*;

verus! {

/// An IP address, held as the integer whose big-endian bytes are its octets.
#[derive(Clone, Copy, Debug, PartialEq, Eq, Hash, Structural)]
pub enum IpAddress {
    V4(u32),
    V6(u128),
}

/// An IP address together with a port.
///
/// Port `0` in a predicate's source endpoint means "any port".
#[derive(Clone, Copy, Debug, PartialEq, Eq, Hash, Structural)]
pub struct Endpoint {
    pub ip: IpAddress,
    pub port: u16,
}

/// The integer whose big-endian bytes are `a.b.c.d`.
pub open spec fn ipv4_bits(a: u8, b: u8, c: u8, d: u8) -> int {
    a as int * 0x100_0000 + b as int * 0x1_0000 + c as int * 0x100 + d as int
}

impl Endpoint {
    /// The endpoint `a.b.c.d:port`.
    pub fn v4(a: u8, b: u8, c: u8, d: u8, port: u16) -> (r: Endpoint)
        ensures
            r.ip == IpAddress::V4(ipv4_bits(a, b, c, d) as u32),
            r.port == port,
    {
        let bits: u32 = a as u32 * 0x100_0000 + b as u32 * 0x1_0000 + c as u32 * 0x100 + d as u32;
        Endpoint { ip: IpAddress::V4(bits), port }
    }

    /// The endpoint whose address has the given integer form.
    pub fn new(ip: IpAddress, port: u16) -> (r: Endpoint)
        ensures
            r.ip == ip,
            r.port == port,
    {
        Endpoint { ip, port }
    }

    pub fn ip(&self) -> (r: IpAddress)
        ensures
            r == self.ip,
    {
        self.ip
    }

    pub fn port(&self) -> (r: u16)
        ensures
            r == self.port,
    {
        self.port
    }

    /// Whether `self` is a wildcard source: its port is `0`.
    pub open spec fn is_portless(&self) -> bool {
        self.port == 0
    }

    /// Whether `actual` is the endpoint that `self` expects as a source:
    /// only the address counts where `self` is portless, else both parts.
    pub open spec fn accepts_source(&self, actual: Endpoint) -> bool {
        if self.is_portless() {
            actual.ip == self.ip
        } else {
            actual == *self
        }
    }

    /// The executable form of [`Endpoint::accepts_source`].
    pub fn matches_source(&self, actual: &Endpoint) -> (r: bool)
        ensures
            r == self.accepts_source(*actual),
    {
        if self.port == 0 {
            actual.ip == self.ip
        } else {
            *actual == *self
        }
    }
}

} // verus!
