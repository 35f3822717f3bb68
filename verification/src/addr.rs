//! IP and socket addresses of simulated nodes.

use vstd::prelude::*;

verus! {

/// An IP address: version 4 as its 32 bits (first octet highest), or
/// version 6 as its 128 bits.
#[derive(Clone, Copy, Debug, PartialEq, Eq, Structural, Hash)]
pub enum IpAddr {
    V4(u32),
    V6(u128),
}

/// The IPv4 loopback address, 127.0.0.1.
pub const IPV4_LOCALHOST: u32 = 0x7f00_0001;

/// Whether `ip` is the unspecified address (0.0.0.0 or ::).
pub open spec fn spec_is_unspecified(ip: IpAddr) -> bool {
    match ip {
        IpAddr::V4(a) => a == 0,
        IpAddr::V6(a) => a == 0,
    }
}

/// Whether `ip` is a loopback address (127.0.0.0/8 or ::1).
pub open spec fn spec_is_loopback(ip: IpAddr) -> bool {
    match ip {
        IpAddr::V4(a) => a / 0x100_0000 == 127,
        IpAddr::V6(a) => a == 1,
    }
}

impl IpAddr {
    /// Returns true for the unspecified address.
    pub fn is_unspecified(&self) -> (b: bool)
        ensures
            b == spec_is_unspecified(*self),
    {
        match self {
            IpAddr::V4(a) => *a == 0,
            IpAddr::V6(a) => *a == 0,
        }
    }

    /// Returns true for a loopback address.
    pub fn is_loopback(&self) -> (b: bool)
        ensures
            b == spec_is_loopback(*self),
    {
        match self {
            IpAddr::V4(a) => *a / 0x100_0000 == 127,
            IpAddr::V6(a) => *a == 1,
        }
    }

    /// Whether two addresses are the same.
    pub fn same(&self, other: &IpAddr) -> (b: bool)
        ensures
            b == (*self == *other),
    {
        match (self, other) {
            (IpAddr::V4(a), IpAddr::V4(b)) => *a == *b,
            (IpAddr::V6(a), IpAddr::V6(b)) => *a == *b,
            _ => false,
        }
    }
}

/// An IP address and a port.
#[derive(Clone, Copy, Debug, PartialEq, Eq, Structural, Hash)]
pub struct SocketAddr {
    pub ip: IpAddr,
    pub port: u16,
}

impl SocketAddr {
    /// A socket address from an IP address and a port.
    pub fn new(ip: IpAddr, port: u16) -> (a: SocketAddr)
        ensures
            a.ip == ip,
            a.port == port,
    {
        SocketAddr { ip, port }
    }

    /// Whether two socket addresses are the same.
    pub fn same(&self, other: &SocketAddr) -> (b: bool)
        ensures
            b == (*self == *other),
    {
        self.ip.same(&other.ip) && self.port == other.port
    }
}

} // verus!
