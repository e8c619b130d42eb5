//! Plain-value model of IP addresses and transport endpoints.
//!
//! Sessions are transport connections, so a bare address is never enough:
//! an endpoint always pairs an address with an explicit port.

use vstd::prelude::*;

verus! {

/// A numeric IP address: four octets for IPv4, eight 16-bit groups for
/// IPv6, most significant first.
#[derive(Copy, Clone, PartialEq, Eq, Structural, Debug)]
pub enum IpAddress {
    V4(u8, u8, u8, u8),
    V6(u16, u16, u16, u16, u16, u16, u16, u16),
}

/// An IP address paired with a port number.
#[derive(Copy, Clone, PartialEq, Eq, Structural, Debug)]
pub struct Endpoint {
    pub address: IpAddress,
    pub port: u16,
}

impl Endpoint {
    /// Pairs an address with a port.
    pub fn new(address: IpAddress, port: u16) -> (r: Endpoint)
        ensures
            r == (Endpoint { address, port }),
    {
        Endpoint { address, port }
    }
}

} // verus!
