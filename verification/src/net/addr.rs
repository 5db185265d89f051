//! Socket addresses as plain values.

use vstd::prelude::*;

verus! {

/// An IP address: the 32 bits of an IPv4 address or the 128 bits of an IPv6 one.
#[derive(Clone, Copy, Debug, PartialEq, Eq, Structural)]
pub enum IpAddress {
    V4(u32),
    V6(u128),
}

/// An IP address and a port.
#[derive(Clone, Copy, Debug, PartialEq, Eq, Structural)]
pub struct SocketAddress {
    pub ip: IpAddress,
    pub port: u16,
}

impl SocketAddress {
    /// The address made of `ip` and `port`.
    pub fn new(ip: IpAddress, port: u16) -> (addr: SocketAddress)
        ensures
            addr == (SocketAddress { ip, port }),
    {
        SocketAddress { ip, port }
    }

    /// The IPv6 wildcard address `[::]` with the given port.
    pub fn unspecified(port: u16) -> (addr: SocketAddress)
        ensures
            addr == (SocketAddress { ip: IpAddress::V6(0), port }),
    {
        SocketAddress { ip: IpAddress::V6(0), port }
    }
}

} // verus!
