//! Network addresses as plain values.
use vstd::prelude::*;

verus! {

/// An IP address of either version, by its parts in network order.
#[derive(Clone, Copy, Debug, PartialEq, Eq, Hash)]
pub enum IpAddress {
    /// The four octets of an IPv4 address.
    V4([u8; 4]),
    /// The eight 16-bit segments of an IPv6 address.
    V6([u16; 8]),
}

/// The address of one end of a datagram's path: an IP address and a port,
/// and for IPv6 the flow information and the scope that go with them.
#[derive(Clone, Copy, Debug, PartialEq, Eq, Hash)]
pub enum SocketAddress {
    /// An IPv4 address by its four octets, and a port.
    V4 { octets: [u8; 4], port: u16 },
    /// An IPv6 address by its eight segments, a port, the flow information
    /// and the scope.
    V6 { segments: [u16; 8], port: u16, flowinfo: u32, scope_id: u32 },
}

impl SocketAddress {
    /// The IPv4 address `octets` with `port`.
    pub fn v4(octets: [u8; 4], port: u16) -> (address: SocketAddress)
        ensures
            address == (SocketAddress::V4 { octets, port }),
    {
        SocketAddress::V4 { octets, port }
    }

    /// The IPv6 address `segments` with `port`, flow information 0 and
    /// scope 0.
    pub fn v6(segments: [u16; 8], port: u16) -> (address: SocketAddress)
        ensures
            address == (SocketAddress::V6 { segments, port, flowinfo: 0, scope_id: 0 }),
    {
        SocketAddress::V6 { segments, port, flowinfo: 0, scope_id: 0 }
    }

    /// The IP address without the port.
    pub open spec fn spec_ip(self) -> IpAddress {
        match self {
            SocketAddress::V4 { octets, .. } => IpAddress::V4(octets),
            SocketAddress::V6 { segments, .. } => IpAddress::V6(segments),
        }
    }

    /// The port without the IP address.
    pub open spec fn spec_port(self) -> u16 {
        match self {
            SocketAddress::V4 { port, .. } => port,
            SocketAddress::V6 { port, .. } => port,
        }
    }

    /// The IP address without the port.
    #[verifier::when_used_as_spec(spec_ip)]
    pub fn ip(self) -> (ip: IpAddress)
        ensures
            ip == self.spec_ip(),
    {
        match self {
            SocketAddress::V4 { octets, .. } => IpAddress::V4(octets),
            SocketAddress::V6 { segments, .. } => IpAddress::V6(segments),
        }
    }

    /// The port without the IP address.
    #[verifier::when_used_as_spec(spec_port)]
    pub fn port(self) -> (port: u16)
        ensures
            port == self.spec_port(),
    {
        match self {
            SocketAddress::V4 { port, .. } => port,
            SocketAddress::V6 { port, .. } => port,
        }
    }
}

} // verus!
