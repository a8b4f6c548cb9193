//! Where a node can be reached.

use vstd::prelude::*;

verus! {

/// The address of a UDP peer, by its numbers.
#[derive(Clone, Copy, Debug, PartialEq, Eq, Structural)]
pub enum UdpAddr {
    /// An IPv4 address, as a big-endian number, and a port.
    V4 { ip: u32, port: u16 },
    /// An IPv6 address, as a big-endian number, a port, and the two further
    /// fields of a socket address.
    V6 { ip6: u128, port: u16, flowinfo: u32, scope_id: u32 },
}

/// Where the relay last heard from a node.
#[derive(Clone, Copy, Debug, PartialEq, Eq, Structural)]
pub enum Endpoint {
    /// The sender of a datagram.
    Udp(UdpAddr),
    /// A connection, by its number.
    Tcp(u64),
}

impl View for Endpoint {
    type V = Endpoint;

    open spec fn view(&self) -> Endpoint {
        *self
    }
}

} // verus!
