//! The address of a peer, as plain numbers.

use vstd::prelude::*;

verus! {

/// A socket address: host and port, and for IPv6 the scope.
///
/// Two peers are the same peer exactly when their addresses are equal. The flow
/// label of an IPv6 address is no part of that and is not kept.
#[allow(inconsistent_fields)]
#[derive(Clone, Copy, Debug, PartialEq, Eq, Structural, Hash)]
pub enum PeerAddr {
    /// An IPv4 host, its four bytes read as one big-endian number.
    V4 { ip: u32, port: u16 },
    /// An IPv6 host, its sixteen bytes read as one big-endian number.
    V6 { ip: u128, port: u16, scope: u32 },
}

impl PeerAddr {
    /// The port of this address.
    pub fn port(&self) -> (p: u16)
        ensures
            p == match *self {
                PeerAddr::V4 { port, .. } => port,
                PeerAddr::V6 { port, .. } => port,
            },
    {
        match *self {
            PeerAddr::V4 { port, .. } => port,
            PeerAddr::V6 { port, .. } => port,
        }
    }
}

} // verus!
