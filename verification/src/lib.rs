//! Safe, verified model of the nftables rule layer: tables, chains, rules and
//! the netlink messages that carry them.
//!
//! The crate mirrors the classic libnftnl object lifecycle. Every native
//! allocation is modelled by [`handle::Allocator`], which hands out unique
//! handle identities and can run out, exactly as the C allocator can return
//! null. Rules are built inside a [`chain::Chain`] of a [`table::Table`],
//! mutated through setters, serialized into netlink messages with exact
//! header, flag and sequence semantics ([`wire`]), and read back from query
//! responses ([`query`]).

use vstd::prelude::*;

pub mod chain;
pub mod expr;
pub mod handle;
pub mod laws;
pub mod query;
pub mod rule;
pub mod table;
pub mod wire;

verus! {

/// The operation a netlink message asks the kernel to perform on an object.
#[derive(Clone, Copy, Debug, PartialEq, Eq, Structural)]
pub enum MsgType {
    /// Create the object.
    Add,
    /// Delete the object.
    Del,
}

/// The address family a table is scoped to.
#[derive(Clone, Copy, Debug, PartialEq, Eq, Structural)]
pub enum ProtoFamily {
    /// Both IPv4 and IPv6.
    Inet,
    /// IPv4 only.
    Ipv4,
    /// Address resolution protocol.
    Arp,
    /// Ingress hooks on network devices.
    NetDev,
    /// Bridged traffic.
    Bridge,
    /// IPv6 only.
    Ipv6,
}

impl ProtoFamily {
    /// The numeric family value carried in message headers.
    pub open spec fn spec_value(self) -> u16 {
        match self {
            ProtoFamily::Inet => 1,
            ProtoFamily::Ipv4 => 2,
            ProtoFamily::Arp => 3,
            ProtoFamily::NetDev => 5,
            ProtoFamily::Bridge => 7,
            ProtoFamily::Ipv6 => 10,
        }
    }

    /// Returns the numeric family value carried in message headers.
    pub fn value(self) -> (r: u16)
        ensures
            r == self.spec_value(),
    {
        match self {
            ProtoFamily::Inet => 1,
            ProtoFamily::Ipv4 => 2,
            ProtoFamily::Arp => 3,
            ProtoFamily::NetDev => 5,
            ProtoFamily::Bridge => 7,
            ProtoFamily::Ipv6 => 10,
        }
    }
}

/// Every way an operation of this crate can fail.
///
/// No failure is ever retried internally and no operation delivers a partial
/// result alongside an error.
#[derive(Clone, Copy, Debug, PartialEq, Eq, Structural)]
pub enum Error {
    /// The native allocator returned a null handle.
    AllocationFailed,
    /// The native parse routine rejected a response message; carries the
    /// negative code it returned.
    ParseFailed(i32),
    /// The transport failed; surfaced verbatim by the caller that drives it.
    TransportFailed,
}

} // verus!
