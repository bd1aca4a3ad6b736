//! Transport addresses as plain numbers.

use vstd::prelude::*;

verus! {

/// An IP address, as the number that its octets spell in network order.
#[derive(Debug, Clone, Copy, PartialEq, Eq, Hash, Structural)]
pub enum IpAddress {
    V4(u32),
    V6(u128),
}

/// An IP address and a UDP port. The last two fields are zero for IPv4.
#[derive(Debug, Clone, Copy, PartialEq, Eq, Hash, Structural)]
pub struct SocketAddress {
    pub ip: IpAddress,
    pub port: u16,
    pub flow_info: u32,
    pub scope_id: u32,
}

/// `224.0.0.0`, where IPv4 multicast starts.
pub const V4_MULTICAST_FIRST: u32 = 0xE000_0000;

/// `239.255.255.255`, where IPv4 multicast ends.
pub const V4_MULTICAST_LAST: u32 = 0xEFFF_FFFF;

/// `255.255.255.255`.
pub const V4_BROADCAST: u32 = 0xFFFF_FFFF;

/// `169.254.0.0`, where IPv4 link-local starts.
pub const V4_LINK_LOCAL_FIRST: u32 = 0xA9FE_0000;

/// `169.254.255.255`, where IPv4 link-local ends.
pub const V4_LINK_LOCAL_LAST: u32 = 0xA9FE_FFFF;

/// `ff00::`, where IPv6 multicast starts.
pub const V6_MULTICAST_FIRST: u128 = 0xFF00_0000_0000_0000_0000_0000_0000_0000;

impl IpAddress {
    /// No address was given.
    pub open spec fn unspecified(self) -> bool {
        self == IpAddress::V4(0) || self == IpAddress::V6(0)
    }

    /// The address names a group.
    pub open spec fn multicast(self) -> bool {
        match self {
            IpAddress::V4(value) => V4_MULTICAST_FIRST <= value <= V4_MULTICAST_LAST,
            IpAddress::V6(value) => V6_MULTICAST_FIRST <= value,
        }
    }

    /// The address names every host, or only hosts on the same IPv4 link.
    pub open spec fn broadcast_or_link_local(self) -> bool {
        match self {
            IpAddress::V4(value) => value == V4_BROADCAST || V4_LINK_LOCAL_FIRST <= value
                <= V4_LINK_LOCAL_LAST,
            IpAddress::V6(_) => false,
        }
    }

    /// Whether no address was given.
    pub fn is_unspecified(self) -> (result: bool)
        ensures
            result == self.unspecified(),
    {
        match self {
            IpAddress::V4(value) => value == 0,
            IpAddress::V6(value) => value == 0,
        }
    }

    /// Whether the address names a group.
    pub fn is_multicast(self) -> (result: bool)
        ensures
            result == self.multicast(),
    {
        match self {
            IpAddress::V4(value) => V4_MULTICAST_FIRST <= value && value <= V4_MULTICAST_LAST,
            IpAddress::V6(value) => V6_MULTICAST_FIRST <= value,
        }
    }
}

impl SocketAddress {
    /// An address without flow information or scope.
    pub open spec fn at(ip: IpAddress, port: u16) -> SocketAddress {
        SocketAddress { ip, port, flow_info: 0, scope_id: 0 }
    }

    /// The address has a port and names one host that can be reached beyond
    /// the local IPv4 link.
    pub open spec fn usable(self) -> bool {
        &&& self.port != 0
        &&& !self.ip.unspecified()
        &&& !self.ip.multicast()
        &&& !self.ip.broadcast_or_link_local()
    }

    /// The two addresses have the same version.
    pub open spec fn same_family(self, other: SocketAddress) -> bool {
        self.ip is V4 == other.ip is V4
    }

    /// An address without flow information or scope.
    pub fn new(ip: IpAddress, port: u16) -> (address: SocketAddress)
        ensures
            address == SocketAddress::at(ip, port),
    {
        SocketAddress { ip, port, flow_info: 0, scope_id: 0 }
    }

    /// Whether this is an IPv4 address.
    pub fn is_ipv4(self) -> (result: bool)
        ensures
            result == self.ip is V4,
    {
        matches!(self.ip, IpAddress::V4(_))
    }

    /// Whether ICE may use this address.
    pub fn is_usable_address(self) -> (result: bool)
        ensures
            result == self.usable(),
    {
        if self.port == 0 {
            return false;
        }
        let excluded: bool = match self.ip {
            IpAddress::V4(value) => value == V4_BROADCAST || (V4_LINK_LOCAL_FIRST <= value && value
                <= V4_LINK_LOCAL_LAST),
            IpAddress::V6(_) => false,
        };
        !excluded && !self.ip.is_unspecified() && !self.ip.is_multicast()
    }
}

} // verus!
