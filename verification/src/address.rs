//! Addresses as plain integers, and the fixed mDNS transport addressing.
//!
//! An IPv4 address is its 32 bits in host order (`192.168.1.10` is
//! `0xC0A8_010A`); an IPv6 address is its 128 bits in the same way.

use vstd::prelude::*;

verus! {

/// UDP port of multicast DNS.
pub const MDNS_PORT: u16 = 5353;

/// The IPv4 mDNS group, `224.0.0.251`.
pub const MDNS_ADDR_V4: u32 = 0xE000_00FB;

/// The IPv6 mDNS group, `ff02::fb`.
pub const MDNS_ADDR_V6: u128 = 0xFF02_0000_0000_0000_0000_0000_0000_00FB;

/// Address family of an interface address and of the socket that serves it.
#[derive(Clone, Copy, Debug, PartialEq, Eq, Hash, Structural)]
pub enum Family {
    V4,
    V6,
}

/// An IP address of either family.
#[derive(Clone, Copy, Debug, PartialEq, Eq, Hash, Structural)]
pub enum IpAddress {
    V4(u32),
    V6(u128),
}

/// An IP address together with a UDP port.
#[derive(Clone, Copy, Debug, PartialEq, Eq, Hash, Structural)]
pub struct SocketAddress {
    pub ip: IpAddress,
    pub port: u16,
}

/// The 32 bits of the IPv4 address `a.b.c.d`.
pub open spec fn ipv4_bits(a: u8, b: u8, c: u8, d: u8) -> int {
    a * 0x100_0000 + b * 0x1_0000 + c * 0x100 + d
}

/// The wildcard ("unspecified") address of a family: `0.0.0.0` or `::`.
pub open spec fn wildcard(family: Family) -> IpAddress {
    match family {
        Family::V4 => IpAddress::V4(0),
        Family::V6 => IpAddress::V6(0),
    }
}

/// The mDNS multicast group of a family.
pub open spec fn mdns_group(family: Family) -> IpAddress {
    match family {
        Family::V4 => IpAddress::V4(MDNS_ADDR_V4),
        Family::V6 => IpAddress::V6(MDNS_ADDR_V6),
    }
}

/// Where a socket of the given family is bound: the wildcard address on the
/// mDNS port.
pub open spec fn bind_address(family: Family) -> SocketAddress {
    SocketAddress { ip: wildcard(family), port: MDNS_PORT }
}

/// Where announcements of the given family are sent: the mDNS group on the
/// mDNS port.
pub open spec fn announce_address(family: Family) -> SocketAddress {
    SocketAddress { ip: mdns_group(family), port: MDNS_PORT }
}

impl IpAddress {
    /// The family that the address belongs to.
    pub open spec fn family_spec(&self) -> Family {
        match *self {
            IpAddress::V4(_) => Family::V4,
            IpAddress::V6(_) => Family::V6,
        }
    }

    /// Whether the address is a loopback address: anything in `127.0.0.0/8`,
    /// or `::1`.
    pub open spec fn is_loopback_spec(&self) -> bool {
        match *self {
            IpAddress::V4(bits) => 0x7F00_0000 <= bits <= 0x7FFF_FFFF,
            IpAddress::V6(bits) => bits == 1,
        }
    }

    /// The IPv4 address `a.b.c.d`.
    pub fn from_octets(a: u8, b: u8, c: u8, d: u8) -> (addr: IpAddress)
        ensures
            addr == IpAddress::V4(ipv4_bits(a, b, c, d) as u32),
            ipv4_bits(a, b, c, d) <= u32::MAX,
            addr.is_loopback_spec() <==> a == 127,
    {
        let high: u32 = (a as u32) * 0x100_0000 + (b as u32) * 0x1_0000;
        let low: u32 = (c as u32) * 0x100 + (d as u32);
        IpAddress::V4(high + low)
    }

    /// Computes [`IpAddress::family_spec`].
    #[verifier::when_used_as_spec(family_spec)]
    pub fn family(&self) -> (family: Family)
        ensures
            family == self.family_spec(),
    {
        match self {
            IpAddress::V4(_) => Family::V4,
            IpAddress::V6(_) => Family::V6,
        }
    }

    /// Computes [`IpAddress::is_loopback_spec`].
    #[verifier::when_used_as_spec(is_loopback_spec)]
    pub fn is_loopback(&self) -> (loopback: bool)
        ensures
            loopback == self.is_loopback_spec(),
    {
        match self {
            IpAddress::V4(bits) => 0x7F00_0000 <= *bits && *bits <= 0x7FFF_FFFF,
            IpAddress::V6(bits) => *bits == 1,
        }
    }
}

/// Computes [`wildcard`].
pub fn wildcard_of(family: Family) -> (addr: IpAddress)
    ensures
        addr == wildcard(family),
{
    match family {
        Family::V4 => IpAddress::V4(0),
        Family::V6 => IpAddress::V6(0),
    }
}

/// Computes [`mdns_group`].
pub fn mdns_group_of(family: Family) -> (addr: IpAddress)
    ensures
        addr == mdns_group(family),
{
    match family {
        Family::V4 => IpAddress::V4(MDNS_ADDR_V4),
        Family::V6 => IpAddress::V6(MDNS_ADDR_V6),
    }
}

/// Computes [`bind_address`].
pub fn bind_address_of(family: Family) -> (addr: SocketAddress)
    ensures
        addr == bind_address(family),
{
    SocketAddress { ip: wildcard_of(family), port: MDNS_PORT }
}

/// Computes [`announce_address`].
pub fn announce_address_of(family: Family) -> (addr: SocketAddress)
    ensures
        addr == announce_address(family),
{
    SocketAddress { ip: mdns_group_of(family), port: MDNS_PORT }
}

} // verus!
