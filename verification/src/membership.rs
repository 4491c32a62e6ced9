//! The multicast membership manager: which group a socket joins for an
//! interface, and through which interface its multicast datagrams leave.

use crate::address::{mdns_group, mdns_group_of, IpAddress};
use crate::interface::{Interface, InterfaceId};
use crate::socket::{SocketConfig, SocketOp};
use vstd::prelude::*;

verus! {

/// How multicast names an interface of the host: by the interface's local
/// address for IPv4, by its index for IPv6.
#[derive(Clone, Copy, Debug, PartialEq, Eq, Hash, Structural)]
pub enum Route {
    V4 { interface: u32 },
    V6 { index: u32 },
}

/// Membership of a multicast group on one interface.
#[derive(Clone, Copy, Debug, PartialEq, Eq, Hash, Structural)]
pub struct Membership {
    pub group: IpAddress,
    pub on: Route,
}

/// How multicast names the interface: an IPv4 interface by its address, an
/// IPv6 interface by its index, or by 0 where the host reported none.
pub open spec fn route_for(id: InterfaceId) -> Route {
    match id.addr {
        IpAddress::V4(local) => Route::V4 { interface: local },
        IpAddress::V6(_) => Route::V6 { index: id.scope() },
    }
}

/// The membership that serves an interface: the mDNS group of the address
/// family, joined on that interface.
pub open spec fn membership_for(id: InterfaceId) -> Membership {
    Membership { group: mdns_group(id.addr.family()), on: route_for(id) }
}

/// What is still to be done to a bound socket so that it serves the
/// interface: first the join, then the outbound interface; `None` once both
/// are in place.
pub open spec fn membership_step(config: SocketConfig, id: InterfaceId) -> Option<SocketOp> {
    if config.joined != Some(membership_for(id)) {
        Some(SocketOp::Join(membership_for(id)))
    } else if config.outbound != Some(route_for(id)) {
        Some(SocketOp::Outbound(route_for(id)))
    } else {
        None
    }
}

/// Computes [`route_for`].
pub fn route_of(interface: &Interface) -> (route: Route)
    ensures
        route == route_for(interface@),
{
    match interface.addr {
        IpAddress::V4(local) => Route::V4 { interface: local },
        IpAddress::V6(_) => Route::V6 { index: interface.scope() },
    }
}

/// Computes [`membership_for`].
pub fn membership_of(interface: &Interface) -> (membership: Membership)
    ensures
        membership == membership_for(interface@),
{
    Membership { group: mdns_group_of(interface.family()), on: route_of(interface) }
}

/// Computes [`membership_step`].
pub fn next_membership_step(config: &SocketConfig, interface: &Interface) -> (step: Option<SocketOp>)
    ensures
        step == membership_step(*config, interface@),
{
    let membership = membership_of(interface);
    let route = route_of(interface);
    let joined = match config.joined {
        Some(held) => held == membership,
        None => false,
    };
    let routed = match config.outbound {
        Some(held) => held == route,
        None => false,
    };
    if !joined {
        Some(SocketOp::Join(membership))
    } else if !routed {
        Some(SocketOp::Outbound(route))
    } else {
        None
    }
}

} // verus!
