//! The multicast socket factory: the operations that turn nothing into a
//! bound UDP socket, and the record of what has been done to a socket.

use crate::address::{Family, SocketAddress};
use crate::membership::{Membership, Route};
use vstd::prelude::*;

verus! {

/// One operation on a socket. The daemon asks for it; its caller performs
/// it and reports whether it succeeded.
#[derive(Clone, Copy, Debug, PartialEq, Eq, Hash, Structural)]
pub enum SocketOp {
    /// Create a datagram socket of the family.
    Create(Family),
    /// Enable address reuse.
    ReuseAddress,
    /// Enable port reuse.
    ReusePort,
    /// Put the socket in non-blocking mode.
    Nonblocking,
    /// Bind the socket to the address.
    Bind(SocketAddress),
    /// Join the multicast group.
    Join(Membership),
    /// Set the outbound multicast interface.
    Outbound(Route),
}

/// The three things that must succeed for an interface to be served, as its
/// warnings name them.
#[derive(Clone, Copy, Debug, PartialEq, Eq, Hash, Structural)]
pub enum Stage {
    /// Creating, configuring and binding the socket.
    Bind,
    /// Joining the multicast group.
    Join,
    /// Setting the outbound multicast interface.
    Outbound,
}

/// What has been done to a socket so far.
#[derive(Clone, Copy, Debug, PartialEq, Eq, Hash, Structural)]
pub struct SocketConfig {
    /// The family the socket was created for; `None` while there is no socket.
    pub family: Option<Family>,
    pub reuse_address: bool,
    pub reuse_port: bool,
    pub nonblocking: bool,
    /// The address the socket is bound to, once it is.
    pub bound: Option<SocketAddress>,
    /// The group membership the socket holds, once it does.
    pub joined: Option<Membership>,
    /// The outbound multicast interface, once set.
    pub outbound: Option<Route>,
}

impl SocketOp {
    /// The stage that the operation belongs to.
    pub open spec fn stage_spec(&self) -> Stage {
        match *self {
            SocketOp::Join(_) => Stage::Join,
            SocketOp::Outbound(_) => Stage::Outbound,
            _ => Stage::Bind,
        }
    }

    /// Computes [`SocketOp::stage_spec`].
    #[verifier::when_used_as_spec(stage_spec)]
    pub fn stage(&self) -> (stage: Stage)
        ensures
            stage == self.stage_spec(),
    {
        match self {
            SocketOp::Join(_) => Stage::Join,
            SocketOp::Outbound(_) => Stage::Outbound,
            _ => Stage::Bind,
        }
    }
}

impl SocketConfig {
    /// The record of no socket at all.
    pub open spec fn unconfigured() -> SocketConfig {
        SocketConfig {
            family: None,
            reuse_address: false,
            reuse_port: false,
            nonblocking: false,
            bound: None,
            joined: None,
            outbound: None,
        }
    }

    /// The record after `op` succeeded. Creating a socket starts afresh;
    /// every other operation adds to what the socket already has.
    pub open spec fn apply_spec(&self, op: SocketOp) -> SocketConfig {
        match op {
            SocketOp::Create(family) => SocketConfig {
                family: Some(family),
                ..SocketConfig::unconfigured()
            },
            SocketOp::ReuseAddress => SocketConfig { reuse_address: true, ..*self },
            SocketOp::ReusePort => SocketConfig { reuse_port: true, ..*self },
            SocketOp::Nonblocking => SocketConfig { nonblocking: true, ..*self },
            SocketOp::Bind(addr) => SocketConfig { bound: Some(addr), ..*self },
            SocketOp::Join(membership) => SocketConfig { joined: Some(membership), ..*self },
            SocketOp::Outbound(route) => SocketConfig { outbound: Some(route), ..*self },
        }
    }

    /// Whether the record is that of a socket bound to `addr`: created for
    /// the family of `addr`, with address reuse, with port reuse where the
    /// platform has it, non-blocking, and bound.
    pub open spec fn is_bound_to(&self, addr: SocketAddress, reuse_port: bool) -> bool {
        &&& self.family == Some(addr.ip.family())
        &&& self.reuse_address
        &&& reuse_port ==> self.reuse_port
        &&& self.nonblocking
        &&& self.bound == Some(addr)
    }

    /// Computes [`SocketConfig::unconfigured`].
    pub fn new() -> (config: SocketConfig)
        ensures
            config == SocketConfig::unconfigured(),
    {
        SocketConfig {
            family: None,
            reuse_address: false,
            reuse_port: false,
            nonblocking: false,
            bound: None,
            joined: None,
            outbound: None,
        }
    }

    /// Computes [`SocketConfig::apply_spec`].
    #[verifier::when_used_as_spec(apply_spec)]
    pub fn apply(&self, op: SocketOp) -> (config: SocketConfig)
        ensures
            config == self.apply_spec(op),
    {
        let mut config = *self;
        match op {
            SocketOp::Create(family) => {
                config = SocketConfig::new();
                config.family = Some(family);
            },
            SocketOp::ReuseAddress => {
                config.reuse_address = true;
            },
            SocketOp::ReusePort => {
                config.reuse_port = true;
            },
            SocketOp::Nonblocking => {
                config.nonblocking = true;
            },
            SocketOp::Bind(addr) => {
                config.bound = Some(addr);
            },
            SocketOp::Join(membership) => {
                config.joined = Some(membership);
            },
            SocketOp::Outbound(route) => {
                config.outbound = Some(route);
            },
        }
        config
    }
}

/// What is still to be done for a socket bound to `addr`, in the order in
/// which it must be done: create the socket for the family of `addr`, enable
/// address reuse, enable port reuse where the platform has it, go
/// non-blocking, bind. `None` once the socket is bound.
pub open spec fn socket_step(config: SocketConfig, addr: SocketAddress, reuse_port: bool) -> Option<
    SocketOp,
> {
    if config.family != Some(addr.ip.family()) {
        Some(SocketOp::Create(addr.ip.family()))
    } else if !config.reuse_address {
        Some(SocketOp::ReuseAddress)
    } else if reuse_port && !config.reuse_port {
        Some(SocketOp::ReusePort)
    } else if !config.nonblocking {
        Some(SocketOp::Nonblocking)
    } else if config.bound != Some(addr) {
        Some(SocketOp::Bind(addr))
    } else {
        None
    }
}

/// The operations that make a socket bound to `addr`, in order.
pub open spec fn socket_plan(addr: SocketAddress, reuse_port: bool) -> Seq<SocketOp> {
    if reuse_port {
        seq![
            SocketOp::Create(addr.ip.family()),
            SocketOp::ReuseAddress,
            SocketOp::ReusePort,
            SocketOp::Nonblocking,
            SocketOp::Bind(addr),
        ]
    } else {
        seq![
            SocketOp::Create(addr.ip.family()),
            SocketOp::ReuseAddress,
            SocketOp::Nonblocking,
            SocketOp::Bind(addr),
        ]
    }
}

/// Computes [`socket_step`]: the next operation towards a UDP socket bound
/// to `addr`.
pub fn udp_socket(config: &SocketConfig, addr: SocketAddress, reuse_port: bool) -> (step: Option<
    SocketOp,
>)
    ensures
        step == socket_step(*config, addr, reuse_port),
        step is None <==> config.is_bound_to(addr, reuse_port),
{
    let family = addr.ip.family();
    let created = match config.family {
        Some(held) => held == family,
        None => false,
    };
    let bound = match config.bound {
        Some(held) => held == addr,
        None => false,
    };
    if !created {
        Some(SocketOp::Create(family))
    } else if !config.reuse_address {
        Some(SocketOp::ReuseAddress)
    } else if reuse_port && !config.reuse_port {
        Some(SocketOp::ReusePort)
    } else if !config.nonblocking {
        Some(SocketOp::Nonblocking)
    } else if !bound {
        Some(SocketOp::Bind(addr))
    } else {
        None
    }
}

} // verus!
