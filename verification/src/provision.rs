//! Provisioning of one interface: the socket factory followed by the
//! membership manager.

use crate::address::{bind_address, bind_address_of};
use crate::interface::{Interface, InterfaceId};
use crate::membership::{membership_for, membership_step, next_membership_step, route_for};
use crate::socket::{socket_plan, socket_step, udp_socket, SocketConfig, SocketOp};
use vstd::prelude::*;

verus! {

/// The next operation towards a socket that serves the interface: whatever
/// the socket factory still asks for, then whatever the membership manager
/// still asks for. `None` once nothing is left to do.
pub open spec fn next_operation(config: SocketConfig, id: InterfaceId, reuse_port: bool) -> Option<
    SocketOp,
> {
    match socket_step(config, bind_address(id.addr.family()), reuse_port) {
        Some(op) => Some(op),
        None => membership_step(config, id),
    }
}

/// Whether the record is that of a socket that serves the interface: bound
/// to the wildcard address of the interface's family on the mDNS port,
/// non-blocking, member of the mDNS group on the interface, and sending its
/// multicast datagrams through the interface.
pub open spec fn serves(config: SocketConfig, id: InterfaceId, reuse_port: bool) -> bool {
    &&& config.is_bound_to(bind_address(id.addr.family()), reuse_port)
    &&& config.joined == Some(membership_for(id))
    &&& config.outbound == Some(route_for(id))
}

/// Every operation that provisioning an interface takes, in order.
pub open spec fn setup_plan(id: InterfaceId, reuse_port: bool) -> Seq<SocketOp> {
    socket_plan(bind_address(id.addr.family()), reuse_port) + seq![
        SocketOp::Join(membership_for(id)),
        SocketOp::Outbound(route_for(id)),
    ]
}

/// The record of the socket after the first `n` operations for the interface
/// have succeeded.
pub open spec fn after(id: InterfaceId, reuse_port: bool, n: nat) -> SocketConfig
    decreases n,
{
    if n == 0 {
        SocketConfig::unconfigured()
    } else {
        let before = after(id, reuse_port, (n - 1) as nat);
        match next_operation(before, id, reuse_port) {
            Some(op) => before.apply(op),
            None => before,
        }
    }
}

/// Computes [`next_operation`]. Nothing is left to do exactly when the
/// socket serves the interface.
pub fn next_setup_operation(config: &SocketConfig, interface: &Interface, reuse_port: bool) -> (op:
    Option<SocketOp>)
    ensures
        op == next_operation(*config, interface@, reuse_port),
        op is None <==> serves(*config, interface@, reuse_port),
{
    match udp_socket(config, bind_address_of(interface.family()), reuse_port) {
        Some(op) => Some(op),
        None => next_membership_step(config, interface),
    }
}

/// Nothing is left to do for a socket exactly when it serves the interface.
pub proof fn lemma_done_iff_serves(config: SocketConfig, id: InterfaceId, reuse_port: bool)
    ensures
        next_operation(config, id, reuse_port) is None <==> serves(config, id, reuse_port),
{
}

/// Provisioning follows the plan: while its operations succeed, the `n`-th
/// operation asked for is the `n`-th of the plan, and after the last of them
/// the socket serves the interface.
pub proof fn lemma_plan_is_followed(id: InterfaceId, reuse_port: bool)
    ensures
        setup_plan(id, reuse_port).len() == if reuse_port {
            7nat
        } else {
            6nat
        },
        forall|n: nat|
            n < setup_plan(id, reuse_port).len() ==> next_operation(
                #[trigger] after(id, reuse_port, n),
                id,
                reuse_port,
            ) == Some(setup_plan(id, reuse_port)[n as int]),
        serves(after(id, reuse_port, setup_plan(id, reuse_port).len()), id, reuse_port),
{
    reveal_with_fuel(after, 8);
    let plan = setup_plan(id, reuse_port);
    assert(next_operation(after(id, reuse_port, 0), id, reuse_port) == Some(plan[0]));
    assert(next_operation(after(id, reuse_port, 1), id, reuse_port) == Some(plan[1]));
    assert(next_operation(after(id, reuse_port, 2), id, reuse_port) == Some(plan[2]));
    assert(next_operation(after(id, reuse_port, 3), id, reuse_port) == Some(plan[3]));
    assert(next_operation(after(id, reuse_port, 4), id, reuse_port) == Some(plan[4]));
    assert(next_operation(after(id, reuse_port, 5), id, reuse_port) == Some(plan[5]));
    if reuse_port {
        assert(next_operation(after(id, reuse_port, 6), id, reuse_port) == Some(plan[6]));
    }
}

} // verus!
