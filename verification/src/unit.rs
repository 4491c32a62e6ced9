//! The life of one execution unit: the announce and receive cycle that the
//! daemon runs on each registered socket.

use crate::address::{announce_address, announce_address_of, Family, SocketAddress};
use crate::failure::IoFailure;
use vstd::prelude::*;

verus! {

/// Where a unit stands in its cycle.
#[derive(Clone, Copy, Debug, PartialEq, Eq, Hash, Structural)]
pub enum UnitState {
    /// Between two cycles.
    Idle,
    /// An announcement is being sent.
    Announcing,
    /// A response is being received, or waited for.
    AwaitingResponse,
    /// A received datagram is with the message interpreter.
    Processing,
}

/// How a wait for readiness ended.
#[derive(Clone, Copy, Debug, PartialEq, Eq, Hash, Structural)]
pub enum WaitOutcome {
    /// The socket became readable.
    Readable,
    /// The timeout elapsed first.
    TimedOut,
}

/// A received datagram: its bytes, which the daemon does not interpret, and
/// where it came from.
#[derive(Debug, PartialEq, Eq)]
pub struct Datagram {
    pub payload: Vec<u8>,
    pub sender: SocketAddress,
}

/// What a unit reports to the daemon.
#[derive(Debug, PartialEq, Eq)]
pub enum UnitEvent {
    /// It is time for the next cycle.
    Wake,
    /// The announcement was sent.
    Sent,
    /// Sending the announcement failed.
    SendFailed(IoFailure),
    /// A datagram was received.
    Received(Datagram),
    /// Receiving failed.
    ReceiveFailed(IoFailure),
    /// The wait for readiness ended.
    Waited(WaitOutcome),
    /// The message interpreter is done with the datagram handed to it.
    Processed,
    /// The shutdown signal was observed.
    Cancelled,
}

/// What the daemon asks a unit to do next.
#[derive(Debug, PartialEq, Eq)]
pub enum Command {
    /// Send the announcement to the address.
    Announce(SocketAddress),
    /// Try to receive a datagram, without blocking.
    Receive,
    /// Suspend until the socket is readable, the shutdown signal is given,
    /// or the time has elapsed.
    Wait { timeout_ms: u32 },
    /// Hand the datagram to the message interpreter.
    Deliver(Datagram),
    /// The cycle is over; wake the unit for the next one.
    Rest,
}

/// Why a unit stopped.
#[derive(Clone, Copy, Debug, PartialEq, Eq, Hash, Structural)]
pub enum StopCause {
    /// The shutdown signal was observed.
    Cancelled,
    /// An I/O operation on the socket failed with something other than
    /// would-block.
    Failed(IoFailure),
}

/// One transition of a unit.
#[derive(Debug, PartialEq, Eq)]
pub enum Step {
    /// The unit goes on in state `next` and does `command`.
    Advance { next: UnitState, command: Command },
    /// The unit stops for good.
    Stop(StopCause),
    /// The event is not one that the state expects: nothing changes.
    Ignore,
}

/// The transition of a unit in `state` on `event`.
///
/// A cycle sends the announcement, then receives. A datagram goes to the
/// message interpreter and the cycle ends when it is done with it. Would-block
/// on receive suspends the unit until the socket is readable, after which it
/// receives again, or until the timeout, which ends the cycle. Would-block on
/// send is no error: the unit goes on to receive. Any other failure of a send
/// or receive that the unit was engaged in stops it, and so does the shutdown
/// signal, in whatever state.
pub open spec fn step_spec(state: UnitState, event: UnitEvent, family: Family, timeout_ms: u32) -> Step {
    match (state, event) {
        (_, UnitEvent::Cancelled) => Step::Stop(StopCause::Cancelled),
        (UnitState::Idle, UnitEvent::Wake) => Step::Advance {
            next: UnitState::Announcing,
            command: Command::Announce(announce_address(family)),
        },
        (UnitState::Announcing, UnitEvent::Sent) => Step::Advance {
            next: UnitState::AwaitingResponse,
            command: Command::Receive,
        },
        (UnitState::Announcing, UnitEvent::SendFailed(failure)) => if failure.is_would_block() {
            Step::Advance { next: UnitState::AwaitingResponse, command: Command::Receive }
        } else {
            Step::Stop(StopCause::Failed(failure))
        },
        (UnitState::AwaitingResponse, UnitEvent::Received(datagram)) => Step::Advance {
            next: UnitState::Processing,
            command: Command::Deliver(datagram),
        },
        (UnitState::AwaitingResponse, UnitEvent::ReceiveFailed(failure)) => if failure.is_would_block() {
            Step::Advance {
                next: UnitState::AwaitingResponse,
                command: Command::Wait { timeout_ms },
            }
        } else {
            Step::Stop(StopCause::Failed(failure))
        },
        (UnitState::AwaitingResponse, UnitEvent::Waited(WaitOutcome::Readable)) => Step::Advance {
            next: UnitState::AwaitingResponse,
            command: Command::Receive,
        },
        (UnitState::AwaitingResponse, UnitEvent::Waited(WaitOutcome::TimedOut)) => Step::Advance {
            next: UnitState::Idle,
            command: Command::Rest,
        },
        (UnitState::Processing, UnitEvent::Processed) => Step::Advance {
            next: UnitState::Idle,
            command: Command::Rest,
        },
        _ => Step::Ignore,
    }
}

/// Computes [`step_spec`].
pub fn step(state: UnitState, event: UnitEvent, family: Family, timeout_ms: u32) -> (taken: Step)
    ensures
        taken == step_spec(state, event, family, timeout_ms),
{
    match (state, event) {
        (_, UnitEvent::Cancelled) => Step::Stop(StopCause::Cancelled),
        (UnitState::Idle, UnitEvent::Wake) => Step::Advance {
            next: UnitState::Announcing,
            command: Command::Announce(announce_address_of(family)),
        },
        (UnitState::Announcing, UnitEvent::Sent) => Step::Advance {
            next: UnitState::AwaitingResponse,
            command: Command::Receive,
        },
        (UnitState::Announcing, UnitEvent::SendFailed(failure)) => {
            if failure.is_would_block() {
                Step::Advance { next: UnitState::AwaitingResponse, command: Command::Receive }
            } else {
                Step::Stop(StopCause::Failed(failure))
            }
        },
        (UnitState::AwaitingResponse, UnitEvent::Received(datagram)) => Step::Advance {
            next: UnitState::Processing,
            command: Command::Deliver(datagram),
        },
        (UnitState::AwaitingResponse, UnitEvent::ReceiveFailed(failure)) => {
            if failure.is_would_block() {
                Step::Advance {
                    next: UnitState::AwaitingResponse,
                    command: Command::Wait { timeout_ms },
                }
            } else {
                Step::Stop(StopCause::Failed(failure))
            }
        },
        (UnitState::AwaitingResponse, UnitEvent::Waited(WaitOutcome::Readable)) => Step::Advance {
            next: UnitState::AwaitingResponse,
            command: Command::Receive,
        },
        (UnitState::AwaitingResponse, UnitEvent::Waited(WaitOutcome::TimedOut)) => Step::Advance {
            next: UnitState::Idle,
            command: Command::Rest,
        },
        (UnitState::Processing, UnitEvent::Processed) => Step::Advance {
            next: UnitState::Idle,
            command: Command::Rest,
        },
        _ => Step::Ignore,
    }
}

/// The bytes of the minimal announcement, `Hello World`.
pub open spec fn announcement_bytes() -> Seq<u8> {
    seq![72u8, 101u8, 108u8, 108u8, 111u8, 32u8, 87u8, 111u8, 114u8, 108u8, 100u8]
}

/// The datagram that a unit sends to announce its presence.
pub fn announcement() -> (payload: Vec<u8>)
    ensures
        payload@ == announcement_bytes(),
{
    let mut payload: Vec<u8> = Vec::new();
    payload.push(72);
    payload.push(101);
    payload.push(108);
    payload.push(108);
    payload.push(111);
    payload.push(32);
    payload.push(87);
    payload.push(111);
    payload.push(114);
    payload.push(108);
    payload.push(100);
    assert(payload@ =~= announcement_bytes());
    payload
}

} // verus!
