use peer_daemon::unit::step;
use peer_daemon::{
    announcement, Command, Datagram, Family, IoErrorKind, IoFailure, IpAddress, SocketAddress,
    Step, StopCause, UnitEvent, UnitState, WaitOutcome, MDNS_ADDR_V6,
};

fn would_block() -> IoFailure {
    IoFailure { kind: IoErrorKind::WouldBlock, os_code: Some(11) }
}

fn broken() -> IoFailure {
    IoFailure { kind: IoErrorKind::Other, os_code: Some(101) }
}

fn datagram() -> Datagram {
    Datagram {
        payload: vec![1, 2, 3],
        sender: SocketAddress { ip: IpAddress::from_octets(192, 168, 1, 77), port: 5353 },
    }
}

#[test]
fn announcement_is_hello_world() {
    assert_eq!(announcement(), b"Hello World".to_vec());
    assert_eq!(announcement().len(), 11);
}

#[test]
fn would_block_is_told_by_kind() {
    assert!(would_block().is_would_block());
    assert!(!broken().is_would_block());
    assert!(!IoFailure { kind: IoErrorKind::PermissionDenied, os_code: Some(11) }.is_would_block());
}

#[test]
fn idle_unit_wakes_to_announce_v4() {
    assert_eq!(
        step(UnitState::Idle, UnitEvent::Wake, Family::V4, 250),
        Step::Advance {
            next: UnitState::Announcing,
            command: Command::Announce(SocketAddress {
                ip: IpAddress::from_octets(224, 0, 0, 251),
                port: 5353
            }),
        }
    );
}

#[test]
fn idle_unit_wakes_to_announce_v6() {
    assert_eq!(
        step(UnitState::Idle, UnitEvent::Wake, Family::V6, 250),
        Step::Advance {
            next: UnitState::Announcing,
            command: Command::Announce(SocketAddress { ip: IpAddress::V6(MDNS_ADDR_V6), port: 5353 }),
        }
    );
}

#[test]
fn send_precedes_receive() {
    assert_eq!(
        step(UnitState::Announcing, UnitEvent::Sent, Family::V4, 250),
        Step::Advance { next: UnitState::AwaitingResponse, command: Command::Receive }
    );
}

#[test]
fn would_block_on_send_is_no_error() {
    assert_eq!(
        step(UnitState::Announcing, UnitEvent::SendFailed(would_block()), Family::V4, 250),
        Step::Advance { next: UnitState::AwaitingResponse, command: Command::Receive }
    );
}

#[test]
fn failed_send_stops_the_unit() {
    assert_eq!(
        step(UnitState::Announcing, UnitEvent::SendFailed(broken()), Family::V4, 250),
        Step::Stop(StopCause::Failed(broken()))
    );
}

#[test]
fn received_datagram_is_delivered_untouched() {
    assert_eq!(
        step(UnitState::AwaitingResponse, UnitEvent::Received(datagram()), Family::V4, 250),
        Step::Advance { next: UnitState::Processing, command: Command::Deliver(datagram()) }
    );
}

#[test]
fn would_block_on_receive_suspends_for_the_timeout() {
    assert_eq!(
        step(UnitState::AwaitingResponse, UnitEvent::ReceiveFailed(would_block()), Family::V4, 250),
        Step::Advance {
            next: UnitState::AwaitingResponse,
            command: Command::Wait { timeout_ms: 250 }
        }
    );
    assert_eq!(
        step(UnitState::AwaitingResponse, UnitEvent::ReceiveFailed(would_block()), Family::V6, 0),
        Step::Advance { next: UnitState::AwaitingResponse, command: Command::Wait { timeout_ms: 0 } }
    );
}

#[test]
fn failed_receive_stops_the_unit() {
    assert_eq!(
        step(UnitState::AwaitingResponse, UnitEvent::ReceiveFailed(broken()), Family::V4, 250),
        Step::Stop(StopCause::Failed(broken()))
    );
}

#[test]
fn readable_socket_is_received_from_again() {
    assert_eq!(
        step(
            UnitState::AwaitingResponse,
            UnitEvent::Waited(WaitOutcome::Readable),
            Family::V4,
            250
        ),
        Step::Advance { next: UnitState::AwaitingResponse, command: Command::Receive }
    );
}

#[test]
fn timeout_ends_the_cycle() {
    assert_eq!(
        step(
            UnitState::AwaitingResponse,
            UnitEvent::Waited(WaitOutcome::TimedOut),
            Family::V4,
            250
        ),
        Step::Advance { next: UnitState::Idle, command: Command::Rest }
    );
}

#[test]
fn processed_datagram_ends_the_cycle() {
    assert_eq!(
        step(UnitState::Processing, UnitEvent::Processed, Family::V4, 250),
        Step::Advance { next: UnitState::Idle, command: Command::Rest }
    );
}

#[test]
fn cancellation_stops_in_every_state() {
    for state in [
        UnitState::Idle,
        UnitState::Announcing,
        UnitState::AwaitingResponse,
        UnitState::Processing,
    ] {
        assert_eq!(
            step(state, UnitEvent::Cancelled, Family::V4, 250),
            Step::Stop(StopCause::Cancelled)
        );
    }
}

#[test]
fn unexpected_events_are_ignored() {
    assert_eq!(step(UnitState::Idle, UnitEvent::Sent, Family::V4, 250), Step::Ignore);
    assert_eq!(step(UnitState::Idle, UnitEvent::SendFailed(broken()), Family::V4, 250), Step::Ignore);
    assert_eq!(step(UnitState::Idle, UnitEvent::Received(datagram()), Family::V4, 250), Step::Ignore);
    assert_eq!(step(UnitState::Announcing, UnitEvent::Wake, Family::V4, 250), Step::Ignore);
    assert_eq!(
        step(UnitState::Announcing, UnitEvent::ReceiveFailed(broken()), Family::V4, 250),
        Step::Ignore
    );
    assert_eq!(step(UnitState::AwaitingResponse, UnitEvent::Sent, Family::V4, 250), Step::Ignore);
    assert_eq!(step(UnitState::AwaitingResponse, UnitEvent::Processed, Family::V4, 250), Step::Ignore);
    assert_eq!(step(UnitState::Processing, UnitEvent::Wake, Family::V4, 250), Step::Ignore);
    assert_eq!(
        step(UnitState::Processing, UnitEvent::Waited(WaitOutcome::TimedOut), Family::V4, 250),
        Step::Ignore
    );
}
