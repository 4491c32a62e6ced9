use peer_daemon::address::bind_address_of;
use peer_daemon::membership::{membership_of, route_of};
use peer_daemon::{
    Command, Datagram, Directive, Family, Interface, IoErrorKind, IoFailure, IpAddress,
    PeerDaemon, Rejection, Settings, SetupProgress, SocketAddress, SocketOp, Stage, StopCause,
    UnitEvent, UnitState, Verdict, WaitOutcome, DEFAULT_WAIT_TIMEOUT_MS,
};

fn eth0() -> Interface {
    Interface::new("eth0".to_string(), Some(2), IpAddress::from_octets(192, 168, 1, 10))
}

fn eth1() -> Interface {
    Interface::new("eth1".to_string(), Some(3), IpAddress::from_octets(192, 168, 1, 20))
}

fn eth2v6() -> Interface {
    Interface::new("eth2".to_string(), Some(4), IpAddress::V6(0xfe80 << 112 | 0x22))
}

fn lo() -> Interface {
    Interface::new("lo".to_string(), Some(1), IpAddress::from_octets(127, 0, 0, 1))
}

fn lo6() -> Interface {
    Interface::new("lo".to_string(), Some(1), IpAddress::V6(1))
}

fn settings() -> Settings {
    Settings { reuse_port: true, wait_timeout_ms: 250 }
}

fn permission_denied() -> IoFailure {
    IoFailure { kind: IoErrorKind::PermissionDenied, os_code: Some(13) }
}

fn would_block() -> IoFailure {
    IoFailure { kind: IoErrorKind::WouldBlock, os_code: Some(11) }
}

fn unreachable_net() -> IoFailure {
    IoFailure { kind: IoErrorKind::Other, os_code: Some(101) }
}

/// Performs every pending operation. Sockets are numbered from 100 in the
/// order of their creation; `fails` says which operations fail, and how.
fn provision(
    daemon: &mut PeerDaemon<u32>,
    fails: &dyn Fn(&Interface, SocketOp) -> Option<IoFailure>,
) -> Vec<SetupProgress<u32>> {
    let mut answers = Vec::new();
    let mut next_socket: u32 = 100;
    let mut held: Option<u32> = None;
    while let Some(op) = daemon.pending() {
        assert!(answers.len() < 1000);
        let interface = daemon.current().unwrap().clone();
        let outcome = match fails(&interface, op) {
            Some(failure) => {
                held = None;
                Err(failure)
            }
            None => match op {
                SocketOp::Create(_) => {
                    assert_eq!(held, None);
                    next_socket += 1;
                    Ok(next_socket - 1)
                }
                _ => Ok(held.take().unwrap()),
            },
        };
        match daemon.report(outcome) {
            SetupProgress::Continue(socket) => held = Some(socket),
            answer => answers.push(answer),
        }
    }
    assert_eq!(held, None);
    answers
}

fn never(_: &Interface, _: SocketOp) -> Option<IoFailure> {
    None
}

fn ready_daemon(found: &Vec<Interface>) -> PeerDaemon<u32> {
    let mut daemon = PeerDaemon::from_interfaces(found, settings());
    provision(&mut daemon, &never);
    assert!(daemon.is_ready());
    daemon
}

#[test]
fn default_settings_reuse_the_port_and_wait_a_second() {
    assert_eq!(
        Settings::default(),
        Settings { reuse_port: true, wait_timeout_ms: DEFAULT_WAIT_TIMEOUT_MS }
    );
    assert_eq!(DEFAULT_WAIT_TIMEOUT_MS, 1000);
}

#[test]
fn two_interfaces_both_succeed() {
    let found = vec![eth0(), eth1()];
    let mut daemon: PeerDaemon<u32> = PeerDaemon::from_interfaces(&found, settings());
    assert!(!daemon.is_ready());
    assert!(daemon.is_empty());
    let answers = provision(&mut daemon, &never);
    assert_eq!(
        answers,
        vec![SetupProgress::Registered(eth0()), SetupProgress::Registered(eth1())]
    );
    assert!(daemon.is_ready());
    assert_eq!(daemon.len(), 2);
    assert!(daemon.contains(&eth0()));
    assert!(daemon.contains(&eth1()));
    assert_ne!(eth0(), eth1());
    assert_eq!(daemon.socket(&eth0()), Some(&100));
    assert_eq!(daemon.socket(&eth1()), Some(&101));
    for interface in [eth0(), eth1()] {
        let unit = daemon.unit(&interface).unwrap();
        assert_eq!(
            unit.config.bound,
            Some(SocketAddress { ip: IpAddress::V4(0), port: 5353 })
        );
        assert_eq!(unit.state, UnitState::Idle);
    }
    assert_eq!(daemon.verdicts(), &vec![Verdict::Registered, Verdict::Registered]);
    let held = daemon.interfaces();
    assert_eq!(held.len(), 2);
    assert!(held.contains(&eth0()) && held.contains(&eth1()));
}

#[test]
fn join_failure_on_eth1_leaves_eth0_alone() {
    let found = vec![eth0(), eth1()];
    let mut daemon: PeerDaemon<u32> = PeerDaemon::from_interfaces(&found, settings());
    let fails = |interface: &Interface, op: SocketOp| {
        if *interface == eth1() && op.stage() == Stage::Join {
            Some(permission_denied())
        } else {
            None
        }
    };
    let answers = provision(&mut daemon, &fails);
    let rejection =
        Rejection { operation: SocketOp::Join(membership_of(&eth1())), failure: permission_denied() };
    assert_eq!(
        answers,
        vec![SetupProgress::Registered(eth0()), SetupProgress::Rejected(eth1(), rejection)]
    );
    assert!(daemon.is_ready());
    assert_eq!(daemon.len(), 1);
    assert!(daemon.contains(&eth0()));
    assert!(!daemon.contains(&eth1()));
    assert_eq!(daemon.socket(&eth1()), None);
    assert_eq!(daemon.verdicts(), &vec![Verdict::Registered, Verdict::Rejected(rejection)]);
    assert_eq!(rejection.failure.kind, IoErrorKind::PermissionDenied);
    assert_eq!(rejection.operation.stage(), Stage::Join);
}

#[test]
fn empty_enumeration_gives_an_empty_ready_daemon() {
    let mut daemon: PeerDaemon<u32> = PeerDaemon::from_interfaces(&Vec::new(), settings());
    assert!(daemon.is_ready());
    assert_eq!(daemon.pending(), None);
    assert!(daemon.current().is_none());
    assert!(daemon.is_empty());
    assert_eq!(daemon.len(), 0);
    assert!(daemon.interfaces().is_empty());
    assert!(daemon.verdicts().is_empty());
    assert_eq!(provision(&mut daemon, &never), Vec::new());
}

#[test]
fn cancellation_during_the_wait_closes_the_unit() {
    let mut daemon = ready_daemon(&vec![eth0(), eth1()]);
    assert_eq!(
        daemon.handle(&eth0(), UnitEvent::Wake),
        Directive::Continue(Command::Announce(SocketAddress {
            ip: IpAddress::from_octets(224, 0, 0, 251),
            port: 5353
        }))
    );
    assert_eq!(daemon.handle(&eth0(), UnitEvent::Sent), Directive::Continue(Command::Receive));
    assert_eq!(
        daemon.handle(&eth0(), UnitEvent::ReceiveFailed(would_block())),
        Directive::Continue(Command::Wait { timeout_ms: 250 })
    );
    assert_eq!(
        daemon.handle(&eth0(), UnitEvent::Cancelled),
        Directive::Closed { socket: 100, cause: StopCause::Cancelled }
    );
    assert!(!daemon.contains(&eth0()));
    assert_eq!(daemon.closed_units(), 1);
    assert_eq!(daemon.handle(&eth0(), UnitEvent::Wake), Directive::NotRegistered);
    assert!(daemon.contains(&eth1()));
    assert_eq!(daemon.len(), 1);
}

#[test]
fn loopback_is_never_a_candidate() {
    let found = vec![lo(), eth0(), lo6(), eth2v6()];
    let mut daemon: PeerDaemon<u32> = PeerDaemon::from_interfaces(&found, settings());
    assert_eq!(daemon.candidates(), &vec![eth0(), eth2v6()]);
    provision(&mut daemon, &never);
    assert_eq!(daemon.len(), 2);
    assert!(!daemon.contains(&lo()));
    assert!(!daemon.contains(&lo6()));
    assert!(daemon.contains(&eth0()));
    assert!(daemon.contains(&eth2v6()));
}

#[test]
fn only_loopback_gives_an_empty_registry() {
    let daemon: PeerDaemon<u32> = PeerDaemon::from_interfaces(&vec![lo(), lo6()], settings());
    assert!(daemon.is_ready());
    assert!(daemon.is_empty());
    assert!(daemon.candidates().is_empty());
}

#[test]
fn daemon_for_this_host_has_no_loopback_candidate() {
    let daemon: PeerDaemon<u32> = PeerDaemon::new();
    assert!(daemon.is_empty());
    assert!(daemon.verdicts().is_empty());
    assert_eq!(daemon.settings(), Settings::default());
    assert_eq!(daemon.closed_units(), 0);
    for candidate in daemon.candidates() {
        assert!(!candidate.is_loopback());
    }
    assert_eq!(daemon.is_ready(), daemon.candidates().is_empty());
    let tuned: PeerDaemon<u32> =
        PeerDaemon::with_settings(Settings { reuse_port: false, wait_timeout_ms: 5 });
    assert_eq!(tuned.settings(), Settings { reuse_port: false, wait_timeout_ms: 5 });
    for candidate in tuned.candidates() {
        assert!(!candidate.is_loopback());
    }
}

#[test]
fn operations_are_asked_for_in_order() {
    let mut daemon: PeerDaemon<u32> = PeerDaemon::from_interfaces(&vec![eth0()], settings());
    let expected = vec![
        SocketOp::Create(Family::V4),
        SocketOp::ReuseAddress,
        SocketOp::ReusePort,
        SocketOp::Nonblocking,
        SocketOp::Bind(bind_address_of(Family::V4)),
        SocketOp::Join(membership_of(&eth0())),
        SocketOp::Outbound(route_of(&eth0())),
    ];
    for (done, op) in expected.iter().enumerate() {
        assert_eq!(daemon.pending(), Some(*op));
        assert_eq!(daemon.current(), Some(&eth0()));
        assert!(!daemon.is_ready());
        assert!(daemon.is_empty());
        let answer = daemon.report(Ok(7));
        if done + 1 < expected.len() {
            assert_eq!(answer, SetupProgress::Continue(7));
        } else {
            assert_eq!(answer, SetupProgress::Registered(eth0()));
        }
    }
    assert_eq!(daemon.pending(), None);
    assert!(daemon.is_ready());
    assert_eq!(daemon.socket(&eth0()), Some(&7));
}

#[test]
fn platform_without_port_reuse_skips_it() {
    let plain = Settings { reuse_port: false, wait_timeout_ms: 250 };
    let mut daemon: PeerDaemon<u32> = PeerDaemon::from_interfaces(&vec![eth2v6()], plain);
    let mut asked = Vec::new();
    while let Some(op) = daemon.pending() {
        asked.push(op);
        daemon.report(Ok(1));
    }
    assert_eq!(
        asked,
        vec![
            SocketOp::Create(Family::V6),
            SocketOp::ReuseAddress,
            SocketOp::Nonblocking,
            SocketOp::Bind(bind_address_of(Family::V6)),
            SocketOp::Join(membership_of(&eth2v6())),
            SocketOp::Outbound(route_of(&eth2v6())),
        ]
    );
    let config = daemon.unit(&eth2v6()).unwrap().config;
    assert!(!config.reuse_port);
    assert!(config.reuse_address && config.nonblocking);
}

#[test]
fn registered_socket_is_nonblocking_and_joined() {
    let daemon = ready_daemon(&vec![eth0(), eth2v6()]);
    for interface in [eth0(), eth2v6()] {
        let config = daemon.unit(&interface).unwrap().config;
        assert_eq!(config.family, Some(interface.family()));
        assert!(config.reuse_address);
        assert!(config.reuse_port);
        assert!(config.nonblocking);
        assert_eq!(config.bound, Some(bind_address_of(interface.family())));
        assert_eq!(config.joined, Some(membership_of(&interface)));
        assert_eq!(config.outbound, Some(route_of(&interface)));
    }
}

#[test]
fn failure_of_any_operation_rejects_the_interface() {
    let plan = vec![
        SocketOp::Create(Family::V4),
        SocketOp::ReuseAddress,
        SocketOp::ReusePort,
        SocketOp::Nonblocking,
        SocketOp::Bind(bind_address_of(Family::V4)),
        SocketOp::Join(membership_of(&eth0())),
        SocketOp::Outbound(route_of(&eth0())),
    ];
    for failing in plan {
        let mut daemon: PeerDaemon<u32> =
            PeerDaemon::from_interfaces(&vec![eth0(), eth1()], settings());
        let fails = |interface: &Interface, op: SocketOp| {
            if *interface == eth0() && op == failing {
                Some(unreachable_net())
            } else {
                None
            }
        };
        let answers = provision(&mut daemon, &fails);
        let rejection = Rejection { operation: failing, failure: unreachable_net() };
        assert_eq!(
            answers,
            vec![SetupProgress::Rejected(eth0(), rejection), SetupProgress::Registered(eth1())]
        );
        assert!(!daemon.contains(&eth0()));
        assert!(daemon.contains(&eth1()));
        assert_eq!(daemon.len(), 1);
    }
}

#[test]
fn one_failure_among_three_leaves_two() {
    let found = vec![eth0(), eth1(), eth2v6()];
    let mut daemon: PeerDaemon<u32> = PeerDaemon::from_interfaces(&found, settings());
    let fails = |interface: &Interface, op: SocketOp| {
        if *interface == eth1() && op.stage() == Stage::Join {
            Some(permission_denied())
        } else {
            None
        }
    };
    provision(&mut daemon, &fails);
    assert_eq!(daemon.len(), found.len() - 1);
    assert!(daemon.contains(&eth0()));
    assert!(!daemon.contains(&eth1()));
    assert!(daemon.contains(&eth2v6()));
}

#[test]
fn every_interface_failing_gives_an_empty_registry() {
    let mut daemon: PeerDaemon<u32> =
        PeerDaemon::from_interfaces(&vec![eth0(), eth1()], settings());
    let fails = |_: &Interface, op: SocketOp| {
        if op.stage() == Stage::Outbound {
            Some(permission_denied())
        } else {
            None
        }
    };
    let answers = provision(&mut daemon, &fails);
    assert_eq!(answers.len(), 2);
    assert!(daemon.is_ready());
    assert!(daemon.is_empty());
    assert_eq!(daemon.len(), 0);
}

#[test]
fn would_block_during_setup_is_a_failure_like_any_other() {
    let mut daemon: PeerDaemon<u32> = PeerDaemon::from_interfaces(&vec![eth0()], settings());
    assert_eq!(daemon.report(Ok(1)), SetupProgress::Continue(1));
    assert_eq!(
        daemon.report(Err(would_block())),
        SetupProgress::Rejected(
            eth0(),
            Rejection { operation: SocketOp::ReuseAddress, failure: would_block() }
        )
    );
    assert!(daemon.is_ready());
    assert!(daemon.is_empty());
}

#[test]
fn report_with_nothing_pending_is_handed_back() {
    let mut daemon = ready_daemon(&vec![eth0()]);
    assert_eq!(daemon.report(Ok(55)), SetupProgress::NothingPending(Ok(55)));
    assert_eq!(
        daemon.report(Err(permission_denied())),
        SetupProgress::NothingPending(Err(permission_denied()))
    );
    assert_eq!(daemon.len(), 1);
    assert_eq!(daemon.socket(&eth0()), Some(&100));
    assert_eq!(daemon.verdicts().len(), 1);
}

#[test]
fn same_interface_reported_twice_keeps_the_later_socket() {
    let mut daemon: PeerDaemon<u32> =
        PeerDaemon::from_interfaces(&vec![eth0(), eth0()], settings());
    let answers = provision(&mut daemon, &never);
    assert_eq!(answers.len(), 2);
    assert_eq!(daemon.len(), 1);
    assert_eq!(daemon.socket(&eth0()), Some(&101));
}

#[test]
fn no_unit_runs_before_provisioning_is_over() {
    let mut daemon: PeerDaemon<u32> =
        PeerDaemon::from_interfaces(&vec![eth0(), eth1()], settings());
    assert_eq!(daemon.handle(&eth0(), UnitEvent::Wake), Directive::NotReady);
    while daemon.verdicts().is_empty() {
        daemon.report(Ok(1));
    }
    assert!(daemon.contains(&eth0()));
    assert!(!daemon.is_ready());
    assert_eq!(daemon.handle(&eth0(), UnitEvent::Wake), Directive::NotReady);
    assert_eq!(daemon.handle(&eth0(), UnitEvent::Cancelled), Directive::NotReady);
    assert_eq!(daemon.unit(&eth0()).unwrap().state, UnitState::Idle);
    assert!(daemon.contains(&eth0()));
}

#[test]
fn a_full_cycle_with_a_response() {
    let mut daemon = ready_daemon(&vec![eth2v6()]);
    let response = || Datagram {
        payload: vec![0xde, 0xad],
        sender: SocketAddress { ip: IpAddress::V6(0xfe80 << 112 | 0x99), port: 5353 },
    };
    assert_eq!(
        daemon.handle(&eth2v6(), UnitEvent::Wake),
        Directive::Continue(Command::Announce(SocketAddress {
            ip: IpAddress::V6(0xff02 << 112 | 0xfb),
            port: 5353
        }))
    );
    assert_eq!(daemon.unit(&eth2v6()).unwrap().state, UnitState::Announcing);
    assert_eq!(daemon.handle(&eth2v6(), UnitEvent::Sent), Directive::Continue(Command::Receive));
    assert_eq!(daemon.unit(&eth2v6()).unwrap().state, UnitState::AwaitingResponse);
    assert_eq!(
        daemon.handle(&eth2v6(), UnitEvent::Received(response())),
        Directive::Continue(Command::Deliver(response()))
    );
    assert_eq!(daemon.unit(&eth2v6()).unwrap().state, UnitState::Processing);
    assert_eq!(daemon.handle(&eth2v6(), UnitEvent::Processed), Directive::Continue(Command::Rest));
    assert_eq!(daemon.unit(&eth2v6()).unwrap().state, UnitState::Idle);
    assert_eq!(daemon.socket(&eth2v6()), Some(&100));
    assert_eq!(daemon.closed_units(), 0);
}

#[test]
fn a_quiet_cycle_waits_then_rests() {
    let mut daemon = ready_daemon(&vec![eth0()]);
    daemon.handle(&eth0(), UnitEvent::Wake);
    daemon.handle(&eth0(), UnitEvent::Sent);
    assert_eq!(
        daemon.handle(&eth0(), UnitEvent::ReceiveFailed(would_block())),
        Directive::Continue(Command::Wait { timeout_ms: 250 })
    );
    assert_eq!(
        daemon.handle(&eth0(), UnitEvent::Waited(WaitOutcome::Readable)),
        Directive::Continue(Command::Receive)
    );
    assert_eq!(
        daemon.handle(&eth0(), UnitEvent::ReceiveFailed(would_block())),
        Directive::Continue(Command::Wait { timeout_ms: 250 })
    );
    assert_eq!(
        daemon.handle(&eth0(), UnitEvent::Waited(WaitOutcome::TimedOut)),
        Directive::Continue(Command::Rest)
    );
    assert_eq!(daemon.unit(&eth0()).unwrap().state, UnitState::Idle);
    assert_eq!(
        daemon.handle(&eth0(), UnitEvent::Wake),
        Directive::Continue(Command::Announce(SocketAddress {
            ip: IpAddress::V4(0xE000_00FB),
            port: 5353
        }))
    );
}

#[test]
fn runtime_error_removes_only_its_own_interface() {
    let mut daemon = ready_daemon(&vec![eth0(), eth1(), eth2v6()]);
    for interface in [eth0(), eth1(), eth2v6()] {
        daemon.handle(&interface, UnitEvent::Wake);
        daemon.handle(&interface, UnitEvent::Sent);
    }
    assert_eq!(
        daemon.handle(&eth1(), UnitEvent::ReceiveFailed(unreachable_net())),
        Directive::Closed { socket: 101, cause: StopCause::Failed(unreachable_net()) }
    );
    assert_eq!(daemon.len(), 2);
    assert!(!daemon.contains(&eth1()));
    assert_eq!(daemon.closed_units(), 1);
    for (interface, socket) in [(eth0(), 100), (eth2v6(), 102)] {
        assert_eq!(daemon.socket(&interface), Some(&socket));
        assert_eq!(daemon.unit(&interface).unwrap().state, UnitState::AwaitingResponse);
        assert_eq!(
            daemon.handle(&interface, UnitEvent::ReceiveFailed(would_block())),
            Directive::Continue(Command::Wait { timeout_ms: 250 })
        );
    }
    assert_eq!(daemon.handle(&eth1(), UnitEvent::Wake), Directive::NotRegistered);
}

#[test]
fn failed_send_closes_the_unit() {
    let mut daemon = ready_daemon(&vec![eth0(), eth1()]);
    daemon.handle(&eth0(), UnitEvent::Wake);
    assert_eq!(
        daemon.handle(&eth0(), UnitEvent::SendFailed(permission_denied())),
        Directive::Closed { socket: 100, cause: StopCause::Failed(permission_denied()) }
    );
    assert!(!daemon.contains(&eth0()));
    assert!(daemon.contains(&eth1()));
}

#[test]
fn would_block_on_send_goes_on_to_receive() {
    let mut daemon = ready_daemon(&vec![eth0()]);
    daemon.handle(&eth0(), UnitEvent::Wake);
    assert_eq!(
        daemon.handle(&eth0(), UnitEvent::SendFailed(would_block())),
        Directive::Continue(Command::Receive)
    );
    assert!(daemon.contains(&eth0()));
}

#[test]
fn unexpected_event_changes_nothing() {
    let mut daemon = ready_daemon(&vec![eth0()]);
    assert_eq!(daemon.handle(&eth0(), UnitEvent::Sent), Directive::Ignored);
    assert_eq!(daemon.handle(&eth0(), UnitEvent::Processed), Directive::Ignored);
    assert_eq!(
        daemon.handle(&eth0(), UnitEvent::ReceiveFailed(unreachable_net())),
        Directive::Ignored
    );
    assert_eq!(daemon.unit(&eth0()).unwrap().state, UnitState::Idle);
    assert_eq!(daemon.socket(&eth0()), Some(&100));
    assert_eq!(daemon.len(), 1);
}

#[test]
fn event_for_an_unknown_interface_changes_nothing() {
    let mut daemon = ready_daemon(&vec![eth0()]);
    assert_eq!(daemon.handle(&eth1(), UnitEvent::Wake), Directive::NotRegistered);
    assert_eq!(daemon.handle(&lo(), UnitEvent::Cancelled), Directive::NotRegistered);
    assert_eq!(daemon.len(), 1);
    assert_eq!(daemon.closed_units(), 0);
}

#[test]
fn shutdown_of_every_unit_empties_the_registry() {
    let mut daemon = ready_daemon(&vec![eth0(), eth1(), eth2v6()]);
    let mut closed = Vec::new();
    for interface in daemon.interfaces() {
        match daemon.handle(&interface, UnitEvent::Cancelled) {
            Directive::Closed { socket, cause } => {
                assert_eq!(cause, StopCause::Cancelled);
                closed.push(socket);
            }
            other => panic!("unit of {} did not stop: {:?}", interface.name, other),
        }
    }
    closed.sort();
    assert_eq!(closed, vec![100, 101, 102]);
    assert!(daemon.is_empty());
    assert_eq!(daemon.closed_units(), 3);
}
