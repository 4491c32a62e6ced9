//! What holds of the daemon whatever its caller reports.

use crate::address::{announce_address, mdns_group, wildcard, Family, SocketAddress, MDNS_PORT};
use crate::enumerator::is_usable;
use crate::failure::IoFailure;
use crate::interface::{ids, Interface, InterfaceId};
use crate::membership::{route_for, Membership};
use crate::model::{
    lemma_initial_inv, lemma_report_inv, registered, DaemonModel, Directive, Rejection, Settings,
    Unit, Verdict,
};
use crate::provision::{after, lemma_plan_is_followed, serves, setup_plan};
use crate::socket::SocketConfig;
use crate::unit::{step_spec, Command, Step, StopCause, UnitEvent, UnitState};
use vstd::prelude::*;

verus! {

/// Whether every report is a success.
pub open spec fn all_succeeded<S>(reports: Seq<Result<S, IoFailure>>) -> bool {
    forall|i: int| 0 <= i < reports.len() ==> #[trigger] reports[i] is Ok
}

/// Whether `reports` is what a caller reports while it provisions one
/// candidate whose plan has `operations` operations: a success for each of
/// them, or successes up to the first failure, then that failure.
pub open spec fn is_attempt<S>(reports: Seq<Result<S, IoFailure>>, operations: nat) -> bool {
    &&& 0 < reports.len() <= operations
    &&& forall|i: int| 0 <= i < reports.len() - 1 ==> #[trigger] reports[i] is Ok
    &&& reports.last() is Err || reports.len() == operations
}

impl<S> DaemonModel<S> {
    /// The state after the reports were made, in order.
    pub open spec fn run(self, outcomes: Seq<Result<S, IoFailure>>) -> Self
        decreases outcomes.len(),
    {
        if outcomes.len() == 0 {
            self
        } else {
            self.run(outcomes.drop_last()).report(outcomes.last())
        }
    }

    /// The daemon is about to create the socket of a candidate.
    pub open spec fn fresh(self) -> bool {
        &&& !self.ready()
        &&& self.config == SocketConfig::unconfigured()
    }
}

/// While the operations for a candidate succeed and some of its plan is
/// left, nothing changes but the record of what was done to the socket.
pub proof fn lemma_partial_setup<S>(m: DaemonModel<S>, outcomes: Seq<Result<S, IoFailure>>)
    requires
        m.fresh(),
        outcomes.len() < setup_plan(m.current()@, m.settings.reuse_port).len(),
        all_succeeded(outcomes),
    ensures
        m.run(outcomes) == (DaemonModel {
            config: after(m.current()@, m.settings.reuse_port, outcomes.len()),
            ..m
        }),
    decreases outcomes.len(),
{
    lemma_plan_is_followed(m.current()@, m.settings.reuse_port);
    if outcomes.len() > 0 {
        lemma_partial_setup(m, outcomes.drop_last());
        let done = (outcomes.len() - 1) as nat;
        let before = after(m.current()@, m.settings.reuse_port, done);
        assert(outcomes.last() == outcomes[outcomes.len() - 1]);
        assert(after(m.current()@, m.settings.reuse_port, outcomes.len()) == before.apply(
            setup_plan(m.current()@, m.settings.reuse_port)[done as int],
        ));
    }
}

/// An interface is registered when every operation of its plan has
/// succeeded: the registry then maps it to the socket that came with the
/// last report, which serves the interface, and its unit is idle. Nothing
/// else in the registry changes, and the daemon turns to the next candidate.
pub proof fn lemma_setup_success_registers<S>(
    m: DaemonModel<S>,
    outcomes: Seq<Result<S, IoFailure>>,
)
    requires
        m.fresh(),
        outcomes.len() == setup_plan(m.current()@, m.settings.reuse_port).len(),
        all_succeeded(outcomes),
    ensures
        serves(
            after(m.current()@, m.settings.reuse_port, outcomes.len()),
            m.current()@,
            m.settings.reuse_port,
        ),
        m.run(outcomes) == (DaemonModel {
            verdicts: m.verdicts.push(Verdict::Registered),
            config: SocketConfig::unconfigured(),
            units: m.units.insert(
                m.current()@,
                Unit {
                    socket: outcomes.last()->Ok_0,
                    config: after(m.current()@, m.settings.reuse_port, outcomes.len()),
                    state: UnitState::Idle,
                },
            ),
            ..m
        }),
{
    lemma_plan_is_followed(m.current()@, m.settings.reuse_port);
    lemma_partial_setup(m, outcomes.drop_last());
    let done = (outcomes.len() - 1) as nat;
    let before = after(m.current()@, m.settings.reuse_port, done);
    assert(outcomes.last() == outcomes[outcomes.len() - 1]);
    assert(after(m.current()@, m.settings.reuse_port, outcomes.len()) == before.apply(
        setup_plan(m.current()@, m.settings.reuse_port)[done as int],
    ));
}

/// An interface is rejected as soon as one operation of its plan fails,
/// whichever it is: the verdict names that operation and the failure, the
/// registry is as it was, and the daemon turns to the next candidate.
pub proof fn lemma_setup_failure_rejects<S>(
    m: DaemonModel<S>,
    outcomes: Seq<Result<S, IoFailure>>,
)
    requires
        m.fresh(),
        0 < outcomes.len() <= setup_plan(m.current()@, m.settings.reuse_port).len(),
        all_succeeded(outcomes.drop_last()),
        outcomes.last() is Err,
    ensures
        m.run(outcomes) == (DaemonModel {
            verdicts: m.verdicts.push(
                Verdict::Rejected(
                    Rejection {
                        operation: setup_plan(m.current()@, m.settings.reuse_port)[outcomes.len()
                            - 1],
                        failure: outcomes.last()->Err_0,
                    },
                ),
            ),
            config: SocketConfig::unconfigured(),
            ..m
        }),
{
    lemma_plan_is_followed(m.current()@, m.settings.reuse_port);
    lemma_partial_setup(m, outcomes.drop_last());
}

impl<S> DaemonModel<S> {
    /// Whether `attempts` is what a caller reports while it provisions the
    /// candidates that are left: one attempt for each, in order.
    pub open spec fn provisioned_by(self, attempts: Seq<Seq<Result<S, IoFailure>>>) -> bool {
        &&& self.verdicts.len() + attempts.len() == self.candidates.len()
        &&& forall|k: int|
            0 <= k < attempts.len() ==> is_attempt(
                #[trigger] attempts[k],
                setup_plan(
                    self.candidates[self.verdicts.len() + k]@,
                    self.settings.reuse_port,
                ).len(),
            )
    }
}

/// Reports made one after the other are reports made in one run.
pub proof fn lemma_run_continues<S>(
    m: DaemonModel<S>,
    first: Seq<Result<S, IoFailure>>,
    then: Seq<Result<S, IoFailure>>,
)
    ensures
        m.run(first + then) == m.run(first).run(then),
    decreases then.len(),
{
    if then.len() == 0 {
        assert(first + then =~= first);
    } else {
        lemma_run_continues(m, first, then.drop_last());
        assert((first + then).drop_last() =~= first + then.drop_last());
        assert((first + then).last() == then.last());
    }
}

/// Reports preserve the invariant.
pub proof fn lemma_run_inv<S>(m: DaemonModel<S>, outcomes: Seq<Result<S, IoFailure>>)
    requires
        m.inv(),
    ensures
        m.run(outcomes).inv(),
    decreases outcomes.len(),
{
    if outcomes.len() > 0 {
        lemma_run_inv(m, outcomes.drop_last());
        lemma_report_inv(m.run(outcomes.drop_last()), outcomes.last());
    }
}

/// Provisioning gives each candidate its verdict, and the verdict is
/// `Registered` exactly for the candidates all of whose operations
/// succeeded. The failure of one candidate changes the verdict of no other.
pub proof fn lemma_provisioning_verdicts<S>(
    m: DaemonModel<S>,
    attempts: Seq<Seq<Result<S, IoFailure>>>,
)
    requires
        m.inv(),
        m.config == SocketConfig::unconfigured(),
        m.provisioned_by(attempts),
    ensures
        m.run(attempts.flatten()).inv(),
        m.run(attempts.flatten()).ready(),
        m.run(attempts.flatten()).candidates == m.candidates,
        m.run(attempts.flatten()).settings == m.settings,
        m.run(attempts.flatten()).closed == m.closed,
        m.run(attempts.flatten()).verdicts.len() == m.candidates.len(),
        forall|k: int|
            0 <= k < m.verdicts.len() ==> #[trigger] m.run(attempts.flatten()).verdicts[k]
                == m.verdicts[k],
        forall|k: int|
            0 <= k < attempts.len() ==> (m.run(attempts.flatten()).verdicts[m.verdicts.len()
                + k] is Registered <==> all_succeeded(#[trigger] attempts[k])),
    decreases attempts.len(),
{
    if attempts.len() == 0 {
        assert(attempts.flatten() =~= Seq::<Result<S, IoFailure>>::empty());
    } else {
        let first = attempts.first();
        let rest = attempts.drop_first();
        let next = m.run(first);
        let end = m.run(attempts.flatten());
        assert(is_attempt(attempts[0], setup_plan(m.current()@, m.settings.reuse_port).len()));
        lemma_run_continues(m, first, rest.flatten());
        lemma_run_inv(m, first);
        if first.last() is Err {
            lemma_setup_failure_rejects(m, first);
            assert(!(first[first.len() - 1] is Ok));
        } else {
            lemma_setup_success_registers(m, first);
            assert forall|i: int| 0 <= i < first.len() implies #[trigger] first[i] is Ok by {
                if i == first.len() - 1 {
                    assert(first[i] == first.last());
                }
            }
        }
        assert(next.verdicts.len() == m.verdicts.len() + 1);
        assert(next.verdicts[m.verdicts.len() as int] is Registered <==> all_succeeded(first));
        assert forall|k: int| 0 <= k < rest.len() implies is_attempt(
            #[trigger] rest[k],
            setup_plan(next.candidates[next.verdicts.len() + k]@, next.settings.reuse_port).len(),
        ) by {
            assert(rest[k] == attempts[k + 1]);
        }
        lemma_provisioning_verdicts(next, rest);
        assert(end == next.run(rest.flatten()));
        assert forall|k: int| 0 <= k < m.verdicts.len() implies #[trigger] end.verdicts[k]
            == m.verdicts[k] by {
            assert(end.verdicts[k] == next.verdicts[k]);
        }
        assert forall|k: int| 0 <= k < attempts.len() implies (end.verdicts[m.verdicts.len()
            + k] is Registered <==> all_succeeded(#[trigger] attempts[k])) by {
            if k == 0 {
                assert(end.verdicts[m.verdicts.len() as int] == next.verdicts[m.verdicts.len() as int]);
            } else {
                assert(rest[k - 1] == attempts[k]);
                assert(end.verdicts[next.verdicts.len() + (k - 1)] is Registered <==> all_succeeded(
                    rest[k - 1],
                ));
            }
        }
    }
}

/// The registry that provisioning builds holds an interface if and only if
/// it was a candidate and every operation for it succeeded: creating its
/// socket, configuring and binding it, joining the group and setting the
/// outbound interface.
pub proof fn lemma_registry_of_provisioning<S>(
    candidates: Seq<Interface>,
    settings: Settings,
    attempts: Seq<Seq<Result<S, IoFailure>>>,
    id: InterfaceId,
)
    requires
        forall|k: int| 0 <= k < candidates.len() ==> is_usable(#[trigger] candidates[k]),
        DaemonModel::<S>::initial(candidates, settings).provisioned_by(attempts),
    ensures
        DaemonModel::<S>::initial(candidates, settings).run(
            attempts.flatten(),
        ).units.dom().contains(id) <==> exists|k: int|
            0 <= k < candidates.len() && #[trigger] candidates[k]@ == id && all_succeeded(
                attempts[k],
            ),
{
    let m = DaemonModel::<S>::initial(candidates, settings);
    let end = m.run(attempts.flatten());
    lemma_initial_inv::<S>(candidates, settings);
    lemma_provisioning_verdicts(m, attempts);
    lemma_registry_matches_verdicts(end, id);
    if end.units.dom().contains(id) {
        let k = choose|k: int| end.registered_as(k, id);
        assert(all_succeeded(attempts[k]));
        assert(candidates[k]@ == id);
    }
    if exists|k: int|
        0 <= k < candidates.len() && #[trigger] candidates[k]@ == id && all_succeeded(attempts[k]) {
        let k = choose|k: int|
            0 <= k < candidates.len() && #[trigger] candidates[k]@ == id && all_succeeded(
                attempts[k],
            );
        assert(end.registered_as(k, id));
    }
}

/// While no unit has stopped, the registry holds exactly the candidates
/// whose verdict is `Registered`.
pub proof fn lemma_registry_matches_verdicts<S>(m: DaemonModel<S>, id: InterfaceId)
    requires
        m.inv(),
        m.closed == 0,
    ensures
        m.units.dom().contains(id) <==> exists|k: int| m.registered_as(k, id),
{
    if exists|k: int| m.registered_as(k, id) {
        let k = choose|k: int| m.registered_as(k, id);
        assert(m.registered_as(k, id));
    }
}

/// No loopback interface is ever in the registry.
pub proof fn lemma_no_loopback_registered<S>(m: DaemonModel<S>, id: InterfaceId)
    requires
        m.inv(),
        m.units.dom().contains(id),
    ensures
        !id.addr.is_loopback(),
{
    let k = choose|k: int| m.registered_as(k, id);
    assert(m.registered_as(k, id));
    assert(is_usable(m.candidates[k]));
}

/// Every socket in the registry is non-blocking, has address reuse enabled,
/// is bound to the wildcard address of its interface's family on the mDNS
/// port, is a member of the mDNS group of that family on its interface, and
/// sends its multicast datagrams through its interface.
pub proof fn lemma_registered_socket_is_configured<S>(m: DaemonModel<S>, id: InterfaceId)
    requires
        m.inv(),
        m.units.dom().contains(id),
    ensures
        m.units[id].config.nonblocking,
        m.units[id].config.reuse_address,
        m.settings.reuse_port ==> m.units[id].config.reuse_port,
        m.units[id].config.family == Some(id.addr.family()),
        m.units[id].config.bound == Some(
            SocketAddress { ip: wildcard(id.addr.family()), port: MDNS_PORT },
        ),
        m.units[id].config.joined == Some(
            Membership { group: mdns_group(id.addr.family()), on: route_for(id) },
        ),
        m.units[id].config.outbound == Some(route_for(id)),
{
}

/// With candidates that are pairwise distinct, the registry and the stopped
/// units together are as many as the verdicts that are `Registered`.
pub proof fn lemma_registry_size<S>(m: DaemonModel<S>)
    requires
        m.inv(),
        ids(m.candidates).no_duplicates(),
    ensures
        m.units.len() + m.closed == registered(m.verdicts),
{
}

/// All verdicts but one being `Registered`, one less than all are counted.
pub proof fn lemma_all_but_one_registered(verdicts: Seq<Verdict>, failed: int)
    requires
        0 <= failed < verdicts.len(),
        verdicts[failed] is Rejected,
        forall|k: int| 0 <= k < verdicts.len() && k != failed ==> #[trigger] verdicts[k] is Registered,
    ensures
        registered(verdicts) == verdicts.len() - 1,
    decreases verdicts.len(),
{
    let rest = verdicts.drop_last();
    if failed == verdicts.len() - 1 {
        lemma_all_registered(rest);
    } else {
        lemma_all_but_one_registered(rest, failed);
    }
}

/// All verdicts being `Registered`, all are counted.
pub proof fn lemma_all_registered(verdicts: Seq<Verdict>)
    requires
        forall|k: int| 0 <= k < verdicts.len() ==> #[trigger] verdicts[k] is Registered,
    ensures
        registered(verdicts) == verdicts.len(),
    decreases verdicts.len(),
{
    if verdicts.len() > 0 {
        lemma_all_registered(verdicts.drop_last());
    }
}

/// The failure of one interface keeps no other out: of pairwise distinct
/// candidates of which exactly one was rejected, all the others are in the
/// registry once provisioning is over.
pub proof fn lemma_single_failure<S>(m: DaemonModel<S>, failed: int)
    requires
        m.inv(),
        m.ready(),
        m.closed == 0,
        ids(m.candidates).no_duplicates(),
        0 <= failed < m.verdicts.len(),
        m.verdicts[failed] is Rejected,
        forall|k: int|
            0 <= k < m.verdicts.len() && k != failed ==> #[trigger] m.verdicts[k] is Registered,
    ensures
        m.units.len() == m.candidates.len() - 1,
        forall|k: int|
            0 <= k < m.candidates.len() && k != failed ==> m.units.dom().contains(
                #[trigger] m.candidates[k]@,
            ),
        !m.units.dom().contains(m.candidates[failed]@),
{
    lemma_all_but_one_registered(m.verdicts, failed);
    assert forall|k: int| 0 <= k < m.candidates.len() && k != failed implies m.units.dom().contains(
        #[trigger] m.candidates[k]@,
    ) by {
        assert(m.registered_as(k, m.candidates[k]@));
    }
    if m.units.dom().contains(m.candidates[failed]@) {
        let k = choose|k: int| m.registered_as(k, m.candidates[failed]@);
        assert(m.registered_as(k, m.candidates[failed]@));
        assert(ids(m.candidates)[k] == ids(m.candidates)[failed]);
    }
}

/// Of pairwise distinct candidates of which one fails at some operation
/// while all the others succeed, the registry that provisioning builds holds
/// all but that one.
pub proof fn lemma_one_failure_among_many<S>(
    candidates: Seq<Interface>,
    settings: Settings,
    attempts: Seq<Seq<Result<S, IoFailure>>>,
    failed: int,
)
    requires
        forall|k: int| 0 <= k < candidates.len() ==> is_usable(#[trigger] candidates[k]),
        ids(candidates).no_duplicates(),
        DaemonModel::<S>::initial(candidates, settings).provisioned_by(attempts),
        0 <= failed < attempts.len(),
        !all_succeeded(attempts[failed]),
        forall|k: int|
            0 <= k < attempts.len() && k != failed ==> all_succeeded(#[trigger] attempts[k]),
    ensures
        DaemonModel::<S>::initial(candidates, settings).run(attempts.flatten()).units.len()
            == candidates.len() - 1,
        forall|k: int|
            0 <= k < candidates.len() && k != failed ==> DaemonModel::<S>::initial(
                candidates,
                settings,
            ).run(attempts.flatten()).units.dom().contains(#[trigger] candidates[k]@),
        !DaemonModel::<S>::initial(candidates, settings).run(
            attempts.flatten(),
        ).units.dom().contains(candidates[failed]@),
{
    let m = DaemonModel::<S>::initial(candidates, settings);
    let end = m.run(attempts.flatten());
    lemma_initial_inv::<S>(candidates, settings);
    lemma_provisioning_verdicts(m, attempts);
    assert(!(end.verdicts[failed] is Registered));
    assert forall|k: int| 0 <= k < end.verdicts.len() && k != failed implies #[trigger] end.verdicts[k] is Registered by {
        assert(all_succeeded(attempts[k]));
    }
    lemma_single_failure(end, failed);
}

/// An event of one unit touches no other interface: whatever the registry
/// holds for another interface, socket and unit state, it still holds.
pub proof fn lemma_units_are_isolated<S>(
    m: DaemonModel<S>,
    id: InterfaceId,
    event: UnitEvent,
    other: InterfaceId,
)
    requires
        other != id,
    ensures
        m.handle(id, event).units.dom().contains(other) == m.units.dom().contains(other),
        m.units.dom().contains(other) ==> m.handle(id, event).units[other] == m.units[other],
{
}

/// A failure of a unit's send or receive, other than would-block, takes
/// that unit's interface out of the registry, hands its socket out to be
/// closed, and leaves the rest of the registry as it was.
pub proof fn lemma_runtime_failure_removes<S>(
    m: DaemonModel<S>,
    id: InterfaceId,
    failure: IoFailure,
)
    requires
        m.ready(),
        m.units.dom().contains(id),
        !failure.is_would_block(),
    ensures
        m.units[id].state == UnitState::Announcing ==> m.handle(id, UnitEvent::SendFailed(failure)).units
            == m.units.remove(id) && m.directive(id, UnitEvent::SendFailed(failure)) == (
        Directive::Closed { socket: m.units[id].socket, cause: StopCause::Failed(failure) }),
        m.units[id].state == UnitState::AwaitingResponse ==> m.handle(
            id,
            UnitEvent::ReceiveFailed(failure),
        ).units == m.units.remove(id) && m.directive(id, UnitEvent::ReceiveFailed(failure)) == (
        Directive::Closed { socket: m.units[id].socket, cause: StopCause::Failed(failure) }),
{
}

/// The shutdown signal stops a unit in whatever state: its interface leaves
/// the registry and its socket is handed out to be closed.
pub proof fn lemma_cancellation_stops<S>(m: DaemonModel<S>, id: InterfaceId)
    requires
        m.ready(),
        m.units.dom().contains(id),
    ensures
        m.handle(id, UnitEvent::Cancelled).units == m.units.remove(id),
        m.directive(id, UnitEvent::Cancelled) == (Directive::Closed {
            socket: m.units[id].socket,
            cause: StopCause::Cancelled,
        }),
{
}

/// No unit runs before provisioning is over: until then every event is
/// turned away and every registered unit is idle.
pub proof fn lemma_no_unit_runs_early<S>(m: DaemonModel<S>, id: InterfaceId, event: UnitEvent)
    requires
        m.inv(),
        !m.ready(),
    ensures
        m.handle(id, event) == m,
        m.directive(id, event) == Directive::<S>::NotReady,
        m.units.dom().contains(id) ==> m.units[id].state == UnitState::Idle,
{
}

/// Once provisioning is over the registry only shrinks: a report changes
/// nothing, and an event of a unit adds no interface and replaces no socket.
pub proof fn lemma_registry_is_fixed_once_ready<S>(
    m: DaemonModel<S>,
    outcome: Result<S, IoFailure>,
    id: InterfaceId,
    event: UnitEvent,
    other: InterfaceId,
)
    requires
        m.ready(),
    ensures
        m.report(outcome) == m,
        m.handle(id, event).ready(),
        m.handle(id, event).units.dom().contains(other) ==> m.units.dom().contains(other) && m.handle(
            id,
            event,
        ).units[other].socket == m.units[other].socket && m.handle(id, event).units[other].config
            == m.units[other].config,
{
}

/// Within a cycle the send comes first. An idle unit can only be told to
/// announce, to the mDNS group of its family on the mDNS port; a unit is
/// told to receive or to wait only once its announcement was dealt with; and
/// it is never told to wait for longer than the timeout it was given.
pub proof fn lemma_send_precedes_receive(
    state: UnitState,
    event: UnitEvent,
    family: Family,
    timeout_ms: u32,
)
    ensures
        match step_spec(state, event, family, timeout_ms) {
            Step::Advance { next, command } => match command {
                Command::Announce(to) => state == UnitState::Idle && next == UnitState::Announcing
                    && to == announce_address(family),
                Command::Receive => (state == UnitState::Announcing || state
                    == UnitState::AwaitingResponse) && next == UnitState::AwaitingResponse,
                Command::Wait { timeout_ms: granted } => state == UnitState::AwaitingResponse
                    && next == UnitState::AwaitingResponse && granted == timeout_ms,
                Command::Deliver(datagram) => state == UnitState::AwaitingResponse && next
                    == UnitState::Processing && event == UnitEvent::Received(datagram),
                Command::Rest => next == UnitState::Idle,
            },
            Step::Stop(cause) => match cause {
                StopCause::Cancelled => event == UnitEvent::Cancelled,
                StopCause::Failed(failure) => !failure.is_would_block() && (event
                    == UnitEvent::SendFailed(failure) || event == UnitEvent::ReceiveFailed(failure)),
            },
            Step::Ignore => true,
        },
{
}

} // verus!
