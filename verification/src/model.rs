//! The daemon as a state machine over mathematical values: what each report
//! of its caller does to it, and what holds of it in every state.

use crate::enumerator::is_usable;
use crate::failure::IoFailure;
use crate::interface::{ids, Interface, InterfaceId};
use crate::provision::{next_operation, serves};
use crate::socket::{SocketConfig, SocketOp};
use crate::unit::{step_spec, Command, Step, StopCause, UnitEvent, UnitState};
use vstd::prelude::*;

verus! {

/// How long a unit waits for a response before it announces again, unless
/// told otherwise: one second.
pub const DEFAULT_WAIT_TIMEOUT_MS: u32 = 1000;

/// What the daemon is tuned by.
#[derive(Clone, Copy, Debug, PartialEq, Eq, Hash, Structural)]
pub struct Settings {
    /// Whether the platform can enable port reuse. Where it cannot, the
    /// operation is left out of provisioning.
    pub reuse_port: bool,
    /// For how long a unit waits for a socket to become readable, in
    /// milliseconds.
    pub wait_timeout_ms: u32,
}

/// Why an interface was not registered: the operation that failed, and how.
#[derive(Clone, Copy, Debug, PartialEq, Eq, Hash, Structural)]
pub struct Rejection {
    pub operation: SocketOp,
    pub failure: IoFailure,
}

/// How provisioning ended for one interface.
#[derive(Clone, Copy, Debug, PartialEq, Eq, Hash, Structural)]
pub enum Verdict {
    Registered,
    Rejected(Rejection),
}

/// What the registry holds for an interface: its socket, the record of what
/// was done to the socket, and the state of the unit that runs on it.
#[derive(Debug)]
pub struct Unit<S> {
    pub socket: S,
    pub config: SocketConfig,
    pub state: UnitState,
}

/// The daemon's answer to a report on a provisioning operation.
#[derive(Debug, PartialEq, Eq)]
pub enum SetupProgress<S> {
    /// The operation succeeded and more is to be done to the socket, which
    /// is handed back for it.
    Continue(S),
    /// The last operation succeeded: the interface is registered and the
    /// registry owns the socket.
    Registered(Interface),
    /// The operation failed: the interface is left out.
    Rejected(Interface, Rejection),
    /// No operation was pending. The report is handed back.
    NothingPending(Result<S, IoFailure>),
}

/// The daemon's answer to an event of a unit.
#[derive(Debug, PartialEq, Eq)]
pub enum Directive<S> {
    /// The unit goes on with the command.
    Continue(Command),
    /// The unit has stopped and its interface has left the registry. The
    /// socket is handed out to be closed.
    Closed { socket: S, cause: StopCause },
    /// The unit did not expect the event. Nothing has changed.
    Ignored,
    /// The registry does not hold the interface. Nothing has changed.
    NotRegistered,
    /// Provisioning is not over, so no unit runs yet. Nothing has changed.
    NotReady,
}

/// The state of the daemon.
pub struct DaemonModel<S> {
    /// The interfaces to provision, in the order in which they are taken.
    pub candidates: Seq<Interface>,
    /// How provisioning ended for the candidates done with: the `k`-th
    /// verdict is that of the `k`-th candidate.
    pub verdicts: Seq<Verdict>,
    /// What has been done so far to the socket of the candidate at hand.
    pub config: SocketConfig,
    /// The registry.
    pub units: Map<InterfaceId, Unit<S>>,
    pub settings: Settings,
    /// How many units have stopped.
    pub closed: nat,
}

impl Settings {
    /// Port reuse enabled, and the default timeout.
    pub open spec fn standard() -> Settings {
        Settings { reuse_port: true, wait_timeout_ms: DEFAULT_WAIT_TIMEOUT_MS }
    }
}

impl Default for Settings {
    fn default() -> (settings: Settings)
        ensures
            settings == Settings::standard(),
    {
        Settings { reuse_port: true, wait_timeout_ms: DEFAULT_WAIT_TIMEOUT_MS }
    }
}

/// How many of the verdicts are `Registered`.
pub open spec fn registered(verdicts: Seq<Verdict>) -> nat
    decreases verdicts.len(),
{
    if verdicts.len() == 0 {
        0
    } else {
        registered(verdicts.drop_last()) + if verdicts.last() is Registered {
            1nat
        } else {
            0nat
        }
    }
}

impl<S> DaemonModel<S> {
    /// The daemon before anything was provisioned.
    pub open spec fn initial(candidates: Seq<Interface>, settings: Settings) -> Self {
        DaemonModel {
            candidates,
            verdicts: Seq::empty(),
            config: SocketConfig::unconfigured(),
            units: Map::empty(),
            settings,
            closed: 0,
        }
    }

    /// Whether provisioning is over: every candidate has its verdict.
    pub open spec fn ready(self) -> bool {
        self.verdicts.len() >= self.candidates.len()
    }

    /// The candidate at hand, while provisioning is not over.
    pub open spec fn current(self) -> Interface {
        self.candidates[self.verdicts.len() as int]
    }

    /// The operation that the daemon waits to hear of.
    pub open spec fn pending(self) -> Option<SocketOp> {
        if self.ready() {
            None
        } else {
            next_operation(self.config, self.current()@, self.settings.reuse_port)
        }
    }

    /// The `k`-th candidate is `id` and was registered.
    pub open spec fn registered_as(self, k: int, id: InterfaceId) -> bool {
        &&& 0 <= k < self.verdicts.len()
        &&& k < self.candidates.len()
        &&& self.candidates[k]@ == id
        &&& self.verdicts[k] is Registered
    }

    /// The state after the outcome of the pending operation was reported.
    ///
    /// A failure rejects the candidate at hand. A success is recorded; when
    /// it was the last operation that the candidate needed, the candidate is
    /// registered with the socket that came with the report, and its unit is
    /// idle. Either way the daemon turns to the next candidate. A report
    /// while nothing is pending changes nothing.
    pub open spec fn report(self, outcome: Result<S, IoFailure>) -> Self {
        match self.pending() {
            None => self,
            Some(operation) => match outcome {
                Err(failure) => DaemonModel {
                    verdicts: self.verdicts.push(Verdict::Rejected(Rejection { operation, failure })),
                    config: SocketConfig::unconfigured(),
                    ..self
                },
                Ok(socket) => {
                    let config = self.config.apply(operation);
                    if next_operation(config, self.current()@, self.settings.reuse_port) is None {
                        DaemonModel {
                            verdicts: self.verdicts.push(Verdict::Registered),
                            config: SocketConfig::unconfigured(),
                            units: self.units.insert(
                                self.current()@,
                                Unit { socket, config, state: UnitState::Idle },
                            ),
                            ..self
                        }
                    } else {
                        DaemonModel { config, ..self }
                    }
                },
            },
        }
    }

    /// The answer to the report.
    pub open spec fn progress(self, outcome: Result<S, IoFailure>) -> SetupProgress<S> {
        match self.pending() {
            None => SetupProgress::NothingPending(outcome),
            Some(operation) => match outcome {
                Err(failure) => SetupProgress::Rejected(
                    self.current(),
                    Rejection { operation, failure },
                ),
                Ok(socket) => if next_operation(
                    self.config.apply(operation),
                    self.current()@,
                    self.settings.reuse_port,
                ) is None {
                    SetupProgress::Registered(self.current())
                } else {
                    SetupProgress::Continue(socket)
                },
            },
        }
    }

    /// The transition that the unit of `id` takes on the event, where it has
    /// a unit and units run.
    pub open spec fn transition(self, id: InterfaceId, event: UnitEvent) -> Step {
        step_spec(self.units[id].state, event, id.addr.family(), self.settings.wait_timeout_ms)
    }

    /// The state after the unit of `id` reported the event.
    ///
    /// Before provisioning is over, and for an interface that the registry
    /// does not hold, nothing changes. Otherwise the unit takes its
    /// transition; when that stops the unit, its interface leaves the
    /// registry. No other interface is touched.
    pub open spec fn handle(self, id: InterfaceId, event: UnitEvent) -> Self {
        if !self.ready() || !self.units.dom().contains(id) {
            self
        } else {
            match self.transition(id, event) {
                Step::Advance { next, command } => DaemonModel {
                    units: self.units.insert(
                        id,
                        Unit {
                            socket: self.units[id].socket,
                            config: self.units[id].config,
                            state: next,
                        },
                    ),
                    ..self
                },
                Step::Stop(cause) => DaemonModel {
                    units: self.units.remove(id),
                    closed: self.closed + 1,
                    ..self
                },
                Step::Ignore => self,
            }
        }
    }

    /// The answer to the event.
    pub open spec fn directive(self, id: InterfaceId, event: UnitEvent) -> Directive<S> {
        if !self.ready() {
            Directive::NotReady
        } else if !self.units.dom().contains(id) {
            Directive::NotRegistered
        } else {
            match self.transition(id, event) {
                Step::Advance { next, command } => Directive::Continue(command),
                Step::Stop(cause) => Directive::Closed { socket: self.units[id].socket, cause },
                Step::Ignore => Directive::Ignored,
            }
        }
    }

    /// What holds of the daemon in every state.
    pub open spec fn inv(self) -> bool {
        // Verdicts are given to candidates, in order.
        &&& self.verdicts.len() <= self.candidates.len()
        &&& self.units.dom().finite()
        // No candidate is a loopback interface.
        &&& forall|k: int|
            0 <= k < self.candidates.len() ==> is_usable(#[trigger] self.candidates[k])
        // While provisioning goes on, an operation is pending and no unit
        // has run: none has stopped, and all are idle.
        &&& !self.ready() ==> self.pending() is Some
        &&& !self.ready() ==> self.closed == 0
        &&& !self.ready() ==> forall|id: InterfaceId| #[trigger]
            self.units.dom().contains(id) ==> self.units[id].state == UnitState::Idle
        // The registry holds only candidates that were registered, and all
        // of them while no unit has stopped.
        &&& forall|id: InterfaceId| #[trigger]
            self.units.dom().contains(id) ==> exists|k: int| self.registered_as(k, id)
        &&& self.closed == 0 ==> forall|k: int, id: InterfaceId| #[trigger]
            self.registered_as(k, id) ==> self.units.dom().contains(id)
        // Every socket in the registry serves its interface.
        &&& forall|id: InterfaceId| #[trigger]
            self.units.dom().contains(id) ==> serves(
                self.units[id].config,
                id,
                self.settings.reuse_port,
            )
        // Registered candidates are in the registry or have stopped; with
        // candidates that are pairwise distinct, each is counted once.
        &&& self.units.dom().len() + self.closed <= registered(self.verdicts)
        &&& ids(self.candidates).no_duplicates() ==> self.units.dom().len() + self.closed
            == registered(self.verdicts)
    }
}

/// No more verdicts are `Registered` than there are verdicts.
pub proof fn lemma_registered_bound(verdicts: Seq<Verdict>)
    ensures
        registered(verdicts) <= verdicts.len(),
    decreases verdicts.len(),
{
    if verdicts.len() > 0 {
        lemma_registered_bound(verdicts.drop_last());
    }
}

/// One more verdict counts if and only if it is `Registered`.
pub proof fn lemma_registered_push(verdicts: Seq<Verdict>, verdict: Verdict)
    ensures
        registered(verdicts.push(verdict)) == registered(verdicts) + if verdict is Registered {
            1nat
        } else {
            0nat
        },
{
    assert(verdicts.push(verdict).drop_last() =~= verdicts);
}

/// The daemon starts in a state of which the invariant holds, given
/// candidates that are all usable.
pub proof fn lemma_initial_inv<S>(candidates: Seq<Interface>, settings: Settings)
    requires
        forall|k: int| 0 <= k < candidates.len() ==> is_usable(#[trigger] candidates[k]),
    ensures
        DaemonModel::<S>::initial(candidates, settings).inv(),
{
    let m = DaemonModel::<S>::initial(candidates, settings);
    assert(m.units.dom() =~= Set::<InterfaceId>::empty());
}

/// A report preserves the invariant.
pub proof fn lemma_report_inv<S>(m: DaemonModel<S>, outcome: Result<S, IoFailure>)
    requires
        m.inv(),
    ensures
        m.report(outcome).inv(),
{
    let after = m.report(outcome);
    if m.pending() is Some {
        let operation = m.pending().unwrap();
        let id = m.current()@;
        let at = m.verdicts.len() as int;
        assert forall|k: int, other: InterfaceId| m.registered_as(k, other) implies after.registered_as(
            k,
            other,
        ) by {}
        assert forall|k: int, other: InterfaceId|
            after.registered_as(k, other) && k != at implies m.registered_as(k, other) by {}
        match outcome {
            Err(failure) => {
                lemma_registered_push(
                    m.verdicts,
                    Verdict::Rejected(Rejection { operation, failure }),
                );
                assert forall|other: InterfaceId| #[trigger]
                    after.units.dom().contains(other) implies exists|k: int|
                    after.registered_as(k, other) by {
                    let k = choose|k: int| m.registered_as(k, other);
                    assert(after.registered_as(k, other));
                }
            },
            Ok(socket) => {
                let config = m.config.apply(operation);
                if next_operation(config, id, m.settings.reuse_port) is None {
                    lemma_registered_push(m.verdicts, Verdict::Registered);
                    assert(after.registered_as(at, id));
                    assert forall|other: InterfaceId| #[trigger]
                        after.units.dom().contains(other) implies exists|k: int|
                        after.registered_as(k, other) by {
                        if other != id {
                            let k = choose|k: int| m.registered_as(k, other);
                            assert(after.registered_as(k, other));
                        }
                    }
                    if ids(m.candidates).no_duplicates() && m.units.dom().contains(id) {
                        let k = choose|k: int| m.registered_as(k, id);
                        assert(ids(m.candidates)[k] == ids(m.candidates)[at]);
                    }
                }
            },
        }
    }
}

/// An event of a unit preserves the invariant.
pub proof fn lemma_handle_inv<S>(m: DaemonModel<S>, id: InterfaceId, event: UnitEvent)
    requires
        m.inv(),
    ensures
        m.handle(id, event).inv(),
{
    let after = m.handle(id, event);
    if m.ready() && m.units.dom().contains(id) {
        assert forall|k: int, other: InterfaceId| m.registered_as(k, other) <==> after.registered_as(
            k,
            other,
        ) by {}
        match m.transition(id, event) {
            Step::Advance { next, command } => {
                assert(after.units.dom() =~= m.units.dom());
                assert forall|other: InterfaceId| #[trigger]
                    after.units.dom().contains(other) implies exists|k: int|
                    after.registered_as(k, other) by {
                    let k = choose|k: int| m.registered_as(k, other);
                    assert(after.registered_as(k, other));
                }
            },
            Step::Stop(cause) => {
                assert forall|other: InterfaceId| #[trigger]
                    after.units.dom().contains(other) implies exists|k: int|
                    after.registered_as(k, other) by {
                    let k = choose|k: int| m.registered_as(k, other);
                    assert(after.registered_as(k, other));
                }
            },
            Step::Ignore => {},
        }
    }
}

} // verus!
