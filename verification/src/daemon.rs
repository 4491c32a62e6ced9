//! The peer daemon: owner of the interface registry and of the units that
//! run on its sockets.
//!
//! The daemon is driven in two phases. While an operation is
//! [pending](PeerDaemon::pending), the caller performs it and
//! [reports](PeerDaemon::report) its outcome. Once nothing is pending the
//! daemon is [ready](PeerDaemon::is_ready), and each unit feeds its events to
//! [`PeerDaemon::handle`] and does what the answer says.

use crate::enumerator::{
    enumerate, is_usable, lemma_usable_is_usable, usable, without_loopback,
};
use crate::failure::IoFailure;
use crate::interface::{ids, Interface, InterfaceId};
use crate::model::{
    lemma_handle_inv, lemma_initial_inv, lemma_registered_bound, lemma_report_inv, DaemonModel,
    Directive, Rejection, Settings, SetupProgress, Unit, Verdict,
};
use crate::provision::next_setup_operation;
use crate::registry::Registry;
use crate::socket::{SocketConfig, SocketOp};
use crate::unit::{step, Step, UnitEvent, UnitState};
use vstd::prelude::*;

verus! {

/// The daemon. `S` is the caller's socket type, of which the daemon knows
/// nothing but who owns each value.
pub struct PeerDaemon<S> {
    candidates: Vec<Interface>,
    verdicts: Vec<Verdict>,
    config: SocketConfig,
    interfaces: Registry<Unit<S>>,
    settings: Settings,
    closed: usize,
}

impl<S> View for PeerDaemon<S> {
    type V = DaemonModel<S>;

    closed spec fn view(&self) -> DaemonModel<S> {
        DaemonModel {
            candidates: self.candidates@,
            verdicts: self.verdicts@,
            config: self.config,
            units: self.interfaces@,
            settings: self.settings,
            closed: self.closed as nat,
        }
    }
}

impl<S> PeerDaemon<S> {
    /// The registry holds no interface twice.
    pub closed spec fn registry_wf(&self) -> bool {
        self.interfaces.wf()
    }

    /// The daemon is well formed: its registry is, and the invariant of the
    /// state machine holds of its state.
    pub open spec fn wf(&self) -> bool {
        &&& self.registry_wf()
        &&& self@.inv()
    }

    fn assemble(candidates: Vec<Interface>, settings: Settings) -> (daemon: Self)
        requires
            forall|k: int| 0 <= k < candidates.len() ==> is_usable(#[trigger] candidates[k]),
        ensures
            daemon.wf(),
            daemon@ == DaemonModel::<S>::initial(candidates@, settings),
    {
        proof {
            lemma_initial_inv::<S>(candidates@, settings);
        }
        PeerDaemon {
            candidates,
            verdicts: Vec::new(),
            config: SocketConfig::new(),
            interfaces: Registry::new(),
            settings,
            closed: 0,
        }
    }

    /// A daemon for the interfaces that the host reports, with the standard
    /// settings. Nothing is registered yet. Whatever the host reports, no
    /// candidate is a loopback interface; where the host cannot be asked
    /// there is no candidate, and the daemon is ready at once.
    pub fn new() -> (daemon: Self)
        ensures
            daemon.wf(),
            daemon@ == DaemonModel::<S>::initial(daemon@.candidates, Settings::standard()),
            forall|k: int|
                0 <= k < daemon@.candidates.len() ==> is_usable(#[trigger] daemon@.candidates[k]),
    {
        Self::with_settings(Settings::default())
    }

    /// As [`PeerDaemon::new`], with the given settings.
    pub fn with_settings(settings: Settings) -> (daemon: Self)
        ensures
            daemon.wf(),
            daemon@ == DaemonModel::<S>::initial(daemon@.candidates, settings),
            forall|k: int|
                0 <= k < daemon@.candidates.len() ==> is_usable(#[trigger] daemon@.candidates[k]),
    {
        Self::assemble(enumerate(), settings)
    }

    /// A daemon for the usable interfaces among `found`, in the order of
    /// `found`. Nothing is registered yet.
    pub fn from_interfaces(found: &Vec<Interface>, settings: Settings) -> (daemon: Self)
        ensures
            daemon.wf(),
            daemon@ == DaemonModel::<S>::initial(usable(found@), settings),
    {
        let candidates = without_loopback(found);
        proof {
            lemma_usable_is_usable(found@);
        }
        Self::assemble(candidates, settings)
    }

    /// Whether provisioning is over.
    pub fn is_ready(&self) -> (ready: bool)
        ensures
            ready == self@.ready(),
    {
        self.verdicts.len() >= self.candidates.len()
    }

    /// The candidate being provisioned, while provisioning is not over.
    pub fn current(&self) -> (candidate: Option<&Interface>)
        ensures
            match candidate {
                Some(interface) => !self@.ready() && *interface == self@.current(),
                None => self@.ready(),
            },
    {
        let at: usize = self.verdicts.len();
        if at < self.candidates.len() {
            Some(&self.candidates[at])
        } else {
            None
        }
    }

    /// The operation to perform next: on a new socket where it is `Create`,
    /// else on the socket that the last report handed back. `None` when
    /// provisioning is over.
    pub fn pending(&self) -> (operation: Option<SocketOp>)
        requires
            self.wf(),
        ensures
            operation == self@.pending(),
            operation is None <==> self@.ready(),
    {
        let at: usize = self.verdicts.len();
        if at < self.candidates.len() {
            next_setup_operation(&self.config, &self.candidates[at], self.settings.reuse_port)
        } else {
            None
        }
    }

    /// Takes the outcome of the pending operation: the socket on success,
    /// the failure otherwise. See [`DaemonModel::report`] for what becomes
    /// of the daemon and [`DaemonModel::progress`] for the answer.
    pub fn report(&mut self, outcome: Result<S, IoFailure>) -> (progress: SetupProgress<S>)
        requires
            old(self).wf(),
        ensures
            final(self).wf(),
            final(self)@ == old(self)@.report(outcome),
            progress == old(self)@.progress(outcome),
    {
        proof {
            lemma_report_inv(self@, outcome);
        }
        let at: usize = self.verdicts.len();
        if at >= self.candidates.len() {
            return SetupProgress::NothingPending(outcome);
        }
        let reuse_port = self.settings.reuse_port;
        let operation = match next_setup_operation(&self.config, &self.candidates[at], reuse_port) {
            Some(operation) => operation,
            None => {
                return SetupProgress::NothingPending(outcome);
            },
        };
        match outcome {
            Err(failure) => {
                let rejection = Rejection { operation, failure };
                self.verdicts.push(Verdict::Rejected(rejection));
                self.config = SocketConfig::new();
                SetupProgress::Rejected(self.candidates[at].clone(), rejection)
            },
            Ok(socket) => {
                let config = self.config.apply(operation);
                match next_setup_operation(&config, &self.candidates[at], reuse_port) {
                    Some(_) => {
                        self.config = config;
                        SetupProgress::Continue(socket)
                    },
                    None => {
                        let interface = self.candidates[at].clone();
                        let unit = Unit { socket, config, state: UnitState::Idle };
                        let _ = self.interfaces.insert(interface.clone(), unit);
                        self.verdicts.push(Verdict::Registered);
                        self.config = SocketConfig::new();
                        SetupProgress::Registered(interface)
                    },
                }
            },
        }
    }

    /// Takes an event of the unit that runs on the interface's socket. See
    /// [`DaemonModel::handle`] for what becomes of the daemon and
    /// [`DaemonModel::directive`] for the answer.
    pub fn handle(&mut self, interface: &Interface, event: UnitEvent) -> (directive: Directive<S>)
        requires
            old(self).wf(),
        ensures
            final(self).wf(),
            final(self)@ == old(self)@.handle(interface@, event),
            directive == old(self)@.directive(interface@, event),
    {
        proof {
            lemma_handle_inv(self@, interface@, event);
        }
        if !self.is_ready() {
            return Directive::NotReady;
        }
        let ghost before = self@;
        match self.interfaces.remove(interface) {
            None => {
                assert(self@.units =~= before.units);
                Directive::NotRegistered
            },
            Some(unit) => {
                let timeout_ms: u32 = self.settings.wait_timeout_ms;
                match step(unit.state, event, interface.family(), timeout_ms) {
                    Step::Advance { next, command } => {
                        let moved = Unit { socket: unit.socket, config: unit.config, state: next };
                        let _ = self.interfaces.insert(interface.clone(), moved);
                        assert(self@.units =~= before.units.insert(interface@, moved));
                        Directive::Continue(command)
                    },
                    Step::Stop(cause) => {
                        proof {
                            lemma_registered_bound(before.verdicts);
                            assert(before.units.dom().contains(interface@));
                            assert(before.units.dom().len() != 0);
                            assert(before.closed < before.verdicts.len());
                        }
                        let verdicts: usize = self.verdicts.len();
                        assert(self.closed < verdicts);
                        self.closed = self.closed + 1;
                        Directive::Closed { socket: unit.socket, cause }
                    },
                    Step::Ignore => {
                        let _ = self.interfaces.insert(interface.clone(), unit);
                        assert(self@.units =~= before.units);
                        Directive::Ignored
                    },
                }
            },
        }
    }

    /// How many interfaces are registered.
    pub fn len(&self) -> (n: usize)
        requires
            self.wf(),
        ensures
            n == self@.units.len(),
    {
        self.interfaces.len()
    }

    /// Whether no interface is registered.
    pub fn is_empty(&self) -> (empty: bool)
        requires
            self.wf(),
        ensures
            empty == (self@.units == Map::<InterfaceId, Unit<S>>::empty()),
    {
        self.interfaces.is_empty()
    }

    /// Whether the interface is registered.
    pub fn contains(&self, interface: &Interface) -> (held: bool)
        requires
            self.wf(),
        ensures
            held == self@.units.dom().contains(interface@),
    {
        self.interfaces.contains_key(interface)
    }

    /// The registered interfaces, each once, in no particular order.
    pub fn interfaces(&self) -> (held: Vec<Interface>)
        requires
            self.wf(),
        ensures
            ids(held@).no_duplicates(),
            ids(held@).to_set() == self@.units.dom(),
            held@.len() == self@.units.len(),
    {
        self.interfaces.interfaces()
    }

    /// What the registry holds for the interface, if it is registered.
    pub fn unit(&self, interface: &Interface) -> (unit: Option<&Unit<S>>)
        requires
            self.wf(),
        ensures
            match unit {
                Some(held) => self@.units.dom().contains(interface@) && *held
                    == self@.units[interface@],
                None => !self@.units.dom().contains(interface@),
            },
    {
        self.interfaces.get(interface)
    }

    /// The socket registered for the interface, if there is one.
    pub fn socket(&self, interface: &Interface) -> (socket: Option<&S>)
        requires
            self.wf(),
        ensures
            match socket {
                Some(held) => self@.units.dom().contains(interface@) && *held
                    == self@.units[interface@].socket,
                None => !self@.units.dom().contains(interface@),
            },
    {
        match self.interfaces.get(interface) {
            Some(unit) => Some(&unit.socket),
            None => None,
        }
    }

    /// The interfaces that the daemon was made for, in the order in which it
    /// provisions them.
    pub fn candidates(&self) -> (candidates: &Vec<Interface>)
        ensures
            candidates@ == self@.candidates,
    {
        &self.candidates
    }

    /// The verdicts so far: the `k`-th is that of the `k`-th candidate.
    pub fn verdicts(&self) -> (verdicts: &Vec<Verdict>)
        ensures
            verdicts@ == self@.verdicts,
    {
        &self.verdicts
    }

    /// The settings that the daemon was made with.
    pub fn settings(&self) -> (settings: Settings)
        ensures
            settings == self@.settings,
    {
        self.settings
    }

    /// How many units have stopped.
    pub fn closed_units(&self) -> (closed: usize)
        ensures
            closed == self@.closed,
    {
        self.closed
    }
}

} // verus!
