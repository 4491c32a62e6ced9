//! Core of a local-network peer-discovery daemon that follows multicast DNS
//! conventions.
//!
//! The crate decides; its caller performs. Every socket operation and every
//! wait is requested by the daemon as a plain value, carried out by the
//! caller, and reported back as a plain value. What the daemon does with each
//! report is stated in the contracts of [`daemon::PeerDaemon`].

pub mod address;
pub mod daemon;
pub mod enumerator;
pub mod failure;
pub mod interface;
pub mod laws;
pub mod membership;
pub mod model;
pub mod provision;
pub mod registry;
pub mod socket;
pub mod unit;

pub use address::{Family, IpAddress, SocketAddress, MDNS_ADDR_V4, MDNS_ADDR_V6, MDNS_PORT};
pub use daemon::PeerDaemon;
pub use enumerator::{enumerate, usable_interfaces, without_loopback};
pub use failure::{IoErrorKind, IoFailure};
pub use interface::{Interface, InterfaceId};
pub use membership::{Membership, Route};
pub use model::{Directive, Rejection, Settings, SetupProgress, Unit, Verdict, DEFAULT_WAIT_TIMEOUT_MS};
pub use registry::Registry;
pub use socket::{udp_socket, SocketConfig, SocketOp, Stage};
pub use unit::{announcement, Command, Datagram, Step, StopCause, UnitEvent, UnitState, WaitOutcome};
