//! I/O failures as the daemon sees them.

use vstd::prelude::*;

verus! {

/// The kinds of I/O failure that the daemon tells apart.
#[derive(Clone, Copy, Debug, PartialEq, Eq, Hash, Structural)]
pub enum IoErrorKind {
    /// No data is available now: the normal signal to suspend, not an error.
    WouldBlock,
    PermissionDenied,
    AddrInUse,
    AddrNotAvailable,
    Other,
}

/// One failed I/O operation: its kind and, where the operating system gave
/// one, its error code.
#[derive(Clone, Copy, Debug, PartialEq, Eq, Hash, Structural)]
pub struct IoFailure {
    pub kind: IoErrorKind,
    pub os_code: Option<i32>,
}

impl IoFailure {
    /// The failure is of the kind `WouldBlock`.
    pub open spec fn is_would_block_spec(&self) -> bool {
        self.kind == IoErrorKind::WouldBlock
    }

    /// Whether the failure only says that the operation would have blocked.
    #[verifier::when_used_as_spec(is_would_block_spec)]
    pub fn is_would_block(&self) -> (would_block: bool)
        ensures
            would_block == self.is_would_block_spec(),
    {
        self.kind == IoErrorKind::WouldBlock
    }
}

} // verus!
