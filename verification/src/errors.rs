use vstd::prelude::*;

verus! {

/// Why an operation on the lockdrop engine was refused.
///
/// Every failure is reported synchronously with the failed operation, and a
/// failed operation leaves the engine's state exactly as it was.
#[derive(Clone, Copy, Debug, PartialEq, Eq, Structural)]
pub enum LockdropError {
    /// The operation was attempted outside the phase in which it is legal.
    PhaseViolation,
    /// The requested lock duration lies outside the configured bounds.
    InvalidDuration,
    /// A deposit of zero, or a withdrawal or claim beyond what the entry
    /// holds or is entitled to.
    InsufficientPrincipal,
    /// A second withdrawal was attempted on an entry whose single permitted
    /// withdrawal has already been used.
    AlreadyWithdrawn,
    /// A restricted operation was invoked by someone other than the
    /// administrator.
    Unauthorized,
    /// A downstream collaborator (token transfer, pool, staking) signalled
    /// failure; the embedding reports it with this variant and commits no
    /// state change.
    DownstreamTransferFailed,
    /// A claim was attempted before the entry's unlock timestamp.
    NotYetUnlocked,
    /// A multiplication or addition in the weight or entitlement arithmetic
    /// would have overflowed.
    ArithmeticOverflow,
}

} // verus!
