use vstd::prelude::*;

verus! {

/// Why a wallet or recovery operation was refused.
///
/// Every failure is a local validation failure: the call aborts with one of
/// these values and no state change, so callers can branch on the cause.
#[derive(Clone, Copy, Debug, PartialEq, Eq, Structural)]
pub enum WalletError {
    /// A wallet with the requested name already exists.
    DuplicateWallet,
    /// The caller is not the principal this operation requires.
    Unauthorized,
    /// The named guardian is not acceptable here: it is absent from the list
    /// the operation consults, or would duplicate an entry already present.
    InvalidGuardian,
    /// The guardian's onboarding timelock has not yet elapsed.
    TimelockNotElapsed,
    /// The wallet has an active recovery attempt, so fund movement and new
    /// recovery attempts are blocked.
    RecoveryInProgress,
    /// The recovery attempt has already been executed and is immutable.
    AlreadyExecuted,
    /// A declared extension point that is not yet supported.
    Unsupported,
}

} // verus!
