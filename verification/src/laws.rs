use vstd::prelude::*;

use crate::errors::WalletError;
use crate::principal::PrincipalId;
use crate::recovery::{approve_post, attempt_wf, count_true, RecoveryAttempt};
use crate::wallet::{wallet_wf, WalletAccount};

verus! {

/// For every well-formed wallet, `pending_guardians` and
/// `pending_guardians_approval_from` have the same length: the two pending
/// lists are always positionally aligned. Every operation requires and
/// re-establishes `wallet_wf`, so the alignment holds after any sequence of
/// operations.
pub proof fn lemma_pending_lists_aligned(w: WalletAccount)
    requires
        wallet_wf(w),
    ensures
        w.pending_guardians@.len() == w.pending_guardians_approval_from@.len(),
{
}

/// For every well-formed recovery attempt, the approval bits are positionally
/// aligned with the guardian list captured at attempt creation: the two have
/// the same length from initiation on, and every approval preserves it.
pub proof fn lemma_attempt_lists_aligned(a: RecoveryAttempt)
    requires
        attempt_wf(a),
    ensures
        a.approvals@.len() == a.guardians@.len(),
{
}

/// `recovery_mode` is true exactly while the wallet records a current
/// recovery attempt whose `is_executed` is still false. Here `a` is the
/// wallet's current attempt whenever one is recorded; the premise that a
/// recorded attempt is unexecuted is exactly the tracking biconditional that
/// the coordinator's operations establish and preserve in their contracts.
pub proof fn lemma_recovery_mode_iff(w: WalletAccount, a: RecoveryAttempt)
    requires
        wallet_wf(w),
        w.current_recovery is Some ==> w.current_recovery == Some(a.attempt_id),
        w.current_recovery == Some(a.attempt_id) ==> !a.is_executed,
    ensures
        w.recovery_mode <==> (w.current_recovery is Some && !a.is_executed),
{
}

/// Approval is idempotent on the approval bits: setting the same guardian's
/// bit a second time leaves the sequence exactly as one setting left it.
/// Together with `approve_post` — an approval by a guardian at position `i`
/// turns `approvals` into `approvals.update(i, true)`, and a refused call
/// changes nothing — approving twice with the same guardian produces the
/// same `approvals` state as approving once.
pub proof fn lemma_approval_idempotent(s: Seq<bool>, i: int)
    requires
        0 <= i < s.len(),
    ensures
        s.update(i, true).update(i, true) == s.update(i, true),
{
    assert(s.update(i, true).update(i, true) =~= s.update(i, true));
}

/// Ownership never changes except through an approval that reached quorum:
/// whatever an approval call did, if the owner afterwards differs from the
/// owner before, the attempt's set approval bits reach the wallet's
/// threshold and the new owner is the one the attempt proposed. (Every other
/// operation's contract states that the owner is unchanged.)
pub proof fn lemma_owner_change_requires_quorum(
    w0: WalletAccount,
    a0: RecoveryAttempt,
    w1: WalletAccount,
    a1: RecoveryAttempt,
    guardian: PrincipalId,
    r: Result<bool, WalletError>,
)
    requires
        approve_post(w0, a0, w1, a1, guardian, r),
        w1.owner != w0.owner,
    ensures
        count_true(a1.approvals@) >= w0.recovery_threshold,
        w1.owner == a0.new_owner,
        a1.is_executed,
{
}

} // verus!
