use vstd::prelude::*;

use crate::errors::WalletError;
use crate::principal::{
    copy_principals, distinct_principals, find_principal, index_of_principal,
    lemma_found_index_is_the_index, PrincipalId,
};
use crate::wallet::{same_core, same_guardian_state, wallet_wf, WalletAccount};

verus! {

/// A recovery attempt: one bounded episode proposing a new owner for a
/// wallet. `approvals` is positionally aligned with `guardians`, the approved
/// guardian list as it stood when the attempt was created; both are immutable
/// afterwards except for approval bits turning true. Once `is_executed`
/// holds, the record is a closed audit entry and refuses every mutation.
#[derive(Debug)]
pub struct RecoveryAttempt {
    /// Address of the wallet this attempt proposes to recover.
    pub wallet: PrincipalId,
    /// The wallet's recovery sequence number at creation; identifies this
    /// attempt among the wallet's attempts.
    pub attempt_id: u64,
    /// The principal that initiated the attempt.
    pub proposer: PrincipalId,
    /// The principal installed as owner if the attempt executes.
    pub new_owner: PrincipalId,
    /// The wallet's approved guardians at attempt creation.
    pub guardians: Vec<PrincipalId>,
    /// One approval bit per entry of `guardians`, positionally paired.
    pub approvals: Vec<bool>,
    /// True once quorum was reached and ownership committed; terminal.
    pub is_executed: bool,
}

/// Well-formedness of a recovery attempt: the approval bits are positionally
/// aligned with the guardian snapshot, which is duplicate-free.
pub open spec fn attempt_wf(a: RecoveryAttempt) -> bool {
    &&& a.approvals@.len() == a.guardians@.len()
    &&& distinct_principals(a.guardians@)
}

/// How many approval bits are set.
pub open spec fn count_true(s: Seq<bool>) -> nat
    decreases s.len(),
{
    if s.len() == 0 {
        0
    } else {
        count_true(s.drop_last()) + (if s.last() {
            1nat
        } else {
            0nat
        })
    }
}

/// Counting a one-longer prefix adds exactly the bit at its end.
proof fn lemma_count_true_take_succ(s: Seq<bool>, i: int)
    requires
        0 <= i < s.len(),
    ensures
        count_true(s.take(i + 1)) == count_true(s.take(i)) + (if s[i] {
            1nat
        } else {
            0nat
        }),
{
    assert(s.take(i + 1).drop_last() =~= s.take(i));
    assert(s.take(i + 1).last() == s[i]);
}

/// The quorum check: true iff the attempt has gathered at least
/// `recovery_threshold` approvals. Evaluated after every approval.
pub fn can_execute(wallet: &WalletAccount, attempt: &RecoveryAttempt) -> (b: bool)
    ensures
        b == (count_true(attempt.approvals@) >= wallet.recovery_threshold),
{
    let n = attempt.approvals.len();
    let mut count: usize = 0;
    let mut i: usize = 0;
    while i < n
        invariant
            n == attempt.approvals@.len(),
            i <= n,
            count <= i,
            count == count_true(attempt.approvals@.take(i as int)),
        decreases n - i,
    {
        proof {
            lemma_count_true_take_succ(attempt.approvals@, i as int);
        }
        if attempt.approvals[i] {
            count = count + 1;
        }
        i = i + 1;
    }
    proof {
        assert(attempt.approvals@.take(n as int) =~= attempt.approvals@);
    }
    count >= wallet.recovery_threshold as usize
}

/// What one approval call leaves behind, relating the wallet and attempt
/// before (`w0`, `a0`) and after (`w1`, `a1`) an approval by `guardian`:
/// - an executed attempt refuses the call (`AlreadyExecuted`) and nothing
///   changes;
/// - a principal outside the guardian snapshot is refused
///   (`InvalidGuardian`) and nothing changes;
/// - otherwise the guardian's approval bit is set (a second approval by the
///   same guardian changes nothing more), and the attempt executes exactly
///   when the set bits reach the wallet's threshold: then, in one step,
///   ownership moves to `a0.new_owner`, recovery mode ends, the attempt
///   reference is cleared and the attempt becomes a closed audit record.
pub open spec fn approve_post(
    w0: WalletAccount,
    a0: RecoveryAttempt,
    w1: WalletAccount,
    a1: RecoveryAttempt,
    guardian: PrincipalId,
    r: Result<bool, WalletError>,
) -> bool {
    &&& (a0.is_executed ==> r == Err::<bool, WalletError>(WalletError::AlreadyExecuted) && w1 == w0
        && a1 == a0)
    &&& (!a0.is_executed && !a0.guardians@.contains(guardian) ==> r == Err::<bool, WalletError>(
        WalletError::InvalidGuardian,
    ) && w1 == w0 && a1 == a0)
    &&& (!a0.is_executed && a0.guardians@.contains(guardian) ==> ({
        let i = index_of_principal(a0.guardians@, guardian);
        &&& a1.approvals@ == a0.approvals@.update(i, true)
        &&& a1.guardians@ == a0.guardians@
        &&& a1.wallet == a0.wallet
        &&& a1.attempt_id == a0.attempt_id
        &&& a1.proposer == a0.proposer
        &&& a1.new_owner == a0.new_owner
        &&& (a1.is_executed <==> count_true(a1.approvals@) >= w0.recovery_threshold)
        &&& (a1.is_executed ==> {
            &&& r == Ok::<bool, WalletError>(true)
            &&& w1.owner == a0.new_owner
            &&& w1.recovery_mode == false
            &&& w1.current_recovery is None
            &&& w1.wallet_recovery_sequence == w0.wallet_recovery_sequence
            &&& same_core(w1, w0)
            &&& same_guardian_state(w1, w0)
        })
        &&& (!a1.is_executed ==> r == Ok::<bool, WalletError>(false) && w1 == w0)
    }))
}

/// Starts a recovery episode proposing `new_owner`, allowed only while no
/// attempt is active. The attempt snapshots the approved guardian list, with
/// every approval bit false, and takes the wallet's sequence number as its
/// identity; the wallet enters recovery mode pointing at it.
///
/// Who may propose is deliberately unrestricted here: the embedding
/// deployment decides its own initiation policy and enforces it before the
/// call.
pub fn initiate_wallet_recovery(
    wallet: &mut WalletAccount,
    proposer: PrincipalId,
    new_owner: PrincipalId,
) -> (r: Result<RecoveryAttempt, WalletError>)
    requires
        wallet_wf(*old(wallet)),
        old(wallet).wallet_recovery_sequence < u64::MAX,
    ensures
        wallet_wf(*final(wallet)),
        final(wallet).owner == old(wallet).owner,
        old(wallet).recovery_mode ==> r is Err && r == Err::<RecoveryAttempt, WalletError>(
            WalletError::RecoveryInProgress,
        ) && *final(wallet) == *old(wallet),
        !old(wallet).recovery_mode ==> r is Ok,
        (r matches Ok(a) ==> {
            &&& attempt_wf(a)
            &&& a.wallet == old(wallet).address
            &&& a.attempt_id == old(wallet).wallet_recovery_sequence
            &&& a.proposer == proposer
            &&& a.new_owner == new_owner
            &&& a.guardians@ == old(wallet).approved_guardians@
            &&& a.approvals@ == Seq::new(old(wallet).approved_guardians@.len(), |k: int| false)
            &&& a.is_executed == false
            &&& final(wallet).recovery_mode == true
            &&& final(wallet).current_recovery == Some(a.attempt_id)
            &&& final(wallet).wallet_recovery_sequence == old(wallet).wallet_recovery_sequence + 1
            &&& same_core(*final(wallet), *old(wallet))
            &&& same_guardian_state(*final(wallet), *old(wallet))
        }),
{
    if wallet.recovery_mode {
        return Err(WalletError::RecoveryInProgress);
    }
    let guardians = copy_principals(&wallet.approved_guardians);
    let n = guardians.len();
    let mut approvals: Vec<bool> = Vec::new();
    let mut i: usize = 0;
    while i < n
        invariant
            i <= n,
            approvals@ == Seq::new(i as nat, |k: int| false),
        decreases n - i,
    {
        approvals.push(false);
        proof {
            assert(approvals@ =~= Seq::new((i + 1) as nat, |k: int| false));
        }
        i = i + 1;
    }
    let attempt_id = wallet.wallet_recovery_sequence;
    let attempt = RecoveryAttempt {
        wallet: wallet.address,
        attempt_id,
        proposer,
        new_owner,
        guardians,
        approvals,
        is_executed: false,
    };
    wallet.recovery_mode = true;
    wallet.current_recovery = Some(attempt_id);
    wallet.wallet_recovery_sequence = attempt_id + 1;
    Ok(attempt)
}

/// Approves the recovery attempt as a keypair-controlled guardian; the
/// caller's identity is `guardian`, authenticated by the host. Sets the
/// guardian's approval bit idempotently, then evaluates the quorum and, if it
/// is reached, commits the ownership change atomically with the end of the
/// recovery episode. Returns whether the attempt executed.
pub fn approve_recovery_by_keypair(
    wallet: &mut WalletAccount,
    attempt: &mut RecoveryAttempt,
    guardian: PrincipalId,
) -> (r: Result<bool, WalletError>)
    requires
        wallet_wf(*old(wallet)),
        attempt_wf(*old(attempt)),
        old(attempt).wallet == old(wallet).address,
        old(wallet).current_recovery == Some(old(attempt).attempt_id)
            <==> !old(attempt).is_executed,
    ensures
        wallet_wf(*final(wallet)),
        attempt_wf(*final(attempt)),
        approve_post(
            *old(wallet),
            *old(attempt),
            *final(wallet),
            *final(attempt),
            guardian,
            r,
        ),
        final(wallet).current_recovery == Some(final(attempt).attempt_id)
            <==> !final(attempt).is_executed,
        final(wallet).owner != old(wallet).owner ==> count_true(final(attempt).approvals@)
            >= old(wallet).recovery_threshold && final(wallet).owner == old(attempt).new_owner,
{
    if attempt.is_executed {
        return Err(WalletError::AlreadyExecuted);
    }
    let idx_opt = find_principal(&attempt.guardians, guardian);
    let idx = match idx_opt {
        None => {
            proof {
                assert(!old(attempt).guardians@.contains(guardian));
            }
            return Err(WalletError::InvalidGuardian);
        },
        Some(i) => i,
    };
    proof {
        lemma_found_index_is_the_index(old(attempt).guardians@, guardian, idx as int);
    }
    attempt.approvals[idx] = true;
    let quorum = can_execute(wallet, attempt);
    if quorum {
        wallet.owner = attempt.new_owner;
        wallet.recovery_mode = false;
        wallet.current_recovery = None;
        attempt.is_executed = true;
        Ok(true)
    } else {
        Ok(false)
    }
}

/// Approves the recovery attempt on behalf of a guardian that is itself a
/// managed wallet: `caller` must be that wallet's owner, and the approval is
/// registered under the guardian wallet's address. Quorum semantics are
/// identical to the keypair path.
pub fn approve_recovery_by_solace(
    wallet: &mut WalletAccount,
    attempt: &mut RecoveryAttempt,
    guardian_wallet: &WalletAccount,
    caller: PrincipalId,
) -> (r: Result<bool, WalletError>)
    requires
        wallet_wf(*old(wallet)),
        attempt_wf(*old(attempt)),
        old(attempt).wallet == old(wallet).address,
        old(wallet).current_recovery == Some(old(attempt).attempt_id)
            <==> !old(attempt).is_executed,
    ensures
        wallet_wf(*final(wallet)),
        attempt_wf(*final(attempt)),
        caller != guardian_wallet.owner ==> r == Err::<bool, WalletError>(
            WalletError::Unauthorized,
        ) && *final(wallet) == *old(wallet) && *final(attempt) == *old(attempt),
        caller == guardian_wallet.owner ==> approve_post(
            *old(wallet),
            *old(attempt),
            *final(wallet),
            *final(attempt),
            guardian_wallet.address,
            r,
        ),
        final(wallet).current_recovery == Some(final(attempt).attempt_id)
            <==> !final(attempt).is_executed,
        final(wallet).owner != old(wallet).owner ==> count_true(final(attempt).approvals@)
            >= old(wallet).recovery_threshold && final(wallet).owner == old(attempt).new_owner,
{
    if caller != guardian_wallet.owner {
        return Err(WalletError::Unauthorized);
    }
    approve_recovery_by_keypair(wallet, attempt, guardian_wallet.address)
}

/// Rejecting an in-flight recovery attempt is a declared extension point
/// that is not yet supported; the call refuses every input rather than
/// masking the gap as success.
pub fn reject_recovery(_attempt: &RecoveryAttempt, _caller: PrincipalId) -> (r: Result<
    (),
    WalletError,
>)
    ensures
        r == Err::<(), WalletError>(WalletError::Unsupported),
{
    Err(WalletError::Unsupported)
}

} // verus!
