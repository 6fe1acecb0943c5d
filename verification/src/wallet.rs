use vstd::prelude::*;

use crate::errors::WalletError;
use crate::principal::{
    contains_principal, disjoint_principals, distinct_principals, find_principal, has_duplicate,
    index_of_principal, lemma_found_index_is_the_index, PrincipalId,
};
use crate::timelock::{compute_unlock_time, unlock_time_spec, MAX_TIMESTAMP};

verus! {

/// The custodial wallet record: its owner, its guardian state, and the gates
/// that recovery places on fund movement.
///
/// `pending_guardians` and `pending_guardians_approval_from` are positionally
/// paired: the entry at index `i` of the second list is the earliest moment at
/// which the guardian at index `i` of the first may be approved.
#[derive(Debug)]
pub struct WalletAccount {
    /// The wallet's own principal identifier (its account address).
    pub address: PrincipalId,
    /// Sole authority for fund movement and guardian management while the
    /// wallet is not in recovery.
    pub owner: PrincipalId,
    /// Unique human label; the wallet's lookup key.
    pub name: String,
    /// Guardians whose onboarding is complete; they vote on recovery.
    pub approved_guardians: Vec<PrincipalId>,
    /// Guardians awaiting their onboarding timelock.
    pub pending_guardians: Vec<PrincipalId>,
    /// Earliest approval timestamp for each pending guardian, positionally
    /// paired with `pending_guardians`.
    pub pending_guardians_approval_from: Vec<i64>,
    /// True exactly while an un-executed recovery attempt is active.
    pub recovery_mode: bool,
    /// Identifier of the active recovery attempt, if one exists.
    pub current_recovery: Option<u64>,
    /// Minimum count of guardian approvals required to execute a recovery.
    pub recovery_threshold: u8,
    /// Counter incremented once per recovery attempt created; the value at
    /// creation time is the attempt's identifier.
    pub wallet_recovery_sequence: u64,
    /// Wallet creation timestamp, consulted by the timelock policy.
    pub created_at: i64,
}

/// A fund movement the wallet has authorized. The hosting ledger performs the
/// actual balance mutation; this record is the decision it executes.
#[derive(Clone, Copy, Debug, PartialEq, Eq, Structural)]
pub struct FundTransfer {
    pub from: PrincipalId,
    pub to: PrincipalId,
    pub amount: u64,
}

/// Well-formedness of a wallet record. Every operation requires it of the
/// wallet it is handed and re-establishes it:
/// - the two pending lists are positionally aligned (always equal length);
/// - no guardian occurs twice, as pending or as approved, nor in both roles;
/// - `recovery_mode` holds exactly while an attempt identifier is recorded;
/// - the creation timestamp is a plausible clock reading.
pub open spec fn wallet_wf(w: WalletAccount) -> bool {
    &&& w.pending_guardians@.len() == w.pending_guardians_approval_from@.len()
    &&& distinct_principals(w.approved_guardians@)
    &&& distinct_principals(w.pending_guardians@)
    &&& disjoint_principals(w.pending_guardians@, w.approved_guardians@)
    &&& (w.recovery_mode <==> w.current_recovery is Some)
    &&& 0 <= w.created_at <= MAX_TIMESTAMP
}

/// The fields that no operation ever changes after creation.
pub open spec fn same_core(a: WalletAccount, b: WalletAccount) -> bool {
    &&& a.address == b.address
    &&& a.name == b.name
    &&& a.created_at == b.created_at
}

/// Equality of the guardian bookkeeping: both guardian lists, the pending
/// timelocks, and the recovery threshold.
pub open spec fn same_guardian_state(a: WalletAccount, b: WalletAccount) -> bool {
    &&& a.approved_guardians@ == b.approved_guardians@
    &&& a.pending_guardians@ == b.pending_guardians@
    &&& a.pending_guardians_approval_from@ == b.pending_guardians_approval_from@
    &&& a.recovery_threshold == b.recovery_threshold
}

/// Equality of the recovery bookkeeping: the mode flag, the active attempt
/// reference, and the attempt counter.
pub open spec fn same_recovery_state(a: WalletAccount, b: WalletAccount) -> bool {
    &&& a.recovery_mode == b.recovery_mode
    &&& a.current_recovery == b.current_recovery
    &&& a.wallet_recovery_sequence == b.wallet_recovery_sequence
}

/// Removing the entry at `i` from a duplicate-free sequence keeps it
/// duplicate-free, and every surviving entry is an entry of the original
/// at a known position.
proof fn lemma_remove_keeps_distinct(s: Seq<PrincipalId>, i: int)
    requires
        0 <= i < s.len(),
        distinct_principals(s),
    ensures
        distinct_principals(s.remove(i)),
        s.remove(i).len() == s.len() - 1,
        forall|k: int|
            0 <= k < s.len() - 1 ==> s.remove(i)[k] == (if k < i {
                s[k]
            } else {
                s[k + 1]
            }),
{
    assert forall|k: int| 0 <= k < s.len() - 1 implies s.remove(i)[k] == (if k < i {
        s[k]
    } else {
        s[k + 1]
    }) by {
        if k < i {
            assert(s.remove(i)[k] == s.subrange(0, i)[k]);
        } else {
            assert(s.remove(i)[k] == s.subrange(i + 1, s.len() as int)[k - i]);
        }
    }
}

impl WalletAccount {
    /// Builds a fresh wallet record owned by `owner` and labelled `name`,
    /// with every listed guardian pending. The wallet is created inside its
    /// own incubation window, so each initial guardian may be approved from
    /// `now` on. Fails with `InvalidGuardian` if the initial guardian list
    /// names the same principal twice.
    ///
    /// Uniqueness of `name` is the wallet store's concern, not this
    /// constructor's.
    pub fn create(
        address: PrincipalId,
        owner: PrincipalId,
        guardian_keys: Vec<PrincipalId>,
        recovery_threshold: u8,
        name: String,
        now: i64,
    ) -> (r: Result<WalletAccount, WalletError>)
        requires
            0 <= now <= MAX_TIMESTAMP,
        ensures
            r is Ok <==> distinct_principals(guardian_keys@),
            r is Err ==> r == Err::<WalletAccount, WalletError>(WalletError::InvalidGuardian),
            (r matches Ok(w) ==> {
                &&& wallet_wf(w)
                &&& w.address == address
                &&& w.owner == owner
                &&& w.name == name
                &&& w.approved_guardians@.len() == 0
                &&& w.pending_guardians@ == guardian_keys@
                &&& w.pending_guardians_approval_from@ == Seq::new(
                    guardian_keys@.len(),
                    |k: int| now,
                )
                &&& w.recovery_mode == false
                &&& w.current_recovery is None
                &&& w.recovery_threshold == recovery_threshold
                &&& w.wallet_recovery_sequence == 0
                &&& w.created_at == now
            }),
    {
        if has_duplicate(&guardian_keys) {
            return Err(WalletError::InvalidGuardian);
        }
        let n = guardian_keys.len();
        let mut approval_from: Vec<i64> = Vec::new();
        let mut i: usize = 0;
        while i < n
            invariant
                i <= n,
                approval_from@ == Seq::new(i as nat, |k: int| now),
            decreases n - i,
        {
            approval_from.push(now);
            proof {
                assert(approval_from@ =~= Seq::new((i + 1) as nat, |k: int| now));
            }
            i = i + 1;
        }
        let w = WalletAccount {
            address,
            owner,
            name,
            approved_guardians: Vec::new(),
            pending_guardians: guardian_keys,
            pending_guardians_approval_from: approval_from,
            recovery_mode: false,
            current_recovery: None,
            recovery_threshold,
            wallet_recovery_sequence: 0,
            created_at: now,
        };
        Ok(w)
    }

    /// Gates a fund movement. The transfer is authorized only for the owner
    /// and only while no recovery is in progress; the returned `FundTransfer`
    /// is what the hosting ledger then executes. Any amount is refused with
    /// `RecoveryInProgress` while `recovery_mode` holds.
    pub fn send_funds(&self, caller: PrincipalId, to: PrincipalId, amount: u64) -> (r: Result<
        FundTransfer,
        WalletError,
    >)
        ensures
            self.recovery_mode ==> r == Err::<FundTransfer, WalletError>(
                WalletError::RecoveryInProgress,
            ),
            !self.recovery_mode && caller != self.owner ==> r == Err::<FundTransfer, WalletError>(
                WalletError::Unauthorized,
            ),
            !self.recovery_mode && caller == self.owner ==> r == Ok::<FundTransfer, WalletError>(
                (FundTransfer { from: self.address, to, amount }),
            ),
    {
        if self.recovery_mode {
            return Err(WalletError::RecoveryInProgress);
        }
        if caller != self.owner {
            return Err(WalletError::Unauthorized);
        }
        Ok(FundTransfer { from: self.address, to, amount })
    }

    /// Appends each of `new_guardians` to the pending list, paired with the
    /// unlock timestamp the timelock policy computes for `now`, and replaces
    /// the recovery threshold with `new_threshold` outright (a deliberate
    /// full overwrite). Owner only. A guardian already pending or approved,
    /// or listed twice in `new_guardians`, is refused as `InvalidGuardian`,
    /// and the call then changes nothing.
    pub fn add_guardians(
        &mut self,
        caller: PrincipalId,
        new_guardians: &Vec<PrincipalId>,
        new_threshold: u8,
        now: i64,
    ) -> (r: Result<(), WalletError>)
        requires
            wallet_wf(*old(self)),
            0 <= now <= MAX_TIMESTAMP,
        ensures
            wallet_wf(*final(self)),
            final(self).owner == old(self).owner,
            caller != old(self).owner ==> r == Err::<(), WalletError>(WalletError::Unauthorized)
                && *final(self) == *old(self),
            caller == old(self).owner && !admissible_additions(*old(self), new_guardians@) ==> r
                == Err::<(), WalletError>(WalletError::InvalidGuardian) && *final(self) == *old(
                self,
            ),
            caller == old(self).owner && admissible_additions(*old(self), new_guardians@) ==> {
                &&& r == Ok::<(), WalletError>(())
                &&& final(self).pending_guardians@ == old(self).pending_guardians@
                    + new_guardians@
                &&& final(self).pending_guardians_approval_from@ == old(
                    self,
                ).pending_guardians_approval_from@ + Seq::new(
                    new_guardians@.len(),
                    |k: int| unlock_time_spec(old(self).created_at, now) as i64,
                )
                &&& final(self).approved_guardians@ == old(self).approved_guardians@
                &&& final(self).recovery_threshold == new_threshold
                &&& same_core(*final(self), *old(self))
                &&& same_recovery_state(*final(self), *old(self))
            },
    {
        if caller != self.owner {
            return Err(WalletError::Unauthorized);
        }
        if has_duplicate(new_guardians) {
            return Err(WalletError::InvalidGuardian);
        }
        let mut i: usize = 0;
        while i < new_guardians.len()
            invariant
                i <= new_guardians@.len(),
                wallet_wf(*self),
                *self == *old(self),
                caller == self.owner,
                distinct_principals(new_guardians@),
                forall|k: int|
                    0 <= k < i ==> !self.pending_guardians@.contains(new_guardians@[k])
                        && !self.approved_guardians@.contains(new_guardians@[k]),
            decreases new_guardians@.len() - i,
        {
            if contains_principal(&self.pending_guardians, new_guardians[i]) {
                proof {
                    assert(!admissible_additions(*self, new_guardians@));
                }
                return Err(WalletError::InvalidGuardian);
            }
            if contains_principal(&self.approved_guardians, new_guardians[i]) {
                proof {
                    assert(!admissible_additions(*self, new_guardians@));
                }
                return Err(WalletError::InvalidGuardian);
            }
            i = i + 1;
        }
        assert(admissible_additions(*self, new_guardians@));
        let ghost w0 = *self;
        let unlock = compute_unlock_time(self.created_at, now);
        let mut j: usize = 0;
        while j < new_guardians.len()
            invariant
                j <= new_guardians@.len(),
                unlock == unlock_time_spec(w0.created_at, now),
                wallet_wf(w0),
                admissible_additions(w0, new_guardians@),
                self.pending_guardians@ == w0.pending_guardians@ + new_guardians@.take(j as int),
                self.pending_guardians_approval_from@ == w0.pending_guardians_approval_from@
                    + Seq::new(j as nat, |k: int| unlock),
                self.approved_guardians@ == w0.approved_guardians@,
                self.recovery_threshold == w0.recovery_threshold,
                same_core(*self, w0),
                same_recovery_state(*self, w0),
                self.owner == w0.owner,
            decreases new_guardians@.len() - j,
        {
            self.pending_guardians.push(new_guardians[j]);
            self.pending_guardians_approval_from.push(unlock);
            proof {
                assert(self.pending_guardians@ =~= w0.pending_guardians@ + new_guardians@.take(
                    j + 1 as int,
                ));
                assert(self.pending_guardians_approval_from@
                    =~= w0.pending_guardians_approval_from@ + Seq::new(
                    (j + 1) as nat,
                    |k: int| unlock,
                ));
            }
            j = j + 1;
        }
        proof {
            assert(new_guardians@.take(new_guardians@.len() as int) =~= new_guardians@);
            lemma_appended_pending_wf(w0, new_guardians@, *self);
        }
        self.recovery_threshold = new_threshold;
        Ok(())
    }

    /// Approves the pending guardianship of `guardian` (the guardian itself
    /// calls this). Fails with `InvalidGuardian` if `guardian` is not
    /// pending, and with `TimelockNotElapsed` while `now` has not passed the
    /// guardian's unlock timestamp. On success the guardian leaves both
    /// pending lists (which stay aligned) and joins the approved list.
    pub fn approve_guardianship(&mut self, guardian: PrincipalId, now: i64) -> (r: Result<
        (),
        WalletError,
    >)
        requires
            wallet_wf(*old(self)),
        ensures
            wallet_wf(*final(self)),
            final(self).owner == old(self).owner,
            !old(self).pending_guardians@.contains(guardian) ==> r == Err::<(), WalletError>(
                WalletError::InvalidGuardian,
            ) && *final(self) == *old(self),
            old(self).pending_guardians@.contains(guardian) ==> ({
                let i = index_of_principal(old(self).pending_guardians@, guardian);
                &&& (now <= old(self).pending_guardians_approval_from@[i] ==> r == Err::<
                    (),
                    WalletError,
                >(WalletError::TimelockNotElapsed) && *final(self) == *old(self))
                &&& (now > old(self).pending_guardians_approval_from@[i] ==> {
                    &&& r == Ok::<(), WalletError>(())
                    &&& final(self).pending_guardians@ == old(self).pending_guardians@.remove(i)
                    &&& final(self).pending_guardians_approval_from@ == old(
                        self,
                    ).pending_guardians_approval_from@.remove(i)
                    &&& final(self).approved_guardians@ == old(self).approved_guardians@.push(
                        guardian,
                    )
                    &&& final(self).recovery_threshold == old(self).recovery_threshold
                    &&& same_core(*final(self), *old(self))
                    &&& same_recovery_state(*final(self), *old(self))
                })
            }),
    {
        let idx_opt = find_principal(&self.pending_guardians, guardian);
        let idx = match idx_opt {
            None => {
                proof {
                    assert(!old(self).pending_guardians@.contains(guardian));
                }
                return Err(WalletError::InvalidGuardian);
            },
            Some(i) => i,
        };
        proof {
            lemma_found_index_is_the_index(old(self).pending_guardians@, guardian, idx as int);
        }
        let unlock = self.pending_guardians_approval_from[idx];
        if now <= unlock {
            return Err(WalletError::TimelockNotElapsed);
        }
        let ghost w0 = *self;
        let ghost i = idx as int;
        self.pending_guardians.remove(idx);
        self.pending_guardians_approval_from.remove(idx);
        self.approved_guardians.push(guardian);
        proof {
            lemma_remove_keeps_distinct(w0.pending_guardians@, i);
            // The approved list stays duplicate-free: the new entry came from
            // the pending list, which is disjoint from it.
            assert(forall|k: int|
                0 <= k < w0.approved_guardians@.len() ==> w0.approved_guardians@[k] != guardian);
            assert(distinct_principals(self.approved_guardians@));
            // Disjointness survives: every surviving pending entry differs
            // from every old approved entry, and from the moved guardian.
            assert forall|a: int, b: int|
                0 <= a < self.pending_guardians@.len() && 0 <= b
                    < self.approved_guardians@.len() implies self.pending_guardians@[a]
                != self.approved_guardians@[b] by {
                if a < i {
                    assert(self.pending_guardians@[a] == w0.pending_guardians@[a]);
                } else {
                    assert(self.pending_guardians@[a] == w0.pending_guardians@[a + 1]);
                }
                if b < w0.approved_guardians@.len() {
                    assert(self.approved_guardians@[b] == w0.approved_guardians@[b]);
                } else {
                    assert(self.approved_guardians@[b] == guardian);
                }
            }
        }
        Ok(())
    }

    /// Removes `guardian` from the approved list. Owner only; fails with
    /// `InvalidGuardian` if the guardian is not approved.
    pub fn remove_guardian(&mut self, caller: PrincipalId, guardian: PrincipalId) -> (r: Result<
        (),
        WalletError,
    >)
        requires
            wallet_wf(*old(self)),
        ensures
            wallet_wf(*final(self)),
            final(self).owner == old(self).owner,
            caller != old(self).owner ==> r == Err::<(), WalletError>(WalletError::Unauthorized)
                && *final(self) == *old(self),
            caller == old(self).owner && !old(self).approved_guardians@.contains(guardian) ==> r
                == Err::<(), WalletError>(WalletError::InvalidGuardian) && *final(self) == *old(
                self,
            ),
            caller == old(self).owner && old(self).approved_guardians@.contains(guardian) ==> {
                &&& r == Ok::<(), WalletError>(())
                &&& final(self).approved_guardians@ == old(self).approved_guardians@.remove(
                    index_of_principal(old(self).approved_guardians@, guardian),
                )
                &&& final(self).pending_guardians@ == old(self).pending_guardians@
                &&& final(self).pending_guardians_approval_from@ == old(
                    self,
                ).pending_guardians_approval_from@
                &&& final(self).recovery_threshold == old(self).recovery_threshold
                &&& same_core(*final(self), *old(self))
                &&& same_recovery_state(*final(self), *old(self))
            },
    {
        if caller != self.owner {
            return Err(WalletError::Unauthorized);
        }
        let idx_opt = find_principal(&self.approved_guardians, guardian);
        let idx = match idx_opt {
            None => {
                proof {
                    assert(!old(self).approved_guardians@.contains(guardian));
                }
                return Err(WalletError::InvalidGuardian);
            },
            Some(i) => i,
        };
        proof {
            lemma_found_index_is_the_index(old(self).approved_guardians@, guardian, idx as int);
        }
        let ghost w0 = *self;
        let ghost i = idx as int;
        self.approved_guardians.remove(idx);
        proof {
            lemma_remove_keeps_distinct(w0.approved_guardians@, i);
            assert forall|a: int, b: int|
                0 <= a < self.pending_guardians@.len() && 0 <= b
                    < self.approved_guardians@.len() implies self.pending_guardians@[a]
                != self.approved_guardians@[b] by {
                if b < i {
                    assert(self.approved_guardians@[b] == w0.approved_guardians@[b]);
                } else {
                    assert(self.approved_guardians@[b] == w0.approved_guardians@[b + 1]);
                }
            }
        }
        Ok(())
    }

    /// Provisioning a token account for a mint is a declared extension point
    /// that is not yet supported; saying so beats a silent no-op.
    pub fn add_token_account(&self) -> (r: Result<(), WalletError>)
        ensures
            r == Err::<(), WalletError>(WalletError::Unsupported),
    {
        Err(WalletError::Unsupported)
    }

    /// Token deposits are a declared extension point that is not yet
    /// supported.
    pub fn deposit_spl_tokens(&self) -> (r: Result<(), WalletError>)
        ensures
            r == Err::<(), WalletError>(WalletError::Unsupported),
    {
        Err(WalletError::Unsupported)
    }

    /// Native-currency deposits are a declared extension point that is not
    /// yet supported.
    pub fn deposit_sol(&self) -> (r: Result<(), WalletError>)
        ensures
            r == Err::<(), WalletError>(WalletError::Unsupported),
    {
        Err(WalletError::Unsupported)
    }
}

/// The additions a wallet accepts: a duplicate-free batch, none of whose
/// members is already pending or approved.
pub open spec fn admissible_additions(w: WalletAccount, g: Seq<PrincipalId>) -> bool {
    &&& distinct_principals(g)
    &&& forall|k: int|
        0 <= k < g.len() ==> !w.pending_guardians@.contains(g[k]) && !w.approved_guardians@.contains(
            g[k],
        )
}

/// Appending an admissible batch of guardians to the pending list, with one
/// unlock timestamp each, preserves wallet well-formedness.
proof fn lemma_appended_pending_wf(w0: WalletAccount, g: Seq<PrincipalId>, w1: WalletAccount)
    requires
        wallet_wf(w0),
        admissible_additions(w0, g),
        w1.pending_guardians@ == w0.pending_guardians@ + g,
        w1.pending_guardians_approval_from@.len() == w0.pending_guardians_approval_from@.len()
            + g.len(),
        w1.approved_guardians@ == w0.approved_guardians@,
        w1.recovery_mode == w0.recovery_mode,
        w1.current_recovery == w0.current_recovery,
        w1.created_at == w0.created_at,
    ensures
        wallet_wf(w1),
{
    let p0 = w0.pending_guardians@;
    let p1 = w1.pending_guardians@;
    assert forall|i: int, j: int| 0 <= i < j < p1.len() implies p1[i] != p1[j] by {
        if j < p0.len() {
            assert(p1[i] == p0[i] && p1[j] == p0[j]);
        } else if i < p0.len() {
            assert(p1[i] == p0[i] && p1[j] == g[j - p0.len()]);
            assert(p0.contains(p1[i]));
        } else {
            assert(p1[i] == g[i - p0.len()] && p1[j] == g[j - p0.len()]);
        }
    }
    assert forall|i: int, j: int|
        0 <= i < p1.len() && 0 <= j < w1.approved_guardians@.len() implies p1[i]
        != w1.approved_guardians@[j] by {
        if i < p0.len() {
            assert(p1[i] == p0[i]);
        } else {
            assert(p1[i] == g[i - p0.len()]);
            assert(!w0.approved_guardians@.contains(g[i - p0.len()]));
        }
    }
}

} // verus!
