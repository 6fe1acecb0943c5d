use vstd::prelude::*;

use crate::errors::WalletError;
use crate::principal::{distinct_principals, PrincipalId};
use crate::timelock::MAX_TIMESTAMP;
use crate::wallet::{wallet_wf, WalletAccount};

verus! {

/// The keyed store of wallet records: one record per name, looked up by
/// name. It owns every wallet the deployment has created.
pub struct WalletStore {
    pub wallets: Vec<WalletAccount>,
}

/// Well-formedness of the store: every record is well formed and no two
/// records share a name.
pub open spec fn store_wf(s: WalletStore) -> bool {
    &&& forall|i: int, j: int|
        #![trigger s.wallets@[i], s.wallets@[j]]
        0 <= i < j < s.wallets@.len() ==> s.wallets@[i].name@ != s.wallets@[j].name@
    &&& forall|i: int| 0 <= i < s.wallets@.len() ==> wallet_wf(#[trigger] s.wallets@[i])
}

/// Whether some record in the store is labelled `name`.
pub open spec fn has_name(s: WalletStore, name: Seq<char>) -> bool {
    exists|i: int| 0 <= i < s.wallets@.len() && (#[trigger] s.wallets@[i]).name@ == name
}

impl WalletStore {
    /// An empty store.
    pub fn new() -> (s: WalletStore)
        ensures
            store_wf(s),
            s.wallets@.len() == 0,
    {
        WalletStore { wallets: Vec::new() }
    }

    /// How many wallets exist.
    pub fn wallet_count(&self) -> (n: usize)
        ensures
            n == self.wallets@.len(),
    {
        self.wallets.len()
    }

    /// The index of the wallet labelled `name`, if one exists.
    pub fn find_wallet(&self, name: &String) -> (r: Option<usize>)
        ensures
            (match r {
                Some(i) => i < self.wallets@.len() && self.wallets@[i as int].name@ == name@,
                None => !has_name(*self, name@),
            }),
    {
        let mut i: usize = 0;
        while i < self.wallets.len()
            invariant
                i <= self.wallets@.len(),
                forall|j: int| 0 <= j < i ==> (#[trigger] self.wallets@[j]).name@ != name@,
            decreases self.wallets@.len() - i,
        {
            if self.wallets[i].name == *name {
                return Some(i);
            }
            i = i + 1;
        }
        None
    }

    /// Read access to the wallet at `i`.
    pub fn wallet_at(&self, i: usize) -> (w: &WalletAccount)
        requires
            i < self.wallets@.len(),
        ensures
            *w == self.wallets@[i as int],
    {
        &self.wallets[i]
    }

    /// Write access to the wallet at `i`, for running wallet and recovery
    /// operations on a stored record. No such operation changes a wallet's
    /// name, and each re-establishes the wallet's own well-formedness, so
    /// `lemma_store_wf_after_update` recovers the store's well-formedness
    /// after the borrow ends.
    pub fn wallet_at_mut(&mut self, i: usize) -> (w: &mut WalletAccount)
        requires
            i < old(self).wallets@.len(),
        ensures
            *w == old(self).wallets@[i as int],
            final(self).wallets@ == old(self).wallets@.update(i as int, *final(w)),
    {
        &mut self.wallets[i]
    }

    /// Creates and stores a wallet labelled `name`, returning its index.
    /// Fails with `DuplicateWallet` if the label is taken, and with
    /// `InvalidGuardian` if the initial guardian list repeats a principal;
    /// either way the store is unchanged.
    pub fn create_wallet(
        &mut self,
        address: PrincipalId,
        owner: PrincipalId,
        guardian_keys: Vec<PrincipalId>,
        recovery_threshold: u8,
        name: String,
        now: i64,
    ) -> (r: Result<usize, WalletError>)
        requires
            store_wf(*old(self)),
            0 <= now <= MAX_TIMESTAMP,
        ensures
            store_wf(*final(self)),
            has_name(*old(self), name@) ==> r == Err::<usize, WalletError>(
                WalletError::DuplicateWallet,
            ) && *final(self) == *old(self),
            !has_name(*old(self), name@) && !distinct_principals(guardian_keys@) ==> r == Err::<
                usize,
                WalletError,
            >(WalletError::InvalidGuardian) && *final(self) == *old(self),
            !has_name(*old(self), name@) && distinct_principals(guardian_keys@) ==> ({
                &&& r == Ok::<usize, WalletError>(old(self).wallets@.len() as usize)
                &&& final(self).wallets@.len() == old(self).wallets@.len() + 1
                &&& forall|j: int|
                    0 <= j < old(self).wallets@.len() ==> final(self).wallets@[j] == old(
                        self,
                    ).wallets@[j]
                &&& ({
                    let w = final(self).wallets@.last();
                    &&& wallet_wf(w)
                    &&& w.address == address
                    &&& w.owner == owner
                    &&& w.name == name
                    &&& w.approved_guardians@.len() == 0
                    &&& w.pending_guardians@ == guardian_keys@
                    &&& w.pending_guardians_approval_from@ == Seq::new(
                        guardian_keys@.len(),
                        |k: int| now,
                    )
                    &&& w.recovery_mode == false
                    &&& w.current_recovery is None
                    &&& w.recovery_threshold == recovery_threshold
                    &&& w.wallet_recovery_sequence == 0
                    &&& w.created_at == now
                })
            }),
    {
        match self.find_wallet(&name) {
            Some(_) => {
                proof {
                    assert(has_name(*old(self), name@));
                }
                return Err(WalletError::DuplicateWallet);
            },
            None => {},
        }
        let w = match WalletAccount::create(
            address,
            owner,
            guardian_keys,
            recovery_threshold,
            name,
            now,
        ) {
            Err(e) => {
                return Err(e);
            },
            Ok(w) => w,
        };
        let idx = self.wallets.len();
        self.wallets.push(w);
        proof {
            let ws = self.wallets@;
            assert forall|i: int, j: int|
                #![trigger ws[i], ws[j]]
                0 <= i < j < ws.len() implies ws[i].name@ != ws[j].name@ by {
                if j < ws.len() - 1 {
                    assert(ws[i] == old(self).wallets@[i] && ws[j] == old(self).wallets@[j]);
                } else {
                    assert(ws[i] == old(self).wallets@[i]);
                    assert(!has_name(*old(self), ws[j].name@));
                }
            }
            assert forall|i: int| 0 <= i < ws.len() implies wallet_wf(#[trigger] ws[i]) by {
                if i < ws.len() - 1 {
                    assert(ws[i] == old(self).wallets@[i]);
                }
            }
        }
        Ok(idx)
    }
}

/// The store stays well formed when one stored wallet is replaced by a well
/// formed wallet with the same name; that is what every wallet and recovery
/// operation run through `wallet_at_mut` does.
pub proof fn lemma_store_wf_after_update(s0: WalletStore, s1: WalletStore, i: int)
    requires
        store_wf(s0),
        0 <= i < s0.wallets@.len(),
        s1.wallets@ == s0.wallets@.update(i, s1.wallets@[i]),
        wallet_wf(s1.wallets@[i]),
        s1.wallets@[i].name@ == s0.wallets@[i].name@,
    ensures
        store_wf(s1),
{
    assert forall|p: int, q: int|
        #![trigger s1.wallets@[p], s1.wallets@[q]]
        0 <= p < q < s1.wallets@.len() implies s1.wallets@[p].name@ != s1.wallets@[q].name@ by {
        assert(s0.wallets@[p].name@ != s0.wallets@[q].name@);
    }
    assert forall|p: int| 0 <= p < s1.wallets@.len() implies wallet_wf(#[trigger] s1.wallets@[p]) by {
        if p != i {
            assert(s1.wallets@[p] == s0.wallets@[p]);
        }
    }
}

} // verus!
