use solace::errors::WalletError;
use solace::principal::PrincipalId;
use solace::recovery::{
    approve_recovery_by_keypair, approve_recovery_by_solace, can_execute,
    initiate_wallet_recovery, reject_recovery, RecoveryAttempt,
};
use solace::wallet::WalletAccount;

fn pid(n: u64) -> PrincipalId {
    PrincipalId::new(n, 0, 0, 0)
}

/// A wallet with `guardians` already approved and the given threshold.
fn wallet_with_guardians(guardians: &[PrincipalId], threshold: u8) -> WalletAccount {
    let mut w = WalletAccount::create(
        pid(100),
        pid(1),
        guardians.to_vec(),
        threshold,
        String::from("w"),
        0,
    )
    .expect("wallet creation should succeed");
    for g in guardians {
        w.approve_guardianship(*g, 1).expect("timelock elapsed");
    }
    w
}

#[test]
fn initiate_sets_up_attempt() {
    let mut w = wallet_with_guardians(&[pid(2), pid(3)], 2);
    let a = initiate_wallet_recovery(&mut w, pid(7), pid(9)).expect("wallet is not in recovery");
    assert_eq!(a.wallet, pid(100));
    assert_eq!(a.attempt_id, 0);
    assert_eq!(a.proposer, pid(7));
    assert_eq!(a.new_owner, pid(9));
    assert_eq!(a.guardians, vec![pid(2), pid(3)]);
    assert_eq!(a.approvals, vec![false, false]);
    assert!(!a.is_executed);
    assert!(w.recovery_mode);
    assert_eq!(w.current_recovery, Some(0));
    assert_eq!(w.wallet_recovery_sequence, 1);
    assert_eq!(w.owner, pid(1));
}

#[test]
fn initiate_refused_while_recovery_in_progress() {
    let mut w = wallet_with_guardians(&[pid(2)], 1);
    initiate_wallet_recovery(&mut w, pid(7), pid(9)).expect("first initiation");
    let r = initiate_wallet_recovery(&mut w, pid(7), pid(10));
    assert!(matches!(r, Err(WalletError::RecoveryInProgress)));
    assert_eq!(w.current_recovery, Some(0));
    assert_eq!(w.wallet_recovery_sequence, 1);
}

#[test]
fn quorum_of_two_among_three_transfers_ownership() {
    let mut w = wallet_with_guardians(&[pid(2), pid(3), pid(4)], 2);
    let mut a = initiate_wallet_recovery(&mut w, pid(7), pid(9)).expect("initiation");
    assert_eq!(a.approvals, vec![false, false, false]);

    assert_eq!(approve_recovery_by_keypair(&mut w, &mut a, pid(2)), Ok(false));
    assert_eq!(a.approvals, vec![true, false, false]);
    assert!(!a.is_executed);
    assert_eq!(w.owner, pid(1));
    assert!(w.recovery_mode);

    assert_eq!(approve_recovery_by_keypair(&mut w, &mut a, pid(3)), Ok(true));
    assert_eq!(a.approvals, vec![true, true, false]);
    assert!(a.is_executed);
    assert_eq!(w.owner, pid(9));
    assert!(!w.recovery_mode);
    assert_eq!(w.current_recovery, None);

    // The attempt is now a closed audit record.
    let r = approve_recovery_by_keypair(&mut w, &mut a, pid(4));
    assert_eq!(r, Err(WalletError::AlreadyExecuted));
    assert_eq!(a.approvals, vec![true, true, false]);
    assert_eq!(w.owner, pid(9));
}

#[test]
fn approving_twice_changes_nothing_more() {
    let mut w = wallet_with_guardians(&[pid(2), pid(3), pid(4)], 2);
    let mut a = initiate_wallet_recovery(&mut w, pid(7), pid(9)).expect("initiation");
    assert_eq!(approve_recovery_by_keypair(&mut w, &mut a, pid(2)), Ok(false));
    let once = a.approvals.clone();
    assert_eq!(approve_recovery_by_keypair(&mut w, &mut a, pid(2)), Ok(false));
    assert_eq!(a.approvals, once);
    assert_eq!(a.approvals, vec![true, false, false]);
    assert!(!a.is_executed);
    assert_eq!(w.owner, pid(1));
}

#[test]
fn approval_by_stranger_is_refused() {
    let mut w = wallet_with_guardians(&[pid(2)], 1);
    let mut a = initiate_wallet_recovery(&mut w, pid(7), pid(9)).expect("initiation");
    let r = approve_recovery_by_keypair(&mut w, &mut a, pid(42));
    assert_eq!(r, Err(WalletError::InvalidGuardian));
    assert_eq!(a.approvals, vec![false]);
    assert_eq!(w.owner, pid(1));
    assert!(w.recovery_mode);
}

#[test]
fn approval_by_guardian_wallet_owner() {
    // The guardian is itself a managed wallet; its owner signs.
    let guardian_wallet =
        WalletAccount::create(pid(200), pid(50), vec![], 1, String::from("g"), 0)
            .expect("guardian wallet creation");
    let mut w = wallet_with_guardians(&[pid(200)], 1);
    let mut a = initiate_wallet_recovery(&mut w, pid(7), pid(9)).expect("initiation");

    // A caller other than the guardian wallet's owner is refused.
    let r = approve_recovery_by_solace(&mut w, &mut a, &guardian_wallet, pid(51));
    assert_eq!(r, Err(WalletError::Unauthorized));
    assert_eq!(a.approvals, vec![false]);

    let r = approve_recovery_by_solace(&mut w, &mut a, &guardian_wallet, pid(50));
    assert_eq!(r, Ok(true));
    assert!(a.is_executed);
    assert_eq!(w.owner, pid(9));
    assert!(!w.recovery_mode);
}

#[test]
fn threshold_above_guardian_count_never_executes() {
    let mut w = wallet_with_guardians(&[pid(2)], 2);
    let mut a = initiate_wallet_recovery(&mut w, pid(7), pid(9)).expect("initiation");
    assert_eq!(approve_recovery_by_keypair(&mut w, &mut a, pid(2)), Ok(false));
    assert!(!a.is_executed);
    assert!(!can_execute(&w, &a));
    assert_eq!(w.owner, pid(1));
    assert!(w.recovery_mode);
}

#[test]
fn can_execute_counts_approvals() {
    let mut w = wallet_with_guardians(&[pid(2), pid(3)], 2);
    let mut a = initiate_wallet_recovery(&mut w, pid(7), pid(9)).expect("initiation");
    assert!(!can_execute(&w, &a));
    approve_recovery_by_keypair(&mut w, &mut a, pid(2)).expect("guardian approval");
    assert!(!can_execute(&w, &a));
    approve_recovery_by_keypair(&mut w, &mut a, pid(3)).expect("guardian approval");
    assert!(can_execute(&w, &a));
}

#[test]
fn zero_threshold_executes_on_first_approval() {
    let mut w = wallet_with_guardians(&[pid(2)], 0);
    let mut a = initiate_wallet_recovery(&mut w, pid(7), pid(9)).expect("initiation");
    assert!(can_execute(&w, &a));
    // Quorum is still only evaluated through an approval call.
    assert_eq!(w.owner, pid(1));
    assert_eq!(approve_recovery_by_keypair(&mut w, &mut a, pid(2)), Ok(true));
    assert_eq!(w.owner, pid(9));
}

#[test]
fn reject_recovery_is_not_supported() {
    let a = RecoveryAttempt {
        wallet: pid(100),
        attempt_id: 0,
        proposer: pid(7),
        new_owner: pid(9),
        guardians: vec![pid(2)],
        approvals: vec![false],
        is_executed: false,
    };
    assert_eq!(reject_recovery(&a, pid(2)), Err(WalletError::Unsupported));
}
