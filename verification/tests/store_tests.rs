use solace::errors::WalletError;
use solace::principal::PrincipalId;
use solace::store::WalletStore;

fn pid(n: u64) -> PrincipalId {
    PrincipalId::new(n, 0, 0, 0)
}

#[test]
fn create_wallet_and_look_it_up() {
    let mut s = WalletStore::new();
    assert_eq!(s.wallet_count(), 0);
    let i = s
        .create_wallet(pid(100), pid(1), vec![pid(2)], 1, String::from("alice"), 5)
        .expect("fresh name");
    assert_eq!(i, 0);
    assert_eq!(s.wallet_count(), 1);
    assert_eq!(s.find_wallet(&String::from("alice")), Some(0));
    assert_eq!(s.find_wallet(&String::from("bob")), None);
    let w = s.wallet_at(0);
    assert_eq!(w.owner, pid(1));
    assert_eq!(w.name, "alice");
    assert_eq!(w.created_at, 5);
}

#[test]
fn duplicate_name_is_refused() {
    let mut s = WalletStore::new();
    s.create_wallet(pid(100), pid(1), vec![], 1, String::from("alice"), 0)
        .expect("fresh name");
    let r = s.create_wallet(pid(101), pid(2), vec![], 1, String::from("alice"), 0);
    assert!(matches!(r, Err(WalletError::DuplicateWallet)));
    assert_eq!(s.wallet_count(), 1);
    let j = s
        .create_wallet(pid(101), pid(2), vec![], 1, String::from("bob"), 0)
        .expect("distinct name");
    assert_eq!(j, 1);
}

#[test]
fn duplicate_initial_guardians_refused_through_store() {
    let mut s = WalletStore::new();
    let r = s.create_wallet(
        pid(100),
        pid(1),
        vec![pid(2), pid(2)],
        1,
        String::from("alice"),
        0,
    );
    assert!(matches!(r, Err(WalletError::InvalidGuardian)));
    assert_eq!(s.wallet_count(), 0);
}

#[test]
fn stored_wallet_can_be_operated_on_in_place() {
    let mut s = WalletStore::new();
    let i = s
        .create_wallet(pid(100), pid(1), vec![], 1, String::from("alice"), 0)
        .expect("fresh name");
    let w = s.wallet_at_mut(i);
    w.add_guardians(pid(1), &vec![pid(2)], 1, 0).expect("admissible batch");
    w.approve_guardianship(pid(2), 1).expect("timelock elapsed");
    assert_eq!(s.wallet_at(i).approved_guardians, vec![pid(2)]);
    assert_eq!(s.find_wallet(&String::from("alice")), Some(i));
}
