use family_wallet::errors::WalletError;
use family_wallet::member::FamilyWalletEvent;
use family_wallet::registry::FamilyWallet;

fn initialized_wallet(owner: &str) -> FamilyWallet {
    let mut wallet = FamilyWallet::new();
    assert_eq!(wallet.initialize(true, String::from(owner)), Ok(true));
    wallet
}

#[test]
fn mutating_calls_before_initialize_fail() {
    let mut wallet = FamilyWallet::new();
    let owner = String::from("acct-owner");

    let add = wallet.add_member(
        true,
        &owner,
        String::from("acct-member"),
        String::from("Alice"),
        1000,
        String::from("parent"),
    );
    assert_eq!(add, Err(WalletError::NotInitialized));

    let update = wallet.update_spending_limit(true, &owner, &String::from("acct-member"), 1000);
    assert_eq!(update, Err(WalletError::NotInitialized));
}

#[test]
fn failed_identity_verification_is_unauthorized() {
    let mut wallet = FamilyWallet::new();
    let owner = String::from("acct-owner");

    assert_eq!(wallet.initialize(false, owner.clone()), Err(WalletError::Unauthorized));

    wallet.initialize(true, owner.clone()).unwrap();

    let add = wallet.add_member(
        false,
        &owner,
        String::from("acct-member"),
        String::from("Alice"),
        1000,
        String::from("parent"),
    );
    assert_eq!(add, Err(WalletError::Unauthorized));

    let update = wallet.update_spending_limit(false, &owner, &String::from("acct-member"), 500);
    assert_eq!(update, Err(WalletError::Unauthorized));
}

#[test]
fn empty_name_or_role_is_invalid_input() {
    let owner = String::from("acct-owner");
    let mut wallet = initialized_wallet("acct-owner");

    let no_name = wallet.add_member(
        true,
        &owner,
        String::from("acct-member"),
        String::new(),
        1000,
        String::from("parent"),
    );
    assert_eq!(no_name, Err(WalletError::InvalidInput));

    let no_role = wallet.add_member(
        true,
        &owner,
        String::from("acct-member"),
        String::from("Alice"),
        1000,
        String::new(),
    );
    assert_eq!(no_role, Err(WalletError::InvalidInput));

    assert_eq!(wallet.get_all_members().len(), 0);
}

#[test]
fn upsert_keeps_first_add_position() {
    let owner = String::from("acct-owner");
    let mut wallet = initialized_wallet("acct-owner");

    for (addr, name, limit) in [
        ("acct-member-1", "Alice", 1000),
        ("acct-member-2", "Bob", 500),
        ("acct-member-3", "Charlie", 750),
    ] {
        wallet
            .add_member(
                true,
                &owner,
                String::from(addr),
                String::from(name),
                limit,
                String::from("child"),
            )
            .unwrap();
    }

    // Overwrite the first-added member with fresh fields
    wallet
        .add_member(
            true,
            &owner,
            String::from("acct-member-1"),
            String::from("Alicia"),
            1250,
            String::from("parent"),
        )
        .unwrap();

    let all = wallet.get_all_members();
    assert_eq!(all.len(), 3);
    assert_eq!(all[0].address, String::from("acct-member-1"));
    assert_eq!(all[0].name, String::from("Alicia"));
    assert_eq!(all[0].spending_limit, 1250);
    assert_eq!(all[0].role, String::from("parent"));
    assert_eq!(all[1].address, String::from("acct-member-2"));
    assert_eq!(all[2].address, String::from("acct-member-3"));
}

#[test]
fn update_absent_member_keeps_cardinality() {
    let owner = String::from("acct-owner");
    let mut wallet = initialized_wallet("acct-owner");

    wallet
        .add_member(
            true,
            &owner,
            String::from("acct-member"),
            String::from("Alice"),
            1000,
            String::from("parent"),
        )
        .unwrap();

    let before = wallet.get_all_members().len();
    let result = wallet.update_spending_limit(true, &owner, &String::from("acct-stranger"), 400);
    assert_eq!(result, Ok(false));
    assert_eq!(wallet.get_all_members().len(), before);
    assert_eq!(wallet.get_member(&String::from("acct-member")).unwrap().spending_limit, 1000);
}

#[test]
fn audit_log_records_each_mutation() {
    let owner = String::from("acct-owner");
    let mut wallet = initialized_wallet("acct-owner");
    assert_eq!(wallet.events.len(), 0);

    wallet
        .add_member(
            true,
            &owner,
            String::from("acct-member"),
            String::from("Alice"),
            1000,
            String::from("parent"),
        )
        .unwrap();
    assert_eq!(wallet.events.len(), 1);
    assert_eq!(wallet.events[0].kind, FamilyWalletEvent::MemberAdded);
    assert_eq!(wallet.events[0].address, String::from("acct-member"));

    wallet
        .add_member(
            true,
            &owner,
            String::from("acct-member"),
            String::from("Alicia"),
            1500,
            String::from("parent"),
        )
        .unwrap();
    assert_eq!(wallet.events.len(), 2);
    assert_eq!(wallet.events[1].kind, FamilyWalletEvent::MemberUpdated);
    assert_eq!(wallet.events[1].address, String::from("acct-member"));

    wallet
        .update_spending_limit(true, &owner, &String::from("acct-member"), 2000)
        .unwrap();
    assert_eq!(wallet.events.len(), 3);
    assert_eq!(wallet.events[2].kind, FamilyWalletEvent::SpendingLimitUpdated);
    assert_eq!(wallet.events[2].address, String::from("acct-member"));

    // A refused call and a missed lookup leave the log alone
    let refused = wallet.update_spending_limit(true, &owner, &String::from("acct-member"), 0);
    assert_eq!(refused, Err(WalletError::InvalidInput));
    let missed = wallet.update_spending_limit(true, &owner, &String::from("acct-stranger"), 10);
    assert_eq!(missed, Ok(false));
    assert_eq!(wallet.events.len(), 3);
}

#[test]
fn limit_check_boundaries() {
    let owner = String::from("acct-owner");
    let mut wallet = initialized_wallet("acct-owner");

    wallet
        .add_member(
            true,
            &owner,
            String::from("acct-member"),
            String::from("Alice"),
            1000,
            String::from("parent"),
        )
        .unwrap();

    assert!(wallet.check_spending_limit(&String::from("acct-member"), 1000));
    assert!(!wallet.check_spending_limit(&String::from("acct-member"), 1001));
    assert!(!wallet.check_spending_limit(&String::from("acct-stranger"), 1));
    // Amounts below any positive limit pass, zero and negative included
    assert!(wallet.check_spending_limit(&String::from("acct-member"), 0));
    assert!(wallet.check_spending_limit(&String::from("acct-member"), -5));
}

#[test]
fn owner_scenario_end_to_end() {
    let owner = String::from("acct-owner");
    let alice = String::from("acct-alice");
    let mut wallet = FamilyWallet::new();

    assert_eq!(wallet.initialize(true, owner.clone()), Ok(true));
    assert_eq!(
        wallet.add_member(
            true,
            &owner,
            alice.clone(),
            String::from("Alice"),
            1000,
            String::from("parent"),
        ),
        Ok(true)
    );

    let member = wallet.get_member(&alice).unwrap();
    assert_eq!(member.address, alice);
    assert_eq!(member.name, String::from("Alice"));
    assert_eq!(member.spending_limit, 1000);
    assert_eq!(member.role, String::from("parent"));

    assert!(wallet.check_spending_limit(&alice, 1000));
    assert!(!wallet.check_spending_limit(&alice, 1001));

    assert_eq!(wallet.update_spending_limit(true, &owner, &alice, 2000), Ok(true));
    assert!(wallet.check_spending_limit(&alice, 1500));
}
