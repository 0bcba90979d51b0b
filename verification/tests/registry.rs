use tipfinity::{
    CreateCreatorInput, CreateTipInput, Registry, RegistryError, TipLedger, UpdateCreatorInput,
};

fn alice_input() -> CreateCreatorInput {
    CreateCreatorInput {
        username: String::from("alice"),
        display_name: String::from("Alice"),
        email: String::from("alice@example.com"),
        bio: Some(String::from("painter")),
        profile_image: None,
    }
}

fn bob_input() -> CreateCreatorInput {
    CreateCreatorInput {
        username: String::from("bob"),
        display_name: String::from("Bob"),
        email: String::from("bob@example.com"),
        bio: None,
        profile_image: None,
    }
}

#[test]
fn create_assigns_ids_from_one() {
    let mut reg = Registry::new();
    assert_eq!(reg.create_creator(alice_input(), 100), Ok(1));
    assert_eq!(reg.create_creator(bob_input(), 101), Ok(2));
    assert_eq!(reg.list_creators().len(), 2);
}

#[test]
fn get_creator_finds_the_record() {
    let mut reg = Registry::new();
    reg.create_creator(alice_input(), 100).unwrap();
    let c = reg.get_creator(1).unwrap();
    assert_eq!(c.id, 1);
    assert_eq!(c.username, "alice");
    assert_eq!(c.display_name, "Alice");
    assert_eq!(c.email, "alice@example.com");
    assert_eq!(c.bio.as_deref(), Some("painter"));
    assert_eq!(c.profile_image, None);
    assert_eq!(c.wallet_address, None);
    assert_eq!(c.created_at, 100);
    assert!(reg.get_creator(7).is_none());
}

#[test]
fn duplicate_username_is_refused_and_writes_nothing() {
    let mut reg = Registry::new();
    assert_eq!(reg.create_creator(alice_input(), 100), Ok(1));
    let mut second = alice_input();
    second.display_name = String::from("Another Alice");
    second.email = String::from("other@example.com");
    assert_eq!(
        reg.create_creator(second, 200),
        Err(RegistryError::DuplicateUsername)
    );
    assert_eq!(reg.list_creators().len(), 1);
    assert_eq!(reg.get_creator(1).unwrap().display_name, "Alice");
    assert!(reg.get_creator(2).is_none());
}

#[test]
fn check_username_reports_availability() {
    let mut reg = Registry::new();
    assert!(reg.check_username(&String::from("alice")));
    reg.create_creator(alice_input(), 100).unwrap();
    assert!(!reg.check_username(&String::from("alice")));
    assert!(reg.check_username(&String::from("bob")));
}

#[test]
fn update_patches_only_provided_fields() {
    let mut reg = Registry::new();
    reg.create_creator(alice_input(), 100).unwrap();
    let updated = reg.update_creator(
        1,
        UpdateCreatorInput {
            display_name: Some(String::from("Alice the Great")),
            email: None,
            bio: None,
            profile_image: Some(String::from("alice.png")),
        },
    );
    assert!(updated);
    let c = reg.get_creator(1).unwrap();
    assert_eq!(c.username, "alice");
    assert_eq!(c.display_name, "Alice the Great");
    assert_eq!(c.email, "alice@example.com");
    assert_eq!(c.bio.as_deref(), Some("painter"));
    assert_eq!(c.profile_image.as_deref(), Some("alice.png"));
    assert_eq!(c.wallet_address, None);
    assert_eq!(c.created_at, 100);
}

#[test]
fn update_of_unknown_creator_reports_not_found() {
    let mut reg = Registry::new();
    reg.create_creator(alice_input(), 100).unwrap();
    let updated = reg.update_creator(
        9,
        UpdateCreatorInput {
            display_name: Some(String::from("ghost")),
            email: None,
            bio: None,
            profile_image: None,
        },
    );
    assert!(!updated);
    assert_eq!(reg.get_creator(1).unwrap().display_name, "Alice");
}

#[test]
fn delete_removes_a_creator_without_tips() {
    let mut reg = Registry::new();
    let ledger = TipLedger::new();
    reg.create_creator(alice_input(), 100).unwrap();
    reg.create_creator(bob_input(), 101).unwrap();
    assert_eq!(reg.delete_creator(1, &ledger), Ok(()));
    assert!(reg.get_creator(1).is_none());
    assert!(reg.get_creator(2).is_some());
    assert_eq!(reg.list_creators().len(), 1);
}

#[test]
fn delete_of_unknown_creator_reports_not_found() {
    let mut reg = Registry::new();
    let ledger = TipLedger::new();
    assert_eq!(reg.delete_creator(3, &ledger), Err(RegistryError::NotFound));
}

#[test]
fn delete_is_refused_while_tips_reference_the_creator() {
    let mut reg = Registry::new();
    let mut ledger = TipLedger::new();
    reg.create_creator(alice_input(), 100).unwrap();
    ledger
        .record_tip(
            &reg,
            CreateTipInput {
                creator_id: 1,
                sender_wallet: String::from("W1"),
                amount: 10,
                message: None,
                signature: String::from("sig-1"),
            },
            200,
        )
        .unwrap();
    assert_eq!(
        reg.delete_creator(1, &ledger),
        Err(RegistryError::HasDependentTips)
    );
    assert!(reg.get_creator(1).is_some());
}
