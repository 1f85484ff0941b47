use user_registry::UserManager;
use user_registry::ValidationError;

#[test]
fn test_user_manager() {
    let mut manager = UserManager::new();
    let result = manager.add_user("Test".to_string(), "test@test.com".to_string());
    assert!(result.is_ok());
}

#[test]
fn scenario_two_users_lookup_and_active_list() {
    let mut manager = UserManager::new();

    let alice = manager
        .add_user("Alice Johnson".to_string(), "alice@example.com".to_string())
        .unwrap();
    assert_eq!(alice.id, 1);
    assert_eq!(alice.roles, vec!["user".to_string()]);
    assert!(alice.is_active);
    assert_eq!(alice.name, "Alice Johnson");
    assert_eq!(alice.email, "alice@example.com");

    let bob = manager
        .add_user("Bob Smith".to_string(), "bob@example.com".to_string())
        .unwrap();
    assert_eq!(bob.id, 2);

    let found = manager.find_by_id(1).unwrap();
    assert_eq!(found.id, 1);
    assert_eq!(found.name, "Alice Johnson");
    assert_eq!(found.email, "alice@example.com");
    assert!(found.is_active);
    assert_eq!(found.roles, vec!["user".to_string()]);

    let active = manager.get_active_users();
    assert_eq!(active.len(), 2);
    assert!(active.iter().any(|u| u.id == 1 && u.name == "Alice Johnson"));
    assert!(active.iter().any(|u| u.id == 2 && u.name == "Bob Smith"));
}

#[test]
fn failed_attempt_consumes_identifier() {
    let mut manager = UserManager::new();

    let rejected = manager.add_user("".to_string(), "x@example.com".to_string());
    assert_eq!(rejected.unwrap_err(), ValidationError::EmptyName);

    let ok = manager
        .add_user("Carol Jones".to_string(), "carol@example.com".to_string())
        .unwrap();
    assert!(ok.id > 1);
    assert_eq!(ok.id, 2);
}

#[test]
fn empty_name_rejected_regardless_of_email() {
    let mut manager = UserManager::new();
    let no_email = manager.add_user("".to_string(), "not-an-email".to_string());
    assert_eq!(no_email.unwrap_err(), ValidationError::EmptyName);
    let good_email = manager.add_user("".to_string(), "ok@example.com".to_string());
    assert_eq!(good_email.unwrap_err(), ValidationError::EmptyName);
}

#[test]
fn email_without_at_sign_rejected() {
    let mut manager = UserManager::new();
    let rejected = manager.add_user("Dora Lane".to_string(), "dora.example.com".to_string());
    assert_eq!(rejected.unwrap_err(), ValidationError::InvalidEmail);
    assert!(manager.find_by_id(1).is_none());
}

#[test]
fn find_by_unassigned_identifier_is_empty() {
    let mut manager = UserManager::new();
    assert!(manager.find_by_id(0).is_none());
    assert!(manager.find_by_id(1).is_none());
    assert!(manager.find_by_id(42).is_none());

    manager
        .add_user("Erin Hale".to_string(), "erin@example.com".to_string())
        .unwrap();
    assert!(manager.find_by_id(1).is_some());
    assert!(manager.find_by_id(2).is_none());
    assert!(manager.find_by_id(999).is_none());
}

#[test]
fn identifier_counter_advances_on_every_attempt() {
    let mut manager = UserManager::new();
    assert_eq!(manager.id_counter_value(), 1);

    manager
        .add_user("Fay Marsh".to_string(), "fay@example.com".to_string())
        .unwrap();
    assert_eq!(manager.id_counter_value(), 2);

    let rejected = manager.add_user("Gus Reed".to_string(), "gus.example.com".to_string());
    assert!(rejected.is_err());
    assert_eq!(manager.id_counter_value(), 3);

    let third = manager
        .add_user("Hope Voss".to_string(), "hope@example.com".to_string())
        .unwrap();
    assert_eq!(third.id, 3);
}

#[test]
fn active_list_is_empty_on_a_new_registry() {
    let manager = UserManager::new();
    assert!(manager.get_active_users().is_empty());
}
