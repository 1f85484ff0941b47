use user_registry::OperationStatus;
use user_registry::User;
use user_registry::Validate;
use user_registry::ValidationError;
use user_registry::longest;
use user_registry::process_result;

#[test]
fn test_user_validation() {
    let user = User {
        id: 1,
        name: "Test User".to_string(),
        email: "test@example.com".to_string(),
        is_active: true,
        roles: vec!["user".to_string()],
    };

    assert!(user.is_valid());
    assert!(user.validate().is_ok());
}

#[test]
fn empty_name_fails_validation() {
    let user = User {
        id: 7,
        name: "".to_string(),
        email: "someone@example.com".to_string(),
        is_active: true,
        roles: vec!["user".to_string()],
    };

    assert!(!user.is_valid());
    assert_eq!(user.validate().unwrap_err(), ValidationError::EmptyName);
}

#[test]
fn email_without_at_sign_fails_validation() {
    let user = User {
        id: 8,
        name: "Ivy Snow".to_string(),
        email: "ivy.example.com".to_string(),
        is_active: true,
        roles: vec!["user".to_string()],
    };

    assert!(!user.is_valid());
    assert_eq!(user.validate().unwrap_err(), ValidationError::InvalidEmail);
}

#[test]
fn validation_error_messages() {
    assert_eq!(ValidationError::EmptyName.message(), "Name cannot be empty");
    assert_eq!(ValidationError::InvalidEmail.message(), "Invalid email format");
}

#[test]
fn process_result_reports_success() {
    let status = process_result::<u32>(Ok(5));
    assert_eq!(status, OperationStatus::Success);
}

#[test]
fn process_result_keeps_error_text() {
    let status = process_result::<u32>(Err("boom".to_string()));
    assert_eq!(status, OperationStatus::Failed("boom".to_string()));
}

#[test]
fn longest_picks_the_longer_string() {
    assert_eq!(longest("hello", "hi"), "hello");
    assert_eq!(longest("a", "abc"), "abc");
}

#[test]
fn longest_prefers_second_on_a_tie() {
    assert_eq!(longest("abc", "xyz"), "xyz");
}

#[test]
fn longest_compares_byte_lengths() {
    // Two accented characters occupy four bytes, more than "abc"'s three,
    // even though they are fewer characters.
    let accented = "\u{e9}\u{e9}";
    assert_eq!(accented.len(), 4);
    assert_eq!(longest(accented, "abc"), accented);
}
