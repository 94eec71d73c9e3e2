use hangman_plus::domain::{category_of, CardStatus, Category, Role};
use hangman_plus::errors::AppError;

#[test]
fn category_string_forms() {
    assert_eq!(Category::Bones.as_str(), "BONES");
    assert_eq!(Category::Organs.as_str(), "ORGANS");
    assert!(matches!(category_of("BONES"), Some(Category::Bones)));
    assert!(matches!(category_of("ORGANS"), Some(Category::Organs)));
    assert!(category_of("bones").is_none());
    assert!(category_of("").is_none());
}

#[test]
fn role_and_status_string_forms() {
    assert_eq!(Role::User.as_str(), "USER");
    assert_eq!(Role::Admin.as_str(), "ADMIN");
    assert_eq!(CardStatus::Pending.as_str(), "PENDING");
    assert_eq!(CardStatus::Approved.as_str(), "APPROVED");
    assert_eq!(CardStatus::Rejected.as_str(), "REJECTED");
}

#[test]
fn error_messages_surface() {
    let e = AppError::Conflict("Username or email already exists.".to_owned());
    assert_eq!(e.message(), "Username or email already exists.");
    let e = AppError::NotFound("Card not found.".to_owned());
    assert_eq!(e.message(), "Card not found.");
}
