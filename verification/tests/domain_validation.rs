use user_service::domain::{DomainError, User};

#[test]
fn test_valid_user() {
    let user = User::new("John Doe".to_string(), "john.doe@example.com".to_string());
    assert!(user.is_ok());
}

#[test]
fn test_invalid_email() {
    let user = User::new("John Doe".to_string(), "invalid-email".to_string());
    assert!(matches!(user, Err(DomainError::InvalidEmail)));
}

#[test]
fn name_length_bounds() {
    let email = "a@b.c".to_string();
    assert!(User::new("x".to_string(), email.clone()).is_ok());
    assert!(User::new("x".repeat(100), email.clone()).is_ok());
    assert!(matches!(
        User::new(String::new(), email.clone()),
        Err(DomainError::InvalidName)
    ));
    assert!(matches!(
        User::new("x".repeat(101), email),
        Err(DomainError::InvalidName)
    ));
}

#[test]
fn email_rules() {
    let name = "Ann".to_string();
    assert!(User::new(name.clone(), "a@b".to_string()).is_ok());
    assert!(User::new(name.clone(), "@ab".to_string()).is_ok());
    assert!(matches!(
        User::new(name.clone(), "ab".to_string()),
        Err(DomainError::InvalidEmail)
    ));
    assert!(matches!(
        User::new(name.clone(), "@b".to_string()),
        Err(DomainError::InvalidEmail)
    ));
    assert!(matches!(
        User::new(name, "abc".to_string()),
        Err(DomainError::InvalidEmail)
    ));
}

#[test]
fn new_user_has_sentinel_id() {
    let user = User::new("Ann".to_string(), "a@b.c".to_string()).unwrap();
    assert_eq!(user.id, 0);
    assert_eq!(user.name, "Ann");
    assert_eq!(user.email, "a@b.c");
}

#[test]
fn with_id_replaces_only_the_id() {
    let user = User::new("Ann".to_string(), "a@b.c".to_string()).unwrap();
    let persisted = user.with_id(7);
    assert_eq!(persisted.id, 7);
    assert_eq!(persisted.name, "Ann");
    assert_eq!(persisted.email, "a@b.c");
}

#[test]
fn validation_messages() {
    assert_eq!(
        DomainError::InvalidName.message(),
        "名前は1文字以上100文字未満で文字未満である必要があります。"
    );
    assert_eq!(DomainError::InvalidEmail.message(), "無効なメールアドレス形式です");
}
