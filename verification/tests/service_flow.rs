use user_service::domain::{DomainError, User};
use user_service::dto::CreateUserRequest;
use user_service::memory::InMemoryUserRepository;
use user_service::port::StorageError;
use user_service::services::{AppError, UserService};
use user_service::transport::ApiError;

fn request(name: &str, email: &str) -> CreateUserRequest {
    CreateUserRequest { name: name.to_string(), email: email.to_string() }
}

#[test]
fn create_then_get_round_trip() {
    let mut service = UserService::new(InMemoryUserRepository::new());
    let created = service.create_user(request("Ann", "a@b.c")).unwrap();
    assert!(created.id > 0);
    assert_eq!(created.name, "Ann");
    assert_eq!(created.email, "a@b.c");

    let fetched = service.get_user(created.id).unwrap();
    assert_eq!(fetched.id, created.id);
    assert_eq!(fetched.name, "Ann");
    assert_eq!(fetched.email, "a@b.c");
}

#[test]
fn list_is_sorted_by_id_not_insertion_order() {
    let rows = vec![
        User::new("Carol".to_string(), "c@x.io".to_string()).unwrap().with_id(3),
        User::new("Ann".to_string(), "a@x.io".to_string()).unwrap().with_id(1),
        User::new("Bob".to_string(), "b@x.io".to_string()).unwrap().with_id(2),
    ];
    let repo = InMemoryUserRepository::from_rows(rows).unwrap();
    let service = UserService::new(repo);

    let listed = service.list_users().unwrap();
    let ids: Vec<i32> = listed.iter().map(|u| u.id).collect();
    assert_eq!(ids, vec![1, 2, 3]);
    assert_eq!(listed[0].name, "Ann");
    assert_eq!(listed[1].name, "Bob");
    assert_eq!(listed[2].name, "Carol");
}

#[test]
fn delete_nonexistent_is_not_found() {
    let mut service = UserService::new(InMemoryUserRepository::new());
    assert!(matches!(service.delete_user(42), Err(AppError::NotFound)));
    assert!(matches!(service.get_user(42), Err(AppError::NotFound)));
}

#[test]
fn delete_existing_removes_the_user() {
    let mut service = UserService::new(InMemoryUserRepository::new());
    let kept = service.create_user(request("Ann", "a@b.c")).unwrap();
    let gone = service.create_user(request("Bob", "b@c.d")).unwrap();

    assert!(service.delete_user(gone.id).is_ok());
    assert!(matches!(service.get_user(gone.id), Err(AppError::NotFound)));

    let listed = service.list_users().unwrap();
    assert_eq!(listed.len(), 1);
    assert_eq!(listed[0].id, kept.id);
    assert!(listed.iter().all(|u| u.id != gone.id));
}

#[test]
fn invalid_name_persists_nothing() {
    let mut service = UserService::new(InMemoryUserRepository::new());
    let r = service.create_user(request("", "a@b.c"));
    assert!(matches!(r, Err(AppError::Domain(DomainError::InvalidName))));
    assert!(service.list_users().unwrap().is_empty());
}

#[test]
fn invalid_email_persists_nothing() {
    let mut service = UserService::new(InMemoryUserRepository::new());
    let r = service.create_user(request("Ann", "x"));
    assert!(matches!(r, Err(AppError::Domain(DomainError::InvalidEmail))));
    assert!(service.list_users().unwrap().is_empty());
}

#[test]
fn ids_are_assigned_in_ascending_order() {
    let mut service = UserService::new(InMemoryUserRepository::new());
    let a = service.create_user(request("Ann", "a@x.io")).unwrap();
    let b = service.create_user(request("Bob", "b@x.io")).unwrap();
    let c = service.create_user(request("Carol", "c@x.io")).unwrap();
    assert_eq!((a.id, b.id, c.id), (1, 2, 3));
}

#[test]
fn deleted_id_is_not_reused() {
    let mut service = UserService::new(InMemoryUserRepository::new());
    let a = service.create_user(request("Ann", "a@x.io")).unwrap();
    service.delete_user(a.id).unwrap();
    let b = service.create_user(request("Bob", "b@x.io")).unwrap();
    assert!(b.id > a.id);
}

#[test]
fn exhausted_id_space_is_a_database_error() {
    let rows = vec![
        User::new("Max".to_string(), "m@x.io".to_string()).unwrap().with_id(i32::MAX - 1),
    ];
    let repo = InMemoryUserRepository::from_rows(rows).unwrap();
    let mut service = UserService::new(repo);
    let r = service.create_user(request("Ann", "a@b.c"));
    assert!(matches!(r, Err(AppError::Database(_))));
    assert_eq!(service.list_users().unwrap().len(), 1);
}

#[test]
fn seeding_rejects_duplicate_or_bad_ids() {
    let dup = vec![
        User::new("Ann".to_string(), "a@x.io".to_string()).unwrap().with_id(1),
        User::new("Bob".to_string(), "b@x.io".to_string()).unwrap().with_id(1),
    ];
    assert!(InMemoryUserRepository::from_rows(dup).is_none());

    let sentinel = vec![User::new("Ann".to_string(), "a@x.io".to_string()).unwrap()];
    assert!(InMemoryUserRepository::from_rows(sentinel).is_none());
}

#[test]
fn error_mapping_on_the_wire() {
    let (status, code, message) =
        ApiError(AppError::Domain(DomainError::InvalidName)).response_parts();
    assert_eq!(status, 400);
    assert_eq!(code, "VALIDATION_ERROR");
    assert_eq!(message, "名前は1文字以上100文字未満で文字未満である必要があります。");

    let engine_failure = StorageError { detail: "connection refused".to_string() };
    let (status, code, message) =
        ApiError(AppError::Database(engine_failure)).response_parts();
    assert_eq!(status, 500);
    assert_eq!(code, "DATABASE_ERROR");
    assert_eq!(message, "データベースエラーが発生しました。");
    assert!(!message.contains("connection refused"));

    let (status, code, message) = ApiError(AppError::NotFound).response_parts();
    assert_eq!(status, 404);
    assert_eq!(code, "NOT_FOUND");
    assert_eq!(message, "リソースが見つかりません。");
}
