use user_store::errors::RepositoryError;
use user_store::repository::{MemoryRepository, Repository};
use user_store::store::Store;
use user_store::user::{BirthDate, CustomData, Timestamp, User, UserId};

fn sample_user(id: u128, name: &str) -> User {
    User {
        id: UserId { value: id },
        name: name.to_string(),
        birth_date: BirthDate::new(1990, 1, 1).unwrap(),
        custom_data: CustomData { random: 1 },
        created_at: None,
        updated_at: None,
    }
}

#[test]
fn round_trip_create_get() {
    let repo = MemoryRepository::new();
    let user = sample_user(1, "Ana");

    let created = repo.create_user(&user).unwrap();
    assert_eq!(created.id.value, 1);
    assert_eq!(created.name, "Ana");
    assert_eq!(created.birth_date, user.birth_date);
    assert_eq!(created.custom_data.random, 1);
    assert!(created.created_at.is_some());
    assert!(created.updated_at.is_none());

    let fetched = repo.get_user(&UserId { value: 1 }).unwrap();
    assert_eq!(fetched.id.value, 1);
    assert_eq!(fetched.name, "Ana");
    assert_eq!(fetched.birth_date, user.birth_date);
    assert_eq!(fetched.custom_data.random, 1);
    assert_eq!(fetched.created_at, created.created_at);
    assert!(fetched.updated_at.is_none());
}

#[test]
fn create_duplicate_fails_with_already_exist() {
    let repo = MemoryRepository::new();
    let first = sample_user(2, "Ana");
    let second = sample_user(2, "Bea");

    assert!(repo.create_user(&first).is_ok());
    let err = repo.create_user(&second).unwrap_err();
    assert!(matches!(err, RepositoryError::AlreadyExist));

    let stored = repo.get_user(&UserId { value: 2 }).unwrap();
    assert_eq!(stored.name, "Ana");
}

#[test]
fn get_missing_fails_with_invalid_id() {
    let repo = MemoryRepository::new();
    let err = repo.get_user(&UserId { value: 3 }).unwrap_err();
    assert!(matches!(err, RepositoryError::InvalidId));
}

#[test]
fn update_missing_fails_with_does_not_exist() {
    let repo = MemoryRepository::new();
    let user = sample_user(4, "Ana");
    let err = repo.update_user(&user).unwrap_err();
    assert!(matches!(err, RepositoryError::DoesNotExist));
}

#[test]
fn update_preserves_identity_and_created_at() {
    let repo = MemoryRepository::new();
    let created = repo.create_user(&sample_user(5, "Ana")).unwrap();

    let mut replacement = sample_user(5, "Ana Maria");
    replacement.custom_data = CustomData { random: 9 };
    let updated = repo.update_user(&replacement).unwrap();

    assert_eq!(updated.id.value, 5);
    assert_eq!(updated.name, "Ana Maria");
    assert_eq!(updated.custom_data.random, 9);
    assert_eq!(updated.created_at, created.created_at);
    assert!(updated.updated_at.is_some());

    let fetched = repo.get_user(&UserId { value: 5 }).unwrap();
    assert_eq!(fetched.name, "Ana Maria");
    assert_eq!(fetched.created_at, created.created_at);
    assert_eq!(fetched.updated_at, updated.updated_at);
}

#[test]
fn delete_is_idempotent() {
    let repo = MemoryRepository::new();

    let absent = repo.delete_user(&UserId { value: 6 }).unwrap();
    assert_eq!(absent.value, 6);

    assert!(repo.create_user(&sample_user(6, "Ana")).is_ok());
    let first = repo.delete_user(&UserId { value: 6 }).unwrap();
    assert_eq!(first.value, 6);
    let second = repo.delete_user(&UserId { value: 6 }).unwrap();
    assert_eq!(second.value, 6);

    let err = repo.get_user(&UserId { value: 6 }).unwrap_err();
    assert!(matches!(err, RepositoryError::InvalidId));
}

#[test]
fn full_lifecycle_scenario() {
    let repo = MemoryRepository::default();
    let id = UserId { value: 0xA };

    let created = repo.create_user(&sample_user(0xA, "Ana")).unwrap();
    assert!(created.created_at.is_some());
    assert!(created.updated_at.is_none());

    let fetched = repo.get_user(&id).unwrap();
    assert_eq!(fetched.id, created.id);
    assert_eq!(fetched.name, created.name);
    assert_eq!(fetched.created_at, created.created_at);
    assert_eq!(fetched.updated_at, created.updated_at);

    let updated = repo.update_user(&sample_user(0xA, "Ana M.")).unwrap();
    assert_eq!(updated.name, "Ana M.");
    assert_eq!(updated.created_at, created.created_at);
    assert!(updated.updated_at.is_some());

    let deleted = repo.delete_user(&id).unwrap();
    assert_eq!(deleted, id);

    let err = repo.get_user(&id).unwrap_err();
    assert!(matches!(err, RepositoryError::InvalidId));
}

#[test]
fn duplicate_create_leaves_exactly_one_record() {
    let mut store = Store::new();
    let t = Timestamp { micros: 100 };

    assert!(store.create(&sample_user(7, "Ana"), t).is_ok());
    assert!(matches!(
        store.create(&sample_user(7, "Bea"), Timestamp { micros: 200 }).unwrap_err(),
        RepositoryError::AlreadyExist
    ));
    assert_eq!(store.len(), 1);

    let stored = store.get(&UserId { value: 7 }).unwrap();
    assert_eq!(stored.name, "Ana");
    assert_eq!(stored.created_at, Some(t));
}

#[test]
fn store_stamps_the_supplied_times() {
    let mut store = Store::new();
    let created = store.create(&sample_user(8, "Ana"), Timestamp { micros: 100 }).unwrap();
    assert_eq!(created.created_at, Some(Timestamp { micros: 100 }));
    assert!(created.updated_at.is_none());

    let updated = store.update(&sample_user(8, "Bea"), Timestamp { micros: 250 }).unwrap();
    assert_eq!(updated.created_at, Some(Timestamp { micros: 100 }));
    assert_eq!(updated.updated_at, Some(Timestamp { micros: 250 }));

    let removed = store.delete(&UserId { value: 8 }).unwrap();
    assert_eq!(removed.value, 8);
    assert_eq!(store.len(), 0);
}

#[test]
fn birth_date_accepts_real_days() {
    assert_eq!(
        BirthDate::new(1990, 1, 1),
        Some(BirthDate { year: 1990, month: 1, day: 1 })
    );
    assert_eq!(
        BirthDate::new(1977, 3, 10),
        Some(BirthDate { year: 1977, month: 3, day: 10 })
    );
    assert!(BirthDate::new(2000, 2, 29).is_some());
    assert!(BirthDate::new(2024, 2, 29).is_some());
    assert!(BirthDate::new(2023, 2, 28).is_some());
    assert!(BirthDate::new(1999, 12, 31).is_some());
    assert!(BirthDate::new(2021, 4, 30).is_some());
}

#[test]
fn birth_date_rejects_impossible_days() {
    assert!(BirthDate::new(1900, 2, 29).is_none());
    assert!(BirthDate::new(2023, 2, 29).is_none());
    assert!(BirthDate::new(2021, 4, 31).is_none());
    assert!(BirthDate::new(1990, 13, 1).is_none());
    assert!(BirthDate::new(1990, 0, 1).is_none());
    assert!(BirthDate::new(1990, 1, 0).is_none());
    assert!(BirthDate::new(1990, 1, 32).is_none());
    assert!(BirthDate::new(0, 1, 1).is_none());
    assert!(BirthDate::new(10000, 1, 1).is_none());
}
