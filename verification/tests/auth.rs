use tagme::error::{ApiError, ErrorKind};
use tagme::models::{decimal, Status, UserData, UserStatus};

fn data() -> UserData {
    UserData {
        topics: vec!["rust".to_string(), "verus".to_string()],
        access_token: "secret-token".to_string(),
        login: "alice".to_string(),
        name: "Alice".to_string(),
        avatar_url: "http://a/x.png".to_string(),
        bio: "hi".to_string(),
    }
}

#[test]
fn predicates_follow_the_variant() {
    assert!(!UserStatus::Normal(data()).is_admin());
    assert!(UserStatus::Admin(data()).is_admin());
    assert!(!UserStatus::Banned(data()).is_admin());
    assert!(!UserStatus::Normal(data()).is_banned());
    assert!(!UserStatus::Admin(data()).is_banned());
    assert!(UserStatus::Banned(data()).is_banned());
    assert_eq!(UserStatus::Normal(data()).status(), Status::Normal);
    assert_eq!(UserStatus::Admin(data()).status(), Status::Admin);
    assert_eq!(UserStatus::Banned(data()).status(), Status::Banned);
}

#[test]
fn active_fails_for_banned_only() {
    assert_eq!(UserStatus::Normal(data()).as_active(), Ok(()));
    assert_eq!(UserStatus::Admin(data()).as_active(), Ok(()));
    assert_eq!(UserStatus::Banned(data()).as_active(), Err(ApiError::InactiveUser));
}

#[test]
fn authorized_is_owner_or_admin() {
    assert_eq!(UserStatus::Normal(data()).as_authorized(1, 1), Ok(()));
    assert_eq!(UserStatus::Normal(data()).as_authorized(1, 2), Err(ApiError::AccessDenied));
    assert_eq!(UserStatus::Admin(data()).as_authorized(1, 2), Ok(()));
    assert_eq!(UserStatus::Banned(data()).as_authorized(1, 1), Ok(()));
    assert_eq!(UserStatus::Banned(data()).as_authorized(1, 2), Err(ApiError::AccessDenied));
}

#[test]
fn verified_over_every_status_and_ownership() {
    let cases = [
        (UserStatus::Normal(data()), 1u64, 1u64, Ok(())),
        (UserStatus::Normal(data()), 1, 2, Err(ApiError::AccessDenied)),
        (UserStatus::Admin(data()), 1, 1, Ok(())),
        (UserStatus::Admin(data()), 1, 2, Ok(())),
        (UserStatus::Banned(data()), 1, 1, Err(ApiError::InactiveUser)),
        (UserStatus::Banned(data()), 1, 2, Err(ApiError::InactiveUser)),
    ];
    for (user, caller, owner, expected) in cases {
        assert_eq!(user.as_verified(caller, owner), expected);
        assert_eq!(user.verified_data(caller, owner).map(|d| d.clone()), expected.map(|_| data()));
        assert_eq!(user.clone().into_verified_data(caller, owner), expected.map(|_| data()));
        let mut copy = user.clone();
        assert_eq!(copy.verified_data_mut(caller, owner).map(|d| d.clone()), expected.map(|_| data()));
    }
}

#[test]
fn verified_failures_are_forbidden() {
    assert_eq!(ApiError::InactiveUser.kind(), ErrorKind::Forbidden);
    assert_eq!(ApiError::AccessDenied.kind(), ErrorKind::Forbidden);
    assert_eq!(ApiError::AdminRequired.kind(), ErrorKind::Forbidden);
}

#[test]
fn data_is_there_under_every_status() {
    for user in [UserStatus::Normal(data()), UserStatus::Admin(data()), UserStatus::Banned(data())] {
        assert_eq!(user.data(), &data());
        assert_eq!(user.clone().into_data(), data());
    }
}

#[test]
fn data_mut_changes_the_record_in_place() {
    let mut user = UserStatus::Banned(data());
    user.data_mut().login = "bob".to_string();
    user.data_mut().topics.push("new".to_string());
    let mut expected = data();
    expected.login = "bob".to_string();
    expected.topics.push("new".to_string());
    assert_eq!(user, UserStatus::Banned(expected));
}

#[test]
fn active_data_accessors() {
    assert_eq!(UserStatus::Normal(data()).active_data(), Ok(&data()));
    assert_eq!(UserStatus::Banned(data()).active_data(), Err(ApiError::InactiveUser));
    assert_eq!(UserStatus::Admin(data()).into_active_data(), Ok(data()));
    assert_eq!(UserStatus::Banned(data()).into_active_data(), Err(ApiError::InactiveUser));
    let mut user = UserStatus::Normal(data());
    user.active_data_mut().unwrap().bio = "changed".to_string();
    assert_eq!(user.data().bio, "changed");
    let mut banned = UserStatus::Banned(data());
    assert_eq!(banned.active_data_mut().map(|d| d.clone()), Err(ApiError::InactiveUser));
    assert_eq!(banned, UserStatus::Banned(data()));
}

#[test]
fn with_status_keeps_the_data() {
    assert_eq!(UserStatus::Normal(data()).with_status(Status::Banned), UserStatus::Banned(data()));
    assert_eq!(UserStatus::Banned(data()).with_status(Status::Admin), UserStatus::Admin(data()));
    assert_eq!(UserStatus::Admin(data()).with_status(Status::Normal), UserStatus::Normal(data()));
}

#[test]
fn info_hides_the_access_token_and_labels_the_status() {
    let info = UserStatus::Normal(data()).into_info(42);
    assert_eq!(info.id, "42");
    assert_eq!(info.topics, vec!["rust".to_string(), "verus".to_string()]);
    assert_eq!(info.login, "alice");
    assert_eq!(info.name, "Alice");
    assert_eq!(info.avatar_url, "http://a/x.png");
    assert_eq!(info.bio, "hi");
    assert_eq!(info.status, None);
    assert_eq!(UserStatus::Admin(data()).into_info(0).status, Some("Admin"));
    assert_eq!(UserStatus::Admin(data()).into_info(0).id, "0");
    assert_eq!(UserStatus::Banned(data()).into_info(u64::MAX).status, Some("Banned"));
    assert_eq!(UserStatus::Banned(data()).into_info(u64::MAX).id, "18446744073709551615");
}

#[test]
fn default_user_is_normal_and_empty() {
    let user = UserStatus::default();
    assert_eq!(
        user,
        UserStatus::Normal(UserData {
            topics: vec![],
            access_token: String::new(),
            login: String::new(),
            name: String::new(),
            avatar_url: String::new(),
            bio: String::new(),
        })
    );
}

#[test]
fn every_error_has_its_status_and_message() {
    let table = [
        (ApiError::FetchFailed, ErrorKind::StorageFailure, 500, "Fetch data failed"),
        (ApiError::InsertFailed, ErrorKind::StorageFailure, 500, "Insert data failed"),
        (ApiError::RemoveFailed, ErrorKind::StorageFailure, 500, "Remove data failed"),
        (ApiError::CommitFailed, ErrorKind::StorageFailure, 500, "Commit failed"),
        (ApiError::DeserializeFailed, ErrorKind::SerializationFailure, 500, "Deserialize failed"),
        (ApiError::SerializeFailed, ErrorKind::SerializationFailure, 500, "Serialize failed"),
        (ApiError::NotFound, ErrorKind::NotFound, 404, "Not found"),
        (ApiError::LoginRequired, ErrorKind::Unauthenticated, 401, "Login required"),
        (ApiError::InactiveUser, ErrorKind::Forbidden, 403, "Attempted to request an invalid user"),
        (ApiError::AccessDenied, ErrorKind::Forbidden, 403, "Access to the resource is denied"),
        (ApiError::AdminRequired, ErrorKind::Forbidden, 403, "Administrator access required"),
        (ApiError::Conflict, ErrorKind::Conflict, 409, "Transaction conflict"),
        (ApiError::InvalidTopic, ErrorKind::InvalidInput, 400, "Topic is invalid"),
        (ApiError::InvalidTag, ErrorKind::InvalidInput, 400, "Tag is invalid"),
        (ApiError::InvalidUid, ErrorKind::InvalidInput, 400, "Invalid uid"),
    ];
    for (error, kind, status, message) in table {
        assert_eq!(error.kind(), kind);
        assert_eq!(error.status(), status);
        assert_eq!(error.message(), message);
    }
}

#[test]
fn same_record_is_same_status_and_profile() {
    assert!(UserStatus::Admin(data()).same_as(&UserStatus::Admin(data())));
    assert!(!UserStatus::Admin(data()).same_as(&UserStatus::Normal(data())));
    let mut other = data();
    other.bio = "other".to_string();
    assert!(!UserStatus::Admin(data()).same_as(&UserStatus::Admin(other.clone())));
    assert!(!data().same_as(&other));
    let mut fewer = data();
    fewer.topics.pop();
    assert!(!data().same_as(&fewer));
    assert!(data().same_as(&data()));
}

#[test]
fn numbers_are_written_in_decimal() {
    assert_eq!(decimal(0), "0");
    assert_eq!(decimal(9), "9");
    assert_eq!(decimal(10), "10");
    assert_eq!(decimal(1234567890), "1234567890");
    assert_eq!(decimal(u64::MAX), "18446744073709551615");
    for n in [7u64, 42, 100, 909, 65_536, 1_000_000_007] {
        assert_eq!(decimal(n), n.to_string());
    }
}
