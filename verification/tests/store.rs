use tagme::error::ApiError;
use tagme::models::{with_transaction, Top, Topic, UserData, UserStatus};

fn open() -> sled::Db {
    sled::Config::new().temporary(true).open().unwrap()
}

fn alice() -> UserData {
    UserData {
        topics: vec!["rust".to_string()],
        access_token: "tok".to_string(),
        login: "alice".to_string(),
        name: "Alice".to_string(),
        avatar_url: "http://a/x.png".to_string(),
        bio: "hi".to_string(),
    }
}

#[test]
fn absent_key_reads_as_nothing() {
    let db = open();
    let got = with_transaction(&db, |h| h.get::<u64, UserStatus>(&7));
    assert_eq!(got, Ok(None));
    let got = with_transaction(&db, |h| h.get_or_not_found::<u64, UserStatus>(&7));
    assert_eq!(got, Err(ApiError::NotFound));
}

#[test]
fn user_record_reads_back_under_each_status() {
    let db = open();
    for (uid, user) in [
        (1u64, UserStatus::Normal(alice())),
        (2u64, UserStatus::Admin(alice())),
        (3u64, UserStatus::Banned(alice())),
    ] {
        let stored = with_transaction(&db, |mut h| h.insert(&uid, &user));
        assert_eq!(stored, Ok(()));
        let got = with_transaction(&db, |h| h.get::<u64, UserStatus>(&uid));
        assert_eq!(got, Ok(Some(user)));
    }
}

#[test]
fn topic_record_reads_back_with_sorted_tags() {
    let db = open();
    let topic = Topic {
        author: 9,
        description: "systems".to_string(),
        tags: vec![("safe".to_string(), 3), ("fast".to_string(), 1)],
        pending_tags: vec!["zero-cost".to_string(), "async".to_string()],
    };
    let name = "rust".to_string();
    assert_eq!(with_transaction(&db, |mut h| h.insert(&name, &topic)), Ok(()));
    let got = with_transaction(&db, |h| h.get_or_not_found::<String, Topic>(&name)).unwrap();
    assert_eq!(got.author, 9);
    assert_eq!(got.description, "systems");
    assert_eq!(got.tags, vec![("fast".to_string(), 1), ("safe".to_string(), 3)]);
    assert_eq!(got.pending_tags, vec!["async".to_string(), "zero-cost".to_string()]);
}

#[test]
fn kinds_do_not_collide_on_equal_keys() {
    let db = open();
    let key = "".to_string();
    let topic = Topic::new(1, "empty name".to_string());
    let top = Top(vec!["a".to_string(), "b".to_string()]);
    let done = with_transaction(&db, |mut h| {
        h.insert(&key, &topic)?;
        h.insert(&"", &top)
    });
    assert_eq!(done, Ok(()));
    let got_top = with_transaction(&db, |h| h.get_or_not_found::<&str, Top>(&"")).unwrap();
    let got_topic = with_transaction(&db, |h| h.get_or_not_found::<String, Topic>(&key)).unwrap();
    assert_eq!(got_top, top);
    assert_eq!(got_topic, topic);
}

#[test]
fn failed_operation_leaves_the_store_untouched() {
    let db = open();
    let out: Result<(), ApiError> = with_transaction(&db, |mut h| {
        h.insert(&5u64, &UserStatus::Normal(alice()))?;
        Err(ApiError::AccessDenied)
    });
    assert_eq!(out, Err(ApiError::AccessDenied));
    assert_eq!(with_transaction(&db, |h| h.get::<u64, UserStatus>(&5)), Ok(None));
}

#[test]
fn remove_deletes_and_tolerates_absence() {
    let db = open();
    let name = "gone".to_string();
    assert_eq!(with_transaction(&db, |mut h| h.remove::<String, Topic>(&name)), Ok(()));
    let topic = Topic::new(1, "d".to_string());
    assert_eq!(with_transaction(&db, |mut h| h.insert(&name, &topic)), Ok(()));
    assert_eq!(with_transaction(&db, |mut h| h.remove::<String, Topic>(&name)), Ok(()));
    assert_eq!(with_transaction(&db, |h| h.get::<String, Topic>(&name)), Ok(None));
}

#[test]
fn bytes_of_another_kind_do_not_decode() {
    let db = open();
    db.insert(b"#bad", vec![0xc1u8]).unwrap();
    let name = "bad".to_string();
    assert_eq!(
        with_transaction(&db, |h| h.get::<String, Topic>(&name)),
        Err(ApiError::DeserializeFailed)
    );
}

#[test]
fn stored_bytes_have_the_compact_layout() {
    let db = open();
    let top = Top(vec!["rust".to_string()]);
    assert_eq!(with_transaction(&db, |mut h| h.insert(&"", &top)), Ok(()));
    let raw = db.get(b"!top").unwrap().unwrap();
    assert_eq!(raw.to_vec(), vec![0x91, 0xa4, b'r', b'u', b's', b't']);
    let user = UserStatus::Admin(UserData {
        topics: vec![],
        access_token: "".to_string(),
        login: "a".to_string(),
        name: "".to_string(),
        avatar_url: "".to_string(),
        bio: "".to_string(),
    });
    assert_eq!(with_transaction(&db, |mut h| h.insert(&1u64, &user)), Ok(()));
    let mut key = vec![b'@'];
    key.extend_from_slice(&1u64.to_le_bytes());
    let raw = db.get(key).unwrap().unwrap();
    assert_eq!(
        raw.to_vec(),
        vec![0x81, 0xa5, b'A', b'd', b'm', b'i', b'n', 0x96, 0x90, 0xa0, 0xa1, b'a', 0xa0, 0xa0, 0xa0]
    );
}

#[test]
fn transaction_reads_its_own_writes() {
    let db = open();
    let name = "rust".to_string();
    let topic = Topic::new(4, "d".to_string());
    let seen = with_transaction(&db, |mut h| {
        h.insert(&name, &topic)?;
        let written = h.get::<String, Topic>(&name)?;
        h.remove::<String, Topic>(&name)?;
        let removed = h.get::<String, Topic>(&name)?;
        h.insert(&7u64, &UserStatus::Normal(alice()))?;
        Ok((written, removed))
    });
    assert_eq!(seen, Ok((Some(topic), None)));
    assert_eq!(with_transaction(&db, |h| h.get::<String, Topic>(&name)), Ok(None));
    assert_eq!(
        with_transaction(&db, |h| h.get::<u64, UserStatus>(&7)),
        Ok(Some(UserStatus::Normal(alice())))
    );
}

#[test]
fn failed_operation_hands_back_its_own_error() {
    let db = open();
    for error in [ApiError::NotFound, ApiError::InvalidTag, ApiError::AdminRequired] {
        let out: Result<u8, ApiError> = with_transaction(&db, |mut h| {
            h.insert(&"", &Top(vec!["x".to_string()]))?;
            Err(error)
        });
        assert_eq!(out, Err(error));
        assert_eq!(with_transaction(&db, |h| h.get::<&str, Top>(&"")), Ok(None));
    }
}
