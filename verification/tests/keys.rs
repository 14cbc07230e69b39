use tagme::codec::DbType;
use tagme::keys::{join_key, ToKey};
use tagme::models::{Top, Topic, UserStatus};

#[test]
fn prefixes_are_fixed() {
    assert_eq!(<UserStatus as DbType>::prefix(), "@");
    assert_eq!(<Topic as DbType>::prefix(), "#");
    assert_eq!(<Top as DbType>::prefix(), "!top");
}

#[test]
fn keys_are_fixed_width_or_text() {
    assert_eq!(1u64.to_key(), vec![1, 0, 0, 0, 0, 0, 0, 0]);
    assert_eq!(0x0102030405060708u64.to_key(), vec![8, 7, 6, 5, 4, 3, 2, 1]);
    assert_eq!(u64::MAX.to_key(), vec![0xff; 8]);
    assert_eq!("rust".to_string().to_key(), b"rust".to_vec());
    assert_eq!("".to_key(), Vec::<u8>::new());
    assert_eq!("é".to_key(), vec![0xc3, 0xa9]);
}

#[test]
fn physical_key_is_prefix_then_key() {
    assert_eq!(join_key("#", &b"rust".to_vec()), b"#rust".to_vec());
    assert_eq!(join_key("!top", &Vec::new()), b"!top".to_vec());
    assert_eq!(join_key("@", &7u64.to_key()), vec![b'@', 7, 0, 0, 0, 0, 0, 0, 0]);
}

#[test]
fn equal_raw_keys_of_different_kinds_differ() {
    let raw = b"top".to_vec();
    let as_user = join_key(<UserStatus as DbType>::prefix(), &raw);
    let as_topic = join_key(<Topic as DbType>::prefix(), &raw);
    let as_top = join_key(<Top as DbType>::prefix(), &raw);
    assert_ne!(as_user, as_topic);
    assert_ne!(as_user, as_top);
    assert_ne!(as_topic, as_top);
    // The topic named "top" behind "!" would spell the trending prefix, but no
    // kind has the prefix "!".
    assert_ne!(join_key("#", &b"!top".to_vec()), join_key("!top", &Vec::new()));
}

#[test]
fn records_encode_and_decode() {
    let topic = Topic {
        author: 3,
        description: "d".to_string(),
        tags: vec![("a".to_string(), 2)],
        pending_tags: vec!["p".to_string()],
    };
    let bytes = topic.encode().unwrap();
    assert_eq!(bytes, vec![0x94, 0x03, 0xa1, b'd', 0x81, 0xa1, b'a', 0x02, 0x91, 0xa1, b'p']);
    assert_eq!(Topic::decode(&bytes), Some(topic));
    assert_eq!(Topic::decode(&[0x94, 0x03]), None);
    assert_eq!(UserStatus::decode(&bytes), None);
    let top = Top(vec!["x".to_string(), "y".to_string()]);
    assert_eq!(Top::decode(&top.encode().unwrap()), Some(top));
}

#[test]
fn decode_refuses_a_tag_that_is_counted_and_waiting() {
    // [1, "d", {"a": 2}, ["a"]]
    let bytes = vec![0x94, 0x01, 0xa1, b'd', 0x81, 0xa1, b'a', 0x02, 0x91, 0xa1, b'a'];
    assert_eq!(Topic::decode(&bytes), None);
}

#[test]
fn decode_refuses_an_unknown_status() {
    // {"Owner": [[], "", "", "", "", ""]}
    let mut bytes = vec![0x81, 0xa5];
    bytes.extend_from_slice(b"Owner");
    bytes.extend_from_slice(&[0x96, 0x90, 0xa0, 0xa0, 0xa0, 0xa0, 0xa0]);
    assert_eq!(UserStatus::decode(&bytes), None);
    let mut known = vec![0x81, 0xa6];
    known.extend_from_slice(b"Banned");
    known.extend_from_slice(&[0x96, 0x90, 0xa0, 0xa0, 0xa0, 0xa0, 0xa0]);
    assert!(matches!(UserStatus::decode(&known), Some(UserStatus::Banned(_))));
}
