use tagme::error::ApiError;
use tagme::token::{OptionalToken, Token, CLOCK_BOUND, TOKEN_LIFETIME};

const KEY: [u8; 32] = [7; 32];
const OTHER_KEY: [u8; 32] = [8; 32];

fn sha256_of(parts: &[&[u8]]) -> [u8; 32] {
    let mut all = Vec::new();
    for part in parts {
        all.extend_from_slice(part);
    }
    <sha2::Sha256 as sha2::Digest>::digest(&all).into()
}

fn standard(bytes: &[u8]) -> String {
    base64::Engine::encode(&base64::engine::general_purpose::STANDARD, bytes)
}

#[test]
fn signature_is_the_digest_of_secret_and_fields() {
    let expected = sha256_of(&[
        &KEY,
        &42u64.to_ne_bytes(),
        &1000i64.to_ne_bytes(),
        &(-5i64).to_ne_bytes(),
    ]);
    assert_eq!(Token::signature(&KEY, 42, 1000, -5), expected);
    assert_ne!(Token::signature(&KEY, 42, 1000, -5), KEY);
    assert_ne!(Token::signature(&KEY, 42, 1000, -5), Token::signature(&KEY, 43, 1000, -5));
    assert_ne!(Token::signature(&KEY, 42, 1000, -5), Token::signature(&KEY, 42, 1001, -5));
    assert_ne!(Token::signature(&KEY, 42, 1000, -5), Token::signature(&KEY, 42, 1000, -4));
    assert_ne!(Token::signature(&KEY, 42, 1000, -5), Token::signature(&OTHER_KEY, 42, 1000, -5));
}

#[test]
fn lifetime_is_fixed() {
    assert_eq!(TOKEN_LIFETIME, 2_000_000);
    let token = Token::issue_at(&KEY, 9, 1_000);
    assert_eq!(token.sub, 9);
    assert_eq!(token.subject(), 9);
    assert_eq!(token.issued_at(), 1_000);
    assert_eq!(token.expires_at(), 2_001_000);
}

#[test]
fn fresh_token_is_valid_immediately() {
    let token = Token::issue_at(&KEY, 9, 1_000);
    assert!(token.is_valid_at(&KEY, 1_000));
    let now = Token::new(&KEY, 9);
    assert!(now.is_valid(&KEY));
    assert_eq!(now.expires_at(), now.issued_at() + TOKEN_LIFETIME);
}

#[test]
fn token_is_invalid_under_another_secret() {
    let token = Token::issue_at(&KEY, 9, 1_000);
    assert!(!token.is_valid_at(&OTHER_KEY, 1_000));
    assert_eq!(token.clone().update_at(&OTHER_KEY, 1_000), None);
    let now = Token::new(&KEY, 9);
    assert!(!now.is_valid(&OTHER_KEY));
    assert_eq!(now.update(&OTHER_KEY), None);
}

#[test]
fn window_is_the_sum_of_two_margins() {
    let token = Token::issue_at(&KEY, 9, 1_000);
    // (1000 - now) + (2_001_000 - now) > 0  <=>  now < 1_001_000
    assert!(token.is_valid_at(&KEY, 0));
    assert!(token.is_valid_at(&KEY, -1_000_000));
    assert!(token.is_valid_at(&KEY, 1_000_999));
    assert!(!token.is_valid_at(&KEY, 1_001_000));
    assert!(!token.is_valid_at(&KEY, 2_001_000));
    assert!(!token.is_valid_at(&KEY, i64::MAX));
    assert!(token.is_valid_at(&KEY, i64::MIN));
}

#[test]
fn renew_of_invalid_token_gives_nothing() {
    let token = Token::issue_at(&KEY, 9, 1_000);
    assert_eq!(token.clone().update_at(&KEY, 1_001_000), None);
    assert_eq!(token.update_at(&KEY, 5_000_000), None);
}

#[test]
fn renew_keeps_subject_and_expiry_and_moves_issue_time() {
    let token = Token::issue_at(&KEY, 9, 1_000);
    let renewed = token.update_at(&KEY, 500_000).unwrap();
    assert_eq!(renewed.sub, 9);
    assert_eq!(renewed.expires_at(), 2_001_000);
    assert_eq!(renewed.issued_at(), 500_000);
    assert!(renewed.is_valid_at(&KEY, 500_000));
    // The renewed token holds while now < (500_000 + 2_001_000) / 2.
    assert!(renewed.is_valid_at(&KEY, 1_250_499));
    assert!(!renewed.is_valid_at(&KEY, 1_250_500));
    let again = Token::new(&KEY, 9).update(&KEY).unwrap();
    assert_eq!(again.sub, 9);
    assert!(again.is_valid(&KEY));
}

#[test]
fn clock_reads_the_present() {
    let before = std::time::SystemTime::now()
        .duration_since(std::time::UNIX_EPOCH)
        .unwrap()
        .as_secs() as i64;
    let token = Token::new(&KEY, 1);
    let after = std::time::SystemTime::now()
        .duration_since(std::time::UNIX_EPOCH)
        .unwrap()
        .as_secs() as i64;
    assert!(before <= token.issued_at() && token.issued_at() <= after);
    assert!(token.issued_at() < CLOCK_BOUND);
}

#[test]
fn wire_text_is_base64_of_the_packed_fields() {
    let token = Token::issue_at(&KEY, 9, 1_000);
    let sign = Token::signature(&KEY, 9, 1_000, 2_001_000);
    let packed = rmp_serde::to_vec(&(9u64, 1_000i64, 2_001_000i64, sign)).unwrap();
    assert_eq!(packed[0], 0x94);
    assert_eq!(token.encode(), Some(standard(&packed)));
    assert_eq!(token.to_header(), Some(format!("Bearer {}", standard(&packed))));
    assert_eq!(token.to_text(), format!("Bearer {}", standard(&packed)));
}

#[test]
fn wire_text_reads_back() {
    let token = Token::issue_at(&KEY, u64::MAX, -77);
    let text = token.encode().unwrap();
    assert_eq!(Token::decode(&text), Some(token.clone()));
    let header = token.to_header().unwrap();
    assert_eq!(Token::from_header(&header), Some(token));
}

#[test]
fn every_decoding_failure_looks_the_same() {
    assert_eq!(Token::decode("not base64!"), None);
    assert_eq!(Token::decode(""), None);
    assert_eq!(Token::decode(&standard(b"not a token")), None);
    assert_eq!(Token::decode(&standard(&[0x93, 1, 2, 3])), None);
    let token = Token::issue_at(&KEY, 9, 1_000);
    let text = token.encode().unwrap();
    assert_eq!(Token::from_header(&text), None);
    assert_eq!(Token::from_header(&format!("bearer {text}")), None);
    assert_eq!(Token::from_header(&format!("Bearer{text}")), None);
    assert_eq!(Token::from_header(&format!("Bearer  {text}")), None);
    assert_eq!(Token::from_header("Bearer "), None);
    assert_eq!(Token::from_header(""), None);
}

#[test]
fn request_without_valid_token_is_anonymous() {
    for header in [None, Some("Basic abc"), Some("Bearer x")] {
        let token = OptionalToken::resolve_at(header, &KEY, 0);
        assert_eq!(token.get_sub(), None);
        assert_eq!(token.as_ref(), None);
        assert_eq!(token.auth(), Err(ApiError::LoginRequired));
        assert_eq!(token.response_header(false), None);
        assert_eq!(OptionalToken::resolve(header, &KEY).get_sub(), None);
    }
}

#[test]
fn request_with_valid_token_is_renewed() {
    let issued = Token::issue_at(&KEY, 9, 1_000);
    let header = issued.to_header().unwrap();
    let token = OptionalToken::resolve_at(Some(&header), &KEY, 2_000);
    assert_eq!(token.get_sub(), Some(9));
    assert_eq!(token.auth(), Ok(9));
    let renewed = token.as_ref().unwrap();
    assert_eq!(renewed.issued_at(), 2_000);
    assert_eq!(renewed.expires_at(), 2_001_000);
    assert_eq!(token.response_header(false), renewed.to_header());
    assert_eq!(token.response_header(true), None);
}

#[test]
fn request_with_expired_or_forged_token_is_anonymous() {
    let issued = Token::issue_at(&KEY, 9, 1_000);
    let header = issued.to_header().unwrap();
    assert_eq!(OptionalToken::resolve_at(Some(&header), &KEY, 1_001_000).get_sub(), None);
    assert_eq!(OptionalToken::resolve_at(Some(&header), &OTHER_KEY, 1_000).get_sub(), None);
    let forged = rmp_serde::to_vec(&(10u64, 1_000i64, 2_001_000i64, [0u8; 32])).unwrap();
    let forged = format!("Bearer {}", standard(&forged));
    assert_eq!(OptionalToken::resolve_at(Some(&forged), &KEY, 1_000).get_sub(), None);
}

#[test]
fn token_of_now_resolves_now() {
    let header = Token::new(&KEY, 5).to_header().unwrap();
    let token = OptionalToken::resolve(Some(&header), &KEY);
    assert_eq!(token.auth(), Ok(5));
}
