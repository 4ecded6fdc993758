use query_sandbox::authenticator::{CursorAuthenticator, CursorError, SealedCursor};
use query_sandbox::database::{JSONLinesDatabase, Position};

#[test]
fn sealed_cursor_opens_under_its_own_key() {
    let auth = CursorAuthenticator::with_key(vec![7u8; 32]);
    let sealed = auth.seal::<JSONLinesDatabase>(&Position { offset: 1234 });
    assert_eq!(sealed.data, "1234");
    assert_eq!(sealed.sig.len(), 64);
    assert_eq!(auth.open::<JSONLinesDatabase>(&sealed), Ok(Position { offset: 1234 }));
}

#[test]
fn signature_is_the_known_hmac_sha256_code() {
    let auth = CursorAuthenticator::with_key(b"my secret and secure key".to_vec());
    assert_eq!(
        auth.sign("input message"),
        "97d2a569059bbcd8ead4444ff99071f4c01d005bcefe0d3567e1be628e5fdcd9"
    );
}

#[test]
fn tampered_signature_is_rejected() {
    let auth = CursorAuthenticator::with_key(vec![7u8; 32]);
    let sealed = auth.seal::<JSONLinesDatabase>(&Position { offset: 5 });
    let forged = SealedCursor { data: "6".to_string(), sig: sealed.sig };
    assert_eq!(auth.open::<JSONLinesDatabase>(&forged), Err(CursorError::InvalidCursor));
}

#[test]
fn round_trip_for_many_positions() {
    let auth = CursorAuthenticator::new();
    for offset in [0u64, 1, 9, 10, 65535, 65536, 1 << 40, u64::MAX] {
        let sealed = auth.seal::<JSONLinesDatabase>(&Position { offset });
        assert_eq!(auth.open::<JSONLinesDatabase>(&sealed), Ok(Position { offset }));
    }
}

#[test]
fn cursor_sealed_under_one_key_does_not_open_under_another() {
    let one = CursorAuthenticator::with_key(vec![1u8; 32]);
    let other = CursorAuthenticator::with_key(vec![2u8; 32]);
    let sealed = one.seal::<JSONLinesDatabase>(&Position { offset: 42 });
    assert_eq!(other.open::<JSONLinesDatabase>(&sealed), Err(CursorError::InvalidCursor));
    assert_eq!(one.open::<JSONLinesDatabase>(&sealed), Ok(Position { offset: 42 }));
}

#[test]
fn keys_drawn_for_two_requests_differ() {
    let one = CursorAuthenticator::new();
    let other = CursorAuthenticator::new();
    assert_ne!(one.sign("0"), other.sign("0"));
    assert_eq!(one.sign("0"), one.sign("0"));
}

#[test]
fn signed_text_that_is_no_cursor_is_rejected() {
    let auth = CursorAuthenticator::with_key(vec![9u8; 32]);
    let sealed = SealedCursor { data: "007".to_string(), sig: auth.sign("007") };
    assert!(auth.verify("007", &sealed.sig));
    assert_eq!(auth.open::<JSONLinesDatabase>(&sealed), Err(CursorError::InvalidCursor));
}

#[test]
fn signature_differs_in_case_or_length_is_rejected() {
    let auth = CursorAuthenticator::with_key(vec![9u8; 32]);
    let sig = auth.sign("12");
    assert!(auth.verify("12", &sig));
    assert!(!auth.verify("12", &sig.to_uppercase()));
    assert!(!auth.verify("12", &sig[..63]));
    assert!(!auth.verify("12", &format!("{}0", sig)));
    assert!(!auth.verify("13", &sig));
    assert!(!auth.verify("12", ""));
}

#[test]
fn short_keys_that_differ_in_trailing_zero_bytes_sign_alike() {
    let one = CursorAuthenticator::with_key(vec![1u8]);
    let other = CursorAuthenticator::with_key(vec![1u8, 0u8]);
    let sealed = one.seal::<JSONLinesDatabase>(&Position { offset: 3 });
    assert_eq!(one.sign("3"), other.sign("3"));
    assert_eq!(other.open::<JSONLinesDatabase>(&sealed), Ok(Position { offset: 3 }));
}
