use allo_core::{
    create_token, create_token_at, uuid_to_string, verify_token, verify_token_at, Claims, Error,
    TOKEN_TTL_SECONDS,
};

const SECRET: &[u8] = b"test-signing-secret";

#[test]
fn claims_carry_subject_email_and_window() {
    let c = Claims::at(7, String::from("kim@example.com"), 1_700_000_000);
    assert_eq!(c.sub, "00000000-0000-0000-0000-000000000007");
    assert_eq!(c.email, "kim@example.com");
    assert_eq!(c.iat, 1_700_000_000);
    assert_eq!(c.exp, 1_700_000_000 + 86_400);
}

#[test]
fn claims_new_uses_a_day_long_window() {
    let c = Claims::new(3, String::from("a@b.c"));
    assert_eq!(c.exp, c.iat + TOKEN_TTL_SECONDS);
    assert_eq!(c.sub, uuid_to_string(3));
}

#[test]
fn issue_then_verify_before_expiry_returns_the_claims() {
    let t0 = 1_700_000_000;
    let token = create_token_at(42, "pat@example.com", SECRET, t0).unwrap();
    // one minute before expiry: still valid
    let claims = verify_token_at(&token, SECRET, t0 + 24 * 3600 - 60).unwrap();
    assert_eq!(claims.sub, uuid_to_string(42));
    assert_eq!(claims.email, "pat@example.com");
    assert_eq!(claims.iat, t0);
    assert_eq!(claims.exp, t0 + 86_400);
}

#[test]
fn verify_from_expiry_on_is_invalid() {
    let t0 = 1_700_000_000;
    let token = create_token_at(42, "pat@example.com", SECRET, t0).unwrap();
    // one minute past expiry: refused
    assert_eq!(
        verify_token_at(&token, SECRET, t0 + 24 * 3600 + 60).unwrap_err(),
        Error::Unauthenticated
    );
    // the boundary itself is already refused
    assert_eq!(
        verify_token_at(&token, SECRET, t0 + 86_400).unwrap_err(),
        Error::Unauthenticated
    );
}

#[test]
fn verify_rejects_garbage_and_wrong_secret() {
    let t0 = 1_700_000_000;
    assert_eq!(
        verify_token_at("not-a-token", SECRET, t0).unwrap_err(),
        Error::Unauthenticated
    );
    let token = create_token_at(1, "x@y.z", SECRET, t0).unwrap();
    assert_eq!(
        verify_token_at(&token, b"another-secret", t0).unwrap_err(),
        Error::Unauthenticated
    );
}

#[test]
fn token_text_is_not_the_inputs() {
    let t0 = 1_700_000_000;
    let token = create_token_at(1, "x@y.z", SECRET, t0).unwrap();
    assert!(token.contains('.'));
    assert_ne!(token, "x@y.z");
    assert!(!token.contains("x@y.z"));
}

#[test]
fn create_token_with_the_clock_verifies_now() {
    let token = create_token(9, "now@example.com", SECRET).unwrap();
    let claims = verify_token(&token, SECRET).unwrap();
    assert_eq!(claims.sub, uuid_to_string(9));
    assert_eq!(claims.email, "now@example.com");
}
