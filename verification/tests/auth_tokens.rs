use minidebet::auth::AuthService;
use minidebet::errors::{CoreError, HashError};

fn service() -> AuthService {
    AuthService::new("test-secret".to_string(), 3_600, 4)
}

#[test]
fn hash_twice_yields_different_digests() {
    let auth = service();
    let d1 = auth.hash_password("pw123").unwrap();
    let d2 = auth.hash_password("pw123").unwrap();
    assert_ne!(d1, d2);
    assert_eq!(auth.verify_password("pw123", &d1), Ok(true));
    assert_eq!(auth.verify_password("pw123", &d2), Ok(true));
}

#[test]
fn verify_rejects_wrong_password() {
    let auth = service();
    let digest = auth.hash_password("pw123").unwrap();
    assert_eq!(auth.verify_password("pw124", &digest), Ok(false));
    assert_eq!(auth.verify_password("", &digest), Ok(false));
}

#[test]
fn verify_rejects_malformed_digest() {
    let auth = service();
    assert_eq!(
        auth.verify_password("pw123", "not-a-digest"),
        Err(HashError::MalformedDigest)
    );
    assert_eq!(auth.verify_password("pw123", ""), Err(HashError::MalformedDigest));
}

#[test]
fn token_round_trip_recovers_claims() {
    let auth = service();
    let token = auth.generate_token("user-1", "a@x.com", 1_000).unwrap();
    let claims = auth.verify_token(&token, 1_500).unwrap();
    assert_eq!(claims.sub, "user-1");
    assert_eq!(claims.email, "a@x.com");
    assert_eq!(claims.exp, 1_000 + 3_600);
}

#[test]
fn token_fails_once_expired() {
    let auth = service();
    let issued_at: u64 = 1_000;
    let token = auth.generate_token("user-1", "a@x.com", issued_at).unwrap();
    // the last instant before expiry still passes
    assert!(auth.verify_token(&token, issued_at + 3_600 - 1).is_ok());
    // at and after the expiry instant verification fails
    assert_eq!(
        auth.verify_token(&token, issued_at + 3_600).unwrap_err(),
        CoreError::Unauthenticated
    );
    assert_eq!(
        auth.verify_token(&token, issued_at + 7_200).unwrap_err(),
        CoreError::Unauthenticated
    );
}

#[test]
fn token_fails_under_other_secret() {
    let issuing = AuthService::new("secret-a".to_string(), 3_600, 4);
    let verifying = AuthService::new("secret-b".to_string(), 3_600, 4);
    let token = issuing.generate_token("user-1", "a@x.com", 1_000).unwrap();
    assert_eq!(
        verifying.verify_token(&token, 1_500).unwrap_err(),
        CoreError::Unauthenticated
    );
}

#[test]
fn garbage_token_fails() {
    let auth = service();
    assert!(auth.verify_token("", 0).is_err());
    assert!(auth.verify_token("not.a.token", 0).is_err());
    assert!(auth.verify_token("a.b", 0).is_err());
}

#[test]
fn bearer_token_extraction() {
    assert_eq!(
        AuthService::extract_token_from_header(Some("Bearer abc.def.ghi")),
        Some("abc.def.ghi".to_string())
    );
    assert_eq!(AuthService::extract_token_from_header(None), None);
    assert_eq!(
        AuthService::extract_token_from_header(Some("Basic abc")),
        None
    );
    assert_eq!(
        AuthService::extract_token_from_header(Some("bearer abc")),
        None
    );
    assert_eq!(AuthService::extract_token_from_header(Some("Bear")), None);
    assert_eq!(
        AuthService::extract_token_from_header(Some("Bearer ")),
        Some(String::new())
    );
}
