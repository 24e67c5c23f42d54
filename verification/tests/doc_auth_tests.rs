use alpha_proxy::doc_auth::{admit_document, authenticate_document, UserDocument};
use alpha_proxy::error::AuthError;

// The Argon2i hash of "password" with the salt "somesalt", from the
// rust-argon2 documentation.
const HASH: &str =
    "$argon2i$v=19$m=4096,t=3,p=1$c29tZXNhbHQ$iWh06vD8Fy27wf9npn6FXWiCX4K6pW6Ue1Bnzz07Z8A";

fn doc(hash: Option<&str>) -> UserDocument {
    UserDocument {
        password_hash: hash.map(|h| h.to_string()),
        enabled: None,
        expires_at: None,
        max_connections: None,
        rate_limit_rps: None,
        allowed_ips: vec![],
    }
}

#[test]
fn document_admits_matching_password_with_defaults() {
    let d = doc(Some(HASH));
    let info = authenticate_document("test_user", "password", Some(&d), 0).unwrap();
    assert_eq!(info.username, "test_user");
    assert_eq!(info.max_connections, 10);
    assert_eq!(info.rate_limit_rps, 100);
    assert!(info.allowed_ips.is_empty());
}

#[test]
fn document_refusals() {
    let d = doc(Some(HASH));
    assert!(matches!(
        authenticate_document("test_user", "wrong_password", Some(&d), 0),
        Err(AuthError::InvalidCredentials)
    ));
    assert!(matches!(
        authenticate_document("nonexistent", "password", None, 0),
        Err(AuthError::InvalidCredentials)
    ));
    // A hash that Argon2 cannot read counts as a mismatch.
    let bad = doc(Some("not-an-argon2-hash"));
    assert!(matches!(
        authenticate_document("u", "password", Some(&bad), 0),
        Err(AuthError::InvalidCredentials)
    ));
    match authenticate_document("u", "password", Some(&doc(None)), 0) {
        Err(AuthError::BackendError(m)) => assert_eq!(m, "Invalid user document format"),
        other => panic!("unexpected {:?}", other.map(|i| i.username)),
    }
}

#[test]
fn document_disabled_and_expired() {
    let mut d = doc(Some(HASH));
    d.enabled = Some(false);
    assert!(matches!(
        authenticate_document("u", "password", Some(&d), 0),
        Err(AuthError::AccountDisabled)
    ));
    let mut d = doc(Some(HASH));
    d.expires_at = Some(1_000);
    assert!(matches!(
        authenticate_document("u", "password", Some(&d), 1_001),
        Err(AuthError::AccountExpired)
    ));
    assert!(authenticate_document("u", "password", Some(&d), 1_000).is_ok());
}

#[test]
fn document_limits_are_taken_as_u32() {
    let mut d = doc(Some("unused"));
    d.max_connections = Some(5);
    d.rate_limit_rps = Some(-1);
    d.allowed_ips = vec!["10.1.1.1".to_string()];
    let info = admit_document("u", Some(&d), true, 0).unwrap();
    assert_eq!(info.max_connections, 5);
    assert_eq!(info.rate_limit_rps, u32::MAX);
    assert_eq!(info.allowed_ips, vec!["10.1.1.1".to_string()]);
    // The password check comes before the account state.
    let mut d = doc(Some("unused"));
    d.enabled = Some(false);
    assert!(matches!(admit_document("u", Some(&d), false, 0), Err(AuthError::InvalidCredentials)));
}
