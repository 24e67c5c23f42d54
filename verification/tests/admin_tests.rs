use alpha_proxy::admin::{apply_update, new_record, record_from_hash, update_from_hash};
use alpha_proxy::password::PasswordError;
use alpha_proxy::admin::update_found_user;
use alpha_proxy::admin::{
    create_user_record, deletion_result, found_user, update_user_record, user_response, ApiError,
    CreateUserRequest,
};
use alpha_proxy::error::{ConfigError, ProxyError};
use alpha_proxy::password::verify_password;
use alpha_proxy::utc::{parse_rfc3339, UtcTime};

fn request(name: &str, password: &str) -> CreateUserRequest {
    CreateUserRequest {
        username: name.to_string(),
        password: password.to_string(),
        max_connections: None,
        rate_limit_rps: None,
        allowed_ips: None,
        expires_at: None,
    }
}

const NOW: UtcTime = UtcTime { secs: 1_700_000_000, nanos: 0 };

#[test]
fn rfc3339_parsing_and_writing() {
    let t = parse_rfc3339("2024-01-01T12:00:00+02:00").unwrap();
    assert_eq!(t, UtcTime { secs: 1_704_103_200, nanos: 0 });
    assert_eq!(t.to_rfc3339().unwrap(), "2024-01-01T10:00:00+00:00");
    assert!(parse_rfc3339("next tuesday").is_none());
}

#[test]
fn create_user_uses_defaults() {
    let user = create_user_record(request("testuser", "testpass"), NOW).unwrap();
    assert_eq!(user.username, "testuser");
    assert_eq!(user.max_connections, 10);
    assert_eq!(user.rate_limit_rps, 100);
    assert!(user.allowed_ips.is_empty());
    assert!(user.enabled);
    assert_eq!(user.expires_at, None);
    assert_eq!(user.created_at, NOW);
    assert_eq!(user.updated_at, NOW);
    assert_ne!(user.password_hash, "testpass");
    assert!(verify_password("testpass", &user.password_hash).unwrap());
}

#[test]
fn create_user_with_settings() {
    let mut req = request("u", "p");
    req.max_connections = Some(3);
    req.rate_limit_rps = Some(7);
    req.allowed_ips = Some(vec!["10.0.0.0/8".to_string()]);
    req.expires_at = Some("2030-01-01T00:00:00Z".to_string());
    let user = create_user_record(req, NOW).unwrap();
    assert_eq!(user.max_connections, 3);
    assert_eq!(user.rate_limit_rps, 7);
    assert_eq!(user.allowed_ips, vec!["10.0.0.0/8".to_string()]);
    assert_eq!(user.expires_at, Some(UtcTime { secs: 1_893_456_000, nanos: 0 }));

    let mut req = request("v", "p");
    req.expires_at = Some("not a date".to_string());
    assert_eq!(create_user_record(req, NOW).unwrap().expires_at, None);
}

#[test]
fn update_user_replaces_given_fields() {
    let mut req = request("testuser", "first");
    req.expires_at = Some("2030-01-01T00:00:00Z".to_string());
    let mut user = create_user_record(req, NOW).unwrap();
    let later = UtcTime { secs: NOW.secs + 60, nanos: 5 };

    let mut change = request("ignored", "second");
    change.max_connections = Some(20);
    update_user_record(&mut user, change, later).unwrap();
    assert_eq!(user.username, "testuser");
    assert_eq!(user.max_connections, 20);
    assert_eq!(user.rate_limit_rps, 100);
    assert!(user.expires_at.is_some());
    assert_eq!(user.created_at, NOW);
    assert_eq!(user.updated_at, later);
    assert!(verify_password("second", &user.password_hash).unwrap());
    assert!(!verify_password("first", &user.password_hash).unwrap());

    // An expiry that is not RFC 3339 clears the expiry.
    let mut change = request("ignored", "third");
    change.expires_at = Some("never".to_string());
    change.allowed_ips = Some(vec!["1.2.3.4".to_string()]);
    update_user_record(&mut user, change, later).unwrap();
    assert_eq!(user.expires_at, None);
    assert_eq!(user.allowed_ips, vec!["1.2.3.4".to_string()]);
}

#[test]
fn user_response_shows_expiry_in_rfc3339() {
    let mut req = request("testuser", "pw");
    req.expires_at = Some("2024-01-01T12:00:00+02:00".to_string());
    let resp = user_response(create_user_record(req, NOW).unwrap());
    assert_eq!(resp.username, "testuser");
    assert_eq!(resp.max_connections, 10);
    assert_eq!(resp.rate_limit_rps, 100);
    assert_eq!(resp.expires_at.as_deref(), Some("2024-01-01T10:00:00+00:00"));
}

#[test]
fn lookup_and_deletion_answers() {
    match found_user(None) {
        Err(e) => assert_eq!(e.error, "User not found"),
        Ok(_) => panic!("expected an error"),
    }
    let user = create_user_record(request("x", "y"), NOW).unwrap();
    assert_eq!(found_user(Some(user)).unwrap().username, "x");
    assert!(deletion_result(true).is_ok());
    assert_eq!(deletion_result(false).unwrap_err().error, "User not found");
}

#[test]
fn api_errors_carry_messages() {
    let e = ApiError::from(ProxyError::Database("down".to_string()));
    assert_eq!(e.error, "Database error: down");
    let e = ApiError::from(ConfigError::MissingField("port".to_string()));
    assert_eq!(e.error, "Missing required field: port");
}

#[test]
fn update_found_user_answers() {
    match update_found_user(None, request("x", "y"), NOW) {
        Err(e) => assert_eq!(e.error, "User not found"),
        Ok(_) => panic!("expected an error"),
    }
    let user = create_user_record(request("alice", "one"), NOW).unwrap();
    let mut change = request("ignored", "two");
    change.rate_limit_rps = Some(9);
    let later = UtcTime { secs: NOW.secs + 1, nanos: 0 };
    let (updated, response) = update_found_user(Some(user), change, later).unwrap();
    assert_eq!(updated.username, "alice");
    assert_eq!(updated.rate_limit_rps, 9);
    assert_eq!(updated.updated_at, later);
    assert_eq!(updated.created_at, NOW);
    assert_eq!(response.username, "alice");
    assert_eq!(response.rate_limit_rps, 9);
    assert!(verify_password("two", &updated.password_hash).unwrap());
}

#[test]
fn records_from_a_given_hash() {
    let u = new_record(request("bob", "pw"), "HASH".to_string(), NOW);
    assert_eq!(u.password_hash, "HASH");
    assert_eq!(u.max_connections, 10);
    assert_eq!(u.created_at, NOW);

    let ok = record_from_hash(request("bob", "pw"), Ok("H2".to_string()), NOW).unwrap();
    assert_eq!(ok.password_hash, "H2");
    let err = record_from_hash(
        request("bob", "pw"),
        Err(PasswordError { message: "Rand error: no entropy".to_string() }),
        NOW,
    );
    match err {
        Err(e) => assert_eq!(e.error, "Internal error: Rand error: no entropy"),
        Ok(_) => panic!("expected an error"),
    }
}

#[test]
fn updates_from_a_given_hash() {
    let mut u = new_record(request("bob", "pw"), "OLD".to_string(), NOW);
    let later = UtcTime { secs: NOW.secs + 5, nanos: 0 };
    let mut change = request("ignored", "new");
    change.max_connections = Some(4);
    apply_update(&mut u, change, "NEW".to_string(), later);
    assert_eq!(u.password_hash, "NEW");
    assert_eq!(u.max_connections, 4);
    assert_eq!(u.username, "bob");
    assert_eq!(u.updated_at, later);

    let failed = update_from_hash(
        &mut u,
        request("ignored", "x"),
        Err(PasswordError { message: "boom".to_string() }),
        later,
    );
    assert_eq!(failed.unwrap_err().error, "Internal error: boom");
    assert_eq!(u.password_hash, "NEW");
    assert!(update_from_hash(&mut u, request("ignored", "x"), Ok("LAST".to_string()), later).is_ok());
    assert_eq!(u.password_hash, "LAST");
}
