use alpha_proxy::auth_types::{Credentials, Session, User};
use alpha_proxy::csv_auth::CsvAuthProvider;
use alpha_proxy::error::AuthError;
use alpha_proxy::login_limit::RateLimiter;
use alpha_proxy::password::{hash_password, verify_password};
use alpha_proxy::time::SysTime;

fn at(secs: u64) -> SysTime {
    SysTime { secs, nanos: 0 }
}

fn test_user(name: &str, password: &str) -> User {
    User {
        username: name.to_string(),
        password_hash: password.to_string(),
        enabled: true,
        expires_at: None,
        max_connections: 10,
        bandwidth_limit: None,
        allowed_ips: vec![],
    }
}

#[test]
fn test_credentials() {
    let creds = Credentials {
        username: "testuser".to_string(),
        password: "testpass".to_string(),
    };
    assert_eq!(creds.username, "testuser");
    assert_eq!(creds.password, "testpass");
}

#[test]
fn test_session() {
    let user = User {
        username: "testuser".to_string(),
        password_hash: "hashedpass".to_string(),
        enabled: true,
        expires_at: None,
        max_connections: 10,
        bandwidth_limit: None,
        allowed_ips: vec![],
    };

    let now = at(1_700_000_000);
    let session = Session {
        user,
        created_at: now,
        last_activity: now,
    };

    assert_eq!(session.user.username, "testuser");
    assert_eq!(session.created_at, now);
    assert_eq!(session.last_activity, now);
}

#[test]
fn test_password_hash_and_verify() {
    let password = "test_password";
    let hash = hash_password(password).unwrap();

    assert!(verify_password(password, &hash).unwrap());
    assert!(!verify_password("wrong_password", &hash).unwrap());
}

#[test]
fn password_hash_has_bcrypt_shape() {
    let hash = hash_password("secret").unwrap();
    assert_eq!(hash.len(), 60);
    assert!(hash.starts_with("$2b$12$"));
    assert_ne!(hash, "secret");
}

#[test]
fn verify_password_rejects_malformed_hash() {
    let res = verify_password("secret", "not-a-bcrypt-hash");
    assert!(res.is_err());
    assert!(!res.unwrap_err().message.is_empty());
}

#[test]
fn csv_authenticate_user() {
    let mut provider = CsvAuthProvider::new("users.csv".to_string(), 60, at(1000));
    provider.update_user(&test_user("testuser", "testpass"));

    let ok = provider.authenticate(
        &Credentials { username: "testuser".to_string(), password: "testpass".to_string() },
        at(1001),
    );
    assert_eq!(ok.unwrap().username, "testuser");

    let wrong = provider.authenticate(
        &Credentials { username: "testuser".to_string(), password: "wrongpass".to_string() },
        at(1001),
    );
    assert!(matches!(wrong, Err(AuthError::InvalidCredentials)));

    let missing = provider.authenticate(
        &Credentials { username: "nonexistent".to_string(), password: "testpass".to_string() },
        at(1001),
    );
    assert!(matches!(missing, Err(AuthError::InvalidCredentials)));
}

#[test]
fn csv_disabled_and_expired_accounts() {
    let mut provider = CsvAuthProvider::new("users.csv".to_string(), 60, at(1000));
    let mut disabled = test_user("off", "pw");
    disabled.enabled = false;
    provider.update_user(&disabled);
    let mut expiring = test_user("old", "pw");
    expiring.expires_at = Some(at(2000));
    provider.update_user(&expiring);

    let creds = |name: &str| Credentials { username: name.to_string(), password: "pw".to_string() };
    assert!(matches!(provider.authenticate(&creds("off"), at(1500)), Err(AuthError::AccountDisabled)));
    assert!(provider.authenticate(&creds("old"), at(1500)).is_ok());
    assert!(matches!(provider.authenticate(&creds("old"), at(2001)), Err(AuthError::AccountExpired)));
}

#[test]
fn csv_user_management() {
    let mut provider = CsvAuthProvider::new("users.csv".to_string(), 60, at(1000));
    let user = test_user("testuser", "testpass");
    provider.update_user(&user);

    let users = provider.list_users();
    assert_eq!(users.len(), 1);
    assert_eq!(users[0].username, "testuser");

    let mut updated = user.clone();
    updated.max_connections = 20;
    provider.update_user(&updated);
    let users = provider.list_users();
    assert_eq!(users.len(), 1);
    assert_eq!(users[0].max_connections, 20);

    provider.delete_user("testuser").unwrap();
    assert_eq!(provider.list_users().len(), 0);
    assert!(matches!(provider.delete_user("testuser"), Err(AuthError::BackendError(_))));
}

#[test]
fn csv_session_validation() {
    let mut provider = CsvAuthProvider::new("users.csv".to_string(), 60, at(1000));
    let user = test_user("testuser", "testpass");
    provider.update_user(&user);
    let session = Session { user, created_at: at(1000), last_activity: at(1000) };
    assert!(provider.validate_session(&session, at(1001)));
    provider.delete_user("testuser").unwrap();
    assert!(!provider.validate_session(&session, at(1001)));
}

#[test]
fn csv_file_round_trip() {
    let mut provider = CsvAuthProvider::new("users.csv".to_string(), 60, at(1000));
    let mut a = test_user("alice", "pw1");
    a.allowed_ips = vec!["10.0.0.1".to_string(), "10.0.0.2".to_string()];
    a.bandwidth_limit = Some(1024);
    a.expires_at = Some(at(5000));
    provider.update_user(&a);
    provider.update_user(&test_user("bob", "pw2"));

    let text = provider.file_contents(at(1000));
    let mut other = CsvAuthProvider::new("users.csv".to_string(), 60, at(1000));
    other.reload_from_text(&text, at(1000));
    let users = other.list_users();
    assert_eq!(users.len(), 2);
    assert_eq!(users[0].username, "alice");
    assert_eq!(users[0].password_hash, "pw1");
    assert_eq!(users[0].allowed_ips, vec!["10.0.0.1".to_string(), "10.0.0.2".to_string()]);
    assert_eq!(users[0].bandwidth_limit, Some(1024));
    assert_eq!(users[0].expires_at, Some(at(5000)));
    assert_eq!(users[1].username, "bob");
}

#[test]
fn csv_reload_interval() {
    let provider = CsvAuthProvider::new("users.csv".to_string(), 60, at(1000));
    assert!(!provider.needs_reload(at(1030)));
    assert!(provider.needs_reload(at(1061)));
    assert_eq!(provider.name(), "csv");
    assert_eq!(provider.file_path(), "users.csv");
}

#[test]
fn login_limiter_refuses_after_max_attempts() {
    let second: u128 = 1_000_000_000;
    let mut limiter = RateLimiter::new(3, 60 * second);
    assert!(limiter.check_rate_limit("test_user", 0));
    assert!(limiter.check_rate_limit("test_user", second));
    assert!(limiter.check_rate_limit("test_user", 2 * second));
    assert!(!limiter.check_rate_limit("test_user", 3 * second));
    assert!(limiter.check_rate_limit("other_user", 3 * second));
    // After the window the attempts are forgotten.
    assert!(limiter.check_rate_limit("test_user", 62 * second));
}

#[test]
fn csv_lines_keep_a_final_carriage_return_without_newline() {
    let mut provider = CsvAuthProvider::new("users.csv".to_string(), 60, at(1000));
    provider.reload_from_text("alice,pw1\r\nbob,pw2\r", at(1000));
    let users = provider.list_users();
    assert_eq!(users.len(), 2);
    assert_eq!(users[0].password_hash, "pw1");
    assert_eq!(users[1].password_hash, "pw2\r");
    provider.reload_from_text("bob,pw2\r\n", at(1000));
    assert_eq!(provider.list_users()[0].password_hash, "pw2");
}
