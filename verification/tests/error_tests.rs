use alpha_proxy::error::{AuthError, ConfigError, ProxyError};

#[test]
fn test_proxy_error_display() {
    let err = ProxyError::Auth("Invalid username".to_string());
    assert_eq!(err.to_string(), "Authentication error: Invalid username");

    let err = ProxyError::Protocol("Invalid SOCKS version".to_string());
    assert_eq!(err.to_string(), "Protocol error: Invalid SOCKS version");
}

#[test]
fn test_auth_error_display() {
    let err = AuthError::InvalidCredentials;
    assert_eq!(err.to_string(), "Invalid credentials");

    let err = AuthError::AccountExpired;
    assert_eq!(err.to_string(), "Account expired");
}

#[test]
fn test_config_error_display() {
    let err = ConfigError::MissingField("port".to_string());
    assert_eq!(err.to_string(), "Missing required field: port");

    let err = ConfigError::InvalidValue {
        field: "timeout".to_string(),
        message: "must be positive".to_string(),
    };
    assert_eq!(err.to_string(), "Invalid value for timeout: must be positive");
}

#[test]
fn test_error_conversions() {
    let auth_err = AuthError::InvalidCredentials;
    let proxy_err: ProxyError = auth_err.into();
    assert!(matches!(proxy_err, ProxyError::Auth(_)));

    let config_err = ConfigError::MissingField("host".to_string());
    let proxy_err: ProxyError = config_err.into();
    assert!(matches!(proxy_err, ProxyError::Config(_)));
}

#[test]
fn auth_error_into_proxy_error_keeps_message() {
    let proxy_err: ProxyError = AuthError::TooManyAttempts.into();
    assert_eq!(
        proxy_err.to_string(),
        "Authentication error: Too many authentication attempts"
    );
    let backend = AuthError::BackendError("User not found".to_string());
    assert_eq!(backend.to_string(), "Backend error: User not found");
}

#[test]
fn io_errors_carry_their_text() {
    let e = std::io::Error::new(std::io::ErrorKind::Other, "disk gone");
    let p: ProxyError = e.into();
    assert_eq!(p.to_string(), "I/O error: disk gone");
    let e = std::io::Error::new(std::io::ErrorKind::NotFound, "missing");
    let c: ConfigError = e.into();
    assert_eq!(c.to_string(), "File error: missing");
    let p: ProxyError = ConfigError::ParseError("bad".to_string()).into();
    assert_eq!(p.to_string(), "Configuration error: Parse error: bad");
}

#[test]
fn every_message_has_its_prefix() {
    let cases = vec![
        (ProxyError::Config("c".to_string()), "Configuration error: c"),
        (ProxyError::Protocol("p".to_string()), "Protocol error: p"),
        (ProxyError::RateLimit("r".to_string()), "Rate limit exceeded: r"),
        (ProxyError::Address("a".to_string()), "Invalid address: a"),
        (ProxyError::Tls("t".to_string()), "TLS error: t"),
        (ProxyError::Database("d".to_string()), "Database error: d"),
        (ProxyError::Internal("i".to_string()), "Internal error: i"),
    ];
    for (e, text) in cases {
        assert_eq!(e.to_string(), text);
    }
    assert_eq!(AuthError::AccountDisabled.to_string(), "Account disabled");
    assert_eq!(AuthError::TooManyConnections.to_string(), "Too many connections");
    assert_eq!(
        AuthError::ConfigError("x".to_string()).to_string(),
        "Configuration error: x"
    );
}
