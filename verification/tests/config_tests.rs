use alpha_proxy::addr::SocketAddress;
use alpha_proxy::config::{
    AdminConfig, AuthConfig, ConfigLoader, IpRotationConfig, IpRotationStrategy, ListenConfig,
    MetricsConfig, RateLimitConfig, ServerConfig, TlsConfig,
};
use alpha_proxy::error::ConfigError;

fn local(port: u16) -> SocketAddress {
    SocketAddress::V4 { ip: [127, 0, 0, 1], port }
}

fn loader_test_config() -> ServerConfig {
    ServerConfig {
        listen: ListenConfig {
            socks5_addr: Some(local(1080)),
            socks4_addr: None,
            http_addr: Some(local(8080)),
            https_addr: None,
            transparent_addr: None,
        },
        auth: AuthConfig {
            backend: "csv".to_string(),
            source: "users.csv".to_string(),
            reload_interval: 300,
        },
        metrics: MetricsConfig { prometheus_addr: local(9090), user_metrics: true, ip_metrics: true },
        admin: AdminConfig {
            api_addr: local(8081),
            jwt_secret: "test-secret".to_string(),
            admins: vec![],
        },
        rate_limit: RateLimitConfig {
            global_rps: 10000,
            user_rps: 100,
            ip_rps: 50,
            max_concurrent_per_user: 100,
        },
        tls: None,
        ip_rotation: IpRotationConfig {
            strategy: IpRotationStrategy::Random,
            ipv4_pool: vec![],
            ipv6_subnets: vec![],
            sticky_session_ttl: 3600,
        },
    }
}

fn full_test_config() -> ServerConfig {
    ServerConfig {
        listen: ListenConfig {
            socks5_addr: Some(local(1080)),
            socks4_addr: None,
            http_addr: Some(local(8080)),
            https_addr: Some(local(8443)),
            transparent_addr: None,
        },
        auth: AuthConfig {
            backend: "mongodb".to_string(),
            source: "mongodb://localhost:27017/proxy".to_string(),
            reload_interval: 300,
        },
        metrics: MetricsConfig { prometheus_addr: local(9090), user_metrics: true, ip_metrics: true },
        admin: AdminConfig {
            api_addr: local(8081),
            jwt_secret: "test-secret".to_string(),
            admins: vec![],
        },
        rate_limit: RateLimitConfig {
            global_rps: 10000,
            user_rps: 100,
            ip_rps: 50,
            max_concurrent_per_user: 100,
        },
        tls: Some(TlsConfig {
            enable_acme: true,
            domains: vec!["example.com".to_string()],
            cert_path: "certs/server.crt".to_string(),
            key_path: "certs/server.key".to_string(),
        }),
        ip_rotation: IpRotationConfig {
            strategy: IpRotationStrategy::RoundRobin,
            ipv4_pool: vec!["192.168.1.10".to_string()],
            ipv6_subnets: vec!["2001:db8::/64".to_string()],
            sticky_session_ttl: 3600,
        },
    }
}

#[test]
fn config_loader_test_config_validation() {
    // Test valid config
    let config = loader_test_config();
    assert!(ConfigLoader::validate_config(&config, false, false).is_ok());

    // Test invalid config - no listening addresses
    let mut invalid_config = config.clone();
    invalid_config.listen = ListenConfig {
        socks5_addr: None,
        socks4_addr: None,
        http_addr: None,
        https_addr: None,
        transparent_addr: None,
    };
    assert!(ConfigLoader::validate_config(&invalid_config, false, false).is_err());

    // Test invalid rate limits
    let mut invalid_config = config.clone();
    invalid_config.rate_limit.global_rps = 0;
    assert!(ConfigLoader::validate_config(&invalid_config, false, false).is_err());
}

#[test]
fn config_test_test_config_validation() {
    let config = full_test_config();
    assert!(ConfigLoader::validate_config(&config, false, false).is_ok());

    // Test invalid cases
    let mut invalid_config = config.clone();
    invalid_config.listen.socks5_addr = None;
    invalid_config.listen.http_addr = None;
    invalid_config.listen.https_addr = None;
    invalid_config.listen.transparent_addr = None;
    assert!(matches!(
        ConfigLoader::validate_config(&invalid_config, false, false),
        Err(ConfigError::MissingField(_))
    ));

    let mut invalid_config = config.clone();
    invalid_config.auth.reload_interval = 0;
    assert!(matches!(
        ConfigLoader::validate_config(&invalid_config, false, false),
        Err(ConfigError::InvalidValue { .. })
    ));

    let mut invalid_config = config;
    invalid_config.rate_limit.global_rps = 0;
    assert!(matches!(
        ConfigLoader::validate_config(&invalid_config, false, false),
        Err(ConfigError::InvalidValue { .. })
    ));
}

fn invalid_field(res: Result<(), ConfigError>) -> (String, String) {
    match res {
        Err(ConfigError::InvalidValue { field, message }) => (field, message),
        other => panic!("expected an invalid value, got {:?}", other),
    }
}

#[test]
fn validation_reports_each_problem_in_order() {
    let mut c = loader_test_config();
    c.listen.socks5_addr = None;
    c.listen.http_addr = None;
    c.auth.reload_interval = 0;
    match ConfigLoader::validate_config(&c, true, true) {
        Err(ConfigError::MissingField(m)) => {
            assert_eq!(m, "At least one listening address must be configured")
        }
        other => panic!("unexpected {:?}", other),
    }

    let mut c = loader_test_config();
    c.auth.reload_interval = 0;
    c.rate_limit.global_rps = 0;
    assert_eq!(
        invalid_field(ConfigLoader::validate_config(&c, true, true)),
        ("auth.reload_interval".to_string(), "Must be greater than 0".to_string())
    );

    let mut c = loader_test_config();
    c.rate_limit.user_rps = 0;
    assert_eq!(
        invalid_field(ConfigLoader::validate_config(&c, true, true)).0,
        "rate_limit.user_rps"
    );
}

#[test]
fn validation_of_tls_settings() {
    let mut c = full_test_config();
    if let Some(tls) = c.tls.as_mut() {
        tls.domains.clear();
    }
    assert_eq!(
        invalid_field(ConfigLoader::validate_config(&c, true, true)),
        (
            "tls.domains".to_string(),
            "Domains must be specified when ACME is enabled".to_string()
        )
    );

    let mut c = full_test_config();
    if let Some(tls) = c.tls.as_mut() {
        tls.enable_acme = false;
    }
    assert_eq!(
        invalid_field(ConfigLoader::validate_config(&c, false, true)),
        ("tls.cert_path".to_string(), "Certificate file does not exist".to_string())
    );
    assert_eq!(
        invalid_field(ConfigLoader::validate_config(&c, true, false)),
        ("tls.key_path".to_string(), "Private key file does not exist".to_string())
    );
    assert!(ConfigLoader::validate_config(&c, true, true).is_ok());
}

#[test]
fn accept_parsed_passes_errors_and_checks() {
    match ConfigLoader::accept_parsed(Err("expected `=`".to_string()), true, true) {
        Err(ConfigError::ParseError(m)) => assert_eq!(m, "expected `=`"),
        other => panic!("unexpected {:?}", other.map(|_| ())),
    }
    let ok = ConfigLoader::accept_parsed(Ok(loader_test_config()), true, true).unwrap();
    assert_eq!(ok.auth.backend, "csv");
    assert_eq!(ok.rate_limit.global_rps, 10000);

    let mut bad = loader_test_config();
    bad.rate_limit.global_rps = 0;
    assert!(matches!(
        ConfigLoader::accept_parsed(Ok(bad), true, true),
        Err(ConfigError::InvalidValue { .. })
    ));
}

#[test]
fn config_defaults() {
    let c = ServerConfig::default();
    assert!(c.listen.socks5_addr.is_none() && c.listen.http_addr.is_none());
    assert_eq!(c.auth.backend, "csv");
    assert_eq!(c.auth.source, "users.csv");
    assert_eq!(c.auth.reload_interval, 300);
    assert_eq!(c.metrics.prometheus_addr, local(9090));
    assert_eq!(c.admin.api_addr, local(8080));
    assert_eq!(c.admin.jwt_secret, "change-me-in-production");
    assert_eq!(c.rate_limit.global_rps, 10000);
    assert_eq!(c.rate_limit.user_rps, 100);
    assert_eq!(c.rate_limit.ip_rps, 50);
    assert_eq!(c.rate_limit.max_concurrent_per_user, 100);
    assert!(c.tls.is_none());
    assert_eq!(c.ip_rotation.strategy, IpRotationStrategy::Random);
    assert_eq!(c.ip_rotation.sticky_session_ttl, 3600);
    // The defaults listen nowhere, so they do not pass the checks alone.
    assert!(matches!(
        ConfigLoader::validate_config(&c, true, true),
        Err(ConfigError::MissingField(_))
    ));
}
