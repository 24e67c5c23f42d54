//! The server's configuration, its defaults, and the checks that a loaded
//! configuration must pass.
use crate::addr::SocketAddress;
use crate::error::ConfigError;
use vstd::prelude::*;

verus! {

/// The whole configuration of the server.
#[derive(Debug, Clone)]
pub struct ServerConfig {
    /// Server listening addresses for different protocols
    pub listen: ListenConfig,
    /// Authentication configuration
    pub auth: AuthConfig,
    /// Metrics configuration
    pub metrics: MetricsConfig,
    /// Admin API configuration
    pub admin: AdminConfig,
    /// Global rate limiting configuration
    pub rate_limit: RateLimitConfig,
    /// TLS configuration
    pub tls: Option<TlsConfig>,
    /// IP rotation configuration
    pub ip_rotation: IpRotationConfig,
}

/// Where each protocol listens, if it is enabled.
#[derive(Debug, Clone)]
pub struct ListenConfig {
    pub socks5_addr: Option<SocketAddress>,
    pub socks4_addr: Option<SocketAddress>,
    pub http_addr: Option<SocketAddress>,
    pub https_addr: Option<SocketAddress>,
    pub transparent_addr: Option<SocketAddress>,
}

#[derive(Debug, Clone)]
pub struct AuthConfig {
    /// Authentication backend type (csv, mongodb, etc.)
    pub backend: String,
    /// Path to CSV file or connection string for DB
    pub source: String,
    /// How often to reload authentication data (in seconds)
    pub reload_interval: u64,
}

#[derive(Debug, Clone)]
pub struct MetricsConfig {
    /// Prometheus metrics listening address
    pub prometheus_addr: SocketAddress,
    /// Enable detailed per-user metrics
    pub user_metrics: bool,
    /// Enable detailed per-IP metrics
    pub ip_metrics: bool,
}

#[derive(Debug, Clone)]
pub struct AdminConfig {
    /// Admin API listening address
    pub api_addr: SocketAddress,
    /// JWT secret for admin authentication
    pub jwt_secret: String,
    /// Admin usernames and hashed passwords
    pub admins: Vec<AdminUser>,
}

#[derive(Debug, Clone)]
pub struct RateLimitConfig {
    /// Global requests per second
    pub global_rps: u32,
    /// Per-user requests per second
    pub user_rps: u32,
    /// Per-IP requests per second
    pub ip_rps: u32,
    /// Maximum concurrent connections per user
    pub max_concurrent_per_user: u32,
}

#[derive(Debug, Clone)]
pub struct TlsConfig {
    /// Path to certificate file
    pub cert_path: String,
    /// Path to private key file
    pub key_path: String,
    /// Enable ACME for automatic certificate issuance
    pub enable_acme: bool,
    /// Domain names for certificates
    pub domains: Vec<String>,
}

#[derive(Debug, Clone)]
pub struct IpRotationConfig {
    /// IP rotation strategy
    pub strategy: IpRotationStrategy,
    /// Available IPv4 addresses
    pub ipv4_pool: Vec<String>,
    /// Available IPv6 subnets
    pub ipv6_subnets: Vec<String>,
    /// Sticky session duration (seconds)
    pub sticky_session_ttl: u64,
}

#[derive(Debug, Clone, Copy, PartialEq, Eq)]
pub enum IpRotationStrategy {
    /// Randomly select IP for each connection
    Random,
    /// Sequentially select next IP from the pool
    Sequential,
    /// Rotate through IPs in a circular fashion
    RoundRobin,
    /// Select IP with least active connections
    LeastUsed,
}

#[derive(Debug, Clone)]
pub struct AdminUser {
    pub username: String,
    pub password_hash: String,
}

impl Default for ListenConfig {
    /// No protocol listens.
    fn default() -> (res: Self)
        ensures
            res.socks5_addr is None && res.socks4_addr is None && res.http_addr is None
                && res.https_addr is None && res.transparent_addr is None,
    {
        ListenConfig {
            socks5_addr: None,
            socks4_addr: None,
            http_addr: None,
            https_addr: None,
            transparent_addr: None,
        }
    }
}

impl Default for AuthConfig {
    /// The CSV backend on `users.csv`, read again every 300 seconds.
    fn default() -> (res: Self)
        ensures
            res.backend@ == "csv"@,
            res.source@ == "users.csv"@,
            res.reload_interval == 300,
    {
        AuthConfig {
            backend: String::from_str("csv"),
            source: String::from_str("users.csv"),
            reload_interval: 300,
        }
    }
}

impl Default for MetricsConfig {
    /// Metrics on 127.0.0.1:9090, per user and per IP.
    fn default() -> (res: Self)
        ensures
            res.prometheus_addr == (SocketAddress::V4 { ip: [127u8, 0, 0, 1], port: 9090 }),
            res.user_metrics,
            res.ip_metrics,
    {
        MetricsConfig {
            prometheus_addr: SocketAddress::V4 { ip: [127, 0, 0, 1], port: 9090 },
            user_metrics: true,
            ip_metrics: true,
        }
    }
}

impl Default for AdminConfig {
    /// The admin API on 127.0.0.1:8080 with a placeholder secret and no
    /// admins.
    fn default() -> (res: Self)
        ensures
            res.api_addr == (SocketAddress::V4 { ip: [127u8, 0, 0, 1], port: 8080 }),
            res.jwt_secret@ == "change-me-in-production"@,
            res.admins@.len() == 0,
    {
        AdminConfig {
            api_addr: SocketAddress::V4 { ip: [127, 0, 0, 1], port: 8080 },
            jwt_secret: String::from_str("change-me-in-production"),
            admins: Vec::new(),
        }
    }
}

impl Default for RateLimitConfig {
    /// 10000 requests per second in all, 100 per user, 50 per IP, 100
    /// connections per user.
    fn default() -> (res: Self)
        ensures
            res.global_rps == 10000,
            res.user_rps == 100,
            res.ip_rps == 50,
            res.max_concurrent_per_user == 100,
    {
        RateLimitConfig { global_rps: 10000, user_rps: 100, ip_rps: 50, max_concurrent_per_user: 100 }
    }
}

impl Default for IpRotationConfig {
    /// Random rotation over empty pools, sticky for an hour.
    fn default() -> (res: Self)
        ensures
            res.strategy == IpRotationStrategy::Random,
            res.ipv4_pool@.len() == 0,
            res.ipv6_subnets@.len() == 0,
            res.sticky_session_ttl == 3600,
    {
        IpRotationConfig {
            strategy: IpRotationStrategy::Random,
            ipv4_pool: Vec::new(),
            ipv6_subnets: Vec::new(),
            sticky_session_ttl: 3600,
        }
    }
}

impl Default for ServerConfig {
    /// Each part at its default, without TLS.
    fn default() -> (res: Self)
        ensures
            res.listen.socks5_addr is None && res.listen.socks4_addr is None
                && res.listen.http_addr is None && res.listen.https_addr is None
                && res.listen.transparent_addr is None,
            res.auth.backend@ == "csv"@,
            res.auth.source@ == "users.csv"@,
            res.auth.reload_interval == 300,
            res.metrics.prometheus_addr == (SocketAddress::V4 { ip: [127u8, 0, 0, 1], port: 9090 }),
            res.metrics.user_metrics && res.metrics.ip_metrics,
            res.admin.api_addr == (SocketAddress::V4 { ip: [127u8, 0, 0, 1], port: 8080 }),
            res.admin.jwt_secret@ == "change-me-in-production"@,
            res.admin.admins@.len() == 0,
            res.rate_limit.global_rps == 10000 && res.rate_limit.user_rps == 100
                && res.rate_limit.ip_rps == 50 && res.rate_limit.max_concurrent_per_user == 100,
            res.tls is None,
            res.ip_rotation.strategy == IpRotationStrategy::Random,
            res.ip_rotation.ipv4_pool@.len() == 0 && res.ip_rotation.ipv6_subnets@.len() == 0,
            res.ip_rotation.sticky_session_ttl == 3600,
    {
        ServerConfig {
            listen: ListenConfig::default(),
            auth: AuthConfig::default(),
            metrics: MetricsConfig::default(),
            admin: AdminConfig::default(),
            rate_limit: RateLimitConfig::default(),
            tls: None,
            ip_rotation: IpRotationConfig::default(),
        }
    }
}

/// What is wrong with a configuration.
pub ghost enum ConfigProblem {
    MissingField(Seq<char>),
    InvalidValue(Seq<char>, Seq<char>),
}

/// The first problem of a configuration, checked in this order: some
/// address to listen on, a positive reload interval, positive global and
/// per-user rates, and for TLS either domains for ACME or certificate and
/// key files that exist (`cert_exists` and `key_exists` say whether they do).
pub open spec fn config_problem(c: ServerConfig, cert_exists: bool, key_exists: bool) -> Option<
    ConfigProblem,
> {
    if c.listen.socks5_addr is None && c.listen.socks4_addr is None && c.listen.http_addr is None
        && c.listen.https_addr is None && c.listen.transparent_addr is None {
        Some(ConfigProblem::MissingField("At least one listening address must be configured"@))
    } else if c.auth.reload_interval == 0 {
        Some(ConfigProblem::InvalidValue("auth.reload_interval"@, "Must be greater than 0"@))
    } else if c.rate_limit.global_rps == 0 {
        Some(ConfigProblem::InvalidValue("rate_limit.global_rps"@, "Must be greater than 0"@))
    } else if c.rate_limit.user_rps == 0 {
        Some(ConfigProblem::InvalidValue("rate_limit.user_rps"@, "Must be greater than 0"@))
    } else {
        match c.tls {
            None => None,
            Some(tls) => if tls.enable_acme && tls.domains@.len() == 0 {
                Some(
                    ConfigProblem::InvalidValue(
                        "tls.domains"@,
                        "Domains must be specified when ACME is enabled"@,
                    ),
                )
            } else if !tls.enable_acme && !cert_exists {
                Some(
                    ConfigProblem::InvalidValue(
                        "tls.cert_path"@,
                        "Certificate file does not exist"@,
                    ),
                )
            } else if !tls.enable_acme && !key_exists {
                Some(
                    ConfigProblem::InvalidValue("tls.key_path"@, "Private key file does not exist"@),
                )
            } else {
                None
            },
        }
    }
}

/// `res` is the error for `p`.
pub open spec fn reports_problem(res: ConfigError, p: ConfigProblem) -> bool {
    match p {
        ConfigProblem::MissingField(m) => res matches ConfigError::MissingField(f) && f@ == m,
        ConfigProblem::InvalidValue(f, m) => res matches ConfigError::InvalidValue {
            field,
            message,
        } && field@ == f && message@ == m,
    }
}

fn invalid_value(field: &str, message: &str) -> (res: ConfigError)
    ensures
        res matches ConfigError::InvalidValue { field: f, message: m } && f@ == field@ && m@
            == message@,
{
    ConfigError::InvalidValue { field: String::from_str(field), message: String::from_str(message) }
}

/// Loads and checks configurations.
pub struct ConfigLoader;

impl ConfigLoader {
    /// Checks a configuration; `cert_exists` and `key_exists` say whether
    /// the TLS certificate and key files exist.
    pub fn validate_config(config: &ServerConfig, cert_exists: bool, key_exists: bool) -> (res:
        Result<(), ConfigError>)
        ensures
            match config_problem(*config, cert_exists, key_exists) {
                None => res is Ok,
                Some(p) => res matches Err(e) && reports_problem(e, p),
            },
    {
        // Validate listening addresses
        if config.listen.socks5_addr.is_none() && config.listen.socks4_addr.is_none()
            && config.listen.http_addr.is_none() && config.listen.https_addr.is_none()
            && config.listen.transparent_addr.is_none() {
            return Err(
                ConfigError::MissingField(
                    String::from_str("At least one listening address must be configured"),
                ),
            );
        }
        // Validate auth configuration

        if config.auth.reload_interval == 0 {
            return Err(invalid_value("auth.reload_interval", "Must be greater than 0"));
        }
        // Validate rate limits

        if config.rate_limit.global_rps == 0 {
            return Err(invalid_value("rate_limit.global_rps", "Must be greater than 0"));
        }
        if config.rate_limit.user_rps == 0 {
            return Err(invalid_value("rate_limit.user_rps", "Must be greater than 0"));
        }
        // Validate TLS configuration if enabled

        if let Some(tls) = &config.tls {
            if tls.enable_acme && tls.domains.len() == 0 {
                return Err(
                    invalid_value("tls.domains", "Domains must be specified when ACME is enabled"),
                );
            }
            if !tls.enable_acme {
                if !cert_exists {
                    return Err(invalid_value("tls.cert_path", "Certificate file does not exist"));
                }
                if !key_exists {
                    return Err(invalid_value("tls.key_path", "Private key file does not exist"));
                }
            }
        }
        Ok(())
    }

    /// The outcome of loading a configuration, given what the TOML parser
    /// made of the text (the configuration, or the parser's message) and
    /// whether the TLS files exist: a parse error, or the configuration if
    /// it passes the checks.
    pub fn accept_parsed(parsed: Result<ServerConfig, String>, cert_exists: bool, key_exists: bool) -> (res:
        Result<ServerConfig, ConfigError>)
        ensures
            match parsed {
                Err(m) => res matches Err(ConfigError::ParseError(e)) && e@ == m@,
                Ok(c) => match config_problem(c, cert_exists, key_exists) {
                    None => res == Ok::<ServerConfig, ConfigError>(c),
                    Some(p) => res matches Err(e) && reports_problem(e, p),
                },
            },
    {
        match parsed {
            Err(m) => Err(ConfigError::ParseError(m)),
            Ok(config) => match Self::validate_config(&config, cert_exists, key_exists) {
                Ok(()) => Ok(config),
                Err(e) => Err(e),
            },
        }
    }
}


/// Listening on any one address is enough: a configuration with at least
/// one listening address, positive reload interval and rates, and no TLS
/// passes the checks; one with no listening address at all is refused for
/// that first.
pub proof fn lemma_any_listener_suffices(c: ServerConfig, cert_exists: bool, key_exists: bool)
    ensures
        (c.listen.socks5_addr is Some || c.listen.socks4_addr is Some || c.listen.http_addr is Some
            || c.listen.https_addr is Some || c.listen.transparent_addr is Some)
            && c.auth.reload_interval > 0 && c.rate_limit.global_rps > 0 && c.rate_limit.user_rps
            > 0 && c.tls is None ==> config_problem(c, cert_exists, key_exists) is None,
        (c.listen.socks5_addr is None && c.listen.socks4_addr is None && c.listen.http_addr is None
            && c.listen.https_addr is None && c.listen.transparent_addr is None) ==> config_problem(
            c,
            cert_exists,
            key_exists,
        ) matches Some(ConfigProblem::MissingField(_)),
{
}

} // verus!
