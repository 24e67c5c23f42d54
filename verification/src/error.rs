//! Error types of the proxy and their messages.
use crate::text::concat_str;
use vstd::prelude::*;

verus! {

#[verifier::external_type_specification]
#[verifier::external_body]
pub struct ExIoError(std::io::Error);

/// `<std::io::Error as Display>::fmt`, through `to_string`: the text that the
/// operating system or the standard library gives for an I/O error. Nothing is
/// promised of that text.
#[verifier::external_body]
fn io_error_text(e: &std::io::Error) -> String {
    e.to_string()
}

/// Errors of the proxy as a whole.
#[derive(Debug)]
pub enum ProxyError {
    Io(std::io::Error),
    Config(String),
    Protocol(String),
    Auth(String),
    RateLimit(String),
    Address(String),
    Tls(String),
    Database(String),
    Internal(String),
}

/// Errors of the authentication backends.
#[derive(Debug)]
pub enum AuthError {
    InvalidCredentials,
    AccountExpired,
    AccountDisabled,
    TooManyConnections,
    TooManyAttempts,
    BackendError(String),
    ConfigError(String),
}

/// Errors found while loading or checking the configuration.
#[derive(Debug)]
pub enum ConfigError {
    MissingField(String),
    InvalidValue { field: String, message: String },
    FileError(std::io::Error),
    ParseError(String),
}

/// The message of an authentication error.
pub open spec fn auth_error_text(e: AuthError) -> Seq<char> {
    match e {
        AuthError::InvalidCredentials => "Invalid credentials"@,
        AuthError::AccountExpired => "Account expired"@,
        AuthError::AccountDisabled => "Account disabled"@,
        AuthError::TooManyConnections => "Too many connections"@,
        AuthError::TooManyAttempts => "Too many authentication attempts"@,
        AuthError::BackendError(m) => "Backend error: "@ + m@,
        AuthError::ConfigError(m) => "Configuration error: "@ + m@,
    }
}

/// The message of a configuration error, where it does not come from the
/// operating system.
pub open spec fn config_error_text(e: ConfigError) -> Option<Seq<char>> {
    match e {
        ConfigError::MissingField(f) => Some("Missing required field: "@ + f@),
        ConfigError::InvalidValue { field, message } => Some(
            "Invalid value for "@ + field@ + ": "@ + message@,
        ),
        ConfigError::FileError(_) => None,
        ConfigError::ParseError(m) => Some("Parse error: "@ + m@),
    }
}

/// The message of a proxy error, where it does not come from the operating
/// system.
pub open spec fn proxy_error_text(e: ProxyError) -> Option<Seq<char>> {
    match e {
        ProxyError::Io(_) => None,
        ProxyError::Config(m) => Some("Configuration error: "@ + m@),
        ProxyError::Protocol(m) => Some("Protocol error: "@ + m@),
        ProxyError::Auth(m) => Some("Authentication error: "@ + m@),
        ProxyError::RateLimit(m) => Some("Rate limit exceeded: "@ + m@),
        ProxyError::Address(m) => Some("Invalid address: "@ + m@),
        ProxyError::Tls(m) => Some("TLS error: "@ + m@),
        ProxyError::Database(m) => Some("Database error: "@ + m@),
        ProxyError::Internal(m) => Some("Internal error: "@ + m@),
    }
}

/// Whether `s` starts with `prefix`.
pub open spec fn starts_with(s: Seq<char>, prefix: Seq<char>) -> bool {
    prefix.len() <= s.len() && s.subrange(0, prefix.len() as int) == prefix
}

impl AuthError {
    /// The message of this error.
    pub fn to_string(&self) -> (res: String)
        ensures
            res@ == auth_error_text(*self),
    {
        match self {
            AuthError::InvalidCredentials => String::from_str("Invalid credentials"),
            AuthError::AccountExpired => String::from_str("Account expired"),
            AuthError::AccountDisabled => String::from_str("Account disabled"),
            AuthError::TooManyConnections => String::from_str("Too many connections"),
            AuthError::TooManyAttempts => String::from_str("Too many authentication attempts"),
            AuthError::BackendError(m) => concat_str("Backend error: ", m.as_str()),
            AuthError::ConfigError(m) => concat_str("Configuration error: ", m.as_str()),
        }
    }
}

impl ConfigError {
    /// The message of this error; that of a file error begins with
    /// `File error: ` and goes on with what the system says.
    pub fn to_string(&self) -> (res: String)
        ensures
            config_error_text(*self) matches Some(t) ==> res@ == t,
            config_error_text(*self) is None ==> starts_with(res@, "File error: "@),
    {
        match self {
            ConfigError::MissingField(f) => concat_str("Missing required field: ", f.as_str()),
            ConfigError::InvalidValue { field, message } => {
                let mut s = concat_str("Invalid value for ", field.as_str());
                s.append(": ");
                s.append(message.as_str());
                s
            },
            ConfigError::FileError(e) => {
                let t = io_error_text(e);
                let res = concat_str("File error: ", t.as_str());
                assert(res@.subrange(0, "File error: "@.len() as int) =~= "File error: "@);
                res
            },
            ConfigError::ParseError(m) => concat_str("Parse error: ", m.as_str()),
        }
    }
}

impl ProxyError {
    /// The message of this error; that of an I/O error begins with
    /// `I/O error: ` and goes on with what the system says.
    pub fn to_string(&self) -> (res: String)
        ensures
            proxy_error_text(*self) matches Some(t) ==> res@ == t,
            proxy_error_text(*self) is None ==> starts_with(res@, "I/O error: "@),
    {
        match self {
            ProxyError::Io(e) => {
                let t = io_error_text(e);
                let res = concat_str("I/O error: ", t.as_str());
                assert(res@.subrange(0, "I/O error: "@.len() as int) =~= "I/O error: "@);
                res
            },
            ProxyError::Config(m) => concat_str("Configuration error: ", m.as_str()),
            ProxyError::Protocol(m) => concat_str("Protocol error: ", m.as_str()),
            ProxyError::Auth(m) => concat_str("Authentication error: ", m.as_str()),
            ProxyError::RateLimit(m) => concat_str("Rate limit exceeded: ", m.as_str()),
            ProxyError::Address(m) => concat_str("Invalid address: ", m.as_str()),
            ProxyError::Tls(m) => concat_str("TLS error: ", m.as_str()),
            ProxyError::Database(m) => concat_str("Database error: ", m.as_str()),
            ProxyError::Internal(m) => concat_str("Internal error: ", m.as_str()),
        }
    }
}

impl From<AuthError> for ProxyError {
    /// An authentication error becomes `ProxyError::Auth` with its message.
    fn from(err: AuthError) -> (res: ProxyError)
        ensures
            res matches ProxyError::Auth(m) && m@ == auth_error_text(err),
    {
        ProxyError::Auth(err.to_string())
    }
}

impl vstd::std_specs::convert::FromSpecImpl<AuthError> for ProxyError {
    /// The message `String` of the result is not a spec value, so `from`
    /// is described by its own `ensures` rather than by `from_spec`.
    open spec fn obeys_from_spec() -> bool {
        false
    }

    open spec fn from_spec(v: AuthError) -> ProxyError {
        ProxyError::Internal(arbitrary())
    }
}

impl From<ConfigError> for ProxyError {
    /// A configuration error becomes `ProxyError::Config` with its message.
    fn from(err: ConfigError) -> (res: ProxyError)
        ensures
            res matches ProxyError::Config(m) && (config_error_text(err) matches Some(t) ==> m@
                == t),
    {
        ProxyError::Config(err.to_string())
    }
}

impl vstd::std_specs::convert::FromSpecImpl<ConfigError> for ProxyError {
    /// The message `String` of the result is not a spec value, so `from`
    /// is described by its own `ensures` rather than by `from_spec`.
    open spec fn obeys_from_spec() -> bool {
        false
    }

    open spec fn from_spec(v: ConfigError) -> ProxyError {
        ProxyError::Internal(arbitrary())
    }
}

impl From<std::io::Error> for ProxyError {
    /// An I/O error is carried unchanged in `ProxyError::Io`.
    fn from(err: std::io::Error) -> (res: ProxyError)
        ensures
            res == ProxyError::Io(err),
    {
        ProxyError::Io(err)
    }
}

impl vstd::std_specs::convert::FromSpecImpl<std::io::Error> for ProxyError {
    open spec fn obeys_from_spec() -> bool {
        true
    }

    open spec fn from_spec(v: std::io::Error) -> ProxyError {
        ProxyError::Io(v)
    }
}

impl From<std::io::Error> for ConfigError {
    /// An I/O error is carried unchanged in `ConfigError::FileError`.
    fn from(err: std::io::Error) -> (res: ConfigError)
        ensures
            res == ConfigError::FileError(err),
    {
        ConfigError::FileError(err)
    }
}

impl vstd::std_specs::convert::FromSpecImpl<std::io::Error> for ConfigError {
    open spec fn obeys_from_spec() -> bool {
        true
    }

    open spec fn from_spec(v: std::io::Error) -> ConfigError {
        ConfigError::FileError(v)
    }
}

} // verus!
