//! Verified core of a multi-protocol proxy server: error types, configuration
//! checks, SOCKS5 and HTTP proxy codecs, authentication decisions and limits.

pub mod text;
pub mod utc;
pub mod time;
pub mod addr;
pub mod admin;
pub mod auth_types;
pub mod config;
pub mod csv_auth;
pub mod doc_auth;
pub mod error;
pub mod http_proxy;
pub mod keyed;
pub mod login_limit;
pub mod metrics;
pub mod password;
pub mod rate_limit;
pub mod repository;
pub mod socks;
