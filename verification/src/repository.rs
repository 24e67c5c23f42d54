//! The stored form of a user account, as the user store keeps it.
use crate::auth_types::string_views;
use crate::utc::UtcTime;
use vstd::prelude::*;

verus! {

/// A user account in the user store.
#[derive(Debug)]
pub struct User {
    pub username: String,
    pub password_hash: String,
    pub max_connections: u32,
    pub rate_limit_rps: u32,
    pub allowed_ips: Vec<String>,
    pub enabled: bool,
    pub expires_at: Option<UtcTime>,
    pub created_at: UtcTime,
    pub updated_at: UtcTime,
}

/// A stored account as plain values.
pub struct UserRecordView {
    pub username: Seq<char>,
    pub password_hash: Seq<char>,
    pub max_connections: u32,
    pub rate_limit_rps: u32,
    pub allowed_ips: Seq<Seq<char>>,
    pub enabled: bool,
    pub expires_at: Option<UtcTime>,
    pub created_at: UtcTime,
    pub updated_at: UtcTime,
}

impl View for User {
    type V = UserRecordView;

    open spec fn view(&self) -> UserRecordView {
        UserRecordView {
            username: self.username@,
            password_hash: self.password_hash@,
            max_connections: self.max_connections,
            rate_limit_rps: self.rate_limit_rps,
            allowed_ips: string_views(self.allowed_ips@),
            enabled: self.enabled,
            expires_at: self.expires_at,
            created_at: self.created_at,
            updated_at: self.updated_at,
        }
    }
}

} // verus!
