//! Credentials, user accounts and sessions.
use crate::time::SysTime;
use vstd::prelude::*;

verus! {

/// User credentials for authentication.
#[derive(Debug, Clone, Eq, PartialEq)]
pub struct Credentials {
    pub username: String,
    pub password: String,
}

/// User information including account status and limits.
#[derive(Debug, Clone)]
pub struct User {
    pub username: String,
    pub password_hash: String,
    pub enabled: bool,
    pub expires_at: Option<SysTime>,
    pub max_connections: u32,
    /// Bytes per second.
    pub bandwidth_limit: Option<u64>,
    pub allowed_ips: Vec<String>,
}

/// A user account as plain values.
pub ghost struct UserView {
    pub username: Seq<char>,
    pub password_hash: Seq<char>,
    pub enabled: bool,
    pub expires_at: Option<SysTime>,
    pub max_connections: u32,
    pub bandwidth_limit: Option<u64>,
    pub allowed_ips: Seq<Seq<char>>,
}

/// The contents of each string.
pub open spec fn string_views(v: Seq<String>) -> Seq<Seq<char>> {
    v.map_values(|s: String| s@)
}

impl View for User {
    type V = UserView;

    open spec fn view(&self) -> UserView {
        UserView {
            username: self.username@,
            password_hash: self.password_hash@,
            enabled: self.enabled,
            expires_at: self.expires_at,
            max_connections: self.max_connections,
            bandwidth_limit: self.bandwidth_limit,
            allowed_ips: string_views(self.allowed_ips@),
        }
    }
}

/// The contents of each user account.
pub open spec fn user_views(v: Seq<User>) -> Seq<UserView> {
    v.map_values(|u: User| u@)
}

/// A copy of the strings.
pub fn copy_strings(v: &Vec<String>) -> (res: Vec<String>)
    ensures
        string_views(res@) == string_views(v@),
{
    let mut res: Vec<String> = Vec::new();
    let mut i: usize = 0;
    while i < v.len()
        invariant
            i <= v@.len(),
            res@.len() == i,
            string_views(res@) =~= string_views(v@.take(i as int)),
        decreases v@.len() - i,
    {
        let ghost before = res@;
        let c = v[i].clone();
        res.push(c);
        assert(v@.take(i + 1) =~= v@.take(i as int).push(v@[i as int]));
        assert forall|k: int| 0 <= k < res@.len() implies #[trigger] string_views(res@)[k]
            == string_views(v@.take(i + 1))[k] by {
            if k < before.len() {
                assert(string_views(before)[k] == string_views(v@.take(i as int))[k]);
            }
        }
        i = i + 1;
    }
    assert(v@.take(v@.len() as int) =~= v@);
    res
}

impl User {
    /// A copy of this account.
    pub fn copy(&self) -> (res: User)
        ensures
            res@ == self@,
    {
        User {
            username: self.username.clone(),
            password_hash: self.password_hash.clone(),
            enabled: self.enabled,
            expires_at: self.expires_at,
            max_connections: self.max_connections,
            bandwidth_limit: self.bandwidth_limit,
            allowed_ips: copy_strings(&self.allowed_ips),
        }
    }
}

/// A copy of the accounts.
pub fn copy_users(v: &Vec<User>) -> (res: Vec<User>)
    ensures
        user_views(res@) == user_views(v@),
{
    let mut res: Vec<User> = Vec::new();
    let mut i: usize = 0;
    while i < v.len()
        invariant
            i <= v@.len(),
            res@.len() == i,
            user_views(res@) =~= user_views(v@.take(i as int)),
        decreases v@.len() - i,
    {
        let ghost before = res@;
        let c = v[i].copy();
        res.push(c);
        assert(v@.take(i + 1) =~= v@.take(i as int).push(v@[i as int]));
        assert forall|k: int| 0 <= k < res@.len() implies #[trigger] user_views(res@)[k]
            == user_views(v@.take(i + 1))[k] by {
            if k < before.len() {
                assert(user_views(before)[k] == user_views(v@.take(i as int))[k]);
            }
        }
        i = i + 1;
    }
    assert(v@.take(v@.len() as int) =~= v@);
    res
}

/// An authenticated user session.
#[derive(Debug, Clone)]
pub struct Session {
    pub user: User,
    pub created_at: SysTime,
    pub last_activity: SysTime,
}

} // verus!
