//! The decisions of the admin API: the account that a create request
//! makes, what an update request changes, what a response shows, and the
//! error bodies.
use crate::auth_types::{copy_strings, string_views};
use crate::error::{config_error_text, proxy_error_text, starts_with, ConfigError, ProxyError};
use crate::password::{bcrypt_verify_outcome, default_cost_hash_shape, hash_password, PasswordError};
use crate::repository::{User, UserRecordView};
use crate::utc::{parse_rfc3339, parsed_instant, rfc3339_text, UtcTime};
use vstd::prelude::*;
use vstd::utf8::encode_utf8;

verus! {

/// The body of a request that creates or updates an account.
pub struct CreateUserRequest {
    pub username: String,
    pub password: String,
    pub max_connections: Option<u32>,
    pub rate_limit_rps: Option<u32>,
    pub allowed_ips: Option<Vec<String>>,
    /// An RFC 3339 date and time.
    pub expires_at: Option<String>,
}

/// What the API shows of an account.
pub struct UserResponse {
    pub username: String,
    pub max_connections: u32,
    pub rate_limit_rps: u32,
    pub allowed_ips: Vec<String>,
    /// The expiry in RFC 3339.
    pub expires_at: Option<String>,
}

/// The body of an error answer.
#[derive(Debug)]
pub struct ApiError {
    pub error: String,
}

/// Connections granted to a new account where the request sets none.
pub const DEFAULT_USER_MAX_CONNECTIONS: u32 = 10;

/// Requests per second granted to a new account where the request sets
/// none.
pub const DEFAULT_USER_RATE_LIMIT_RPS: u32 = 100;

/// The expiry that a request's text gives: the instant it names, or none
/// where it is absent or not RFC 3339.
pub open spec fn requested_expiry(text: Option<String>) -> Option<UtcTime> {
    match text {
        Some(t) => parsed_instant(t@),
        None => None,
    }
}

/// The account that `req` creates at `now`, with `password_hash` as the
/// hash of its password: enabled, with the limits and addresses asked for
/// or the defaults.
pub open spec fn created_account(
    req: CreateUserRequest,
    password_hash: Seq<char>,
    now: UtcTime,
) -> UserRecordView {
    UserRecordView {
        username: req.username@,
        password_hash,
        max_connections: match req.max_connections {
            Some(n) => n,
            None => DEFAULT_USER_MAX_CONNECTIONS,
        },
        rate_limit_rps: match req.rate_limit_rps {
            Some(n) => n,
            None => DEFAULT_USER_RATE_LIMIT_RPS,
        },
        allowed_ips: match req.allowed_ips {
            Some(v) => string_views(v@),
            None => Seq::empty(),
        },
        enabled: true,
        expires_at: requested_expiry(req.expires_at),
        created_at: now,
        updated_at: now,
    }
}

/// The account `user` after `req` at `now`, with `password_hash` as the
/// hash of the new password: each limit, the addresses and the expiry that
/// the request gives replace the stored ones (an expiry that is not
/// RFC 3339 clears it); name, state and creation time stay.
pub open spec fn updated_account(
    user: UserRecordView,
    req: CreateUserRequest,
    password_hash: Seq<char>,
    now: UtcTime,
) -> UserRecordView {
    UserRecordView {
        password_hash,
        max_connections: match req.max_connections {
            Some(n) => n,
            None => user.max_connections,
        },
        rate_limit_rps: match req.rate_limit_rps {
            Some(n) => n,
            None => user.rate_limit_rps,
        },
        allowed_ips: match req.allowed_ips {
            Some(v) => string_views(v@),
            None => user.allowed_ips,
        },
        expires_at: match req.expires_at {
            Some(t) => parsed_instant(t@),
            None => user.expires_at,
        },
        updated_at: now,
        ..user
    }
}

/// The message of the error answer for a password that could not be
/// hashed: that of `ProxyError::Internal`.
pub open spec fn hashing_failure(e: ApiError) -> bool {
    starts_with(e.error@, "Internal error: "@)
}

/// The message of `ProxyError::Internal` with `message`.
pub open spec fn internal_error_text(message: Seq<char>) -> Seq<char> {
    "Internal error: "@ + message
}

fn internal_error(message: String) -> (res: ApiError)
    ensures
        res.error@ == internal_error_text(message@),
        hashing_failure(res),
{
    let error = ProxyError::Internal(message).to_string();
    assert(error@.subrange(0, "Internal error: "@.len() as int) =~= "Internal error: "@);
    ApiError { error }
}

fn expiry_from(text: &Option<String>) -> (res: Option<UtcTime>)
    ensures
        res == requested_expiry(*text),
{
    match text {
        Some(t) => parse_rfc3339(t.as_str()),
        None => None,
    }
}

/// The account that `req` asks for at `now`, with `password_hash` as the
/// hash of its password.
pub fn new_record(req: CreateUserRequest, password_hash: String, now: UtcTime) -> (res: User)
    ensures
        res@ == created_account(req, password_hash@, now),
{
    let expires_at = expiry_from(&req.expires_at);
    let allowed_ips = match &req.allowed_ips {
        Some(v) => copy_strings(v),
        None => Vec::new(),
    };
    let max_connections = match req.max_connections {
        Some(n) => n,
        None => DEFAULT_USER_MAX_CONNECTIONS,
    };
    let rate_limit_rps = match req.rate_limit_rps {
        Some(n) => n,
        None => DEFAULT_USER_RATE_LIMIT_RPS,
    };
    let user = User {
        username: req.username,
        password_hash,
        max_connections,
        rate_limit_rps,
        allowed_ips,
        enabled: true,
        expires_at,
        created_at: now,
        updated_at: now,
    };
    assert(user@.allowed_ips == created_account(req, user.password_hash@, now).allowed_ips);
    user
}

/// The answer to a create request whose password hashing gave `hashed`:
/// the account with that hash, or, only where hashing failed, the error
/// answer with the hashing error's message.
pub fn record_from_hash(
    req: CreateUserRequest,
    hashed: Result<String, PasswordError>,
    now: UtcTime,
) -> (res: Result<User, ApiError>)
    ensures
        match hashed {
            Ok(h) => res matches Ok(u) && u@ == created_account(req, h@, now),
            Err(e) => res matches Err(a) && a.error@ == internal_error_text(e.message@),
        },
{
    match hashed {
        Ok(h) => Ok(new_record(req, h, now)),
        Err(e) => Err(internal_error(e.message)),
    }
}

/// The account that `req` asks for at `now`. Its password is hashed with
/// bcrypt, so the stored hash is random, but it always has bcrypt's shape
/// and accepts the requested password; the answer is an error only where
/// hashing fails (`record_from_hash` says what follows from each outcome).
pub fn create_user_record(req: CreateUserRequest, now: UtcTime) -> (res: Result<User, ApiError>)
    ensures
        match res {
            Ok(u) => {
                &&& u@ == created_account(req, u.password_hash@, now)
                &&& default_cost_hash_shape(u.password_hash@)
                &&& bcrypt_verify_outcome(encode_utf8(req.password@), u.password_hash@) == Some(
                    true,
                )
            },
            Err(e) => hashing_failure(e),
        },
{
    let hashed = hash_password(req.password.as_str());
    let res = record_from_hash(req, hashed, now);
    proof {
        if res is Err {
            let a = res->Err_0;
            assert(a.error@.subrange(0, "Internal error: "@.len() as int) =~= "Internal error: "@);
        }
    }
    res
}

/// Applies `req` to the stored account `user` at `now`, with
/// `password_hash` as the hash of the new password.
pub fn apply_update(user: &mut User, req: CreateUserRequest, password_hash: String, now: UtcTime)
    ensures
        final(user)@ == updated_account(old(user)@, req, password_hash@, now),
{
    user.password_hash = password_hash;
    if let Some(n) = req.max_connections {
        user.max_connections = n;
    }
    if let Some(n) = req.rate_limit_rps {
        user.rate_limit_rps = n;
    }
    if let Some(ips) = req.allowed_ips {
        user.allowed_ips = ips;
    }
    if let Some(text) = &req.expires_at {
        user.expires_at = parse_rfc3339(text.as_str());
    }
    user.updated_at = now;
}

/// The answer to an update request whose password hashing gave `hashed`:
/// the account updated with that hash, or, only where hashing failed, the
/// error answer with the hashing error's message and the account as it was.
pub fn update_from_hash(
    user: &mut User,
    req: CreateUserRequest,
    hashed: Result<String, PasswordError>,
    now: UtcTime,
) -> (res: Result<(), ApiError>)
    ensures
        match hashed {
            Ok(h) => res is Ok && final(user)@ == updated_account(old(user)@, req, h@, now),
            Err(e) => (res matches Err(a) && a.error@ == internal_error_text(e.message@))
                && final(user)@ == old(user)@,
        },
{
    match hashed {
        Ok(h) => {
            apply_update(user, req, h, now);
            Ok(())
        },
        Err(e) => Err(internal_error(e.message)),
    }
}

/// Applies `req` to the stored account `user` at `now`. The new password
/// is hashed with bcrypt; the answer is an error, with `user` left as it
/// was, only where that fails (`update_from_hash` says what follows from
/// each outcome).
pub fn update_user_record(user: &mut User, req: CreateUserRequest, now: UtcTime) -> (res: Result<
    (),
    ApiError,
>)
    ensures
        match res {
            Ok(()) => {
                &&& final(user)@ == updated_account(old(user)@, req, final(user).password_hash@, now)
                &&& default_cost_hash_shape(final(user).password_hash@)
                &&& bcrypt_verify_outcome(encode_utf8(req.password@), final(user).password_hash@)
                    == Some(true)
            },
            Err(e) => hashing_failure(e) && final(user)@ == old(user)@,
        },
{
    let hashed = hash_password(req.password.as_str());
    let res = update_from_hash(user, req, hashed, now);
    proof {
        if res is Err {
            let a = res->Err_0;
            assert(a.error@.subrange(0, "Internal error: "@.len() as int) =~= "Internal error: "@);
        }
    }
    res
}

/// `res` shows the account `u`: its name, limits and addresses, and its
/// expiry as chrono writes it in RFC 3339 (none where it cannot).
pub open spec fn shows_user(res: UserResponse, u: UserRecordView) -> bool {
    &&& res.username@ == u.username
    &&& res.max_connections == u.max_connections
    &&& res.rate_limit_rps == u.rate_limit_rps
    &&& string_views(res.allowed_ips@) == u.allowed_ips
    &&& match u.expires_at {
        Some(t) => match res.expires_at {
            Some(s) => rfc3339_text(t.secs, t.nanos) == Some(s@),
            None => rfc3339_text(t.secs, t.nanos) is None,
        },
        None => res.expires_at is None,
    }
}

/// What the API shows of `user`: its name, limits and addresses, and its
/// expiry in RFC 3339 (none where chrono cannot write it).
pub fn user_response(user: User) -> (res: UserResponse)
    ensures
        shows_user(res, user@),
{
    let expires_at = match &user.expires_at {
        Some(t) => t.to_rfc3339(),
        None => None,
    };
    UserResponse {
        username: user.username,
        max_connections: user.max_connections,
        rate_limit_rps: user.rate_limit_rps,
        allowed_ips: user.allowed_ips,
        expires_at,
    }
}

/// The message of the error answer for an account that does not exist.
pub open spec fn user_not_found_message() -> Seq<char> {
    "User not found"@
}

/// The account that a lookup found, or the error answer where it found
/// none.
pub fn found_user(found: Option<User>) -> (res: Result<User, ApiError>)
    ensures
        match found {
            Some(u) => res == Ok::<User, ApiError>(u),
            None => res matches Err(e) && e.error@ == user_not_found_message(),
        },
{
    match found {
        Some(u) => Ok(u),
        None => Err(ApiError { error: String::from_str("User not found") }),
    }
}

fn copy_record(u: &User) -> (res: User)
    ensures
        res@ == u@,
{
    User {
        username: u.username.clone(),
        password_hash: u.password_hash.clone(),
        max_connections: u.max_connections,
        rate_limit_rps: u.rate_limit_rps,
        allowed_ips: copy_strings(&u.allowed_ips),
        enabled: u.enabled,
        expires_at: u.expires_at,
        created_at: u.created_at,
        updated_at: u.updated_at,
    }
}

/// Updating the account that a lookup found with `req` at `now`: the error
/// answer for an account that does not exist; otherwise the account as
/// `updated_account` describes it (its name, state and creation time kept,
/// the new password's hash verifying), and the response showing it; or,
/// where the password could not be hashed, the error answer for that.
pub fn update_found_user(found: Option<User>, req: CreateUserRequest, now: UtcTime) -> (res:
    Result<(User, UserResponse), ApiError>)
    ensures
        match found {
            None => res matches Err(e) && e.error@ == user_not_found_message(),
            Some(u) => match res {
                Ok((v, r)) => {
                    &&& v@ == updated_account(u@, req, v.password_hash@, now)
                    &&& v@.username == u@.username && v@.created_at == u@.created_at
                    &&& default_cost_hash_shape(v.password_hash@)
                    &&& bcrypt_verify_outcome(encode_utf8(req.password@), v.password_hash@)
                        == Some(true)
                    &&& shows_user(r, v@)
                },
                Err(e) => hashing_failure(e),
            },
        },
{
    let mut user = match found_user(found) {
        Ok(u) => u,
        Err(e) => {
            return Err(e);
        },
    };
    match update_user_record(&mut user, req, now) {
        Ok(()) => {
            let response = user_response(copy_record(&user));
            Ok((user, response))
        },
        Err(e) => Err(e),
    }
}

/// The answer to a deletion: done where an account was deleted, else the
/// error answer for an account that does not exist.
pub fn deletion_result(deleted: bool) -> (res: Result<(), ApiError>)
    ensures
        deleted <==> res is Ok,
        res matches Err(e) ==> e.error@ == user_not_found_message(),
{
    if deleted {
        Ok(())
    } else {
        Err(ApiError { error: String::from_str("User not found") })
    }
}

impl From<ProxyError> for ApiError {
    /// The error answer carries the error's message.
    fn from(err: ProxyError) -> (res: ApiError)
        ensures
            proxy_error_text(err) matches Some(t) ==> res.error@ == t,
            proxy_error_text(err) is None ==> starts_with(res.error@, "I/O error: "@),
    {
        ApiError { error: err.to_string() }
    }
}

impl vstd::std_specs::convert::FromSpecImpl<ProxyError> for ApiError {
    /// The message `String` of the result is not a spec value, so `from`
    /// is described by its own `ensures` rather than by `from_spec`.
    open spec fn obeys_from_spec() -> bool {
        false
    }

    open spec fn from_spec(v: ProxyError) -> ApiError {
        ApiError { error: arbitrary() }
    }
}

impl From<ConfigError> for ApiError {
    /// The error answer carries the error's message.
    fn from(err: ConfigError) -> (res: ApiError)
        ensures
            config_error_text(err) matches Some(t) ==> res.error@ == t,
            config_error_text(err) is None ==> starts_with(res.error@, "File error: "@),
    {
        ApiError { error: err.to_string() }
    }
}

impl vstd::std_specs::convert::FromSpecImpl<ConfigError> for ApiError {
    /// The message `String` of the result is not a spec value, so `from`
    /// is described by its own `ensures` rather than by `from_spec`.
    open spec fn obeys_from_spec() -> bool {
        false
    }

    open spec fn from_spec(v: ConfigError) -> ApiError {
        ApiError { error: arbitrary() }
    }
}


/// An update replaces only what the request gives: a limit, the addresses
/// or the expiry that the request leaves unset keeps its stored value; the
/// name, state and creation time never change; the password hash is the
/// new one and the update time is `now`.
pub proof fn lemma_update_keeps_unset_fields(
    user: UserRecordView,
    req: CreateUserRequest,
    password_hash: Seq<char>,
    now: UtcTime,
)
    ensures
        ({
            let v = updated_account(user, req, password_hash, now);
            &&& req.max_connections is None ==> v.max_connections == user.max_connections
            &&& req.max_connections matches Some(n) ==> v.max_connections == n
            &&& req.rate_limit_rps is None ==> v.rate_limit_rps == user.rate_limit_rps
            &&& req.rate_limit_rps matches Some(n) ==> v.rate_limit_rps == n
            &&& req.allowed_ips is None ==> v.allowed_ips == user.allowed_ips
            &&& req.allowed_ips matches Some(ips) ==> v.allowed_ips == string_views(ips@)
            &&& req.expires_at is None ==> v.expires_at == user.expires_at
            &&& v.username == user.username
            &&& v.enabled == user.enabled
            &&& v.created_at == user.created_at
            &&& v.password_hash == password_hash
            &&& v.updated_at == now
        }),
{
}

} // verus!
