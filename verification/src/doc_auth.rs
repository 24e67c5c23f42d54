//! Authentication against a stored user document whose password hash is an
//! Argon2 encoded hash: the order of the checks and the limits granted.
use crate::auth_types::{copy_strings, string_views};
use crate::error::AuthError;
use vstd::prelude::*;
use vstd::string::StringSliceAdditionalSpecFns;

verus! {

/// What `argon2::verify_encoded(encoded, pwd)` returns: `Some(b)` for
/// `Ok(b)`, `None` for an error (an encoded hash it cannot read).
pub uninterp spec fn argon2_verify_outcome(encoded: Seq<char>, pwd: Seq<u8>) -> Option<bool>;

/// `argon2::verify_encoded(encoded, pwd)`, with its error dropped. The
/// memory and time that the check takes are those written in `encoded`;
/// nothing here bounds them.
#[verifier::external_body]
fn argon2_verify(encoded: &str, pwd: &[u8]) -> (res: Option<bool>)
    ensures
        res == argon2_verify_outcome(encoded@, pwd@),
{
    argon2::verify_encoded(encoded, pwd).ok()
}

/// The fields of a stored user document that authentication reads. Each
/// `Option` is `None` where the document lacks the field or holds a value
/// of another type there.
pub struct UserDocument {
    /// The Argon2 encoded hash of the password.
    pub password_hash: Option<String>,
    pub enabled: Option<bool>,
    /// When the account expires, in milliseconds since the Unix epoch.
    pub expires_at: Option<i64>,
    pub max_connections: Option<i32>,
    pub rate_limit_rps: Option<i32>,
    /// The string entries of the `allowed_ips` array, in order (empty where
    /// the array is missing).
    pub allowed_ips: Vec<String>,
}

/// What an authenticated user may do.
pub struct AuthInfo {
    pub username: String,
    pub max_connections: u32,
    pub rate_limit_rps: u32,
    pub allowed_ips: Vec<String>,
}

/// Connections granted where the document sets none.
pub const DEFAULT_MAX_CONNECTIONS: i32 = 10;

/// Requests per second granted where the document sets none.
pub const DEFAULT_RATE_LIMIT_RPS: i32 = 100;

/// The outcome of authenticating against a document.
pub enum DocumentVerdict {
    UnknownUser,
    MalformedDocument,
    WrongPassword,
    Disabled,
    Expired,
    Admitted,
}

/// The checks in order: the user must exist, the document must hold a
/// password hash, the password must match it, the account must not be
/// disabled (a missing flag counts as enabled), and it must not have
/// expired strictly before `now`.
pub open spec fn document_verdict(
    doc: Option<UserDocument>,
    password_ok: bool,
    now_ms: i64,
) -> DocumentVerdict {
    match doc {
        None => DocumentVerdict::UnknownUser,
        Some(d) => {
            if d.password_hash is None {
                DocumentVerdict::MalformedDocument
            } else if !password_ok {
                DocumentVerdict::WrongPassword
            } else if d.enabled == Some(false) {
                DocumentVerdict::Disabled
            } else if d.expires_at matches Some(e) && e < now_ms {
                DocumentVerdict::Expired
            } else {
                DocumentVerdict::Admitted
            }
        },
    }
}

/// The `u32` that `v as u32` gives: `v` itself, or `v + 2^32` for a
/// negative `v`.
pub open spec fn wrapped_u32(v: i32) -> u32 {
    if v >= 0 {
        v as u32
    } else {
        (v + 0x1_0000_0000) as u32
    }
}

/// The limit that an optional field grants, `default` where it is absent.
pub open spec fn granted(field: Option<i32>, default: i32) -> u32 {
    match field {
        Some(v) => wrapped_u32(v),
        None => wrapped_u32(default),
    }
}

/// The message of the error for a document without a password hash.
pub open spec fn malformed_document_message() -> Seq<char> {
    "Invalid user document format"@
}

/// What authenticating `username` against `doc` gives, where `password_ok`
/// says whether the password matched the document's hash.
pub open spec fn document_outcome_holds(
    res: Result<AuthInfo, AuthError>,
    username: Seq<char>,
    doc: Option<UserDocument>,
    password_ok: bool,
    now_ms: i64,
) -> bool {
    match document_verdict(doc, password_ok, now_ms) {
        DocumentVerdict::UnknownUser => res matches Err(AuthError::InvalidCredentials),
        DocumentVerdict::WrongPassword => res matches Err(AuthError::InvalidCredentials),
        DocumentVerdict::MalformedDocument => res matches Err(AuthError::BackendError(m))
            && m@ == malformed_document_message(),
        DocumentVerdict::Disabled => res matches Err(AuthError::AccountDisabled),
        DocumentVerdict::Expired => res matches Err(AuthError::AccountExpired),
        DocumentVerdict::Admitted => {
            let d = doc.unwrap();
            &&& res matches Ok(info)
            &&& info.username@ == username
            &&& info.max_connections == granted(d.max_connections, DEFAULT_MAX_CONNECTIONS)
            &&& info.rate_limit_rps == granted(d.rate_limit_rps, DEFAULT_RATE_LIMIT_RPS)
            &&& string_views(info.allowed_ips@) == string_views(d.allowed_ips@)
        },
    }
}

fn wrap_to_u32(v: i32) -> (res: u32)
    ensures
        res == wrapped_u32(v),
{
    if v >= 0 {
        v as u32
    } else {
        let w: i64 = v as i64 + 0x1_0000_0000i64;
        w as u32
    }
}

fn grant(field: Option<i32>, default: i32) -> (res: u32)
    ensures
        res == granted(field, default),
{
    match field {
        Some(v) => wrap_to_u32(v),
        None => wrap_to_u32(default),
    }
}

/// Decides authentication of `username` against `doc` (`None`: no such
/// user) at `now_ms`, given whether the password matched the document's
/// hash.
pub fn admit_document(
    username: &str,
    doc: Option<&UserDocument>,
    password_ok: bool,
    now_ms: i64,
) -> (res: Result<AuthInfo, AuthError>)
    ensures
        document_outcome_holds(
            res,
            username@,
            match doc {
                Some(d) => Some(*d),
                None => None,
            },
            password_ok,
            now_ms,
        ),
{
    let d = match doc {
        None => {
            return Err(AuthError::InvalidCredentials);
        },
        Some(d) => d,
    };
    if d.password_hash.is_none() {
        return Err(AuthError::BackendError(String::from_str("Invalid user document format")));
    }
    if !password_ok {
        return Err(AuthError::InvalidCredentials);
    }
    if let Some(false) = d.enabled {
        return Err(AuthError::AccountDisabled);
    }
    if let Some(expires_at) = d.expires_at {
        if expires_at < now_ms {
            return Err(AuthError::AccountExpired);
        }
    }
    Ok(
        AuthInfo {
            username: String::from_str(username),
            max_connections: grant(d.max_connections, DEFAULT_MAX_CONNECTIONS),
            rate_limit_rps: grant(d.rate_limit_rps, DEFAULT_RATE_LIMIT_RPS),
            allowed_ips: copy_strings(&d.allowed_ips),
        },
    )
}

/// Authenticates `username` with `password` against its stored document
/// (`None`: no such user) at `now_ms`. The password is checked with
/// `argon2::verify_encoded` against the document's hash, and an error
/// there counts as a mismatch.
pub fn authenticate_document(
    username: &str,
    password: &str,
    doc: Option<&UserDocument>,
    now_ms: i64,
) -> (res: Result<AuthInfo, AuthError>)
    ensures
        document_outcome_holds(
            res,
            username@,
            match doc {
                Some(d) => Some(*d),
                None => None,
            },
            match doc {
                Some(d) => match d.password_hash {
                    Some(h) => argon2_verify_outcome(h@, password.spec_bytes()) == Some(true),
                    None => false,
                },
                None => false,
            },
            now_ms,
        ),
{
    let password_ok = match doc {
        Some(d) => match &d.password_hash {
            Some(h) => match argon2_verify(h.as_str(), password.as_bytes()) {
                Some(valid) => valid,
                None => false,
            },
            None => false,
        },
        None => false,
    };
    admit_document(username, doc, password_ok, now_ms)
}


/// A document with a password hash that the password matches is admitted
/// unless it is marked disabled (`enabled: false`; an explicit `true` or a
/// missing flag both admit) or has expired before `now`; the limits are
/// those of the document, or 10 connections and 100 requests per second,
/// and the addresses are the document's.
pub proof fn lemma_matching_document_admitted(
    res: Result<AuthInfo, AuthError>,
    username: Seq<char>,
    d: UserDocument,
    now_ms: i64,
)
    requires
        document_outcome_holds(res, username, Some(d), true, now_ms),
        d.password_hash is Some,
    ensures
        d.enabled == Some(false) ==> res matches Err(AuthError::AccountDisabled),
        d.enabled != Some(false) && (d.expires_at matches Some(e) && e < now_ms) ==> res matches Err(
            AuthError::AccountExpired,
        ),
        d.enabled != Some(false) && !(d.expires_at matches Some(e) && e < now_ms) ==> {
            &&& res matches Ok(info)
            &&& info.username@ == username
            &&& d.max_connections is None ==> info.max_connections == 10
            &&& (d.max_connections matches Some(n) && n >= 0) ==> info.max_connections == d.max_connections->0
            &&& d.rate_limit_rps is None ==> info.rate_limit_rps == 100
            &&& (d.rate_limit_rps matches Some(n) && n >= 0) ==> info.rate_limit_rps == d.rate_limit_rps->0
            &&& string_views(info.allowed_ips@) == string_views(d.allowed_ips@)
        },
{
}

} // verus!
