//! Password hashing with bcrypt at its default cost.
use vstd::prelude::*;
use vstd::string::StringSliceAdditionalSpecFns;

verus! {

#[verifier::external_type_specification]
#[verifier::external_body]
pub struct ExBcryptError(bcrypt::BcryptError);

/// What `bcrypt::verify` gives for a password (as bytes) and a stored hash:
/// `Some(b)` where it returns `Ok(b)`, `None` where it returns an error.
pub uninterp spec fn bcrypt_verify_outcome(password: Seq<u8>, hash: Seq<char>) -> Option<bool>;

/// The shape of a hash that `bcrypt::hash` makes at cost 12: the prefix
/// `$2b$12$`, then 22 characters of salt and 31 of digest.
pub open spec fn default_cost_hash_shape(h: Seq<char>) -> bool {
    &&& h.len() == 60
    &&& h.subrange(0, 7) == seq!['$', '2', 'b', '$', '1', '2', '$']
}

/// `bcrypt::hash(password, DEFAULT_COST)`. The salt is random, so the
/// hash itself is not named; what holds of every hash it returns: it has
/// the shape that `format_for_version(Version::TwoB)` writes for cost 12,
/// and `bcrypt::verify` accepts the same password against it (verify
/// re-hashes with the cost and salt read back from the hash and compares).
/// It fails only where the operating system gives no random bytes.
#[verifier::external_body]
fn bcrypt_hash(password: &[u8]) -> (res: Result<String, bcrypt::BcryptError>)
    ensures
        res matches Ok(h) ==> default_cost_hash_shape(h@) && bcrypt_verify_outcome(password@, h@)
            == Some(true),
{
    bcrypt::hash(password, bcrypt::DEFAULT_COST)
}

/// `bcrypt::verify(password, hash)`: whether the password hashes, with the
/// cost and salt stored in `hash`, to the digest stored there; an error
/// where `hash` is not a bcrypt hash.
#[verifier::external_body]
fn bcrypt_verify(password: &[u8], hash: &str) -> (res: Result<bool, bcrypt::BcryptError>)
    ensures
        match res {
            Ok(b) => bcrypt_verify_outcome(password@, hash@) == Some(b),
            Err(_) => bcrypt_verify_outcome(password@, hash@) is None,
        },
{
    bcrypt::verify(password, hash)
}

/// `<BcryptError as Display>::fmt`, through `to_string`: bcrypt's message
/// for the error. Nothing is promised of the text.
#[verifier::external_body]
fn bcrypt_error_text(e: &bcrypt::BcryptError) -> String {
    e.to_string()
}

/// Why hashing or checking a password failed, in bcrypt's words.
#[derive(Debug)]
pub struct PasswordError {
    pub message: String,
}

/// Hashes `password` with bcrypt at its default cost and a random salt.
/// Whatever the salt, the hash has bcrypt's cost-12 shape and
/// `verify_password` accepts `password` against it.
pub fn hash_password(password: &str) -> (res: Result<String, PasswordError>)
    ensures
        res matches Ok(h) ==> default_cost_hash_shape(h@) && bcrypt_verify_outcome(
            password.spec_bytes(),
            h@,
        ) == Some(true),
{
    match bcrypt_hash(password.as_bytes()) {
        Ok(h) => Ok(h),
        Err(e) => Err(PasswordError { message: bcrypt_error_text(&e) }),
    }
}

/// Checks `password` against a stored bcrypt hash: whether it matches, or
/// an error where the stored hash is not a bcrypt hash.
pub fn verify_password(password: &str, hash: &str) -> (res: Result<bool, PasswordError>)
    ensures
        match res {
            Ok(b) => bcrypt_verify_outcome(password.spec_bytes(), hash@) == Some(b),
            Err(_) => bcrypt_verify_outcome(password.spec_bytes(), hash@) is None,
        },
{
    match bcrypt_verify(password.as_bytes(), hash) {
        Ok(b) => Ok(b),
        Err(e) => Err(PasswordError { message: bcrypt_error_text(&e) }),
    }
}

} // verus!
