//! The credential store: one-way password hashing and verification.

use vstd::prelude::*;

use crate::error::Error;

verus! {

/// Whether bcrypt accepts the password against the stored hash: true
/// exactly when bcrypt::verify returns Ok(true), a pure function of the
/// two texts. A malformed hash reads as a mismatch, never an error.
pub uninterp spec fn password_verifies(password: Seq<char>, hash: Seq<char>) -> bool;

/// Relies on bcrypt::verify: comparing a password against a stored hash
/// is a pure function of the two; a hash it cannot parse compares unequal.
#[verifier::external_body]
fn bcrypt_verify(password: &str, hash: &str) -> (r: bool)
    ensures
        r == password_verifies(password@, hash@),
{
    bcrypt::verify(password, hash).unwrap_or(false)
}

/// Relies on bcrypt::hash with the crate's default cost: a fresh salted
/// hash that bcrypt::verify accepts for the same password. The salt is
/// random, so nothing else is promised of the text.
#[verifier::external_body]
fn bcrypt_hash(password: &str) -> (r: Option<String>)
    ensures
        r matches Some(h) ==> password_verifies(password@, h@),
{
    bcrypt::hash(password, bcrypt::DEFAULT_COST).ok()
}

/// A deterministic-salted one-way hash of the password. Fails only on an
/// internal hashing failure, never on the shape of the input.
pub fn hash_password(password: &str) -> (r: Result<String, Error>)
    ensures
        r matches Ok(h) ==> password_verifies(password@, h@),
        r matches Err(e) ==> e == Error::StoreUnavailable,
{
    match bcrypt_hash(password) {
        Some(h) => Ok(h),
        None => Err(Error::StoreUnavailable),
    }
}

/// Constant-time comparison of a password against a stored hash. A
/// malformed hash yields false rather than an error, so hash-format
/// trouble never leaks to callers.
pub fn verify_password(password: &str, hash: &str) -> (r: bool)
    ensures
        r == password_verifies(password@, hash@),
{
    bcrypt_verify(password, hash)
}

} // verus!
