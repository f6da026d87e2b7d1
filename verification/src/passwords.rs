//! Password hashing and checking, done by the `bcrypt` crate.

use vstd::prelude::*;

verus! {

#[verifier::external_type_specification]
#[verifier::external_body]
pub struct ExBcryptError(bcrypt::BcryptError);

/// Why a password could not be hashed or checked.
#[derive(Debug, PartialEq, Eq)]
pub enum PasswordError {
    /// The hash could not be computed (the salt's random source failed).
    Hashing,
    /// The stored hash is not a well-formed bcrypt hash.
    MalformedHash,
}

/// What `bcrypt::verify` answers for a password (its UTF-8 bytes) and a
/// stored hash string: `Some(matches)`, or `None` where it returns an error.
pub uninterp spec fn bcrypt_verification(password: Seq<char>, hash: Seq<char>) -> Option<bool>;

/// Calls `bcrypt::verify(password, hash)`. The contract claims that the
/// outcome is a function of the two strings alone (`bcrypt_verification`):
/// the crate parses cost and salt out of the hash and recomputes it.
#[verifier::external_body]
fn bcrypt_verify(password: &str, hash: &str) -> (outcome: Result<bool, bcrypt::BcryptError>)
    ensures
        outcome is Ok <==> bcrypt_verification(password@, hash@) is Some,
        outcome matches Ok(matched) ==> bcrypt_verification(password@, hash@) == Some(matched),
{
    bcrypt::verify(password, hash)
}

/// The form of every hash that `bcrypt::hash` makes at the default cost:
/// `$2b$12$`, then 22 characters of salt and 31 of hash, 60 in all.
pub open spec fn default_cost_hash_form(hash: Seq<char>) -> bool {
    &&& hash.len() == 60
    &&& hash.subrange(0, 7) == "$2b$12$"@
}

/// Calls `bcrypt::hash(password, bcrypt::DEFAULT_COST)`. The salt is random,
/// so the contract names no result; it claims what the crate's source shows
/// of every hash it returns: its form (version `2b`, cost `12` on two digits,
/// the salt and the hash in the crate's 22- and 31-character base64), and that
/// `bcrypt::verify` accepts the same password for it (the hash string carries
/// the cost and the salt, and verification redoes the same computation on the
/// same, equally truncated, password bytes). It fails only when the
/// operating system's random source does.
#[verifier::external_body]
fn bcrypt_hash(password: &str) -> (outcome: Result<String, bcrypt::BcryptError>)
    ensures
        outcome matches Ok(hash) ==> {
            &&& default_cost_hash_form(hash@)
            &&& bcrypt_verification(password@, hash@) == Some(true)
        },
{
    bcrypt::hash(password, bcrypt::DEFAULT_COST)
}

/// Hashes a password for storage, at bcrypt's default cost (12).
pub fn hash_password(password: &str) -> (outcome: Result<String, PasswordError>)
    ensures
        outcome matches Ok(hash) ==> {
            &&& default_cost_hash_form(hash@)
            &&& bcrypt_verification(password@, hash@) == Some(true)
        },
        outcome matches Err(e) ==> e is Hashing,
{
    match bcrypt_hash(password) {
        Ok(hash) => Ok(hash),
        Err(_) => Err(PasswordError::Hashing),
    }
}

/// Checks a password against a stored hash: `Ok(matched)`, or an error where
/// the stored hash cannot be read.
pub fn verify_password(password: &str, hash: &str) -> (outcome: Result<bool, PasswordError>)
    ensures
        match bcrypt_verification(password@, hash@) {
            Some(matched) => outcome == Ok::<bool, PasswordError>(matched),
            None => outcome matches Err(e) && e is MalformedHash,
        },
{
    match bcrypt_verify(password, hash) {
        Ok(matched) => Ok(matched),
        Err(_) => Err(PasswordError::MalformedHash),
    }
}

} // verus!
