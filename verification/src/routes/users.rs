//! Users: sign-up, sign-in, password changes and permission updates.

use vstd::prelude::*;
use crate::clock::{now, Timestamp};
use crate::ids::{new_random_id, uuid_variant, uuid_version};
use crate::passwords::{bcrypt_verification, default_cost_hash_form, hash_password, verify_password, PasswordError};
use crate::reply::Reply;
use crate::routes::permissions::{has_delete_bit, has_user_admin_bit, has_write_bit};

verus! {

/// A sign-up form.
#[derive(Debug, PartialEq, Eq)]
pub struct NewUserData {
    pub email: String,
    pub name: String,
    pub password: String,
}

/// A sign-in form.
#[derive(Debug, PartialEq, Eq)]
pub struct LoginData {
    pub name: String,
    pub password: String,
}

/// A form that sets a user's three permission flags.
#[derive(Debug, PartialEq, Eq)]
pub struct UpdatePermissionsData {
    pub name: String,
    pub can_write: i16,
    pub can_delete: i16,
    pub can_alter_users: i16,
}

/// A form that sets a user's password.
#[derive(Debug, PartialEq, Eq)]
pub struct UpdatePasswordData {
    pub name: String,
    pub password: String,
}

/// A form that deletes a user.
#[derive(Debug, PartialEq, Eq)]
pub struct DeleteUserData {
    pub name: String,
}

/// The row that sign-up stores for a new user.
#[derive(Debug, PartialEq, Eq)]
pub struct NewUserRow {
    pub id: u128,
    pub name: String,
    pub password_hash: String,
    pub email: String,
    pub permissions: i16,
    pub joined_at: Timestamp,
}

/// The answer to a sign-in once the stored hash has been checked.
pub open spec fn verification_reply(verification: Option<bool>) -> Reply<()> {
    match verification {
        Some(true) => Reply::Success,
        Some(false) => Reply::Unauthorized,
        None => Reply::InternalError,
    }
}

/// The answer to a sign-in with `password`, given what the lookup of the
/// user's stored hash gave: the user may be missing, or the lookup may fail.
pub open spec fn sign_in_reply_spec<E>(password: Seq<char>, stored: Result<Option<String>, E>) -> Reply<()> {
    match stored {
        Err(_) => Reply::InternalError,
        Ok(None) => Reply::NotFound,
        Ok(Some(hash)) => verification_reply(bcrypt_verification(password, hash@)),
    }
}

/// Builds the row for a new user: a fresh identifier, the name and the e-mail
/// as given, no permissions, a bcrypt hash of the password at cost 12, and
/// the current time as the time of joining. Fails only where the password
/// cannot be hashed.
pub fn new_user_row(form: &NewUserData) -> (row: Result<NewUserRow, PasswordError>)
    ensures
        row matches Ok(row) ==> {
            &&& row.name@ == form.name@
            &&& row.email@ == form.email@
            &&& row.permissions == 0
            &&& uuid_version(row.id) == 4
            &&& uuid_variant(row.id) == 2
            &&& default_cost_hash_form(row.password_hash@)
            &&& bcrypt_verification(form.password@, row.password_hash@) == Some(true)
            &&& row.joined_at.secs >= 0
            &&& row.joined_at.nanos < 1_000_000_000
        },
        row matches Err(e) ==> e is Hashing,
{
    let hashed = hash_password(form.password.as_str());
    user_row_after_hash(form, hashed, new_random_id(), now())
}

/// The outcome of sign-up once the password has been hashed: the row under
/// `id`, joined at `joined_at`, with the hash, whenever hashing succeeded, and
/// the hashing error otherwise.
pub fn user_row_after_hash(
    form: &NewUserData,
    hashed: Result<String, PasswordError>,
    id: u128,
    joined_at: Timestamp,
) -> (row: Result<NewUserRow, PasswordError>)
    ensures
        hashed is Ok <==> row is Ok,
        match hashed {
            Ok(hash) => row matches Ok(row) && {
                &&& row.id == id
                &&& row.name@ == form.name@
                &&& row.email@ == form.email@
                &&& row.password_hash == hash
                &&& row.permissions == 0
                &&& row.joined_at == joined_at
            },
            Err(e) => row == Err::<NewUserRow, PasswordError>(e),
        },
{
    match hashed {
        Ok(hash) => Ok(user_row(form, id, hash, joined_at)),
        Err(e) => Err(e),
    }
}

/// The row under identifier `id` for a new user who joined at `joined_at`
/// and whose password hashes to `password_hash`: the name and the e-mail as
/// given, and no permissions.
pub fn user_row(form: &NewUserData, id: u128, password_hash: String, joined_at: Timestamp) -> (row: NewUserRow)
    ensures
        row.id == id,
        row.name@ == form.name@,
        row.email@ == form.email@,
        row.password_hash == password_hash,
        row.permissions == 0,
        row.joined_at == joined_at,
{
    NewUserRow { id, name: form.name.clone(), password_hash, email: form.email.clone(), permissions: 0, joined_at }
}

/// The answer to a sign-in, from the outcome of checking the password against
/// the stored hash: 200 on a match, 401 on a mismatch, 500 when the stored
/// hash cannot be read.
pub fn sign_in_verdict(checked: Result<bool, PasswordError>) -> (reply: Reply<()>)
    ensures
        match checked {
            Ok(true) => reply is Success,
            Ok(false) => reply is Unauthorized,
            Err(_) => reply is InternalError,
        },
{
    match checked {
        Ok(true) => Reply::Success,
        Ok(false) => Reply::Unauthorized,
        Err(_) => Reply::InternalError,
    }
}

/// The answer to a sign-in with `password`, given the outcome of looking up
/// the user's stored hash: 500 when the lookup failed, 404 when there is no
/// such user, else the verdict of checking the password against the hash.
pub fn sign_in_reply<E>(password: &str, stored: Result<Option<String>, E>) -> (reply: Reply<()>)
    ensures
        reply == sign_in_reply_spec(password@, stored),
{
    match stored {
        Err(_) => Reply::InternalError,
        Ok(None) => Reply::NotFound,
        Ok(Some(hash)) => {
            let checked = verify_password(password, hash.as_str());
            sign_in_verdict(checked)
        },
    }
}

/// The next step of a password change.
#[derive(Debug, PartialEq, Eq)]
pub enum UpdatePasswordStep {
    /// Store this hash as the user's password.
    StoreHash(String),
    /// Answer at once.
    Respond(Reply<()>),
}

/// The step after hashing the new password: store the hash, or answer 500
/// when hashing failed.
pub fn update_password_after_hash(hashed: Result<String, PasswordError>) -> (step: UpdatePasswordStep)
    ensures
        match hashed {
            Ok(hash) => step == UpdatePasswordStep::StoreHash(hash),
            Err(_) => step == UpdatePasswordStep::Respond(Reply::InternalError),
        },
{
    match hashed {
        Ok(hash) => UpdatePasswordStep::StoreHash(hash),
        Err(_) => UpdatePasswordStep::Respond(Reply::InternalError),
    }
}

/// The first step of a password change: hash the new password (at cost 12);
/// store the hash, or answer 500 when it cannot be hashed. A stored hash
/// accepts the new password.
pub fn update_password_step(form: &UpdatePasswordData) -> (step: UpdatePasswordStep)
    ensures
        step matches UpdatePasswordStep::StoreHash(hash) ==> {
            &&& default_cost_hash_form(hash@)
            &&& bcrypt_verification(form.password@, hash@) == Some(true)
        },
        step matches UpdatePasswordStep::Respond(reply) ==> reply is InternalError,
{
    update_password_after_hash(hash_password(form.password.as_str()))
}

/// Signing in with the password that a sign-up or a password change hashed
/// succeeds once the stored hash is the one they produced: whatever hash
/// `bcrypt` accepts for a password, a sign-in that finds it answers 200.
pub proof fn lemma_stored_hash_signs_in<E>(password: Seq<char>, hash: String)
    requires
        bcrypt_verification(password, hash@) == Some(true),
    ensures
        sign_in_reply_spec::<E>(password, Ok(Some(hash))) is Success,
{
}

/// A new user can do nothing until granted more: the permission word that
/// sign-up stores grants neither adding recipes, nor deleting them, nor
/// managing users.
pub proof fn lemma_new_user_has_no_permissions(row: NewUserRow)
    requires
        row.permissions == 0,
    ensures
        !has_write_bit(row.permissions),
        !has_delete_bit(row.permissions),
        !has_user_admin_bit(row.permissions),
{
    assert((0i16 & 1) == 0 && (0i16 & 2) == 0 && (0i16 & 4) == 0) by (bit_vector);
}

} // verus!
