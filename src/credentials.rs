//! Password credentials: hashing a new password with a fresh salt, and
//! checking a password against a stored hash, both with Argon2.
use vstd::prelude::*;
use crate::model::Status;
use crate::users::login;
use argon2::password_hash::{PasswordHash, PasswordHasher, PasswordVerifier, SaltString};
use argon2::Argon2;
use rand_core::OsRng;

verus! {

/// The PHC string that Argon2 with default parameters makes of a password
/// and a B64-encoded salt, if it makes one.
pub uninterp spec fn argon2_phc(password: Seq<char>, salt: Seq<char>) -> Option<Seq<char>>;

/// Whether Argon2 accepts a password against a stored PHC string.
pub uninterp spec fn argon2_accepts(password: Seq<char>, phc: Seq<char>) -> bool;

/// Relies on password-hash's `SaltString::generate` over the operating
/// system's generator: a fresh random salt, of which nothing is promised.
#[verifier::external_body]
fn fresh_salt() -> (r: String) {
    SaltString::generate(&mut OsRng).as_str().to_string()
}

/// Relies on password-hash's `SaltString::from_b64` and argon2's
/// `PasswordHasher::hash_password` with default parameters: the PHC string,
/// which depends on the password and the salt alone, or `None` when the salt
/// is not valid B64 or hashing fails.
#[verifier::external_body]
fn argon2_hash(password: &String, salt: &String) -> (r: Option<String>)
    ensures
        match r {
            Some(h) => argon2_phc(password@, salt@) == Some(h@),
            None => argon2_phc(password@, salt@) is None,
        },
{
    let Ok(s) = SaltString::from_b64(salt) else {
        return None;
    };
    match Argon2::default().hash_password(password.as_bytes(), &s) {
        Ok(h) => Some(h.to_string()),
        Err(_) => None,
    }
}

/// Relies on password-hash's `PasswordHash::new` and its
/// `PasswordVerifier::verify_password` for Argon2: whether the password
/// matches the stored PHC string; a string that does not parse matches no
/// password.
#[verifier::external_body]
fn argon2_verify(password: &String, phc: &String) -> (r: bool)
    ensures
        r == argon2_accepts(password@, phc@),
{
    match PasswordHash::new(phc) {
        Ok(parsed) => Argon2::default().verify_password(password.as_bytes(), &parsed).is_ok(),
        Err(_) => false,
    }
}

/// The hash that a password gets with a given salt, once checked: the PHC
/// string, if Argon2 makes one and it accepts the password; else `None`.
pub open spec fn checked_hash(password: Seq<char>, salt: Seq<char>) -> Option<Seq<char>> {
    match argon2_phc(password, salt) {
        Some(h) => if argon2_accepts(password, h) {
            Some(h)
        } else {
            None
        },
        None => None,
    }
}

/// Hashes a password with the given B64 salt and checks the hash against
/// the password before handing it out.
pub fn hash_with_salt(password: &String, salt: &String) -> (r: Option<String>)
    ensures
        r is Some <==> checked_hash(password@, salt@) is Some,
        r is Some ==> checked_hash(password@, salt@) == Some(r->0@),
        r is Some ==> argon2_phc(password@, salt@) == Some(r->0@) && argon2_accepts(
            password@,
            r->0@,
        ),
{
    match argon2_hash(password, salt) {
        None => None,
        Some(h) => if argon2_verify(password, &h) {
            Some(h)
        } else {
            None
        },
    }
}

/// Hashes the password of a new account with a fresh random salt, and
/// checks the hash against the password: whatever the salt, a hash handed
/// out is the checked hash of the password with some salt.
pub fn hash_new_password(password: &String) -> (r: Option<String>)
    ensures
        r is Some ==> argon2_accepts(password@, r->0@),
        r is Some ==> exists|salt: Seq<char>| checked_hash(password@, salt) == Some(r->0@),
{
    let salt = fresh_salt();
    hash_with_salt(password, &salt)
}

/// Decides a login from the stored hash of the account, if an account was
/// found: none is `Unauthorized`; a hash that accepts the password is
/// `Accepted`; any other `Forbidden`.
pub fn login_attempt(password: &String, stored: &Option<String>) -> (r: Status)
    ensures
        r == match stored {
            None => Status::Unauthorized,
            Some(h) => if argon2_accepts(password@, h@) {
                Status::Accepted
            } else {
                Status::Forbidden
            },
        },
{
    match stored {
        None => login(false, false),
        Some(h) => login(true, argon2_verify(password, h)),
    }
}

} // verus!
