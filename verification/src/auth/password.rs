//! Password hashing with bcrypt.
use vstd::prelude::*;
use crate::config::BCRYPT_COST;
use crate::error::AppError;
use crate::clock::two_digits;

verus! {

/// What `bcrypt::verify(password, hash)` returns: `Some(b)` for `Ok(b)`,
/// `None` for an error (a hash that does not parse).
pub uninterp spec fn bcrypt_verify_result(password: Seq<char>, hash: Seq<char>) -> Option<bool>;

/// `bcrypt::verify`: whether `password` matches the stored `hash`; an error
/// (its text) where the hash is malformed. The result depends on the two
/// arguments alone.
#[verifier::external_body]
fn bcrypt_verify(password: &str, hash: &str) -> (r: Result<bool, String>)
    ensures
        match r {
            Ok(b) => bcrypt_verify_result(password@, hash@) == Some(b),
            Err(_) => bcrypt_verify_result(password@, hash@) is None,
        },
{
    match bcrypt::verify(password, hash) {
        Ok(b) => Ok(b),
        Err(e) => Err(e.to_string()),
    }
}

/// `bcrypt::hash`: a salted hash of `password` with a random salt. A cost
/// outside 4..=31 is refused. A hash it returns is the 60-character
/// `$2b$<cost, two digits>$<salt><hash>` form, and `bcrypt::verify` accepts
/// the same password against it (it re-hashes with the salt and cost read
/// back from the hash). The salt, and so the hash, differ from call to call.
#[verifier::external_body]
fn bcrypt_hash(password: &str, cost: u32) -> (r: Result<String, String>)
    ensures
        !(4 <= cost <= 31) ==> r is Err,
        r matches Ok(h) ==> h@.len() == 60 && bcrypt_verify_result(password@, h@) == Some(true),
        r matches Ok(h) ==> h@.take(7) == "$2b$"@ + two_digits(cost as int) + "$"@,
{
    match bcrypt::hash(password, cost) {
        Ok(h) => Ok(h),
        Err(e) => Err(e.to_string()),
    }
}

/// Hashes a password for storage with the configured cost (12).
pub fn hash_password(password: &str) -> (r: Result<String, AppError>)
    ensures
        r matches Ok(h) ==> h@.len() == 60 && bcrypt_verify_result(password@, h@) == Some(true),
        r matches Ok(h) ==> h@.take(7) == "$2b$12$"@,
        r matches Err(e) ==> e is PasswordHash,
{
    match bcrypt_hash(password, BCRYPT_COST) {
        Ok(h) => {
            proof {
                reveal_strlit("$2b$");
                reveal_strlit("$");
                reveal_strlit("$2b$12$");
                assert(two_digits(12) =~= seq!['1', '2']) by {
                    reveal_with_fuel(crate::text::nat_digits, 3);
                }
                assert("$2b$"@ + two_digits(12) + "$"@ =~= "$2b$12$"@);
            }
            Ok(h)
        },
        Err(m) => Err(AppError::PasswordHash(m)),
    }
}

/// Checks a password against a stored hash.
pub fn verify_password(password: &str, hash: &str) -> (r: Result<bool, AppError>)
    ensures
        match bcrypt_verify_result(password@, hash@) {
            Some(b) => r == Ok::<bool, AppError>(b),
            None => r matches Err(e) && e is PasswordHash,
        },
{
    match bcrypt_verify(password, hash) {
        Ok(b) => Ok(b),
        Err(m) => Err(AppError::PasswordHash(m)),
    }
}

} // verus!
