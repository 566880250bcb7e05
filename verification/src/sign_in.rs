//! Sign-in verification: decide an attempt against what the directory
//! found for the claimed address. The password check itself is bcrypt's;
//! the decision around it — and that every failure looks the same to the
//! caller — is this module's.

use vstd::prelude::*;
use crate::model::{LedgerError, User};

verus! {

/// A sign-in attempt: the address the caller claims and the password.
#[derive(Clone, Debug, PartialEq, Eq)]
pub struct SignIn {
    pub email: String,
    pub password: String,
}

/// What bcrypt's verification decides for a password against a stored
/// hash: `Some(true)` on a match, `Some(false)` on a mismatch, `None` for
/// a hash bcrypt cannot parse. A function of the two strings alone.
pub uninterp spec fn bcrypt_verify_of(password: Seq<char>, hash: Seq<char>) -> Option<bool>;

/// Relies on bcrypt::verify: it parses cost and salt out of `hash`,
/// re-derives the digest of `password` and compares — deterministic in
/// its two arguments, `Err` only when the hash cannot be parsed.
#[verifier::external_body]
fn verify_password(password: &str, hash: &str) -> (r: Option<bool>)
    ensures
        r == bcrypt_verify_of(password@, hash@),
{
    match bcrypt::verify(password, hash) {
        Ok(b) => Some(b),
        Err(_) => None,
    }
}

/// Decide a sign-in attempt. `record` is what the directory found for the
/// attempt's address: the user and their stored password hash. The
/// attempt succeeds if and only if a record exists and the password
/// matches its hash; every failure is the same `Unauthorized`, so a
/// caller cannot tell a wrong address from a wrong password.
pub fn call(record: Option<(User, String)>, sign_in: &SignIn) -> (r: Result<User, LedgerError>)
    ensures
        match r {
            Ok(u) => record matches Some(rec) && u == rec.0 && bcrypt_verify_of(
                sign_in.password@,
                rec.1@,
            ) == Some(true),
            Err(e) => e == LedgerError::Unauthorized && (record matches Some(rec)
                ==> bcrypt_verify_of(sign_in.password@, rec.1@) != Some(true)),
        },
{
    match record {
        None => Err(LedgerError::Unauthorized),
        Some((user, hash)) => {
            match verify_password(sign_in.password.as_str(), hash.as_str()) {
                Some(true) => Ok(user),
                _ => Err(LedgerError::Unauthorized),
            }
        },
    }
}

} // verus!
