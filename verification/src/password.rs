//! Password hashing, as far as the account rules need it.

use vstd::prelude::*;

verus! {

/// The work factor with which new passwords are hashed.
pub const DEFAULT_COST: u32 = 12;

/// Whether `password` matches the bcrypt hash `hash`; nothing where `hash` is no
/// bcrypt hash.
pub uninterp spec fn password_verdict(password: Seq<char>, hash: Seq<char>) -> Option<bool>;

/// Checks `password` against `hash` with `bcrypt::verify`, which reads cost and
/// salt out of the hash and hashes the password again with them. An error (the
/// hash is malformed) gives nothing. The outcome depends on the two texts alone,
/// so it is named `password_verdict(password, hash)`.
#[verifier::external_body]
pub(crate) fn bcrypt_verify(password: &str, hash: &str) -> (verdict: Option<bool>)
    ensures
        verdict == password_verdict(password@, hash@),
{
    bcrypt::verify(password, hash).ok()
}

/// Hashes `password` with `bcrypt::hash` at the work factor `cost`, under a salt
/// that the call draws at random. An error (a work factor outside 4 to 31, or no
/// randomness to be had) gives nothing. Whatever hash comes back, `bcrypt::verify`
/// accepts the same password against it: that is all that is claimed.
#[verifier::external_body]
pub(crate) fn bcrypt_hash(password: &str, cost: u32) -> (hash: Option<String>)
    ensures
        hash matches Some(text) ==> password_verdict(password@, text@) == Some(true),
{
    bcrypt::hash(password, cost).ok()
}

} // verus!
