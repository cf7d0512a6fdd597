//! Credential hashing and verification, an opaque one-way function
//! supplied by the bcrypt crate and specified only at its interface.
//!
//! `credential_matches` names the (deterministic) outcome of checking
//! a password against a stored hash; `is_credential_hash` names the
//! (deterministic) well-formedness check the verifier applies to the
//! stored hash. Hashing draws a random salt, so nothing names the hash
//! itself: the contract of [`hash_credential`] only states what holds
//! of every hash it can return.

use vstd::prelude::*;

verus! {

/// Whether checking `password` against the stored hash `stored`
/// succeeds. Names the value of `bcrypt::verify(password, stored)`,
/// which depends on its two arguments alone.
pub uninterp spec fn credential_matches(password: Seq<char>, stored: Seq<char>) -> bool;

/// Whether `stored` is a well-formed credential hash, that is, one the
/// verifier accepts at all. Names the success of
/// `bcrypt::verify(_, stored)`, which depends on the hash alone.
pub uninterp spec fn is_credential_hash(stored: Seq<char>) -> bool;

/// Relies on `bcrypt::hash` with the crate's default cost: the salt is
/// drawn from OS randomness, so the call may fail and no two results
/// need agree, but every hash it returns is well-formed (60 ASCII
/// bytes in the `$2b$..$..` shape that `bcrypt::verify` parses) and
/// verifies against the password it was derived from.
#[verifier::external_body]
pub(crate) fn hash_credential(password: &str) -> (r: Option<String>)
    ensures
        r matches Some(h) ==> is_credential_hash(h@) && credential_matches(password@, h@),
{
    bcrypt::hash(password, bcrypt::DEFAULT_COST).ok()
}

/// Relies on `bcrypt::verify`: it returns `Err` exactly when the
/// stored hash is malformed (a property of the hash alone), and
/// otherwise recomputes the hash deterministically from the password
/// and the salt embedded in `stored`.
#[verifier::external_body]
pub(crate) fn check_credential(password: &str, stored: &str) -> (r: Option<bool>)
    ensures
        r is Some <==> is_credential_hash(stored@),
        r matches Some(b) ==> b == credential_matches(password@, stored@),
{
    bcrypt::verify(password, stored).ok()
}

} // verus!
