//! One-way password hashing: a slow, salted algorithm behind a thin trusted
//! boundary. Digests are never compared by equality, only through `verify`;
//! two hashes of one password differ because each draws a fresh salt.

use vstd::prelude::*;
use crate::errors::HashError;

verus! {

/// Whether a digest is in the expected encoding: it parses as a bcrypt hash
/// string whose cost lies in the allowed range. These are exactly the digests
/// that `bcrypt::verify` accepts.
pub uninterp spec fn is_bcrypt_digest(digest: Seq<char>) -> bool;

/// Whether a password matches a digest: recomputing the hash of the password
/// with the digest's cost and salt reproduces the digest. A function of the
/// two arguments alone.
pub uninterp spec fn bcrypt_matches(password: Seq<char>, digest: Seq<char>) -> bool;

#[verifier::external_type_specification]
#[verifier::external_body]
pub struct ExBcryptError(bcrypt::BcryptError);

/// Relies on bcrypt::hash: with a cost in the allowed range of 4 to 31 it
/// fails only when the operating system's randomness fails, and a digest it
/// returns is well formed and matches the hashed password.
#[verifier::external_body]
pub(crate) fn bcrypt_hash(password: &str, cost: u32) -> (r: Result<String, bcrypt::BcryptError>)
    requires
        4 <= cost <= 31,
    ensures
        r matches Ok(digest) ==> is_bcrypt_digest(digest@) && bcrypt_matches(password@, digest@),
{
    bcrypt::hash(password, cost)
}

/// Relies on bcrypt::verify: it succeeds exactly on digests in the expected
/// encoding, and then reports whether the password matches the digest.
#[verifier::external_body]
pub(crate) fn bcrypt_verify(password: &str, digest: &str) -> (r: Result<
    bool,
    bcrypt::BcryptError,
>)
    ensures
        r is Ok <==> is_bcrypt_digest(digest@),
        r matches Ok(b) ==> b == bcrypt_matches(password@, digest@),
{
    bcrypt::verify(password, digest)
}

/// What password verification returns: a match report for a well-formed
/// digest, and `MalformedDigest` for any other.
pub open spec fn password_check(password: Seq<char>, digest: Seq<char>) -> Result<
    bool,
    HashError,
> {
    if is_bcrypt_digest(digest) {
        Ok(bcrypt_matches(password, digest))
    } else {
        Err(HashError::MalformedDigest)
    }
}

/// Any digest with the two properties that hashing guarantees of its output
/// — well-formedness, and a match against the hashed password — checks out
/// as a match for that password.
pub proof fn lemma_hash_digest_verifies(password: Seq<char>, digest: Seq<char>)
    requires
        is_bcrypt_digest(digest),
        bcrypt_matches(password, digest),
    ensures
        password_check(password, digest) == Ok::<bool, HashError>(true),
{
}

} // verus!
