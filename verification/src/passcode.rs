//! Passcode verification.
//!
//! Passcodes are stored only as salted one-way hashes; a submitted passcode
//! is compared by re-deriving the hash. An error from the verifier (a
//! malformed stored hash) is distinct from a mismatch and is surfaced by the
//! caller as an internal failure, never as "retry".

use vstd::prelude::*;

verus! {

/// Name for what `bcrypt::verify` yields on a given passcode and stored
/// hash: whether they match, or nothing when the stored hash cannot be
/// parsed. The result is a function of the two arguments alone.
pub uninterp spec fn bcrypt_verified(pass: Seq<char>, hash: Seq<char>) -> Option<bool>;

/// Relies on `bcrypt::verify`: parses the stored hash, re-derives the hash of
/// the passcode with the same salt and cost, and compares in constant time.
#[verifier::external_body]
pub(crate) fn passcode_matches(pass: &str, hash: &str) -> (r: Option<bool>)
    ensures
        r == bcrypt_verified(pass@, hash@),
{
    bcrypt::verify(pass, hash).ok()
}

/// Relies on `bcrypt::hash`: derives a salted, computationally expensive
/// one-way hash. Its source shows that `bcrypt::verify` accepts the hashed
/// passcode against the returned hash string.
#[verifier::external_body]
pub(crate) fn hash_passcode(pass: &str, cost: u32) -> (r: Option<String>)
    requires
        4 <= cost <= 31,
    ensures
        r is Some ==> bcrypt_verified(pass@, r.unwrap()@) == Some(true),
{
    bcrypt::hash(pass, cost).ok()
}

} // verus!
