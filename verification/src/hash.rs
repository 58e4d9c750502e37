//! Credential hashing, built on bcrypt.  The library treats the hash
//! as opaque: all that is stated, and all that callers rely on, is
//! that a freshly made hash verifies against its own password.

use vstd::prelude::*;

verus! {

/// The work factor every hash is generated with.
pub const COST: u32 = 10;

/// Does bcrypt accept `hash` as a hash of `password`?  The check reads
/// the salt and cost out of the hash text, so it is a pure function of
/// the two strings.
pub uninterp spec fn bcrypt_verifies(password: Seq<char>, hash: Seq<char>) -> bool;

/// Generate a bcrypt hash of `s` with the module's work factor.
///
/// Relies on `bcrypt::hash`: it salts from operating-system
/// randomness, and every hash it returns is accepted by
/// `bcrypt::verify` for the same password.
#[verifier::external_body]
pub fn make(s: &str) -> (r: Result<String, bcrypt::BcryptError>)
    ensures
        r matches Ok(h) ==> bcrypt_verifies(s@, h@),
{
    bcrypt::hash(s, COST)
}

/// Check `s` against the bcrypt hash `h`; a malformed hash counts as a
/// failed check.
///
/// Relies on `bcrypt::verify`, a pure function of its two arguments.
#[verifier::external_body]
pub fn check(s: &str, h: &str) -> (r: bool)
    ensures
        r == bcrypt_verifies(s@, h@),
{
    bcrypt::verify(s, h).unwrap_or(false)
}

/// The error type of the hashing backend.
#[verifier::external_type_specification]
#[verifier::external_body]
pub struct ExBcryptError(bcrypt::BcryptError);

} // verus!
