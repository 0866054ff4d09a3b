//! Credential verifier: salted, slow password hashing and constant-time
//! verification against a stored, self-describing hash string.

use vstd::prelude::*;

use argon2::password_hash::{PasswordHasher, PasswordVerifier};

verus! {

/// Whether argon2 accepts the password against the stored hash string: the
/// outcome of recomputing the hash with the salt and parameters embedded in
/// the stored string. A pure function of the two arguments; the algorithm
/// itself is relied upon, not restated.
pub uninterp spec fn password_matches(password: Seq<char>, stored: Seq<char>) -> bool;

/// Relies on argon2's `PasswordHasher::hash_password` (with a freshly
/// generated random salt) and on the PHC rendering of its result: the
/// returned string verifies against the same password. The salt is random,
/// so nothing else is promised of the string's value.
#[verifier::external_body]
pub fn hash_password(password: &str) -> (r: Option<String>)
    ensures
        r is Some ==> password_matches(password@, r.unwrap()@),
{
    match argon2::Argon2::default().hash_password(password.as_bytes()) {
        Ok(h) => Some(h.to_string()),
        Err(_) => None,
    }
}

/// Relies on argon2's `PasswordVerifier::verify_password` on a stored hash
/// string: true exactly when the recomputation with the embedded salt and
/// parameters matches. A malformed stored string never matches.
#[verifier::external_body]
pub fn verify_password(password: &str, stored: &str) -> (r: bool)
    ensures
        r == password_matches(password@, stored@),
{
    argon2::Argon2::default().verify_password(password.as_bytes(), stored).is_ok()
}

/// Law: whenever hashing a password succeeds, verifying that same password
/// against the produced hash succeeds.
pub fn password_round_trip(password: &str) -> (r: Option<bool>)
    ensures
        r is Some ==> r == Some(true),
{
    match hash_password(password) {
        Some(stored) => Some(verify_password(password, stored.as_str())),
        None => None,
    }
}

} // verus!
