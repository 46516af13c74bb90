//! Password hashing and verification through the argon2 crate.

use vstd::prelude::*;
use vstd::string::StringSliceAdditionalSpecFns;

verus! {

/// Whether a password's bytes verify against a PHC hash string; the
/// outcome is a function of the two arguments alone (the hash string
/// carries the algorithm, parameters and salt), and it is false for a
/// string that does not parse as a PHC hash.
pub uninterp spec fn argon2_verifies(plain: Seq<u8>, hash: Seq<char>) -> bool;

/// The argon2 hash for the given password, as a PHC string.
///
/// Relies on argon2's `Argon2::hash_password` with default parameters and
/// a salt from `SaltString::generate`: the resulting string verifies
/// against the password, and the default algorithm and parameters fix its
/// PHC prefix.  The salt is random, so nothing further is promised.
#[verifier::external_body]
pub fn hash(plain_password: &str) -> (r: String)
    requires
        plain_password.spec_bytes().len() < 0x1_0000_0000,
    ensures
        argon2_verifies(plain_password.spec_bytes(), r@),
        r@.len() >= 30,
        r@.subrange(0, 30) == "$argon2id$v=19$m=4096,t=3,p=1$"@,
{
    let salt = argon2::password_hash::SaltString::generate(
        &mut argon2::password_hash::rand_core::OsRng,
    );
    let hashed = argon2::PasswordHasher::hash_password(
        &argon2::Argon2::default(),
        plain_password.as_ref(),
        &salt,
    ).unwrap().to_string();
    argon2::PasswordHash::new(&hashed).unwrap().to_string()
}

/// Checks whether the plain password matches the hashed password.
///
/// Relies on argon2's `PasswordHash` parsing and `Argon2::verify_password`:
/// the outcome depends on the password and the hash string alone, and a
/// hash string that does not parse never verifies.
#[verifier::external_body]
pub fn verify(plain_password: &str, hash_password: &str) -> (r: bool)
    ensures
        r == argon2_verifies(plain_password.spec_bytes(), hash_password@),
{
    match argon2::PasswordHash::new(hash_password) {
        Ok(parsed) => argon2::PasswordVerifier::verify_password(
            &argon2::Argon2::default(),
            plain_password.as_ref(),
            &parsed,
        ).is_ok(),
        Err(_) => false,
    }
}

} // verus!
