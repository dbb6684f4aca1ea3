//! The password service: memory-hard hashing with a random per-call
//! salt, and constant-time verification against the stored PHC string.

use vstd::prelude::*;

verus! {

/// Whether this password matches this stored PHC hash string. Stating
/// the hash algorithm itself is not the library's business; what the
/// contracts need is that verification is a function of the password and
/// the stored string alone.
pub uninterp spec fn verifies(password: Seq<char>, stored_hash: Seq<char>) -> bool;

/// Hashes and verifies passwords with the process-default parameters.
#[derive(Clone, Copy, Debug, Default)]
pub struct PasswordHasher {}

impl PasswordHasher {
    /// Relies on argon2's `hash_password`: it salts with fresh
    /// randomness and returns a PHC string that verifies against the
    /// hashed password. The salt makes the string itself unpredictable,
    /// so only that much is promised of it. The hash refuses a password
    /// over `0xFFFF_FFFF` bytes; a character encodes to at most four
    /// bytes, so the bound below keeps every admitted input inside that
    /// limit. Drawing the salt assumes the system's randomness source.
    #[verifier::external_body]
    pub fn hash_password(&self, password: &str) -> (r: String)
        requires
            password@.len() <= 0x3FFF_FFFF,
        ensures
            verifies(password@, r@),
    {
        let hash: argon2::PasswordHash = argon2::PasswordHasher::hash_password(
            &argon2::Argon2::default(),
            password.as_bytes(),
        ).expect("Password hashing failed");
        hash.to_string()
    }

    /// Relies on argon2's `verify_password` over a PHC string: the
    /// outcome depends only on the password and the stored string, and a
    /// string that does not parse verifies nothing.
    #[verifier::external_body]
    pub fn verify_password(&self, password: &str, stored_hash: &str) -> (r: bool)
        ensures
            r == verifies(password@, stored_hash@),
    {
        <argon2::Argon2 as argon2::PasswordVerifier<str>>::verify_password(
            &argon2::Argon2::default(),
            password.as_bytes(),
            stored_hash,
        ).is_ok()
    }
}

} // verus!
