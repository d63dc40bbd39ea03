//! Password hashes for the users file: Argon2id in the PHC string format.
use argon2::{PasswordHasher, PasswordVerifier};
use rand_core::RngCore;
use vstd::prelude::*;
use vstd::utf8::encode_utf8;

use crate::text::starts_with;

verus! {

/// The longest password that `argon2` hashes, in bytes.
pub const MAX_PASSWORD_BYTES: usize = 0xFFFF_FFFF;

/// The number of random bytes in a salt (`Salt::RECOMMENDED_LENGTH`).
pub const SALT_BYTES: usize = 16;

/// Why no hash was made.
#[derive(Debug, Clone, Copy, PartialEq, Eq, Structural)]
pub enum PasswordHashError {
    /// `argon2` refused the password: it is longer than
    /// [`MAX_PASSWORD_BYTES`] bytes.
    Hash,
}

/// The PHC string that `Argon2::default()` (Argon2id, version 19, default
/// costs) makes of `password` under the salt whose bytes are `salt`.
pub uninterp spec fn argon2id_phc(password: Seq<u8>, salt: Seq<u8>) -> Seq<char>;

/// Whether `PasswordHash::new` reads `hash` as a PHC string and
/// `Argon2::default().verify_password` finds that it was made from
/// `password`.
pub uninterp spec fn argon2_verifies(password: Seq<u8>, hash: Seq<char>) -> bool;

/// What `SaltString::generate` does before encoding: [`SALT_BYTES`] bytes
/// from the operating system's random generator (`OsRng::fill_bytes`).  Only
/// their number is claimed.
#[verifier::external_body]
fn random_salt_bytes() -> (salt: Vec<u8>)
    ensures
        salt@.len() == SALT_BYTES,
{
    let mut salt = vec![0u8; SALT_BYTES];
    rand_core::OsRng.fill_bytes(&mut salt);
    salt
}

/// `SaltString::encode_b64` of `salt`, then `Argon2::default().hash_password`
/// of `password` with it, written out with `Display`.  The result is named.
/// Claimed beyond the name, from the source: the encoded salt of 16 bytes,
/// the default parameters and the output length pass `argon2`'s checks, so
/// only a password longer than `MAX_PWD_LEN` (`0xFFFFFFFF` bytes) is refused;
/// the string starts with `$argon2id$`, the identifier of the default
/// algorithm; and `verify_password`, which parses the string and hashes the
/// password again with the salt and parameters it holds, accepts it.
#[verifier::external_body]
fn argon2id_hash_with_salt(password: &[u8], salt: &[u8]) -> (hash: Option<String>)
    requires
        salt@.len() == SALT_BYTES,
    ensures
        hash is Some <==> password@.len() <= MAX_PASSWORD_BYTES,
        hash matches Some(h) ==> {
            &&& h@ == argon2id_phc(password@, salt@)
            &&& starts_with(h@, "$argon2id$"@)
            &&& argon2_verifies(password@, h@)
        },
{
    let salt = password_hash::SaltString::encode_b64(salt).ok()?;
    match argon2::Argon2::default().hash_password(password, &salt) {
        Ok(hash) => Some(hash.to_string()),
        Err(_) => None,
    }
}

/// `PasswordHash::new` of `hash`, then `Argon2::default().verify_password`
/// of `password` against it; a string that is not a PHC string verifies
/// nothing.  The result is named.
#[verifier::external_body]
pub(crate) fn argon2_verify(password: &[u8], hash: &str) -> (ok: bool)
    ensures
        ok == argon2_verifies(password@, hash@),
{
    match password_hash::PasswordHash::new(hash) {
        Ok(parsed) => argon2::Argon2::default().verify_password(password, &parsed).is_ok(),
        Err(_) => false,
    }
}

/// Whether `hash` is the Argon2id hash of `password` under some salt of
/// [`SALT_BYTES`] bytes.
pub open spec fn is_hash_of(password: Seq<u8>, hash: Seq<char>) -> bool {
    exists|salt: Seq<u8>| salt.len() == SALT_BYTES && hash == argon2id_phc(password, salt)
}

/// A new Argon2id hash of `password`, under a fresh random salt, for the
/// users file; refused for a password of more than [`MAX_PASSWORD_BYTES`]
/// bytes in UTF-8.  The hash verifies the password it was made from.
pub fn hash_password(password: &str) -> (hash: Result<String, PasswordHashError>)
    ensures
        hash is Ok <==> encode_utf8(password@).len() <= MAX_PASSWORD_BYTES,
        hash matches Ok(h) ==> {
            &&& is_hash_of(encode_utf8(password@), h@)
            &&& starts_with(h@, "$argon2id$"@)
            &&& argon2_verifies(encode_utf8(password@), h@)
        },
        hash matches Err(e) ==> e == PasswordHashError::Hash,
{
    let salt = random_salt_bytes();
    match argon2id_hash_with_salt(password.as_bytes(), salt.as_slice()) {
        Some(h) => Ok(h),
        None => Err(PasswordHashError::Hash),
    }
}

} // verus!
