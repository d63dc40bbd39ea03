use argon2::{Argon2, PasswordHash, PasswordVerifier};
use comm::passwords::hash_password;

#[test]
fn password_hash_is_argon2id_and_verifies() {
    let hash = hash_password("correct horse").unwrap();
    assert!(hash.starts_with("$argon2id$v=19$"));
    let parsed = PasswordHash::new(&hash).unwrap();
    assert!(Argon2::default().verify_password(b"correct horse", &parsed).is_ok());
    assert!(Argon2::default().verify_password(b"wrong", &parsed).is_err());
}

#[test]
fn password_hashes_use_fresh_salts() {
    assert_ne!(hash_password("same").unwrap(), hash_password("same").unwrap());
}
