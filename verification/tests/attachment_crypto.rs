use comm::attachment_crypto::{
    decode_key, AttachmentCrypto, AttachmentCryptoError, KeyFileError, KEY_LEN, NONCE_LEN,
};

#[test]
fn key_file_written_for_a_new_key_reads_back() {
    let (crypto, contents) = AttachmentCrypto::new_random();
    assert_eq!(contents.len(), 2 * KEY_LEN);
    assert!(contents.chars().all(|c| c.is_ascii_hexdigit() && !c.is_ascii_uppercase()));

    let reloaded = AttachmentCrypto::from_key_file(&format!("  {contents}\n")).unwrap();
    let encrypted = crypto.encrypt(b"photo bytes").unwrap();
    assert_eq!(
        reloaded.decrypt(&encrypted.ciphertext, &encrypted.nonce).unwrap(),
        b"photo bytes".to_vec()
    );
}

#[test]
fn decrypt_undoes_encrypt() {
    let (crypto, _) = AttachmentCrypto::new_random();
    for plaintext in [&b""[..], b"a", &[0u8; 1000][..]] {
        let encrypted = crypto.encrypt(plaintext).unwrap();
        assert_eq!(encrypted.nonce.len(), NONCE_LEN);
        assert_eq!(encrypted.ciphertext.len(), plaintext.len() + 16);
        assert_eq!(
            crypto.decrypt(&encrypted.ciphertext, &encrypted.nonce).unwrap(),
            plaintext.to_vec()
        );
    }
}

#[test]
fn each_encryption_uses_a_fresh_nonce() {
    let (crypto, _) = AttachmentCrypto::new_random();
    let a = crypto.encrypt(b"same").unwrap();
    let b = crypto.encrypt(b"same").unwrap();
    assert_ne!(a.nonce, b.nonce);
    assert_ne!(a.ciphertext, b.ciphertext);
}

#[test]
fn decrypt_rejects_tampering_and_other_keys() {
    let (crypto, _) = AttachmentCrypto::new_random();
    let (other, _) = AttachmentCrypto::new_random();
    let encrypted = crypto.encrypt(b"secret photo").unwrap();

    let mut tampered = encrypted.ciphertext.clone();
    tampered[0] ^= 1;
    assert_eq!(
        crypto.decrypt(&tampered, &encrypted.nonce).unwrap_err(),
        AttachmentCryptoError::Decrypt
    );
    assert_eq!(
        other.decrypt(&encrypted.ciphertext, &encrypted.nonce).unwrap_err(),
        AttachmentCryptoError::Decrypt
    );
    let wrong_nonce = vec![0u8; NONCE_LEN];
    assert!(crypto.decrypt(&encrypted.ciphertext, &wrong_nonce).is_err());
}

#[test]
fn key_file_errors() {
    assert_eq!(decode_key("not hex").unwrap_err(), KeyFileError::InvalidHex);
    assert_eq!(decode_key("abc").unwrap_err(), KeyFileError::InvalidHex);
    assert_eq!(decode_key("abcd").unwrap_err(), KeyFileError::WrongLength);
    assert_eq!(decode_key("").unwrap_err(), KeyFileError::WrongLength);
    let upper = "AB".repeat(KEY_LEN);
    assert_eq!(decode_key(&format!("\t{upper} ")).unwrap(), vec![0xABu8; KEY_LEN]);
    assert_eq!(
        decode_key(&"00".repeat(KEY_LEN + 1)).unwrap_err(),
        KeyFileError::WrongLength
    );
}
