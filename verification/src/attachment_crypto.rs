//! Encryption of photo attachments at rest with XChaCha20-Poly1305.
use chacha20poly1305::aead::{Aead, AeadCore, KeyInit, OsRng};
use chacha20poly1305::{Key, XChaCha20Poly1305, XNonce};
use vstd::prelude::*;
use vstd::utf8::encode_utf8;

use crate::encoding::{
    hex_decode, hex_decoded, hex_encode, hex_encoded, lemma_hex_encoded_digits, lemma_hex_roundtrip,
};
use crate::text::{chars_of, string_of, trim, trim_end_class, trim_start_class, trim_vec, CharClass};

verus! {

/// The length of an attachment key, in bytes.
pub const KEY_LEN: usize = 32;

/// The length of a nonce, in bytes.
pub const NONCE_LEN: usize = 24;

/// The length of the Poly1305 tag that ends a ciphertext, in bytes.
pub const TAG_LEN: usize = 16;

/// The ciphertext that `chacha20poly1305` produces for `plaintext` under
/// `key` and `nonce` (no associated data).
pub uninterp spec fn xchacha20poly1305_seal(key: Seq<u8>, nonce: Seq<u8>, plaintext: Seq<u8>) -> Seq<
    u8,
>;

/// What `chacha20poly1305` decrypts `ciphertext` to under `key` and `nonce`,
/// or `None` when authentication fails.
pub uninterp spec fn xchacha20poly1305_open(
    key: Seq<u8>,
    nonce: Seq<u8>,
    ciphertext: Seq<u8>,
) -> Option<Seq<u8>>;

/// Whether `chacha20poly1305` accepts a plaintext of `len` bytes: fewer than
/// `u32::MAX` blocks of 64 bytes.
pub open spec fn encryptable_len(len: nat) -> bool {
    len / 64 < 0xffff_ffff
}

/// `XChaCha20Poly1305::generate_key` with the operating system's random
/// generator: a fresh random key.
#[verifier::external_body]
fn generate_key() -> (key: Vec<u8>)
    ensures
        key@.len() == KEY_LEN,
{
    XChaCha20Poly1305::generate_key(&mut OsRng).to_vec()
}

/// `XChaCha20Poly1305::generate_nonce` with the operating system's random
/// generator: a fresh random nonce.
#[verifier::external_body]
fn generate_nonce() -> (nonce: Vec<u8>)
    ensures
        nonce@.len() == NONCE_LEN,
{
    XChaCha20Poly1305::generate_nonce(&mut OsRng).to_vec()
}

/// `Aead::encrypt` of `XChaCha20Poly1305` (made from `key`): fails only for a
/// plaintext of `u32::MAX` blocks or more; otherwise the ciphertext, which
/// `Aead::decrypt` with the same key and nonce turns back into `plaintext`.
/// The ciphertext is the plaintext, encrypted in place, followed by the
/// 16-byte tag (`encrypt_in_place` appends it).
#[verifier::external_body]
fn xchacha20poly1305_encrypt(key: &[u8], nonce: &[u8], plaintext: &[u8]) -> (r: Option<Vec<u8>>)
    requires
        key@.len() == KEY_LEN,
        nonce@.len() == NONCE_LEN,
    ensures
        r is Some <==> encryptable_len(plaintext@.len()),
        r matches Some(c) ==> c@ == xchacha20poly1305_seal(key@, nonce@, plaintext@)
            && xchacha20poly1305_open(key@, nonce@, c@) == Some(plaintext@) && c@.len()
            == plaintext@.len() + TAG_LEN,
{
    XChaCha20Poly1305::new(Key::from_slice(key)).encrypt(XNonce::from_slice(nonce), plaintext).ok()
}

/// `Aead::decrypt` of `XChaCha20Poly1305` (made from `key`).
#[verifier::external_body]
fn xchacha20poly1305_decrypt(key: &[u8], nonce: &[u8], ciphertext: &[u8]) -> (r: Option<Vec<u8>>)
    requires
        key@.len() == KEY_LEN,
        nonce@.len() == NONCE_LEN,
    ensures
        r matches Some(p) ==> xchacha20poly1305_open(key@, nonce@, ciphertext@) == Some(p@),
        r is None ==> xchacha20poly1305_open(key@, nonce@, ciphertext@) is None,
{
    XChaCha20Poly1305::new(Key::from_slice(key)).decrypt(XNonce::from_slice(nonce), ciphertext).ok()
}

/// An encrypted attachment and the nonce it was encrypted with.
#[derive(Debug)]
pub struct EncryptedAttachment {
    pub ciphertext: Vec<u8>,
    pub nonce: Vec<u8>,
}

#[derive(Debug, Clone, Copy, PartialEq, Eq, Structural)]
pub enum AttachmentCryptoError {
    Decrypt,
    Encrypt,
}

/// Why the contents of a key file are not a key.
#[derive(Debug, Clone, Copy, PartialEq, Eq, Structural)]
pub enum KeyFileError {
    /// Not an even number of hexadecimal digits.
    InvalidHex,
    /// Hexadecimal, but not of a 32-byte key.
    WrongLength,
}

/// The key that a key file holds: its trimmed contents read as hexadecimal,
/// which must give [`KEY_LEN`] bytes.
pub open spec fn key_file_key(contents: Seq<char>) -> Result<Seq<u8>, KeyFileError> {
    match hex_decoded(encode_utf8(trim(contents))) {
        None => Err(KeyFileError::InvalidHex),
        Some(bytes) => if bytes.len() == KEY_LEN {
            Ok(bytes)
        } else {
            Err(KeyFileError::WrongLength)
        },
    }
}

/// A key file that holds the hexadecimal form of a key, as
/// [`AttachmentCrypto::new_random`] gives it, reads back as that key.
pub proof fn lemma_key_file_roundtrip(key: Seq<u8>)
    requires
        key.len() == KEY_LEN,
    ensures
        key_file_key(hex_encoded(key)) == Ok::<Seq<u8>, KeyFileError>(key),
{
    let s = hex_encoded(key);
    lemma_hex_encoded_digits(key);
    assert(trim(s) == s) by {
        let last = s.len() - 1;
        assert(crate::encoding::is_lower_hex_digit(s[0]));
        assert(crate::encoding::is_lower_hex_digit(s[last]));
        assert(trim_start_class(s, CharClass::Whitespace) == s);
        assert(trim_end_class(s, CharClass::Whitespace) == s);
    }
    lemma_hex_roundtrip(key);
}

/// Reads a key from the contents of a key file.
pub fn decode_key(contents: &str) -> (key: Result<Vec<u8>, KeyFileError>)
    ensures
        match key {
            Ok(k) => key_file_key(contents@) == Ok::<Seq<u8>, KeyFileError>(k@),
            Err(e) => key_file_key(contents@) == Err::<Seq<u8>, KeyFileError>(e),
        },
{
    let trimmed = string_of(&trim_vec(&chars_of(contents)));
    match hex_decode(trimmed.as_str()) {
        None => Err(KeyFileError::InvalidHex),
        Some(bytes) => if bytes.len() == KEY_LEN {
            Ok(bytes)
        } else {
            Err(KeyFileError::WrongLength)
        },
    }
}

/// That `e` is `plaintext` encrypted under `key`: a nonce of the right
/// length, the ciphertext that the cipher makes with it ([`TAG_LEN`] bytes
/// longer than the plaintext), and one that the cipher opens back into
/// `plaintext`.
pub open spec fn sealed(key: Seq<u8>, plaintext: Seq<u8>, e: EncryptedAttachment) -> bool {
    &&& e.nonce@.len() == NONCE_LEN
    &&& e.ciphertext@.len() == plaintext.len() + TAG_LEN
    &&& e.ciphertext@ == xchacha20poly1305_seal(key, e.nonce@, plaintext)
    &&& xchacha20poly1305_open(key, e.nonce@, e.ciphertext@) == Some(plaintext)
}

/// What decrypting `ciphertext` under `key` and `nonce` gives.
pub open spec fn opened(key: Seq<u8>, nonce: Seq<u8>, ciphertext: Seq<u8>) -> Result<
    Seq<u8>,
    AttachmentCryptoError,
> {
    match xchacha20poly1305_open(key, nonce, ciphertext) {
        Some(p) => Ok(p),
        None => Err(AttachmentCryptoError::Decrypt),
    }
}

/// Decrypting an encrypted attachment with its nonce and the same key gives
/// back the plaintext; the ciphertext is [`TAG_LEN`] bytes longer than it.
pub proof fn lemma_decrypt_undoes_encrypt(key: Seq<u8>, plaintext: Seq<u8>, e: EncryptedAttachment)
    requires
        sealed(key, plaintext, e),
    ensures
        opened(key, e.nonce@, e.ciphertext@) == Ok::<Seq<u8>, AttachmentCryptoError>(plaintext),
        e.nonce@.len() == NONCE_LEN,
        e.ciphertext@.len() == plaintext.len() + TAG_LEN,
{
}

/// Encrypts and decrypts attachments with one key.
pub struct AttachmentCrypto {
    key: Vec<u8>,
}

impl AttachmentCrypto {
    /// The key.
    pub closed spec fn key(&self) -> Seq<u8> {
        self.key@
    }

    pub closed spec fn wf(&self) -> bool {
        self.key@.len() == KEY_LEN
    }

    /// The crypto for a key file's contents.
    pub fn from_key_file(contents: &str) -> (crypto: Result<Self, KeyFileError>)
        ensures
            match crypto {
                Ok(c) => c.wf() && key_file_key(contents@) == Ok::<Seq<u8>, KeyFileError>(c.key()),
                Err(e) => key_file_key(contents@) == Err::<Seq<u8>, KeyFileError>(e),
            },
    {
        match decode_key(contents) {
            Ok(key) => Ok(AttachmentCrypto { key }),
            Err(e) => Err(e),
        }
    }

    /// A crypto with a fresh random key, and the contents of the key file
    /// that holds it.
    pub fn new_random() -> (r: (Self, String))
        ensures
            r.0.wf(),
            r.1@ == hex_encoded(r.0.key()),
    {
        let key = generate_key();
        let contents = hex_encode(key.as_slice());
        (AttachmentCrypto { key }, contents)
    }

    /// Encrypts `plaintext` under a fresh random nonce.
    pub fn encrypt(&self, plaintext: &[u8]) -> (r: Result<EncryptedAttachment, AttachmentCryptoError>)
        requires
            self.wf(),
        ensures
            r is Ok <==> encryptable_len(plaintext@.len()),
            r matches Ok(e) ==> sealed(self.key(), plaintext@, e),
            r matches Err(err) ==> err == AttachmentCryptoError::Encrypt,
    {
        let nonce = generate_nonce();
        match xchacha20poly1305_encrypt(self.key.as_slice(), nonce.as_slice(), plaintext) {
            Some(ciphertext) => Ok(EncryptedAttachment { ciphertext, nonce }),
            None => Err(AttachmentCryptoError::Encrypt),
        }
    }

    /// Decrypts `ciphertext`, which must have been encrypted with `nonce`.
    pub fn decrypt(&self, ciphertext: &[u8], nonce: &[u8]) -> (r: Result<Vec<u8>, AttachmentCryptoError>)
        requires
            self.wf(),
            nonce@.len() == NONCE_LEN,
        ensures
            match r {
                Ok(q) => opened(self.key(), nonce@, ciphertext@) == Ok::<
                    Seq<u8>,
                    AttachmentCryptoError,
                >(q@),
                Err(e) => opened(self.key(), nonce@, ciphertext@) == Err::<
                    Seq<u8>,
                    AttachmentCryptoError,
                >(e),
            },
    {
        match xchacha20poly1305_decrypt(self.key.as_slice(), nonce, ciphertext) {
            Some(p) => Ok(p),
            None => Err(AttachmentCryptoError::Decrypt),
        }
    }
}

} // verus!
