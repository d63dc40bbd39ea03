//! Thumbnails of photo attachments: a small JPEG made from the uploaded
//! image, stored encrypted beside it under a random name.
use vstd::prelude::*;

use crate::attachment_crypto::{
    encryptable_len, opened, sealed, AttachmentCrypto, AttachmentCryptoError, EncryptedAttachment, NONCE_LEN,
};
use crate::encoding::{hex_encode, hex_encoded, random_bytes_32};
use crate::text::{chars_of, extend_str, string_of};

verus! {

/// The longest side of a thumbnail, in pixels.
pub const THUMBNAIL_MAX_SIDE: u32 = 720;

/// The JPEG quality of thumbnails.
pub const THUMBNAIL_QUALITY: u8 = 74;

/// The MIME type of thumbnails.
pub const THUMBNAIL_MIME_TYPE: &'static str = "image/jpeg";

/// Why no thumbnail could be made.
#[derive(Debug, Clone, Copy, PartialEq, Eq, Structural)]
pub enum ThumbnailError {
    /// The bytes are not an image that `image` can read.
    UnsupportedImage,
    /// The JPEG encoder refused the scaled image.
    Encode,
}

/// What `image` makes of `bytes`: the image scaled to fit in a square of
/// `max_side` pixels, keeping its proportions, as a JPEG of `quality`.
pub uninterp spec fn jpeg_thumbnail(bytes: Seq<u8>, max_side: u32, quality: u8) -> Result<
    Seq<u8>,
    ThumbnailError,
>;

/// `image::load_from_memory`, `DynamicImage::thumbnail` and
/// `JpegEncoder::encode_image` into an empty buffer.  Claimed beyond the
/// name: a JPEG starts with the start-of-image marker `FF D8`, which
/// `encode_image` writes first, followed by the `FF` of the next segment.
#[verifier::external_body]
fn encode_thumbnail(bytes: &[u8], max_side: u32, quality: u8) -> (r: Result<Vec<u8>, ThumbnailError>)
    ensures
        match r {
            Ok(t) => jpeg_thumbnail(bytes@, max_side, quality) == Ok::<Seq<u8>, ThumbnailError>(
                t@,
            ) && t@.len() >= 3 && t@[0] == 0xFF && t@[1] == 0xD8 && t@[2] == 0xFF,
            Err(e) => jpeg_thumbnail(bytes@, max_side, quality) == Err::<Seq<u8>, ThumbnailError>(
                e,
            ),
        },
{
    let decoded = match image::load_from_memory(bytes) {
        Ok(d) => d,
        Err(_) => return Err(ThumbnailError::UnsupportedImage),
    };
    let small = decoded.thumbnail(max_side, max_side);
    let mut output = Vec::new();
    let mut encoder = image::codecs::jpeg::JpegEncoder::new_with_quality(&mut output, quality);
    match encoder.encode_image(&small) {
        Ok(()) => Ok(output),
        Err(_) => Err(ThumbnailError::Encode),
    }
}

/// The thumbnail of an uploaded image: at most [`THUMBNAIL_MAX_SIDE`] pixels
/// on its longer side, as a JPEG of quality [`THUMBNAIL_QUALITY`].
pub fn create_thumbnail(bytes: &[u8]) -> (r: Result<Vec<u8>, ThumbnailError>)
    ensures
        match r {
            Ok(t) => jpeg_thumbnail(bytes@, THUMBNAIL_MAX_SIDE, THUMBNAIL_QUALITY) == Ok::<
                Seq<u8>,
                ThumbnailError,
            >(t@) && t@.len() >= 3 && t@[0] == 0xFF && t@[1] == 0xD8 && t@[2] == 0xFF,
            Err(e) => jpeg_thumbnail(bytes@, THUMBNAIL_MAX_SIDE, THUMBNAIL_QUALITY) == Err::<
                Seq<u8>,
                ThumbnailError,
            >(e),
        },
{
    encode_thumbnail(bytes, THUMBNAIL_MAX_SIDE, THUMBNAIL_QUALITY)
}

/// Whether `name` could be the name of a stored file: 32 random bytes in
/// lower-case hexadecimal, then `.bin`.
pub open spec fn is_stored_name(name: Seq<char>) -> bool {
    exists|bytes: Seq<u8>| bytes.len() == 32 && name == hex_encoded(bytes) + ".bin"@
}

/// A fresh random name for a stored file.
pub fn random_stored_name() -> (name: String)
    ensures
        is_stored_name(name@),
{
    let bytes = random_bytes_32();
    let hex = hex_encode(bytes.as_slice());
    let mut name = chars_of(hex.as_str());
    extend_str(&mut name, ".bin");
    assert(name@ == hex_encoded(bytes@) + ".bin"@);
    string_of(&name)
}

/// Why an attachment got no thumbnail.
#[derive(Debug, Clone, Copy, PartialEq, Eq, Structural)]
pub enum BackfillError {
    /// The stored file could not be decrypted.
    Decrypt,
    /// No thumbnail could be made of the image.
    Thumbnail(ThumbnailError),
    /// The thumbnail could not be encrypted.
    Encrypt,
}

/// An encrypted thumbnail, and the size of the thumbnail before encryption.
#[derive(Debug)]
pub struct EncryptedThumbnail {
    pub encrypted: EncryptedAttachment,
    pub size_bytes: usize,
}

/// The encrypted thumbnail of a stored attachment: the attachment is
/// decrypted with its nonce, scaled down, and the thumbnail encrypted under a
/// fresh nonce with the same key.
pub fn thumbnail_for_attachment(crypto: &AttachmentCrypto, ciphertext: &[u8], nonce: &[u8]) -> (r:
    Result<EncryptedThumbnail, BackfillError>)
    requires
        crypto.wf(),
        nonce@.len() == NONCE_LEN,
    ensures
        match opened(crypto.key(), nonce@, ciphertext@) {
            Err(_) => r == Err::<EncryptedThumbnail, BackfillError>(BackfillError::Decrypt),
            Ok(image) => match jpeg_thumbnail(image, THUMBNAIL_MAX_SIDE, THUMBNAIL_QUALITY) {
                Err(e) => r == Err::<EncryptedThumbnail, BackfillError>(
                    BackfillError::Thumbnail(e),
                ),
                Ok(thumbnail) => match r {
                    Ok(t) => sealed(crypto.key(), thumbnail, t.encrypted) && t.size_bytes
                        == thumbnail.len(),
                    Err(e) => e == BackfillError::Encrypt && !encryptable_len(thumbnail.len()),
                },
            },
        },
{
    let image = match crypto.decrypt(ciphertext, nonce) {
        Ok(image) => image,
        Err(_) => return Err(BackfillError::Decrypt),
    };
    let thumbnail = match create_thumbnail(image.as_slice()) {
        Ok(t) => t,
        Err(e) => return Err(BackfillError::Thumbnail(e)),
    };
    match crypto.encrypt(thumbnail.as_slice()) {
        Ok(encrypted) => Ok(EncryptedThumbnail { encrypted, size_bytes: thumbnail.len() }),
        Err(_) => Err(BackfillError::Encrypt),
    }
}

} // verus!
