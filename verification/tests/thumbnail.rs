use comm::attachment_crypto::AttachmentCrypto;
use comm::thumbnail::{
    create_thumbnail, random_stored_name, thumbnail_for_attachment, BackfillError,
    ThumbnailError, THUMBNAIL_MAX_SIDE, THUMBNAIL_MIME_TYPE,
};
use image::{ImageFormat, Rgb, RgbImage};

fn png(width: u32, height: u32) -> Vec<u8> {
    let mut image = RgbImage::new(width, height);
    for pixel in image.pixels_mut() {
        *pixel = Rgb([120, 40, 200]);
    }
    let mut png = Vec::new();
    image
        .write_to(&mut std::io::Cursor::new(&mut png), ImageFormat::Png)
        .unwrap();
    png
}

#[test]
fn create_thumbnail_outputs_jpeg() {
    let mut image = RgbImage::new(8, 8);
    for pixel in image.pixels_mut() {
        *pixel = Rgb([120, 40, 200]);
    }

    let mut png = Vec::new();
    image
        .write_to(&mut std::io::Cursor::new(&mut png), ImageFormat::Png)
        .unwrap();

    let thumbnail = create_thumbnail(&png).unwrap();

    assert!(thumbnail.starts_with(&[0xFF, 0xD8, 0xFF]));
}

#[test]
fn thumbnails_fit_the_maximum_side() {
    let thumbnail = create_thumbnail(&png(1600, 400)).unwrap();
    let decoded = image::load_from_memory(&thumbnail).unwrap();
    assert_eq!(decoded.width(), THUMBNAIL_MAX_SIDE);
    assert_eq!(decoded.height(), 180);
    assert_eq!(THUMBNAIL_MIME_TYPE, "image/jpeg");
}

#[test]
fn thumbnail_of_non_image_is_refused() {
    assert_eq!(
        create_thumbnail(b"definitely not an image").unwrap_err(),
        ThumbnailError::UnsupportedImage
    );
}

#[test]
fn stored_names_are_random_hex() {
    let a = random_stored_name();
    let b = random_stored_name();
    assert_eq!(a.len(), 68);
    assert!(a.ends_with(".bin"));
    assert!(a[..64].chars().all(|c| c.is_ascii_digit() || ('a'..='f').contains(&c)));
    assert_ne!(a, b);
}

#[test]
fn attachment_thumbnail_is_encrypted_with_the_same_key() {
    let (crypto, _) = AttachmentCrypto::new_random();
    let original = crypto.encrypt(&png(20, 10)).unwrap();
    let thumb = thumbnail_for_attachment(&crypto, &original.ciphertext, &original.nonce).unwrap();
    let plain = crypto
        .decrypt(&thumb.encrypted.ciphertext, &thumb.encrypted.nonce)
        .unwrap();
    assert_eq!(plain.len(), thumb.size_bytes);
    assert!(plain.starts_with(&[0xFF, 0xD8, 0xFF]));
}

#[test]
fn attachment_thumbnail_errors() {
    let (crypto, _) = AttachmentCrypto::new_random();
    let (other, _) = AttachmentCrypto::new_random();
    let original = crypto.encrypt(&png(4, 4)).unwrap();
    assert_eq!(
        thumbnail_for_attachment(&other, &original.ciphertext, &original.nonce).unwrap_err(),
        BackfillError::Decrypt
    );
    let not_image = crypto.encrypt(b"text").unwrap();
    assert_eq!(
        thumbnail_for_attachment(&crypto, &not_image.ciphertext, &not_image.nonce).unwrap_err(),
        BackfillError::Thumbnail(ThumbnailError::UnsupportedImage)
    );
}
