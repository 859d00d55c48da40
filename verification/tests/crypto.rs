use k1f_bot::crypto::{
    decrypt, derive_key, encrypt, random_bytes, seal_with_nonce, CryptoError, SecretKey, KEY_LEN, NONCE_LEN,
    SALT_LEN, TAG_LEN,
};

fn key_from(pass: &str, salt: &[u8]) -> SecretKey {
    derive_key(pass.as_bytes(), salt).unwrap()
}

#[test]
fn round_trip() {
    let key = key_from("correct horse battery staple", &[0u8; SALT_LEN]);
    let pt = b"hello, context";
    let blob = encrypt(&key, pt).unwrap();
    let recovered = decrypt(&key, &blob).unwrap();
    assert_eq!(recovered, pt);
}

#[test]
fn wrong_passphrase_fails_to_decrypt() {
    let salt = random_bytes(SALT_LEN);
    let key_a = key_from("passphrase-one", &salt);
    let key_b = key_from("passphrase-two", &salt);

    let blob = encrypt(&key_a, b"secret").unwrap();
    assert!(decrypt(&key_b, &blob).is_err());
}

#[test]
fn same_plaintext_yields_different_ciphertext() {
    let key = key_from("pass", &[1u8; SALT_LEN]);
    let a = encrypt(&key, b"identical").unwrap();
    let b = encrypt(&key, b"identical").unwrap();
    assert_ne!(a, b);
    assert_eq!(decrypt(&key, &a).unwrap(), b"identical");
    assert_eq!(decrypt(&key, &b).unwrap(), b"identical");
}

#[test]
fn derive_key_is_deterministic_for_same_inputs() {
    let salt = random_bytes(SALT_LEN);
    let k1 = derive_key(b"same-pass", &salt).unwrap();
    let k2 = derive_key(b"same-pass", &salt).unwrap();
    assert_eq!(k1.as_bytes(), k2.as_bytes());
}

#[test]
fn corrupted_blob_fails() {
    let key = key_from("p", &[2u8; SALT_LEN]);
    let mut blob = encrypt(&key, b"data").unwrap();
    let last = blob.len() - 1;
    blob[last] ^= 0xff;
    assert!(decrypt(&key, &blob).is_err());
}

#[test]
fn blob_layout_is_nonce_ciphertext_tag() {
    let key = key_from("layout", &[3u8; SALT_LEN]);
    let blob = encrypt(&key, b"twelve bytes").unwrap();
    assert_eq!(blob.len(), NONCE_LEN + 12 + TAG_LEN);
    assert_eq!(key.as_bytes().len(), KEY_LEN);
}

#[test]
fn fixed_nonce_sealing_is_deterministic_and_prefixed() {
    let key = key_from("fixed", &[4u8; SALT_LEN]);
    let nonce = [7u8; NONCE_LEN];
    let a = seal_with_nonce(&key, &nonce, b"same").unwrap();
    let b = seal_with_nonce(&key, &nonce, b"same").unwrap();
    assert_eq!(a, b);
    assert_eq!(&a[..NONCE_LEN], &nonce);
    assert_ne!(&a[NONCE_LEN..NONCE_LEN + 4], b"same");
    assert_eq!(decrypt(&key, &a).unwrap(), b"same");
}

#[test]
fn short_blob_reports_nonce_length() {
    let key = key_from("short", &[5u8; SALT_LEN]);
    match decrypt(&key, &[1, 2, 3]) {
        Err(CryptoError::NonceLen { expected, actual }) => {
            assert_eq!(expected, NONCE_LEN);
            assert_eq!(actual, 3);
        }
        other => panic!("unexpected: {other:?}"),
    }
    // A blob of exactly a nonce has no tag: authentication fails.
    assert!(matches!(decrypt(&key, &[0u8; NONCE_LEN]), Err(CryptoError::Decrypt)));
}

#[test]
fn short_salt_is_a_kdf_error() {
    assert!(matches!(derive_key(b"pw", &[0u8; 7]), Err(CryptoError::Kdf(_))));
    assert!(derive_key(b"pw", &[0u8; 8]).is_ok());
}

#[test]
fn random_bytes_has_requested_length() {
    assert_eq!(random_bytes(0).len(), 0);
    assert_eq!(random_bytes(SALT_LEN).len(), SALT_LEN);
}

#[test]
fn crypto_errors_have_messages() {
    assert_eq!(CryptoError::Decrypt.message(), "Decryption failed (wrong key or corrupted data)");
    assert_eq!(
        CryptoError::NonceLen { expected: 12, actual: 3 }.message(),
        "Invalid nonce length: expected 12, got 3"
    );
    let err = derive_key(b"pw", b"short").unwrap_err();
    assert!(err.message().starts_with("Key derivation failed: "));
}

#[test]
fn blobs_too_short_for_the_tag_do_not_decrypt() {
    let key = key_from("short blobs", &[0u8; SALT_LEN]);
    for len in NONCE_LEN..NONCE_LEN + TAG_LEN {
        assert!(matches!(decrypt(&key, &vec![0u8; len]), Err(CryptoError::Decrypt)));
    }
    let blob = encrypt(&key, b"abc").unwrap();
    assert_eq!(decrypt(&key, &blob).unwrap().len() + NONCE_LEN + TAG_LEN, blob.len());
}
