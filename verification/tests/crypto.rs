use akc::crypto::{
    decrypt_payload, encrypt_payload, encrypt_payload_with, frame_payload, CryptoError, HEADER_LEN,
    NONCE_LEN, SALT_LEN, TAG_LEN,
};

#[test]
fn roundtrip() {
    let data = b"hello world";
    let encrypted = encrypt_payload(data, "pass").unwrap();
    let decrypted = decrypt_payload(&encrypted, "pass").unwrap();
    assert_eq!(decrypted, data);
}

#[test]
fn wrong_password_fails() {
    let encrypted = encrypt_payload(b"secret", "right").unwrap();
    assert!(decrypt_payload(&encrypted, "wrong").is_err());
}

#[test]
fn tampered_ciphertext_fails() {
    let mut encrypted = encrypt_payload(b"secret", "pass").unwrap();
    let last = encrypted.len() - 1;
    encrypted[last] ^= 0xFF;
    assert!(decrypt_payload(&encrypted, "pass").is_err());
}

#[test]
fn tampered_salt_fails() {
    let mut encrypted = encrypt_payload(b"secret", "pass").unwrap();
    encrypted[0] ^= 0xFF;
    assert!(decrypt_payload(&encrypted, "pass").is_err());
}

#[test]
fn truncated_file_fails() {
    assert!(decrypt_payload(&[0u8; 10], "pass").is_err());
}

#[test]
fn different_salts_produce_different_ciphertexts() {
    let a = encrypt_payload(b"same", "pass").unwrap();
    let b = encrypt_payload(b"same", "pass").unwrap();
    assert_ne!(a, b);
}

#[test]
fn truncated_file_error_kind() {
    assert_eq!(decrypt_payload(&[0u8; 43], "pass"), Err(CryptoError::Truncated));
}

#[test]
fn header_only_payload_is_rejected_by_authentication() {
    assert_eq!(
        decrypt_payload(&[0u8; 44], "pass"),
        Err(CryptoError::WrongPasswordOrCorrupted)
    );
}

#[test]
fn payload_layout_and_length() {
    let salt = [7u8; SALT_LEN];
    let nonce = [9u8; NONCE_LEN];
    let out = encrypt_payload_with(b"abc", "pw", &salt, &nonce).unwrap();
    assert_eq!(out.len(), HEADER_LEN + 3 + TAG_LEN);
    assert_eq!(&out[..SALT_LEN], &salt[..]);
    assert_eq!(&out[SALT_LEN..HEADER_LEN], &nonce[..]);
    assert_ne!(&out[HEADER_LEN..HEADER_LEN + 3], b"abc");
    assert_eq!(decrypt_payload(&out, "pw").unwrap(), b"abc".to_vec());
}

#[test]
fn fixed_salt_and_nonce_are_deterministic() {
    let salt = [1u8; SALT_LEN];
    let nonce = [2u8; NONCE_LEN];
    let a = encrypt_payload_with(b"", "pw", &salt, &nonce).unwrap();
    let b = encrypt_payload_with(b"", "pw", &salt, &nonce).unwrap();
    assert_eq!(a, b);
    assert_eq!(a.len(), HEADER_LEN + TAG_LEN);
    assert_ne!(&a[HEADER_LEN..], &[0u8; TAG_LEN][..]);
}

#[test]
fn frame_concatenates_parts() {
    let out = frame_payload(&[1, 2], &[3], &[4, 5, 6]);
    assert_eq!(out, vec![1, 2, 3, 4, 5, 6]);
}

#[test]
fn payload_with_other_salt_or_nonce_is_rejected() {
    let salt = [3u8; SALT_LEN];
    let nonce = [4u8; NONCE_LEN];
    let mut out = encrypt_payload_with(b"data", "pw", &salt, &nonce).unwrap();
    out[SALT_LEN] ^= 1;
    assert_eq!(decrypt_payload(&out, "pw"), Err(CryptoError::WrongPasswordOrCorrupted));
}
