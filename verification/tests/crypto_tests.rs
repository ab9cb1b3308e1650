//! Tests of the symmetric data path.

use airgap_sync::crypto::{
    decrypt, encrypt, generate_salt, secure_compare, Algorithm, CryptoError, CryptoKey,
};

#[test]
fn crypto_test_key_generation() {
    let key = CryptoKey::generate(Algorithm::Aes256Gcm).unwrap();
    assert_eq!(key.key().len(), 32);
    assert_eq!(key.algorithm(), Algorithm::Aes256Gcm);
}

#[test]
fn test_key_derivation() {
    let password = b"test password";
    let salt = b"test salt";
    let key =
        CryptoKey::derive_from_password(password, salt, 100_000, Algorithm::Aes256Gcm).unwrap();

    assert_eq!(key.key().len(), 32);

    let key2 =
        CryptoKey::derive_from_password(password, salt, 100_000, Algorithm::Aes256Gcm).unwrap();

    assert_eq!(key.key(), key2.key());
}

#[test]
fn test_key_derivation_known_vector() {
    // PBKDF2-HMAC-SHA256("password", "salt", 1 iteration, 32 bytes)
    let key = CryptoKey::derive_from_password(b"password", b"salt", 1, Algorithm::Aes256Gcm)
        .unwrap();
    let expected: [u8; 32] = [
        0x12, 0x0f, 0xb6, 0xcf, 0xfc, 0xf8, 0xb3, 0x2c, 0x43, 0xe7, 0x22, 0x52, 0x56, 0xc4, 0xf8,
        0x37, 0xa8, 0x65, 0x48, 0xc9, 0x2c, 0xcc, 0x35, 0x48, 0x08, 0x05, 0x98, 0x7c, 0xb7, 0x0b,
        0xe1, 0x7b,
    ];
    assert_eq!(key.key(), &expected);
}

#[test]
fn test_zero_iterations_rejected() {
    let r = CryptoKey::derive_from_password(b"pw", b"salt", 0, Algorithm::Aes256Gcm);
    assert!(matches!(r, Err(CryptoError::KeyDerivationFailed)));
}

#[test]
fn test_encrypt_decrypt_aes() {
    let key = CryptoKey::generate(Algorithm::Aes256Gcm).unwrap();
    let plaintext = b"Hello, World! This is a test message.";
    let aad = b"additional authenticated data";

    let ciphertext = encrypt(&key, plaintext, aad).unwrap();
    assert!(ciphertext.len() > plaintext.len());

    let decrypted = decrypt(&key, &ciphertext, aad).unwrap();
    assert_eq!(decrypted, plaintext);
}

#[test]
fn test_encrypt_decrypt_chacha() {
    let key = CryptoKey::generate(Algorithm::ChaCha20Poly1305).unwrap();
    let plaintext = b"Testing ChaCha20-Poly1305 encryption";
    let aad = b"metadata";

    let ciphertext = encrypt(&key, plaintext, aad).unwrap();

    let decrypted = decrypt(&key, &ciphertext, aad).unwrap();
    assert_eq!(decrypted, plaintext);
}

#[test]
fn test_decrypt_with_wrong_key() {
    let key1 = CryptoKey::generate(Algorithm::Aes256Gcm).unwrap();
    let key2 = CryptoKey::generate(Algorithm::Aes256Gcm).unwrap();
    let plaintext = b"Secret message";
    let aad = b"";

    let ciphertext = encrypt(&key1, plaintext, aad).unwrap();

    let result = decrypt(&key2, &ciphertext, aad);
    assert!(result.is_err());
}

#[test]
fn test_decrypt_with_wrong_aad() {
    let key = CryptoKey::generate(Algorithm::Aes256Gcm).unwrap();
    let plaintext = b"Secret message";
    let aad1 = b"aad1";
    let aad2 = b"aad2";

    let ciphertext = encrypt(&key, plaintext, aad1).unwrap();

    let result = decrypt(&key, &ciphertext, aad2);
    assert!(result.is_err());
}

#[test]
fn test_encrypt_fresh_nonce() {
    let key = CryptoKey::generate(Algorithm::Aes256Gcm).unwrap();
    let plaintext = b"same plaintext";
    let aad = b"same aad";
    let c1 = encrypt(&key, plaintext, aad).unwrap();
    let c2 = encrypt(&key, plaintext, aad).unwrap();
    assert_ne!(c1, c2);
    assert_eq!(decrypt(&key, &c1, aad).unwrap(), plaintext);
    assert_eq!(decrypt(&key, &c2, aad).unwrap(), plaintext);
}

#[test]
fn test_decrypt_short_input() {
    let key = CryptoKey::generate(Algorithm::Aes256Gcm).unwrap();
    // shorter than nonce plus tag
    let short = vec![0u8; 27];
    let result = decrypt(&key, &short, b"");
    assert!(matches!(result, Err(CryptoError::DecryptionFailed)));
}

#[test]
fn test_invalid_key_length() {
    let r = CryptoKey::new(vec![0u8; 16], Algorithm::Aes256Gcm);
    assert!(matches!(r, Err(CryptoError::InvalidKeyLength)));
    let ok = CryptoKey::new(vec![0u8; 32], Algorithm::ChaCha20Poly1305);
    assert!(ok.is_ok());
}

#[test]
fn test_generate_salt() {
    let s1 = generate_salt().unwrap();
    let s2 = generate_salt().unwrap();
    assert_eq!(s1.len(), 32);
    assert_eq!(s2.len(), 32);
    assert_ne!(s1, s2);
}

#[test]
fn test_secure_compare() {
    let a = b"hello";
    let b = b"hello";
    let c = b"world";

    assert!(secure_compare(a, b));
    assert!(!secure_compare(a, c));
}

#[test]
fn test_secure_compare_lengths() {
    assert!(!secure_compare(b"abc", b"abcd"));
    assert!(secure_compare(b"", b""));
}

#[test]
fn test_algorithm_sizes() {
    assert_eq!(Algorithm::Aes256Gcm.key_size(), 32);
    assert_eq!(Algorithm::Aes256Gcm.nonce_size(), 12);
    assert_eq!(Algorithm::Aes256Gcm.tag_size(), 16);
    assert_eq!(Algorithm::ChaCha20Poly1305.key_size(), 32);
    assert_eq!(Algorithm::ChaCha20Poly1305.nonce_size(), 12);
    assert_eq!(Algorithm::ChaCha20Poly1305.tag_size(), 16);
}
