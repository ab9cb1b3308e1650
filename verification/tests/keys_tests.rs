//! Tests of asymmetric keys, signatures, hashing and key agreement.

use airgap_sync::keys::{AsymmetricAlgorithm, AsymmetricKey, KeyAgreement, KeyError};

#[test]
fn test_rsa_key_generation() {
    let key = AsymmetricKey::generate(AsymmetricAlgorithm::Rsa2048).unwrap();
    assert_eq!(key.algorithm, AsymmetricAlgorithm::Rsa2048);
    assert!(!key.private_key_bytes().is_empty());
    assert!(!key.public_key_bytes().is_empty());
}

#[test]
fn test_ecdsa_key_generation() {
    let key = AsymmetricKey::generate(AsymmetricAlgorithm::EcdsaP256).unwrap();
    assert_eq!(key.algorithm, AsymmetricAlgorithm::EcdsaP256);
    assert!(!key.private_key_bytes().is_empty());
    assert!(!key.public_key_bytes().is_empty());
}

#[test]
fn test_sign_verify_rsa() {
    let key = AsymmetricKey::generate(AsymmetricAlgorithm::Rsa2048).unwrap();
    let data = b"test message";

    let signature = key.sign(data).unwrap();
    assert!(key.verify(data, &signature).is_ok());

    assert!(key.verify(b"wrong message", &signature).is_err());

    // PKCS#1 v1.5 signing is deterministic and one modulus in length
    assert_eq!(signature.len(), 256);
    let signature2 = key.sign(data).unwrap();
    assert_eq!(signature, signature2);
}

#[test]
fn test_sign_verify_ecdsa() {
    let key = AsymmetricKey::generate(AsymmetricAlgorithm::EcdsaP256).unwrap();
    let data = b"test message";

    let signature = key.sign(data).unwrap();
    assert!(key.verify(data, &signature).is_ok());

    let mut bad_sig = signature.clone();
    bad_sig[0] ^= 0xFF;
    assert!(key.verify(data, &bad_sig).is_err());
}

#[test]
fn test_sign_verify_p384() {
    let key = AsymmetricKey::generate(AsymmetricAlgorithm::EcdsaP384).unwrap();
    let data = b"p384 message";
    let signature = key.sign(data).unwrap();
    assert!(key.verify(data, &signature).is_ok());
    let mut bad = data.to_vec();
    bad[0] ^= 0x01;
    assert!(key.verify(&bad, &signature).is_err());
}

#[test]
fn test_public_key_pem() {
    let key = AsymmetricKey::generate(AsymmetricAlgorithm::EcdsaP256).unwrap();
    let pem = key.public_key_pem();

    assert!(pem.starts_with("-----BEGIN PUBLIC KEY-----"));
    assert!(pem.ends_with("-----END PUBLIC KEY-----"));
    for line in pem.lines() {
        assert!(line.len() <= 64);
    }
}

#[test]
fn test_compute_hash_known_vector() {
    let key = AsymmetricKey::generate(AsymmetricAlgorithm::EcdsaP256).unwrap();
    // SHA-256("abc")
    let digest = key.compute_hash(b"abc");
    let expected: [u8; 32] = [
        0xba, 0x78, 0x16, 0xbf, 0x8f, 0x01, 0xcf, 0xea, 0x41, 0x41, 0x40, 0xde, 0x5d, 0xae, 0x22,
        0x23, 0xb0, 0x03, 0x61, 0xa3, 0x96, 0x17, 0x7a, 0x9c, 0xb4, 0x10, 0xff, 0x61, 0xf2, 0x00,
        0x15, 0xad,
    ];
    assert_eq!(digest, expected.to_vec());
    assert_eq!(key.hash_algorithm(), "SHA-256");

    let key384 = AsymmetricKey::generate(AsymmetricAlgorithm::EcdsaP384).unwrap();
    assert_eq!(key384.compute_hash(b"abc").len(), 48);
    assert_eq!(key384.hash_algorithm(), "SHA-384");
}

#[test]
fn test_sign_verify_hash_ecdsa() {
    let key = AsymmetricKey::generate(AsymmetricAlgorithm::EcdsaP256).unwrap();
    let hash = key.compute_hash(b"some payload");
    let signature = key.sign_hash(&hash).unwrap();
    assert!(key.verify_hash(&hash, &signature).is_ok());
    let mut bad = hash.clone();
    bad[0] ^= 0x01;
    assert!(key.verify_hash(&bad, &signature).is_err());
}

#[test]
fn test_algorithm_names() {
    assert_eq!(AsymmetricAlgorithm::Rsa2048.as_str(), "RSA-2048");
    assert_eq!(AsymmetricAlgorithm::Rsa4096.as_str(), "RSA-4096");
    assert_eq!(AsymmetricAlgorithm::EcdsaP256.as_str(), "ECDSA-P256");
    assert_eq!(AsymmetricAlgorithm::EcdsaP384.as_str(), "ECDSA-P384");
}

#[test]
fn test_ecdh_agreement() {
    let key1 = AsymmetricKey::generate(AsymmetricAlgorithm::EcdsaP256).unwrap();
    let key2 = AsymmetricKey::generate(AsymmetricAlgorithm::EcdsaP256).unwrap();

    let agreement1 = KeyAgreement::from_key(&key1).unwrap();
    let agreement2 = KeyAgreement::from_key(&key2).unwrap();

    let shared1 = agreement1.agree(key2.public_key_bytes()).unwrap();
    let shared2 = agreement2.agree(key1.public_key_bytes()).unwrap();

    assert_eq!(shared1, shared2);
    assert_eq!(shared1.len(), 32);
}

#[test]
fn test_ecdh_p384() {
    let key1 = AsymmetricKey::generate(AsymmetricAlgorithm::EcdsaP384).unwrap();
    let key2 = AsymmetricKey::generate(AsymmetricAlgorithm::EcdsaP384).unwrap();
    let shared1 = KeyAgreement::from_key(&key1).unwrap().agree(key2.public_key_bytes()).unwrap();
    let shared2 = KeyAgreement::from_key(&key2).unwrap().agree(key1.public_key_bytes()).unwrap();
    assert_eq!(shared1, shared2);
    assert_eq!(shared1.len(), 48);
}

#[test]
fn test_rsa_verify_malformed_signature() {
    let key = AsymmetricKey::generate(AsymmetricAlgorithm::Rsa2048).unwrap();
    // far too short to be a PKCS#1 v1.5 signature for this modulus
    let r = key.verify(b"data", &[1, 2, 3, 4, 5]);
    assert!(matches!(r, Err(KeyError::VerificationFailed)));
}

#[test]
fn test_agree_rejects_invalid_peer() {
    let key = AsymmetricKey::generate(AsymmetricAlgorithm::EcdsaP256).unwrap();
    let agreement = KeyAgreement::from_key(&key).unwrap();
    let r = agreement.agree(&[1, 2, 3]);
    assert!(matches!(r, Err(KeyError::InvalidFormat)));
}

#[test]
fn test_key_agreement_rejects_rsa() {
    let key = AsymmetricKey::generate(AsymmetricAlgorithm::Rsa2048).unwrap();
    let r = KeyAgreement::from_key(&key);
    assert!(matches!(r, Err(KeyError::UnsupportedAlgorithm(_))));
}
