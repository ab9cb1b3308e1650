//! Tests of the key store: generation, the stored envelope, and rotation.

use airgap_sync::keychain::{
    generate_key, rotate_key, EncryptionKey, KeyMetadata, KeychainError, KeychainManager,
};
use airgap_sync::timestamp::UtcTime;

#[test]
fn keychain_test_key_generation() {
    let key = generate_key("AES-256", "test-device").unwrap();
    assert_eq!(key.key_material.len(), 32);
    assert_eq!(key.metadata.algorithm, "AES-256");
    assert_eq!(key.metadata.device_id, "test-device");
    assert_eq!(key.metadata.version, 1);
}

#[test]
fn test_key_generation_sizes() {
    assert_eq!(generate_key("AES-128", "d").unwrap().key_material.len(), 16);
    assert_eq!(generate_key("ChaCha20", "d").unwrap().key_material.len(), 32);
}

#[test]
fn test_key_generation_unknown_algorithm() {
    let r = generate_key("DES", "test-device");
    assert!(matches!(r, Err(KeychainError::UnsupportedAlgorithm(n)) if n == "DES"));
}

#[test]
fn test_key_metadata_serialization() {
    let metadata = KeyMetadata {
        algorithm: "AES-256".to_string(),
        created_at: UtcTime::new(2024, 1, 15, 10, 30, 0).unwrap(),
        rotated_at: None,
        version: 1,
        device_id: "USB001".to_string(),
    };
    let key = EncryptionKey { key_material: vec![7u8; 32], metadata };

    let mut store = KeychainManager::new();
    store.store_key("USB001", &key).unwrap();
    let deserialized = store.get_key("USB001").unwrap();

    assert_eq!(deserialized.metadata.algorithm, key.metadata.algorithm);
    assert_eq!(deserialized.metadata.device_id, key.metadata.device_id);
    assert_eq!(deserialized.metadata.version, key.metadata.version);
}

#[test]
fn test_keychain_store_retrieve() {
    let mut keychain = KeychainManager::new();
    let device_id = "test-device";

    let key = generate_key("AES-256", device_id).unwrap();
    keychain.store_key(device_id, &key).unwrap();

    let retrieved = keychain.get_key(device_id).unwrap();
    assert_eq!(retrieved.key_material, key.key_material);
    assert_eq!(retrieved.metadata.algorithm, key.metadata.algorithm);

    keychain.delete_key(device_id).unwrap();
    assert!(!keychain.key_exists(device_id));
}

#[test]
fn test_get_key_not_found() {
    let keychain = KeychainManager::new();
    let r = keychain.get_key("missing");
    assert!(matches!(r, Err(KeychainError::KeyNotFound)));
}

#[test]
fn test_delete_key_not_found() {
    let mut keychain = KeychainManager::new();
    let r = keychain.delete_key("missing");
    assert!(matches!(r, Err(KeychainError::KeyNotFound)));
}

#[test]
fn test_key_rotation() {
    let mut keychain = KeychainManager::with_service_name("com.airgapsync.test".to_string());
    let device_id = "USB001";

    let key = generate_key("AES-256", device_id).unwrap();
    keychain.store_key(device_id, &key).unwrap();

    let rotated = rotate_key(&mut keychain, device_id).unwrap();
    assert_eq!(rotated.metadata.version, 2);
    assert_eq!(rotated.metadata.created_at, key.metadata.created_at);
    assert!(rotated.metadata.rotated_at.is_some());
    assert_ne!(rotated.key_material, key.key_material);

    let read_back = keychain.get_key(device_id).unwrap();
    assert_eq!(read_back.metadata.version, 2);
    assert_eq!(read_back.key_material, rotated.key_material);
}

#[test]
fn test_rotate_key_not_found() {
    let mut keychain = KeychainManager::new();
    let r = rotate_key(&mut keychain, "missing");
    assert!(matches!(r, Err(KeychainError::KeyNotFound)));
}

#[test]
fn test_list_devices() {
    let mut keychain = KeychainManager::new();
    assert!(keychain.list_devices().unwrap().is_empty());

    let k1 = generate_key("AES-256", "USB001").unwrap();
    let k2 = generate_key("ChaCha20", "USB002").unwrap();
    keychain.store_key("USB001", &k1).unwrap();
    keychain.store_key("USB002", &k2).unwrap();

    let mut devices = keychain.list_devices().unwrap();
    devices.sort();
    assert_eq!(devices, vec!["USB001".to_string(), "USB002".to_string()]);
}

#[test]
fn test_update_metadata() {
    let mut keychain = KeychainManager::new();
    let key = generate_key("AES-256", "USB001").unwrap();
    keychain.store_key("USB001", &key).unwrap();

    let new_metadata = KeyMetadata {
        algorithm: "AES-256".to_string(),
        created_at: key.metadata.created_at,
        rotated_at: Some(UtcTime::new(2025, 6, 1, 12, 0, 0).unwrap()),
        version: 5,
        device_id: "USB001".to_string(),
    };
    keychain.update_metadata("USB001", new_metadata).unwrap();

    let read_back = keychain.get_key("USB001").unwrap();
    assert_eq!(read_back.metadata.version, 5);
    assert_eq!(read_back.key_material, key.key_material);
    assert_eq!(
        read_back.metadata.rotated_at,
        Some(UtcTime::new(2025, 6, 1, 12, 0, 0).unwrap())
    );
}

#[test]
fn test_store_replaces_existing() {
    let mut keychain = KeychainManager::new();
    let k1 = generate_key("AES-256", "USB001").unwrap();
    let k2 = generate_key("AES-128", "USB001").unwrap();
    keychain.store_key("USB001", &k1).unwrap();
    keychain.store_key("USB001", &k2).unwrap();
    let read_back = keychain.get_key("USB001").unwrap();
    assert_eq!(read_back.key_material.len(), 16);
    assert_eq!(keychain.list_devices().unwrap().len(), 1);
}

#[test]
fn test_store_escapes_metadata_strings() {
    let metadata = KeyMetadata {
        algorithm: "AES-256".to_string(),
        created_at: UtcTime::new(2024, 1, 1, 0, 0, 0).unwrap(),
        rotated_at: None,
        version: 1,
        device_id: "has a \"quote\" and a \\backslash".to_string(),
    };
    let key = EncryptionKey { key_material: vec![1u8; 32], metadata };
    let mut store = KeychainManager::new();
    store.store_key("dev", &key).unwrap();
    let read_back = store.get_key("dev").unwrap();
    assert_eq!(read_back.metadata.device_id, "has a \"quote\" and a \\backslash");
    assert_eq!(read_back.key_material, vec![1u8; 32]);
}

#[test]
fn test_store_rejects_control_characters() {
    let metadata = KeyMetadata {
        algorithm: "AES-256".to_string(),
        created_at: UtcTime::new(2024, 1, 1, 0, 0, 0).unwrap(),
        rotated_at: None,
        version: 1,
        device_id: "line\nbreak".to_string(),
    };
    let key = EncryptionKey { key_material: vec![1u8; 32], metadata };
    let mut store = KeychainManager::new();
    let r = store.store_key("dev", &key);
    assert!(matches!(r, Err(KeychainError::EncodingError(_))));
}

#[test]
fn test_timestamp_validation() {
    assert!(UtcTime::new(2024, 2, 29, 23, 59, 59).is_some());
    assert!(UtcTime::new(2024, 13, 1, 0, 0, 0).is_none());
    assert!(UtcTime::new(2024, 0, 1, 0, 0, 0).is_none());
    assert!(UtcTime::new(2024, 1, 1, 24, 0, 0).is_none());
    assert!(UtcTime::new(999, 1, 1, 0, 0, 0).is_none());
}
