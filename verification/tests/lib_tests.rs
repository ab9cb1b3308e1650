//! Tests of the crate root and the error surface.

use airgap_sync::crypto::{decrypt, encrypt, Algorithm, CryptoKey};
use airgap_sync::schema::{generate_config_docs, generate_markdown_docs};
use airgap_sync::{get_info, version_meets_minimum, VERSION};

#[test]
fn test_get_info() {
    let info = get_info();
    assert!(info.contains("AirGapSync"));
    assert!(info.contains(VERSION));
}

#[test]
fn test_version_meets_minimum() {
    assert!(version_meets_minimum(10, 15));
    assert!(version_meets_minimum(11, 0));
    assert!(version_meets_minimum(14, 2));
    assert!(!version_meets_minimum(10, 14));
    assert!(!version_meets_minimum(9, 99));
}

#[test]
fn test_error_handling() {
    let key1 = CryptoKey::generate(Algorithm::Aes256Gcm).unwrap();
    let key2 = CryptoKey::generate(Algorithm::Aes256Gcm).unwrap();

    let plaintext = b"Secret data";
    let ciphertext = encrypt(&key1, plaintext, b"").unwrap();

    assert!(decrypt(&key2, &ciphertext, b"").is_err());

    let bad_key = CryptoKey::new(vec![0u8; 16], Algorithm::Aes256Gcm);
    assert!(bad_key.is_err());
}

#[test]
fn test_config_docs() {
    let docs = generate_config_docs();
    assert_eq!(docs.len(), 10);
    assert_eq!(docs[0].field, "general.verbose");
    assert!(docs[3].required);
    assert_eq!(docs[9].default, Some("full".to_string()));
}

#[test]
fn test_markdown_docs() {
    let md = generate_markdown_docs();
    assert!(md.starts_with("# Configuration Reference"));
    assert!(md.contains("| `general.verbose` | boolean | No | false | Enable verbose logging output |"));
    assert!(md.contains("## Example Configuration"));
    assert!(md.ends_with("```\n"));
}
