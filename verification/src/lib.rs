//! Core library of an encrypted removable-media sync manager.
//!
//! The crate covers the cryptographic key lifecycle and the authenticated
//! data path: symmetric authenticated encryption, password-based key
//! derivation, asymmetric signing and key agreement, the secure key store
//! with its versioned rotation, and the configuration model the core
//! consumes.

pub mod config;
pub mod crypto;
pub mod encoding;
pub mod envelope;
pub mod keychain;
pub mod timestamp;
pub mod keys;
pub mod schema;

use vstd::prelude::*;
use vstd::string::StringExecFns;

verus! {

/// Library version.
pub const VERSION: &'static str = "0.1.0";

/// The top error type, wrapping each component's errors.
#[derive(Debug)]
pub enum AirGapError {
    /// Configuration error.
    Config(crate::config::ConfigError),
    /// Cryptography error.
    Crypto(crate::crypto::CryptoError),
    /// Key store error.
    Keychain(crate::keychain::KeychainError),
    /// Asymmetric key error.
    Key(crate::keys::KeyError),
    /// No such device is configured.
    DeviceNotFound(String),
    /// A sync operation failed.
    SyncError(String),
}

/// Whether a host version meets the platform floor of 10.15.
pub fn version_meets_minimum(major: u32, minor: u32) -> (r: bool)
    ensures
        r == (major > 10 || (major == 10 && minor >= 15)),
{
    major > 10 || (major == 10 && minor >= 15)
}

/// A short description of the library.
pub fn get_info() -> (r: String)
    ensures
        r@ == "AirGapSync v0.1.0\nEncrypted Removable-Media Sync Manager"@,
{
    String::from_str("AirGapSync v0.1.0\nEncrypted Removable-Media Sync Manager")
}

} // verus!
