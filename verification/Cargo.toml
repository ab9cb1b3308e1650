[package]
name = "airgap_sync"
version = "0.1.0"
edition = "2021"
publish = false

[dependencies]
ring = "0.17"
rsa = "0.9"
sha2 = "0.10"
base64 = "0.22"
chrono = "0.4"
p256 = { version = "0.13", features = ["ecdh"] }
p384 = { version = "0.13", features = ["ecdh"] }
elliptic-curve = "0.13"
pkcs8 = "0.10"
spki = "0.7"
rand_core = { version = "0.6", features = ["getrandom"] }
zeroize = "1"
serde = { version = "1", features = ["derive"] }
serde_json = "1"
schemars = "0.8"
jsonschema = "0.17"
thiserror = "1"
toml = "0.8"
clap = { version = "4", features = ["derive"] }
anyhow = "1"
log = "0.4"
env_logger = "0.11"
shellexpand = "3"
dirs = "5"
