//! Tests of the configuration model and its validation rules.

use airgap_sync::config::{
    AdvancedConfig, Config, DeviceConfig, EncryptionConfig, GeneralConfig, NotificationConfig,
    PolicyConfig, SecurityConfig, SourceConfig,
};

fn base_config(path: &str, devices: Vec<DeviceConfig>) -> Config {
    Config {
        general: GeneralConfig::default(),
        source: SourceConfig {
            path: path.to_string(),
            exclude: vec![],
            follow_symlinks: false,
            include_hidden: false,
        },
        device: devices,
        policy: PolicyConfig::default(),
        security: SecurityConfig::default(),
        schedule: None,
        notifications: NotificationConfig::default(),
        advanced: AdvancedConfig::default(),
    }
}

fn device(id: &str, name: &str, mount_point: &str) -> DeviceConfig {
    DeviceConfig {
        id: id.to_string(),
        name: name.to_string(),
        mount_point: mount_point.to_string(),
        encryption: EncryptionConfig::default(),
    }
}

#[test]
fn test_config_validation() {
    let mut config = base_config("/nonexistent/path", vec![]);

    // no devices configured
    assert!(config.validate(false).is_err());

    config.device.push(device("USB001", "Test USB", "/Volumes/USB001"));

    // the source path still does not exist
    assert!(config.validate(false).is_err());
}

#[test]
fn phase1_integration_test_config_validation() {
    let mut config = base_config("/tmp", vec![]);

    assert!(config.validate(true).is_err());

    config.device.push(device("USB001", "Device 1", "/mnt/usb1"));
    config.device.push(device("USB001", "Device 2", "/mnt/usb2"));

    assert!(config.validate(true).is_err());
}

#[test]
fn test_config_validation_passes() {
    let config = base_config("/tmp", vec![device("USB001", "Device 1", "/mnt/usb1")]);
    assert!(config.validate(true).is_ok());
}

#[test]
fn test_config_boundaries() {
    let mut config = base_config("/tmp", vec![device("USB001", "Device 1", "/mnt/usb1")]);

    config.policy.compression_level = 10;
    assert!(config.validate(true).is_err());
    config.policy.compression_level = 9;
    assert!(config.validate(true).is_ok());

    config.policy.chunk_size_mb = 0;
    assert!(config.validate(true).is_err());
    config.policy.chunk_size_mb = 1;
    assert!(config.validate(true).is_ok());
}

#[test]
fn test_defaults() {
    let policy = PolicyConfig::default();
    assert_eq!(policy.retain_snapshots, 7);
    assert_eq!(policy.retain_days, 30);
    assert_eq!(policy.gc_interval_hours, 24);
    assert!(policy.verify_after_write);
    assert_eq!(policy.compression_level, 3);
    assert_eq!(policy.chunk_size_mb, 1);
    assert_eq!(policy.parallel_files, 4);
    assert_eq!(policy.buffer_size_kb, 1024);

    let security = SecurityConfig::default();
    assert_eq!(security.key_rotation_days, 90);
    assert!(security.require_authentication);
    assert_eq!(security.audit_retention_days, 365);

    let encryption = EncryptionConfig::default();
    assert_eq!(encryption.iterations, 100_000);
}
