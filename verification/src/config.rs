//! The configuration model the core consumes: source, devices, policies
//! and security settings, with the validation rules applied in a fixed
//! order.

use vstd::prelude::*;
use vstd::string::StringExecFns;
use crate::encoding::str_eq;

verus! {

/// Errors of configuration handling.
#[derive(Debug)]
pub enum ConfigError {
    /// The configuration is rejected, with the reason.
    ValidationError(String),
}

/// General application settings.
#[derive(Debug, Clone)]
pub struct GeneralConfig {
    /// Enable verbose logging.
    pub verbose: bool,
    /// Log file location, if any.
    pub log_file: Option<String>,
    /// Worker threads; zero means automatic.
    pub threads: usize,
}

/// Source directory settings.
#[derive(Debug, Clone)]
pub struct SourceConfig {
    /// Source directory path.
    pub path: String,
    /// Exclude patterns.
    pub exclude: Vec<String>,
    /// Follow symbolic links.
    pub follow_symlinks: bool,
    /// Include hidden files.
    pub include_hidden: bool,
}

/// The AEAD algorithms a device may choose.
#[derive(Debug, Clone, Copy, PartialEq, Eq, Structural)]
pub enum EncryptionAlgorithm {
    /// AES-256 in GCM mode.
    Aes256Gcm,
    /// ChaCha20-Poly1305.
    ChaCha20Poly1305,
}

/// The key derivation functions a device may choose.
#[derive(Debug, Clone, Copy, PartialEq, Eq, Structural)]
pub enum KeyDerivation {
    /// PBKDF2 with SHA-256.
    Pbkdf2,
    /// Argon2id.
    Argon2,
}

/// Per-device encryption settings.
#[derive(Debug, Clone, Copy, PartialEq, Eq, Structural)]
pub struct EncryptionConfig {
    /// Encryption algorithm.
    pub algorithm: EncryptionAlgorithm,
    /// Key derivation function.
    pub key_derivation: KeyDerivation,
    /// PBKDF2 iteration count.
    pub iterations: u32,
}

/// One removable device.
#[derive(Debug, Clone)]
pub struct DeviceConfig {
    /// Unique device identifier.
    pub id: String,
    /// Human-readable name.
    pub name: String,
    /// Mount point path.
    pub mount_point: String,
    /// Device encryption settings.
    pub encryption: EncryptionConfig,
}

/// Retention and cleanup policies.
#[derive(Debug, Clone, Copy, PartialEq, Eq, Structural)]
pub struct PolicyConfig {
    /// Snapshots to retain.
    pub retain_snapshots: u32,
    /// Days to keep snapshots.
    pub retain_days: u32,
    /// Hours between garbage collections.
    pub gc_interval_hours: u32,
    /// Verify data after writing.
    pub verify_after_write: bool,
    /// Compression level, zero to nine.
    pub compression_level: u8,
    /// Chunk size in megabytes, at least one.
    pub chunk_size_mb: u32,
    /// Files processed in parallel.
    pub parallel_files: u32,
    /// I/O buffer size in kilobytes.
    pub buffer_size_kb: u32,
}

/// Audit logging levels.
#[derive(Debug, Clone, Copy, PartialEq, Eq, Structural)]
pub enum AuditLevel {
    /// No audit logging.
    Off,
    /// Basic operation logging.
    Basic,
    /// Full audit trail.
    Full,
}

/// Security settings.
#[derive(Debug, Clone, Copy, PartialEq, Eq, Structural)]
pub struct SecurityConfig {
    /// Days between key rotations.
    pub key_rotation_days: u32,
    /// Require host authentication for operations.
    pub require_authentication: bool,
    /// Audit logging level.
    pub audit_level: AuditLevel,
    /// Days to retain audit logs.
    pub audit_retention_days: u32,
}

/// Schedule settings for automatic syncs.
#[derive(Debug, Clone)]
pub struct ScheduleConfig {
    /// Cron expression.
    pub schedule: String,
    /// Only sync on AC power.
    pub require_ac_power: bool,
    /// Prevent sleep during a sync.
    pub prevent_sleep: bool,
}

/// Notification preferences.
#[derive(Debug, Clone, Copy, PartialEq, Eq, Structural)]
pub struct NotificationConfig {
    /// Notify when a sync starts.
    pub notify_on_start: bool,
    /// Notify when a sync completes.
    pub notify_on_complete: bool,
    /// Notify on errors.
    pub notify_on_error: bool,
    /// Play a sound on completion.
    pub sound_on_complete: bool,
    /// Play a sound on error.
    pub sound_on_error: bool,
}

/// Advanced settings.
#[derive(Debug, Clone, Copy, PartialEq, Eq, Structural)]
pub struct AdvancedConfig {
    /// Snapshot format version.
    pub snapshot_version: u32,
    /// Experimental deduplication.
    pub experimental_dedup: bool,
    /// Experimental delta sync.
    pub experimental_delta_sync: bool,
    /// Debug output for encryption.
    pub debug_encryption: bool,
    /// Performance debugging.
    pub debug_performance: bool,
    /// Save a report after each sync.
    pub save_sync_report: bool,
}

/// The whole configuration.
#[derive(Debug, Clone)]
pub struct Config {
    /// General settings.
    pub general: GeneralConfig,
    /// Source directory settings.
    pub source: SourceConfig,
    /// The configured devices.
    pub device: Vec<DeviceConfig>,
    /// Retention and cleanup policies.
    pub policy: PolicyConfig,
    /// Security settings.
    pub security: SecurityConfig,
    /// Schedule settings, if any.
    pub schedule: Option<ScheduleConfig>,
    /// Notification preferences.
    pub notifications: NotificationConfig,
    /// Advanced settings.
    pub advanced: AdvancedConfig,
}

/// Two devices at these positions carry the same identifier.
pub open spec fn has_duplicate_ids(devices: Seq<DeviceConfig>) -> bool {
    exists|i: int, j: int| 0 <= i < j < devices.len() && devices[i].id@ == devices[j].id@
}

impl Config {
    /// Validates the configuration against the rules, in order: at least
    /// one device, an existing source path, unique device identifiers,
    /// compression level at most nine, chunk size at least one megabyte.
    /// The reported reason names the first rule that fails. Whether the
    /// source path exists on the host is handed in by the caller, who owns
    /// the file system.
    pub fn validate(&self, source_path_exists: bool) -> (r: Result<(), ConfigError>)
        ensures
            r is Ok <==> (self.device@.len() > 0 && source_path_exists && !has_duplicate_ids(
                self.device@,
            ) && self.policy.compression_level <= 9 && self.policy.chunk_size_mb > 0),
            r matches Err(e) ==> e matches ConfigError::ValidationError(_),
            self.device@.len() == 0 ==> (r matches Err(e) && e matches ConfigError::ValidationError(
                m,
            ) && m@ == "At least one device must be configured"@),
            self.device@.len() > 0 && !source_path_exists ==> (r matches Err(e) && e matches
                ConfigError::ValidationError(m) && m@ == "Source path does not exist"@),
            self.device@.len() > 0 && source_path_exists && has_duplicate_ids(self.device@) ==> (
            r matches Err(e) && e matches ConfigError::ValidationError(m) && m@
                == "Duplicate device ID"@),
            self.device@.len() > 0 && source_path_exists && !has_duplicate_ids(self.device@)
                && self.policy.compression_level > 9 ==> (r matches Err(e) && e matches
                ConfigError::ValidationError(m) && m@ == "Compression level must be between 0-9"@),
            self.device@.len() > 0 && source_path_exists && !has_duplicate_ids(self.device@)
                && self.policy.compression_level <= 9 && self.policy.chunk_size_mb == 0 ==> (
            r matches Err(e) && e matches ConfigError::ValidationError(m) && m@
                == "Chunk size must be greater than 0"@),
    {
        if self.device.len() == 0 {
            return Err(
                ConfigError::ValidationError(
                    String::from_str("At least one device must be configured"),
                ),
            );
        }
        if !source_path_exists {
            return Err(ConfigError::ValidationError(String::from_str("Source path does not exist")));
        }
        let n = self.device.len();
        let mut i: usize = 0;
        while i < n
            invariant
                source_path_exists,
                n == self.device@.len(),
                i <= n,
                forall|a: int, b: int| 0 <= a < b < n && a < i ==> self.device@[a].id@ != self.device@[b].id@,
            decreases n - i,
        {
            let mut j: usize = i + 1;
            while j < n
                invariant
                    source_path_exists,
                    n == self.device@.len(),
                    i < n,
                    i < j <= n,
                    forall|b: int| i < b < j ==> self.device@[i as int].id@ != self.device@[b].id@,
                decreases n - j,
            {
                if str_eq(self.device[i].id.as_str(), self.device[j].id.as_str()) {
                    proof {
                        assert(self.device@[i as int].id@ == self.device@[j as int].id@);
                    }
                    return Err(ConfigError::ValidationError(String::from_str("Duplicate device ID")));
                }
                j += 1;
            }
            i += 1;
        }
        proof {
            assert(!has_duplicate_ids(self.device@)) by {
                if has_duplicate_ids(self.device@) {
                    let (a, b): (int, int) = choose|a: int, b: int|
                        0 <= a < b < self.device@.len() && self.device@[a].id@
                            == self.device@[b].id@;
                    assert(self.device@[a].id@ != self.device@[b].id@);
                }
            }
        }
        if self.policy.compression_level > 9 {
            return Err(
                ConfigError::ValidationError(
                    String::from_str("Compression level must be between 0-9"),
                ),
            );
        }
        if self.policy.chunk_size_mb == 0 {
            return Err(
                ConfigError::ValidationError(String::from_str("Chunk size must be greater than 0")),
            );
        }
        Ok(())
    }
}

/// The default for flags that start switched off.
pub fn default_false() -> (r: bool)
    ensures
        r == false,
{
    false
}

/// The default for flags that start switched on.
pub fn default_true() -> (r: bool)
    ensures
        r == true,
{
    true
}

/// The default encryption algorithm.
pub fn default_encryption_algorithm() -> (r: EncryptionAlgorithm)
    ensures
        r == EncryptionAlgorithm::Aes256Gcm,
{
    EncryptionAlgorithm::Aes256Gcm
}

/// The default key derivation function.
pub fn default_key_derivation() -> (r: KeyDerivation)
    ensures
        r == KeyDerivation::Pbkdf2,
{
    KeyDerivation::Pbkdf2
}

/// The default PBKDF2 iteration count.
pub fn default_pbkdf2_iterations() -> (r: u32)
    ensures
        r == 100000,
{
    100_000
}

/// The default number of snapshots to retain.
pub fn default_retain_snapshots() -> (r: u32)
    ensures
        r == 7,
{
    7
}

/// The default number of days to keep snapshots.
pub fn default_retain_days() -> (r: u32)
    ensures
        r == 30,
{
    30
}

/// The default number of hours between garbage collections.
pub fn default_gc_interval_hours() -> (r: u32)
    ensures
        r == 24,
{
    24
}

/// The default compression level.
pub fn default_compression_level() -> (r: u8)
    ensures
        r == 3,
{
    3
}

/// The default chunk size in megabytes.
pub fn default_chunk_size_mb() -> (r: u32)
    ensures
        r == 1,
{
    1
}

/// The default number of files processed in parallel.
pub fn default_parallel_files() -> (r: u32)
    ensures
        r == 4,
{
    4
}

/// The default I/O buffer size in kilobytes.
pub fn default_buffer_size_kb() -> (r: u32)
    ensures
        r == 1024,
{
    1024
}

/// The default number of days between key rotations.
pub fn default_key_rotation_days() -> (r: u32)
    ensures
        r == 90,
{
    90
}

/// The default audit level.
pub fn default_audit_level() -> (r: AuditLevel)
    ensures
        r == AuditLevel::Full,
{
    AuditLevel::Full
}

/// The default number of days to retain audit logs.
pub fn default_audit_retention_days() -> (r: u32)
    ensures
        r == 365,
{
    365
}

/// The default snapshot format version.
pub fn default_snapshot_version() -> (r: u32)
    ensures
        r == 1,
{
    1
}

impl Default for GeneralConfig {
    /// Verbose off, no log file, automatic thread count.
    fn default() -> (r: Self)
        ensures
            r.verbose == false && r.log_file is None && r.threads == 0,
    {
        Self { verbose: false, log_file: None, threads: 0 }
    }
}

impl Default for EncryptionConfig {
    /// AES-256-GCM with PBKDF2 at the default iteration count.
    fn default() -> (r: Self)
        ensures
            r == (EncryptionConfig {
                algorithm: EncryptionAlgorithm::Aes256Gcm,
                key_derivation: KeyDerivation::Pbkdf2,
                iterations: 100000,
            }),
    {
        Self {
            algorithm: default_encryption_algorithm(),
            key_derivation: default_key_derivation(),
            iterations: default_pbkdf2_iterations(),
        }
    }
}

impl Default for PolicyConfig {
    /// The documented retention, compression and chunking defaults.
    fn default() -> (r: Self)
        ensures
            r == (PolicyConfig {
                retain_snapshots: 7,
                retain_days: 30,
                gc_interval_hours: 24,
                verify_after_write: true,
                compression_level: 3,
                chunk_size_mb: 1,
                parallel_files: 4,
                buffer_size_kb: 1024,
            }),
    {
        Self {
            retain_snapshots: default_retain_snapshots(),
            retain_days: default_retain_days(),
            gc_interval_hours: default_gc_interval_hours(),
            verify_after_write: true,
            compression_level: default_compression_level(),
            chunk_size_mb: default_chunk_size_mb(),
            parallel_files: default_parallel_files(),
            buffer_size_kb: default_buffer_size_kb(),
        }
    }
}

impl Default for SecurityConfig {
    /// Rotation every ninety days, authentication required, full auditing.
    fn default() -> (r: Self)
        ensures
            r == (SecurityConfig {
                key_rotation_days: 90,
                require_authentication: true,
                audit_level: AuditLevel::Full,
                audit_retention_days: 365,
            }),
    {
        Self {
            key_rotation_days: default_key_rotation_days(),
            require_authentication: true,
            audit_level: default_audit_level(),
            audit_retention_days: default_audit_retention_days(),
        }
    }
}

impl Default for NotificationConfig {
    /// Quiet start, audible completion and errors.
    fn default() -> (r: Self)
        ensures
            r == (NotificationConfig {
                notify_on_start: false,
                notify_on_complete: true,
                notify_on_error: true,
                sound_on_complete: true,
                sound_on_error: true,
            }),
    {
        Self {
            notify_on_start: false,
            notify_on_complete: true,
            notify_on_error: true,
            sound_on_complete: true,
            sound_on_error: true,
        }
    }
}

impl Default for AdvancedConfig {
    /// Format version one, experiments off, reports on.
    fn default() -> (r: Self)
        ensures
            r == (AdvancedConfig {
                snapshot_version: 1,
                experimental_dedup: false,
                experimental_delta_sync: false,
                debug_encryption: false,
                debug_performance: false,
                save_sync_report: true,
            }),
    {
        Self {
            snapshot_version: default_snapshot_version(),
            experimental_dedup: false,
            experimental_delta_sync: false,
            debug_encryption: false,
            debug_performance: false,
            save_sync_report: true,
        }
    }
}

} // verus!
