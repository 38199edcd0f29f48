//! Immutable policy snapshots: fingerprint rotation, cookie policy, domain
//! blocking and retention cleanup, together with their default values and
//! the validation of the rotation-mode field.

use vstd::prelude::*;

verus! {

/// How often the fingerprint header values change.
#[derive(Clone, Copy, PartialEq, Eq, Structural, Debug)]
pub enum RotationMode {
    /// New values are generated for every outbound request.
    EveryRequest,
    /// New values are generated once the configured interval has elapsed.
    Interval,
    /// Values are generated once at startup and never change.
    Launch,
}

impl RotationMode {
    /// The configuration name of the mode.
    pub open spec fn spec_name(self) -> Seq<char> {
        match self {
            RotationMode::EveryRequest => "every_request"@,
            RotationMode::Interval => "interval"@,
            RotationMode::Launch => "launch"@,
        }
    }

    /// The configuration name of the mode.
    pub fn name(&self) -> (r: String)
        ensures
            r@ == self.spec_name(),
    {
        match self {
            RotationMode::EveryRequest => "every_request".to_owned(),
            RotationMode::Interval => "interval".to_owned(),
            RotationMode::Launch => "launch".to_owned(),
        }
    }
}

/// A malformed policy value; fatal at startup.
#[derive(Clone, Copy, PartialEq, Eq, Structural, Debug)]
pub enum ConfigError {
    /// The rotation-mode field is not one of the recognized values.
    UnknownRotationMode,
    /// A blocking pattern failed to compile.
    InvalidBlockPattern,
}

/// Configuration for fingerprint randomization.
#[derive(Clone, Debug)]
pub struct FingerprintConfig {
    /// Rotation mode: "every_request", "interval", or "launch".
    pub rotation_mode: String,
    /// Interval in seconds for "interval" rotation mode.
    pub rotation_interval: u64,
    /// Whether to randomize the User-Agent header.
    pub randomize_user_agent: bool,
    /// Whether to randomize the Accept-Language header.
    pub randomize_accept_language: bool,
    /// Whether to strip the Referer header.
    pub strip_referer: bool,
    /// List of Accept-Language values to choose from.
    pub accept_languages: Vec<String>,
}

/// Configuration for cookie management.
#[derive(Clone, Debug)]
pub struct CookiesConfig {
    /// Whether to block all cookies by default.
    pub block_all: bool,
    /// Whether to log cookie attempts (even if blocked).
    pub log_attempts: bool,
    /// Domain suffixes whose cookies are always allowed (overrides blocking).
    pub allow_list: Vec<String>,
    /// Domain suffixes whose cookies are always blocked.
    pub block_list: Vec<String>,
}

/// Configuration for domain blocking.
#[derive(Clone, Debug)]
pub struct BlockingConfig {
    /// Whether to automatically block domains after a threshold of hits.
    pub auto_block: bool,
    /// Number of hits before auto-blocking a domain.
    pub auto_block_threshold: usize,
    /// Regex patterns identifying tracking domains.
    pub block_patterns: Vec<String>,
}

/// Configuration for periodic store cleanup.
#[derive(Clone, Debug)]
pub struct CleanupConfig {
    /// Whether periodic cleanup is enabled.
    pub enabled: bool,
    /// Number of days to retain event-log records.
    pub retention_days: u64,
    /// Interval in seconds between cleanup runs.
    pub interval_seconds: u64,
}

/// Main configuration snapshot, constructed once at startup.
#[derive(Clone, Debug)]
pub struct Config {
    /// Fingerprint randomization settings.
    pub fingerprint: FingerprintConfig,
    /// Cookie management settings.
    pub cookies: CookiesConfig,
    /// Domain blocking settings.
    pub blocking: BlockingConfig,
    /// Store cleanup settings.
    pub cleanup: CleanupConfig,
    /// Port to listen on (the listener uses 8080 when absent).
    pub port: Option<u16>,
    /// Path to the backing store.
    pub db_path: String,
}

/// Default pool of Accept-Language values.
pub fn default_accept_languages() -> (r: Vec<String>)
    ensures
        r@.len() == 2,
        r@[0]@ == "en-US,en;q=0.9"@,
        r@[1]@ == "en-GB,en;q=0.8"@,
{
    let mut v: Vec<String> = Vec::new();
    v.push("en-US,en;q=0.9".to_owned());
    v.push("en-GB,en;q=0.8".to_owned());
    v
}

/// Cleanup runs unless it is switched off.
pub fn default_cleanup_enabled() -> (r: bool)
    ensures
        r == true,
{
    true
}

/// Default number of days that event-log records are retained.
pub fn default_retention_days() -> (r: u64)
    ensures
        r == 7,
{
    7
}

/// Default number of seconds between cleanup runs.
pub fn default_cleanup_interval() -> (r: u64)
    ensures
        r == 3600,
{
    3600
}

impl Default for CleanupConfig {
    /// Cleanup enabled, seven days of retention, one run per hour.
    fn default() -> (r: Self)
        ensures
            r.enabled == true,
            r.retention_days == 7,
            r.interval_seconds == 3600,
    {
        CleanupConfig {
            enabled: default_cleanup_enabled(),
            retention_days: default_retention_days(),
            interval_seconds: default_cleanup_interval(),
        }
    }
}

/// The rotation mode denoted by a rotation-mode field, if any.
pub open spec fn spec_rotation_mode(s: Seq<char>) -> Option<RotationMode> {
    if s == "every_request"@ {
        Some(RotationMode::EveryRequest)
    } else if s == "interval"@ {
        Some(RotationMode::Interval)
    } else if s == "launch"@ {
        Some(RotationMode::Launch)
    } else {
        None
    }
}

/// Parses the rotation-mode field into its closed set of variants,
/// rejecting any unrecognized value.
pub fn parse_rotation_mode(s: &str) -> (r: Result<RotationMode, ConfigError>)
    ensures
        match r {
            Ok(m) => spec_rotation_mode(s@) == Some(m),
            Err(e) => spec_rotation_mode(s@) is None && e == ConfigError::UnknownRotationMode,
        },
{
    let t: String = s.to_owned();
    if t == "every_request".to_owned() {
        Ok(RotationMode::EveryRequest)
    } else if t == "interval".to_owned() {
        Ok(RotationMode::Interval)
    } else if t == "launch".to_owned() {
        Ok(RotationMode::Launch)
    } else {
        Err(ConfigError::UnknownRotationMode)
    }
}

} // verus!
