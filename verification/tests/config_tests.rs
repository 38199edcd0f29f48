use blanktrace::config::default_accept_languages;
use blanktrace::config::parse_rotation_mode;
use blanktrace::config::CleanupConfig;
use blanktrace::config::ConfigError;
use blanktrace::config::RotationMode;

#[test]
fn test_default_cleanup_config() {
    let cleanup = CleanupConfig::default();
    assert!(cleanup.enabled);
    assert_eq!(cleanup.retention_days, 7);
    assert_eq!(cleanup.interval_seconds, 3600);
}

#[test]
fn test_default_accept_languages() {
    let langs = default_accept_languages();
    assert!(!langs.is_empty());
    assert!(langs.contains(&"en-US,en;q=0.9".to_string()));
}

#[test]
fn test_parse_rotation_mode_recognized() {
    assert_eq!(parse_rotation_mode("every_request"), Ok(RotationMode::EveryRequest));
    assert_eq!(parse_rotation_mode("interval"), Ok(RotationMode::Interval));
    assert_eq!(parse_rotation_mode("launch"), Ok(RotationMode::Launch));
}

#[test]
fn test_parse_rotation_mode_unrecognized() {
    assert_eq!(parse_rotation_mode("sometimes"), Err(ConfigError::UnknownRotationMode));
    assert_eq!(parse_rotation_mode(""), Err(ConfigError::UnknownRotationMode));
}

#[test]
fn test_mode_name_round_trip() {
    assert_eq!(RotationMode::EveryRequest.name(), "every_request");
    assert_eq!(RotationMode::Interval.name(), "interval");
    assert_eq!(RotationMode::Launch.name(), "launch");
}
