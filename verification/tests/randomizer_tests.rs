use blanktrace::config::ConfigError;
use blanktrace::config::FingerprintConfig;
use blanktrace::randomizer::Randomizer;

fn fingerprint_config(mode: &str, langs: Vec<String>) -> FingerprintConfig {
    FingerprintConfig {
        rotation_mode: mode.to_string(),
        rotation_interval: 0,
        randomize_user_agent: true,
        randomize_accept_language: true,
        strip_referer: false,
        accept_languages: langs,
    }
}

#[test]
fn test_randomizer_initialization() {
    let cfg = fingerprint_config("launch", vec!["en-US".to_string(), "de-DE".to_string()]);
    let randomizer = Randomizer::new(&cfg, 0).unwrap();
    assert!(!randomizer.current_ua.is_empty());
    assert!(cfg.accept_languages.contains(&randomizer.current_lang));
}

#[test]
fn test_rotate_user_agent() {
    let cfg = fingerprint_config("launch", vec!["en-US".to_string()]);
    let mut randomizer = Randomizer::new(&cfg, 0).unwrap();
    let _ua1 = randomizer.current_ua.clone();
    let ua2 = randomizer.rotate_user_agent();

    // It's statistically possible but unlikely they are the same,
    // so only the shape is checked.
    assert!(!ua2.is_empty());
}

#[test]
fn test_unknown_rotation_mode_is_config_error() {
    let cfg = fingerprint_config("sometimes", vec![]);
    assert!(matches!(Randomizer::new(&cfg, 0), Err(ConfigError::UnknownRotationMode)));
}

#[test]
fn test_empty_pool_falls_back() {
    let cfg = fingerprint_config("launch", vec![]);
    let mut randomizer = Randomizer::new(&cfg, 0).unwrap();
    assert_eq!(randomizer.current_lang, "en-US,en;q=0.9");
    let lang = randomizer.rotate_accept_language();
    assert_eq!(lang, "en-US,en;q=0.9");
}

#[test]
fn test_rotate_accept_language_stays_in_pool() {
    let cfg = fingerprint_config("launch", vec!["aa".to_string(), "bb".to_string()]);
    let mut randomizer = Randomizer::new(&cfg, 0).unwrap();
    for _ in 0..20 {
        let lang = randomizer.rotate_accept_language();
        assert!(cfg.accept_languages.contains(&lang));
    }
}

#[test]
fn test_launch_mode_stability() {
    let cfg = fingerprint_config("launch", vec!["en-US".to_string()]);
    let mut randomizer = Randomizer::new(&cfg, 0).unwrap();
    let ua = randomizer.current_ua.clone();
    let lang = randomizer.current_lang.clone();
    for now in [0u64, 5, 1000, 86400] {
        let (u, l, rotated) = randomizer.decide_and_rotate(now);
        assert_eq!(u, ua);
        assert_eq!(l, lang);
        assert!(!rotated);
    }
}

#[test]
fn test_every_request_mode_churn() {
    let cfg = fingerprint_config("every_request", vec!["en-US".to_string()]);
    let mut randomizer = Randomizer::new(&cfg, 0).unwrap();
    for now in 0u64..5 {
        let (u, _l, rotated) = randomizer.decide_and_rotate(now);
        assert!(rotated);
        assert!(!u.is_empty());
    }
}

#[test]
fn test_interval_mode_rotates_once_due() {
    let mut cfg = fingerprint_config("interval", vec!["en-US".to_string()]);
    cfg.rotation_interval = 60;
    let mut randomizer = Randomizer::new(&cfg, 1000).unwrap();
    assert_eq!(randomizer.last_rotation, 1000);

    // not due until 60 seconds after initialization
    let ua_initial = randomizer.current_ua.clone();
    let (u1, _l1, rotated1) = randomizer.decide_and_rotate(1030);
    assert!(!rotated1);
    assert_eq!(u1, ua_initial);

    // due once the interval has elapsed; the rotation time moves to now
    let (_u2, _l2, rotated2) = randomizer.decide_and_rotate(1060);
    assert!(rotated2);
    assert_eq!(randomizer.last_rotation, 1060);

    // and not due again right after
    let (_u3, _l3, rotated3) = randomizer.decide_and_rotate(1090);
    assert!(!rotated3);
}
