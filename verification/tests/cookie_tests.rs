use blanktrace::config::BlockingConfig;
use blanktrace::config::CleanupConfig;
use blanktrace::config::Config;
use blanktrace::config::CookiesConfig;
use blanktrace::config::FingerprintConfig;
use blanktrace::cookie::CookieDecision;
use blanktrace::cookie::CookieHandler;

fn create_test_config(
    block_all: bool,
    allow_list: Vec<String>,
    block_list: Vec<String>,
) -> Config {
    Config {
        fingerprint: FingerprintConfig {
            rotation_mode: "launch".to_string(),
            rotation_interval: 0,
            randomize_user_agent: false,
            randomize_accept_language: false,
            strip_referer: false,
            accept_languages: vec![],
        },
        cookies: CookiesConfig {
            block_all,
            log_attempts: true,
            allow_list,
            block_list,
        },
        blocking: BlockingConfig {
            auto_block: false,
            auto_block_threshold: 0,
            block_patterns: vec![],
        },
        cleanup: CleanupConfig::default(),
        port: None,
        db_path: ":memory:".to_string(),
    }
}

#[test]
fn test_strip_cookies_block_all() {
    let config = create_test_config(true, vec![], vec![]);
    let handler = CookieHandler::new(config);
    let mut cookie = Some("foo=bar".to_string());

    let stripped = handler.strip_cookies_request("example.com", &mut cookie);
    assert_eq!(stripped, Some("foo=bar".to_string()));
    assert!(cookie.is_none());
}

#[test]
fn test_strip_cookies_allow_list() {
    let config = create_test_config(true, vec!["trusted.com".to_string()], vec![]);
    let handler = CookieHandler::new(config);
    let mut cookie = Some("foo=bar".to_string());

    let stripped = handler.strip_cookies_request("trusted.com", &mut cookie);
    assert_eq!(stripped, None);
    assert!(cookie.is_some());
}

#[test]
fn test_strip_cookies_block_list_override() {
    let config = create_test_config(false, vec![], vec!["evil.com".to_string()]);
    let handler = CookieHandler::new(config);
    let mut cookie = Some("foo=bar".to_string());

    let stripped = handler.strip_cookies_request("evil.com", &mut cookie);
    assert_eq!(stripped, Some("foo=bar".to_string()));
    assert!(cookie.is_none());
}

#[test]
fn test_allow_list_beats_block_all_on_subdomain() {
    let config = create_test_config(true, vec!["trusted.com".to_string()], vec![]);
    let handler = CookieHandler::new(config);
    let mut cookie = Some("sid=1".to_string());

    let d = handler.evaluate_request_cookie("sub.trusted.com", cookie.is_some());
    assert_eq!(d, CookieDecision::Allow);
    let stripped = handler.strip_cookies_request("sub.trusted.com", &mut cookie);
    assert_eq!(stripped, None);
    assert_eq!(cookie, Some("sid=1".to_string()));
}

#[test]
fn test_suffix_match_is_a_suffix_not_a_substring() {
    let config = create_test_config(false, vec![], vec!["evil.com".to_string()]);
    let handler = CookieHandler::new(config);

    assert_eq!(handler.evaluate_request_cookie("evil.com.example.org", true), CookieDecision::Log);
    assert_eq!(handler.evaluate_request_cookie("sub.evil.com", true), CookieDecision::Strip);
}

#[test]
fn test_log_attempts_reports_without_removing() {
    let config = create_test_config(false, vec![], vec![]);
    let handler = CookieHandler::new(config);
    let mut cookie = Some("foo=bar".to_string());

    assert_eq!(handler.evaluate_request_cookie("example.com", true), CookieDecision::Log);
    let logged = handler.strip_cookies_request("example.com", &mut cookie);
    assert_eq!(logged, Some("foo=bar".to_string()));
    assert_eq!(cookie, Some("foo=bar".to_string()));
}

#[test]
fn test_response_without_host_skips_lists() {
    let config = create_test_config(false, vec![], vec!["evil.com".to_string()]);
    let handler = CookieHandler::new(config);

    let mut set_cookie = Some("sid=2".to_string());
    let d = handler.evaluate_response_cookie(None, set_cookie.is_some());
    assert_eq!(d, CookieDecision::Log);
    let logged = handler.strip_cookies_response(None, &mut set_cookie);
    assert_eq!(logged, Some("sid=2".to_string()));
    assert_eq!(set_cookie, Some("sid=2".to_string()));

    let d2 = handler.evaluate_response_cookie(Some("evil.com"), true);
    assert_eq!(d2, CookieDecision::Strip);
}

#[test]
fn test_absent_cookie_is_allowed_silently() {
    let config = create_test_config(true, vec![], vec![]);
    let handler = CookieHandler::new(config);
    let mut cookie: Option<String> = None;

    assert_eq!(handler.evaluate_request_cookie("example.com", false), CookieDecision::Allow);
    let stripped = handler.strip_cookies_request("example.com", &mut cookie);
    assert_eq!(stripped, None);
    assert!(cookie.is_none());
}
