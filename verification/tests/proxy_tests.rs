use blanktrace::blocker::Blocker;
use blanktrace::config::BlockingConfig;
use blanktrace::config::CleanupConfig;
use blanktrace::config::Config;
use blanktrace::config::CookiesConfig;
use blanktrace::config::FingerprintConfig;
use blanktrace::cookie::CookieHandler;
use blanktrace::pipeline::EventQueue;
use blanktrace::pipeline::LogEvent;
use blanktrace::proxy::PrivacyHandler;
use blanktrace::proxy::ProxyState;
use blanktrace::proxy::RequestModel;
use blanktrace::proxy::RequestOutcome;
use blanktrace::proxy::ResponseModel;
use blanktrace::randomizer::Randomizer;
use blanktrace::store::TrackingStore;

fn proxy_config() -> Config {
    Config {
        fingerprint: FingerprintConfig {
            rotation_mode: "every_request".to_string(),
            rotation_interval: 0,
            randomize_user_agent: true,
            randomize_accept_language: false,
            strip_referer: true,
            accept_languages: vec!["en-US".to_string()],
        },
        cookies: CookiesConfig {
            block_all: true,
            log_attempts: false,
            allow_list: vec![],
            block_list: vec![],
        },
        blocking: BlockingConfig {
            auto_block: true,
            auto_block_threshold: 1,
            block_patterns: vec![".*bad.*".to_string()],
        },
        cleanup: CleanupConfig::default(),
        port: None,
        db_path: ":memory:".to_string(),
    }
}

fn handler_for(config: &Config) -> PrivacyHandler {
    PrivacyHandler {
        state: ProxyState {
            randomizer: Randomizer::new(&config.fingerprint, 0).unwrap(),
            cookie_handler: CookieHandler::new(config.clone()),
            blocker: Blocker::new(config).unwrap(),
        },
    }
}

fn request_to(host: &str) -> RequestModel {
    RequestModel {
        host: host.to_string(),
        path: "/index.html".to_string(),
        cookie: Some("sid=42".to_string()),
        user_agent: Some("stock-browser".to_string()),
        accept_language: Some("fr-FR".to_string()),
        referer: Some("https://elsewhere.example".to_string()),
        client_ip: "10.0.0.1".to_string(),
    }
}

#[test]
fn test_blocked_request_short_circuits() {
    let config = proxy_config();
    let mut handler = handler_for(&config);
    let mut store = TrackingStore::new();
    let mut queue = EventQueue::new(16);
    let mut req = request_to("bad.example.com");

    let outcome = handler.handle_request(&mut store, &mut queue, &mut req, 1000);
    assert_eq!(outcome, RequestOutcome::Blocked);
    // the request itself is untouched
    assert_eq!(req.cookie, Some("sid=42".to_string()));
    assert_eq!(req.referer, Some("https://elsewhere.example".to_string()));
    // the hit was tracked and only the tracker event was offered
    assert_eq!(queue.len(), 1);
    assert!(matches!(queue.dequeue(), Some(LogEvent::TrackerHit { .. })));
    assert_eq!(store.increment_tracker("bad.example.com", None).0, 2);
}

#[test]
fn test_forwarded_request_is_rewritten() {
    let config = proxy_config();
    let mut handler = handler_for(&config);
    let mut store = TrackingStore::new();
    let mut queue = EventQueue::new(16);
    let mut req = request_to("ordinary.example.com");

    let outcome = handler.handle_request(&mut store, &mut queue, &mut req, 1000);
    assert_eq!(outcome, RequestOutcome::Forward);
    // cookie stripped (block_all), referer stripped, User-Agent rotated
    assert!(req.cookie.is_none());
    assert!(req.referer.is_none());
    let ua = req.user_agent.clone().unwrap();
    assert!(!ua.is_empty());
    assert_eq!(ua, handler.state.randomizer.current_ua);
    // accept-language was not randomized, so the header stays
    assert_eq!(req.accept_language, Some("fr-FR".to_string()));

    // cookie event, fingerprint event, request event, in that order
    assert_eq!(queue.len(), 3);
    match queue.dequeue() {
        Some(LogEvent::Cookie { domain, cookie, blocked }) => {
            assert_eq!(domain, "ordinary.example.com");
            assert_eq!(cookie, "sid=42");
            assert!(blocked);
        },
        _ => panic!("expected the cookie event first"),
    }
    match queue.dequeue() {
        Some(LogEvent::Fingerprint { user_agent, mode, .. }) => {
            assert_eq!(user_agent, ua);
            assert_eq!(mode, "every_request");
        },
        _ => panic!("expected the fingerprint event second"),
    }
    match queue.dequeue() {
        Some(LogEvent::Request { domain, path, user_agent, client_ip }) => {
            assert_eq!(domain, "ordinary.example.com");
            assert_eq!(path, "/index.html");
            assert_eq!(user_agent, ua);
            assert_eq!(client_ip, "10.0.0.1");
        },
        _ => panic!("expected the request event last"),
    }
}

#[test]
fn test_response_set_cookie_stripped() {
    let config = proxy_config();
    let handler = handler_for(&config);
    let mut queue = EventQueue::new(16);
    let mut res = ResponseModel { set_cookie: Some("sid=43".to_string()) };

    handler.handle_response(&mut queue, &mut res);
    assert!(res.set_cookie.is_none());
    match queue.dequeue() {
        Some(LogEvent::Cookie { domain, cookie, blocked }) => {
            assert_eq!(domain, "response");
            assert_eq!(cookie, "sid=43");
            assert!(blocked);
        },
        _ => panic!("expected a cookie event for the response"),
    }
}
