use blanktrace::blocker::Blocker;
use blanktrace::config::BlockingConfig;
use blanktrace::config::CleanupConfig;
use blanktrace::config::Config;
use blanktrace::config::CookiesConfig;
use blanktrace::config::FingerprintConfig;
use blanktrace::pipeline::apply_event;
use blanktrace::pipeline::EventQueue;
use blanktrace::pipeline::LogEvent;
use blanktrace::store::TrackingStore;

#[test]
fn test_bounded_queue_drops_and_counts() {
    let mut queue = EventQueue::new(2);
    assert!(queue.enqueue(LogEvent::TrackerHit { domain: "a.com".to_string(), category: None }));
    assert!(queue.enqueue(LogEvent::TrackerHit { domain: "b.com".to_string(), category: None }));
    assert!(!queue.enqueue(LogEvent::TrackerHit { domain: "c.com".to_string(), category: None }));
    assert_eq!(queue.len(), 2);
    assert_eq!(queue.dropped_count(), 1);
}

#[test]
fn test_queue_is_first_in_first_out() {
    let mut queue = EventQueue::new(8);
    queue.enqueue(LogEvent::TrackerHit { domain: "first.com".to_string(), category: None });
    queue.enqueue(LogEvent::TrackerHit { domain: "second.com".to_string(), category: None });

    match queue.dequeue() {
        Some(LogEvent::TrackerHit { domain, .. }) => assert_eq!(domain, "first.com"),
        _ => panic!("expected the first tracker hit"),
    }
    match queue.dequeue() {
        Some(LogEvent::TrackerHit { domain, .. }) => assert_eq!(domain, "second.com"),
        _ => panic!("expected the second tracker hit"),
    }
    assert!(queue.dequeue().is_none());
}

#[test]
fn test_apply_event_writes_the_logs() {
    let mut store = TrackingStore::new();

    apply_event(
        &mut store,
        LogEvent::Cookie { domain: "a.com".to_string(), cookie: "x=1".to_string(), blocked: true },
        100,
    );
    apply_event(
        &mut store,
        LogEvent::Fingerprint {
            user_agent: "ua".to_string(),
            accept_language: "en".to_string(),
            mode: "launch".to_string(),
        },
        101,
    );
    apply_event(
        &mut store,
        LogEvent::Request {
            domain: "a.com".to_string(),
            path: "/".to_string(),
            user_agent: "ua".to_string(),
            client_ip: "1.1.1.1".to_string(),
        },
        102,
    );

    assert_eq!(store.cookie_log.len(), 1);
    assert_eq!(store.cookie_log[0].0, 100);
    assert_eq!(store.cookie_log[0].1.cookie, "x=1");
    assert_eq!(store.fingerprint_log.len(), 1);
    assert_eq!(store.request_log.len(), 1);
}

#[test]
fn test_apply_tracker_hit_folds_into_counter() {
    let mut store = TrackingStore::new();

    apply_event(
        &mut store,
        LogEvent::TrackerHit { domain: "t.com".to_string(), category: Some("ads".to_string()) },
        100,
    );
    apply_event(
        &mut store,
        LogEvent::TrackerHit { domain: "t.com".to_string(), category: Some("ads".to_string()) },
        101,
    );

    // folded into the counter, not separately retained
    assert_eq!(store.increment_tracker("t.com", None).0, 3);
    assert!(store.cookie_log.is_empty());
    assert!(store.request_log.is_empty());
}

#[test]
fn test_drain_in_arrival_order() {
    let mut queue = EventQueue::new(8);
    let mut store = TrackingStore::new();
    queue.enqueue(LogEvent::Request {
        domain: "a.com".to_string(),
        path: "/1".to_string(),
        user_agent: "ua".to_string(),
        client_ip: "ip".to_string(),
    });
    queue.enqueue(LogEvent::Request {
        domain: "b.com".to_string(),
        path: "/2".to_string(),
        user_agent: "ua".to_string(),
        client_ip: "ip".to_string(),
    });

    let mut now = 0u64;
    while let Some(ev) = queue.dequeue() {
        apply_event(&mut store, ev, now);
        now += 1;
    }
    assert_eq!(store.request_log.len(), 2);
    assert_eq!(store.request_log[0].1.domain, "a.com");
    assert_eq!(store.request_log[1].1.domain, "b.com");
}

#[test]
fn test_full_queue_never_blocks_the_request_path() {
    let config = Config {
        fingerprint: FingerprintConfig {
            rotation_mode: "launch".to_string(),
            rotation_interval: 0,
            randomize_user_agent: false,
            randomize_accept_language: false,
            strip_referer: false,
            accept_languages: vec![],
        },
        cookies: CookiesConfig {
            block_all: false,
            log_attempts: false,
            allow_list: vec![],
            block_list: vec![],
        },
        blocking: BlockingConfig {
            auto_block: false,
            auto_block_threshold: 2,
            block_patterns: vec![".*tracker.*".to_string()],
        },
        cleanup: CleanupConfig::default(),
        port: None,
        db_path: ":memory:".to_string(),
    };
    let blocker = Blocker::new(&config).unwrap();
    let mut store = TrackingStore::new();
    let mut queue = EventQueue::new(1);

    // the first hit fills the queue; later hits are dropped and counted,
    // but the decision still comes back and the counter still moves
    for _ in 0..3 {
        assert!(!blocker.check_and_track(&mut store, &mut queue, "tracker.com"));
    }
    assert_eq!(queue.len(), 1);
    assert_eq!(queue.dropped_count(), 2);
    assert_eq!(store.increment_tracker("tracker.com", None).0, 4);
}
