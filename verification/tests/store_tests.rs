use blanktrace::store::TrackingStore;

const DAY: u64 = 86400;

#[test]
fn test_db_logging_and_retrieval() {
    let mut db = TrackingStore::new();

    db.log_request(
        1_000_000_000,
        "example.com".to_string(),
        "/".to_string(),
        "Mozilla/5.0".to_string(),
        "127.0.0.1".to_string(),
    );

    assert_eq!(db.request_log.len(), 1);
}

#[test]
fn test_tracker_increment() {
    let mut db = TrackingStore::new();

    let (hits, blocked) = db.increment_tracker("tracker.com", Some("ads"));
    assert_eq!(hits, 1);
    assert!(!blocked);

    let (hits2, _) = db.increment_tracker("tracker.com", Some("ads"));
    assert_eq!(hits2, 2);
}

#[test]
fn test_whitelist_operations() {
    let mut db = TrackingStore::new();

    assert!(!db.is_whitelisted("good.com"));

    db.add_whitelist("good.com", Some("trusted"));
    assert!(db.is_whitelisted("good.com"));
}

#[test]
fn test_cleanup() {
    let mut db = TrackingStore::new();
    let now: u64 = 1_000_000_000;

    db.log_request(now - 10 * DAY, "old.com".to_string(), "/".to_string(), "ua".to_string(), "1.1.1.1".to_string());
    db.log_request(now, "new.com".to_string(), "/".to_string(), "ua".to_string(), "1.1.1.1".to_string());

    let deleted = db.cleanup_old_data(now, 7);
    assert_eq!(deleted, 1);

    assert_eq!(db.request_log.len(), 1);
    assert_eq!(db.request_log[0].1.domain, "new.com");
}

#[test]
fn test_cleanup_spares_tracking_and_whitelist() {
    let mut db = TrackingStore::new();
    let now: u64 = 1_000_000_000;

    db.increment_tracker("tracker.com", None);
    db.add_whitelist("good.com", None);
    db.log_cookie(now - 30 * DAY, "a.com".to_string(), "x=1".to_string(), true);
    db.log_fingerprint(now - 30 * DAY, "ua".to_string(), "lang".to_string(), "launch".to_string());
    db.log_request(now - 30 * DAY, "b.com".to_string(), "/".to_string(), "ua".to_string(), "1.1.1.1".to_string());

    let deleted = db.cleanup_old_data(now, 7);
    assert_eq!(deleted, 3);
    assert!(db.cookie_log.is_empty());
    assert!(db.fingerprint_log.is_empty());
    assert!(db.request_log.is_empty());
    assert!(db.is_whitelisted("good.com"));
    assert_eq!(db.increment_tracker("tracker.com", None).0, 2);
}

#[test]
fn test_set_blocked_one_way_and_manual_block() {
    let mut db = TrackingStore::new();

    db.manual_block("unseen.com");
    let (hits, blocked) = db.increment_tracker("unseen.com", None);
    assert_eq!(hits, 1);
    assert!(!blocked);

    db.manual_block("unseen.com");
    let (hits2, blocked2) = db.increment_tracker("unseen.com", None);
    assert_eq!(hits2, 2);
    assert!(blocked2);
}

#[test]
fn test_top_domains_order_and_tie_break() {
    let mut db = TrackingStore::new();

    for _ in 0..2 {
        db.increment_tracker("c.com", None);
    }
    for _ in 0..5 {
        db.increment_tracker("b.com", None);
    }
    for _ in 0..2 {
        db.increment_tracker("a.com", None);
    }

    let top = db.get_top_domains(2);
    assert_eq!(top.len(), 2);
    assert_eq!(top[0], ("b.com".to_string(), 5));
    assert_eq!(top[1], ("a.com".to_string(), 2));

    let all = db.get_top_domains(10);
    assert_eq!(all.len(), 3);
    assert_eq!(all[2], ("c.com".to_string(), 2));
}
