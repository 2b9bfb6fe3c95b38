use csgo_server::down_detector::{CHECK_INTERVAL_SECS, DOWN_ALERT_NANOS};
use csgo_server::{down_alert, down_detector, CacheError, Info, PollCache, ServerDown};

const SEC: u128 = 1_000_000_000;
const T0: u128 = 1_700_000_000 * SEC;

#[test]
fn thresholds() {
    assert_eq!(DOWN_ALERT_NANOS, 60 * SEC);
    assert_eq!(CHECK_INTERVAL_SECS, 30);
}

#[test]
fn alert_waits_for_the_threshold() {
    let record = Info::ServerDown(ServerDown { since: T0, ping_sent: false });
    assert_eq!(down_alert(&record, T0), None);
    assert_eq!(down_alert(&record, T0 + 30 * SEC), None);
    assert_eq!(down_alert(&record, T0 + 60 * SEC), None);
    assert_eq!(down_alert(&record, T0 + 60 * SEC + 1), Some(T0));
    assert_eq!(down_alert(&record, T0 + 90 * SEC), Some(T0));
    assert_eq!(down_alert(&record, T0 - SEC), None);
}

#[test]
fn announced_outage_stays_quiet() {
    let record = Info::ServerDown(ServerDown { since: T0, ping_sent: true });
    assert_eq!(down_alert(&record, T0 + 90 * SEC), None);
    assert_eq!(down_alert(&record, T0 + 9_000 * SEC), None);
}

#[test]
fn monitor_fires_once_per_outage() {
    let mut cache = PollCache::new();
    cache.register("meow");
    assert_eq!(down_detector(&cache, "meow", T0), Ok(None));
    cache.store_failure("meow", T0).unwrap();
    assert_eq!(down_detector(&cache, "meow", T0 + 30 * SEC), Ok(None));
    cache.store_failure("meow", T0 + 30 * SEC).unwrap();
    assert_eq!(down_detector(&cache, "meow", T0 + 60 * SEC), Ok(None));
    cache.store_failure("meow", T0 + 60 * SEC).unwrap();
    assert_eq!(down_detector(&cache, "meow", T0 + 90 * SEC), Ok(Some(T0)));
    cache.mark_notified("meow").unwrap();
    assert_eq!(down_detector(&cache, "meow", T0 + 90 * SEC), Ok(None));
    cache.store_failure("meow", T0 + 120 * SEC).unwrap();
    assert_eq!(down_detector(&cache, "meow", T0 + 120 * SEC), Ok(None));
    assert_eq!(down_detector(&cache, "meow", T0 + 100_000 * SEC), Ok(None));
}

#[test]
fn monitor_stays_quiet_until_marked() {
    // An announcement that could not be sent is due again at the next check.
    let mut cache = PollCache::new();
    cache.register("meow");
    cache.store_failure("meow", T0).unwrap();
    assert_eq!(down_detector(&cache, "meow", T0 + 90 * SEC), Ok(Some(T0)));
    assert_eq!(down_detector(&cache, "meow", T0 + 120 * SEC), Ok(Some(T0)));
}

#[test]
fn monitor_rejects_unknown_names() {
    let cache = PollCache::new();
    assert_eq!(down_detector(&cache, "meow", T0), Err(CacheError::UnknownServer));
}
