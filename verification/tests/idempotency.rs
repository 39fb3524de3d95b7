use hub::newsletter::idempotency::{
    cleanup_interval_secs, key_is_stale, retention_cutoff, CLEANUP_INTERVAL_HOURS, RETENTION_DAYS,
};

#[test]
fn retention_period_is_30_days() {
    assert_eq!(RETENTION_DAYS, 30);
}

#[test]
fn cleanup_runs_daily() {
    assert_eq!(CLEANUP_INTERVAL_HOURS, 24);
}

#[test]
fn cleanup_interval_is_a_day_in_seconds() {
    assert_eq!(cleanup_interval_secs(), 86_400);
}

#[test]
fn cutoff_is_thirty_days_before_now() {
    assert_eq!(retention_cutoff(3_000_000), 3_000_000 - 30 * 86_400);
}

#[test]
fn keys_older_than_the_cutoff_are_stale() {
    let now = 10_000_000;
    let cutoff = now - 30 * 86_400;
    assert!(key_is_stale(cutoff - 1, now));
    assert!(!key_is_stale(cutoff, now));
    assert!(!key_is_stale(now, now));
}
