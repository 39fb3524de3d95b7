//! Retention of stored idempotency keys.

use vstd::prelude::*;

verus! {

/// Idempotency keys are kept for this many days.
pub const RETENTION_DAYS: i64 = 30;

/// The cleanup pass runs this often, in hours.
pub const CLEANUP_INTERVAL_HOURS: u64 = 24;

/// Seconds to sleep between two cleanup passes.
pub fn cleanup_interval_secs() -> (r: u64)
    ensures
        r == CLEANUP_INTERVAL_HOURS * 3600,
        r == 86_400,
{
    CLEANUP_INTERVAL_HOURS * 3600
}

/// The instant (Unix seconds) before which keys are stale: `now` minus the
/// retention period.
pub fn retention_cutoff(now_unix_secs: i64) -> (r: i64)
    requires
        now_unix_secs >= i64::MIN + 2_592_000,
    ensures
        r == now_unix_secs - RETENTION_DAYS * 86_400,
        r == now_unix_secs - 2_592_000,
{
    now_unix_secs - RETENTION_DAYS * 86_400
}

/// A key created at `created_unix_secs` is deleted by a pass run at `now`.
pub open spec fn is_stale(created_unix_secs: int, now_unix_secs: int) -> bool {
    created_unix_secs < now_unix_secs - RETENTION_DAYS * 86_400
}

/// Whether a key created at `created_unix_secs` is removed by a cleanup pass at `now`.
pub fn key_is_stale(created_unix_secs: i64, now_unix_secs: i64) -> (r: bool)
    requires
        now_unix_secs >= i64::MIN + 2_592_000,
    ensures
        r == is_stale(created_unix_secs as int, now_unix_secs as int),
{
    created_unix_secs < retention_cutoff(now_unix_secs)
}

/// A key that is stale at some pass stays stale at every later pass, and a
/// key younger than the retention period is never removed.
pub proof fn lemma_staleness_monotone(created: int, now: int, later: int)
    ensures
        now <= later && is_stale(created, now) ==> is_stale(created, later),
        now - created <= RETENTION_DAYS * 86_400 ==> !is_stale(created, now),
{
}

} // verus!
