//! The sidecar's health report.
use vstd::prelude::*;
use vstd::string::*;

verus! {

/// What the sidecar's `/health` endpoint answers.
pub struct HealthStatus {
    pub status: String,
    pub last_activity_timestamp: i64,
    pub idle_seconds: u64,
}

/// Seconds idle at `now` after activity at `last_activity`: the time since
/// then, or zero where the activity lies in the future.
pub open spec fn idle_since(now: int, last_activity: int) -> int {
    if now - last_activity > 0 {
        now - last_activity
    } else {
        0
    }
}

/// With no new activity, the idle time reported never falls as the clock
/// moves on, and never goes below zero.
pub proof fn lemma_idle_never_falls(n1: int, n2: int, last_activity: int)
    requires
        n1 <= n2,
    ensures
        0 <= idle_since(n1, last_activity) <= idle_since(n2, last_activity),
{
}

/// The report at Unix time `now` for a last activity at `last_activity`:
/// status `ok`, and the seconds since then, or zero where the activity lies
/// in the future.
pub fn health_report(now: i64, last_activity: i64) -> (h: HealthStatus)
    requires
        i64::MIN <= now - last_activity <= i64::MAX,
    ensures
        h.status@ == "ok"@,
        h.last_activity_timestamp == last_activity,
        h.idle_seconds == idle_since(now as int, last_activity as int),
{
    let diff: i64 = now - last_activity;
    let idle: u64 = if diff > 0 {
        diff as u64
    } else {
        0
    };
    HealthStatus {
        status: String::from_str("ok"),
        last_activity_timestamp: last_activity,
        idle_seconds: idle,
    }
}

} // verus!
