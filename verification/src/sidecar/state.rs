//! State shared by the sidecar's health server and its proxy: the time of
//! the last traffic.
use std::sync::atomic::AtomicI64;
use std::sync::atomic::Ordering;
use vstd::prelude::*;
use crate::clock::{clock_now, since_unix_epoch, whole_secs};

verus! {

/// Unix time in seconds from a reading of the clock: zero for a time
/// before the epoch, otherwise the seconds cast to `i64`.
pub fn timestamp_from(secs: Option<u64>) -> (t: i64)
    ensures
        t == match secs {
            Some(s) => s as i64,
            None => 0i64,
        },
{
    match secs {
        Some(s) => s as i64,
        None => 0,
    }
}

/// The current Unix time in seconds. The value comes from the wall clock,
/// so nothing is promised of it; the conversion of a reading is
/// `timestamp_from`.
pub fn current_timestamp() -> i64 {
    let now = clock_now();
    let secs = match since_unix_epoch(&now) {
        Some(d) => Some(whole_secs(&d)),
        None => None,
    };
    timestamp_from(secs)
}

/// Shared state between the HTTP server and the TCP proxy.
pub struct AppState {
    last_activity: AtomicI64,
}

impl AppState {
    /// State whose last activity is now. The time sits in a std atomic,
    /// whose contents no contract can follow.
    pub fn new() -> Self {
        AppState { last_activity: AtomicI64::new(current_timestamp()) }
    }

    /// Records activity now.
    pub fn update_activity(&self) {
        self.last_activity.store(current_timestamp(), Ordering::Relaxed);
    }

    /// The Unix time of the last activity: the value that `new` or the
    /// latest `update_activity` stored. It is read from a std atomic that
    /// `update_activity` writes through a shared reference, so no contract
    /// names it.
    pub fn get_last_activity(&self) -> i64 {
        self.last_activity.load(Ordering::Relaxed)
    }
}

} // verus!
