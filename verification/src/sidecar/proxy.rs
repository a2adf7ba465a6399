//! The sidecar's TCP proxy: which upstream it connects to, and which traffic
//! counts as activity.
use std::sync::Arc;
use vstd::prelude::*;
use vstd::string::*;
use crate::sidecar::config::Config;
use crate::sidecar::state::AppState;

verus! {

/// The upstream a connection is forwarded to.
pub enum UpstreamTarget {
    Tcp(String),
    Uds(String),
}

/// The configured upstream: the TCP address if one is given, else the
/// socket path; an error where neither is.
pub fn upstream_target(config: &Config) -> (r: Result<UpstreamTarget, String>)
    ensures
        match (config.target_tcp, config.target_uds) {
            (Some(t), _) => r matches Ok(UpstreamTarget::Tcp(a)) && a@ == t@,
            (None, Some(u)) => r matches Ok(UpstreamTarget::Uds(p)) && p@ == u@,
            (None, None) => r matches Err(m) && m@ == "No upstream target configured"@,
        },
{
    if let Some(tcp) = &config.target_tcp {
        Ok(UpstreamTarget::Tcp(tcp.clone()))
    } else if let Some(uds) = &config.target_uds {
        Ok(UpstreamTarget::Uds(uds.clone()))
    } else {
        Err(String::from_str("No upstream target configured"))
    }
}

/// A stream that records activity on the shared state whenever data passes.
pub struct ActivityStream<S> {
    pub inner: S,
    pub state: Arc<AppState>,
}

/// A completed read counts as activity when it filled some bytes.
pub open spec fn read_is_activity(filled: usize) -> bool {
    filled > 0
}

/// A completed write counts as activity when it wrote some bytes.
pub open spec fn write_is_activity(written: usize) -> bool {
    written > 0
}

impl<S> ActivityStream<S> {
    pub fn new(inner: S, state: Arc<AppState>) -> (r: Self)
        ensures
            r.inner == inner,
            r.state == state,
    {
        ActivityStream { inner, state }
    }

    /// Records a completed read of `filled` bytes; returns whether it counted
    /// as activity.
    pub fn record_read(&self, filled: usize) -> (counted: bool)
        ensures
            counted == read_is_activity(filled),
    {
        if filled > 0 {
            self.state.update_activity();
            true
        } else {
            false
        }
    }

    /// Records a completed write of `written` bytes; returns whether it
    /// counted as activity.
    pub fn record_write(&self, written: usize) -> (counted: bool)
        ensures
            counted == write_is_activity(written),
    {
        if written > 0 {
            self.state.update_activity();
            true
        } else {
            false
        }
    }
}

} // verus!
