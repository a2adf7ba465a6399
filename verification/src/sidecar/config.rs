//! The sidecar's configuration: where it listens, and the one upstream it
//! forwards to.
use vstd::prelude::*;
use vstd::string::*;
use crate::text::join;

verus! {

/// Where the sidecar listens and what it forwards to.
pub struct Config {
    /// Address of the HTTP health server (e.g. `0.0.0.0:8080`).
    pub http_listen: String,
    /// Address of the TCP proxy (e.g. `0.0.0.0:8888`).
    pub tcp_listen: String,
    /// Upstream TCP address (e.g. `127.0.0.1:9000`).
    pub target_tcp: Option<String>,
    /// Upstream Unix domain socket path (e.g. `/var/run/app.sock`).
    pub target_uds: Option<String>,
}

impl Config {
    /// Checks that exactly one target, TCP or Unix socket, is given.
    pub fn validate(&self) -> (r: Result<(), String>)
        ensures
            (self.target_tcp is Some && self.target_uds is Some) ==> (r matches Err(m) && m@
                == "Both SIDECAR_TARGET_TCP and SIDECAR_TARGET_UDS are set. Please specify only one."@),
            (self.target_tcp is None && self.target_uds is None) ==> (r matches Err(m) && m@
                == "No proxy target specified. Please set either SIDECAR_TARGET_TCP or SIDECAR_TARGET_UDS."@),
            (self.target_tcp is Some) != (self.target_uds is Some) ==> r is Ok,
    {
        match (&self.target_tcp, &self.target_uds) {
            (Some(_), Some(_)) => Err(
                String::from_str(
                    "Both SIDECAR_TARGET_TCP and SIDECAR_TARGET_UDS are set. Please specify only one.",
                ),
            ),
            (None, None) => Err(
                String::from_str(
                    "No proxy target specified. Please set either SIDECAR_TARGET_TCP or SIDECAR_TARGET_UDS.",
                ),
            ),
            _ => Ok(()),
        }
    }

    /// A one-line description: `HTTP Listen: <a>, TCP Listen: <b>, Target:
    /// <t>`, the target being the TCP address, else the socket path, else
    /// `None`.
    pub fn describe(&self) -> (s: String)
        ensures
            s@ == "HTTP Listen: "@ + self.http_listen@ + ", TCP Listen: "@ + self.tcp_listen@
                + ", Target: "@ + match (self.target_tcp, self.target_uds) {
                (Some(t), _) => t@,
                (None, Some(u)) => u@,
                (None, None) => "None"@,
            },
    {
        let a = join("HTTP Listen: ", self.http_listen.as_str());
        let b = join(a.as_str(), ", TCP Listen: ");
        let c = join(b.as_str(), self.tcp_listen.as_str());
        let d = join(c.as_str(), ", Target: ");
        match (&self.target_tcp, &self.target_uds) {
            (Some(t), _) => join(d.as_str(), t.as_str()),
            (None, Some(u)) => join(d.as_str(), u.as_str()),
            (None, None) => join(d.as_str(), "None"),
        }
    }
}

} // verus!
