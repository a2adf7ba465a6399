//! The hub's errors, and the HTTP answer each of them gets.
use vstd::prelude::*;
use vstd::string::*;
use crate::text::join;

verus! {

/// What can go wrong while serving a workshop.
pub enum HubError {
    /// A call to the Kubernetes API failed during `operation`; `message`
    /// describes the failure.
    KubeError { operation: String, message: String },
    /// The pod did not become ready in time.
    PodNotReady,
    /// The global pod limit is reached.
    PodLimitReached,
    /// No workshop of the requested name is configured.
    WorkshopNotFound,
    /// Any other failure, described.
    Error(String),
}

impl HubError {
    /// The error's description.
    pub fn describe(&self) -> (s: String)
        ensures
            s@ == (match self {
                HubError::KubeError { operation, message } => "Kubernetes API error during "@
                    + operation@ + ": "@ + message@,
                HubError::PodNotReady => "Pod failed to become ready in time"@,
                HubError::PodLimitReached => "Global pod limit reached"@,
                HubError::WorkshopNotFound => "Workshop not found"@,
                HubError::Error(m) => m@,
            }),
    {
        match self {
            HubError::KubeError { operation, message } => {
                let a = join("Kubernetes API error during ", operation.as_str());
                let b = join(a.as_str(), ": ");
                join(b.as_str(), message.as_str())
            },
            HubError::PodNotReady => String::from_str("Pod failed to become ready in time"),
            HubError::PodLimitReached => String::from_str("Global pod limit reached"),
            HubError::WorkshopNotFound => String::from_str("Workshop not found"),
            HubError::Error(m) => m.clone(),
        }
    }

    /// The HTTP status code and body that answer this error.
    pub fn status_and_message(&self) -> (r: (u16, String))
        ensures
            match self {
                HubError::PodNotReady => r.0 == 504 && r.1@ == "Workshop failed to start"@,
                HubError::PodLimitReached => r.0 == 503 && r.1@
                    == "Service is at capacity, please try again later"@,
                _ => r.0 == 500 && r.1@ == "Internal server error"@,
            },
    {
        match self {
            HubError::PodNotReady => (504, String::from_str("Workshop failed to start")),
            HubError::PodLimitReached => (
                503,
                String::from_str("Service is at capacity, please try again later"),
            ),
            _ => (500, String::from_str("Internal server error")),
        }
    }
}

} // verus!
