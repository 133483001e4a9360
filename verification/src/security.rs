//! Security event records, as the logging layer consumes them.

use vstd::prelude::*;

verus! {

/// What kind of suspicious activity was seen.
#[derive(Clone, Copy, Debug, PartialEq, Eq, Structural)]
pub enum SecurityEventType {
    CSRFAttempt,
    RateLimitExceeded,
    InvalidInput,
    SuspiciousActivity,
    AuthenticationFailure,
    AuthorizationFailure,
}

/// How serious the event is.
#[derive(Clone, Copy, Debug, PartialEq, Eq, Structural)]
pub enum SecuritySeverity {
    Low,
    Medium,
    High,
    Critical,
}

/// One recorded security event.  The timestamp is in milliseconds since the
/// Unix epoch.
pub struct SecurityEvent {
    pub timestamp: u64,
    pub ip_address: String,
    pub user_id: Option<String>,
    pub event_type: SecurityEventType,
    pub description: String,
    pub severity: SecuritySeverity,
}

impl SecurityEvent {
    /// Assemble an event record from its parts.
    pub fn new(
        timestamp: u64,
        ip_address: String,
        user_id: Option<String>,
        event_type: SecurityEventType,
        description: String,
        severity: SecuritySeverity,
    ) -> (r: SecurityEvent)
        ensures
            r.timestamp == timestamp,
            r.ip_address@ == ip_address@,
            r.event_type == event_type,
            r.description@ == description@,
            r.severity == severity,
    {
        SecurityEvent { timestamp, ip_address, user_id, event_type, description, severity }
    }
}

} // verus!
