//! The tracked host, as the store keeps it.

use vstd::prelude::*;

verus! {

/// A host whose latency is tracked.
#[derive(Debug, Clone, PartialEq, Eq)]
pub struct Host {
    pub id: i64,
    pub target: String,
    pub label: Option<String>,
    pub interval_seconds: i64,
    pub enabled: bool,
    pub created_at: String,
}

impl Host {
    /// Builds a host from the columns of its row in the `hosts` table, in
    /// table order. The `enabled` column is an integer flag: the host is
    /// enabled exactly when it holds 1.
    pub fn from_columns(
        id: i64,
        target: String,
        label: Option<String>,
        interval_seconds: i64,
        enabled: i64,
        created_at: String,
    ) -> (h: Host)
        ensures
            h.id == id,
            h.target == target,
            h.label == label,
            h.interval_seconds == interval_seconds,
            h.enabled == (enabled == 1),
            h.created_at == created_at,
    {
        Host { id, target, label, interval_seconds, enabled: enabled == 1, created_at }
    }
}

} // verus!
