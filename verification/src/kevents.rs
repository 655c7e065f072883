//! Cluster event records, as read from the event stream.

use vstd::prelude::*;

verus! {

/// One event reported by the cluster: the kind and name of the involved
/// object, the reason, the message and the timestamp.
#[derive(Debug, Clone)]
pub struct KubeEventData {
    pub kind: String,
    pub name: String,
    pub reason: String,
    pub message: String,
    pub timestamp: String,
}

impl KubeEventData {
    /// Whether this event concerns a pod; pod events are the ones that
    /// drive log-monitor refreshes.
    pub fn is_pod(&self) -> (r: bool)
        ensures
            r == (self.kind@ == "Pod"@),
    {
        crate::text::eq_str(self.kind.as_str(), "Pod")
    }
}

} // verus!
