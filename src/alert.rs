use vstd::prelude::*;

verus! {

/// The event raised when a key's deadline passed without a ping.
pub struct Alert {
    /// The key of the service that missed its heartbeat.
    pub id: String,
    /// The instant at which the expiry was processed.
    pub fired_at: u64,
}

impl Alert {
    pub fn new(id: String, fired_at: u64) -> (r: Alert)
        ensures
            r.id@ == id@,
            r.fired_at == fired_at,
    {
        Alert { id, fired_at }
    }
}

} // verus!
