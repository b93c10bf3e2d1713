//! The serial transport manager's decision step: it owns only the open /
//! close lifecycle and the availability signal.  While the health signal is
//! true it does nothing; while false it attempts to reopen the device, and
//! on failure sleeps a fixed delay before retrying — retries are unbounded
//! and the delay never grows.

use vstd::prelude::*;

verus! {

/// The serial transport manager: reconnect loop with a fixed delay.
pub struct SerialManager {
    /// Fixed delay before a reconnection attempt, in milliseconds.
    pub reconnect_delay: u64,
}

impl SerialManager {
    /// A manager with the configured fixed reconnection delay.
    pub fn new(reconnect_delay: u64) -> (r: SerialManager)
        ensures
            r.reconnect_delay == reconnect_delay,
    {
        SerialManager { reconnect_delay }
    }

    /// Whether the manager must attempt to open the device: exactly when
    /// the health signal reports the transport down.
    pub fn wants_open(&self, healthy: bool) -> (r: bool)
        ensures
            r == !healthy,
    {
        !healthy
    }

    /// Digest the outcome of an open attempt: the health to publish is the
    /// outcome itself, and after a failure the task sleeps the fixed delay
    /// before retrying.
    pub fn on_open_result(&self, opened: bool) -> (r: (bool, Option<u64>))
        ensures
            r.0 == opened,
            r.1 is Some <==> !opened,
            !opened ==> r.1->0 == self.reconnect_delay,
    {
        if opened {
            (true, None)
        } else {
            (false, Some(self.reconnect_delay))
        }
    }
}

} // verus!
