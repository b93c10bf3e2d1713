//! The health signal: a single-value cell per transport holding the last
//! known connectivity state.  A single writer publishes into it — idempotent
//! and last-write-wins — and any number of readers poll it to gate work.

use vstd::prelude::*;

verus! {

/// The connectivity state of one transport: `true` means the last known-good
/// connection is usable.  Advisory only: the transport handle itself remains
/// the source of truth, the signal only avoids busy-looping on a known-bad
/// transport.
pub struct HealthSignal {
    up: bool,
}

impl View for HealthSignal {
    type V = bool;

    closed spec fn view(&self) -> bool {
        self.up
    }
}

impl HealthSignal {
    /// A fresh signal: the transport starts out not connected.
    pub fn new() -> (r: HealthSignal)
        ensures
            !r@,
    {
        HealthSignal { up: false }
    }

    /// Publish the current connectivity state: last write wins, publishing
    /// the value already held changes nothing.
    pub fn publish(&mut self, connected: bool)
        ensures
            final(self)@ == connected,
    {
        self.up = connected;
    }

    /// The last published state.
    pub fn current(&self) -> (r: bool)
        ensures
            r == self@,
    {
        self.up
    }
}

} // verus!
