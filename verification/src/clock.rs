//! Readings of a monotonic clock.

use vstd::prelude::*;

verus! {

/// Nanoseconds in one second.
pub const NANOS_PER_SEC: u128 = 1_000_000_000;

/// A reading of a monotonic clock: the time since an origin that the caller
/// fixes once, such as the start of the process.
#[derive(Clone, Copy, Debug, PartialEq, Eq, Structural)]
pub struct Timestamp {
    nanos: u128,
}

impl Timestamp {
    /// The reading in nanoseconds since the origin.
    pub closed spec fn nanos(self) -> nat {
        self.nanos as nat
    }

    /// The whole seconds that passed from `earlier` to this reading, or
    /// `None` where this reading is the earlier one.
    pub open spec fn seconds_since(self, earlier: Timestamp) -> Option<nat> {
        if self.nanos() >= earlier.nanos() {
            Some(((self.nanos() - earlier.nanos()) / NANOS_PER_SEC as int) as nat)
        } else {
            None
        }
    }

    /// Whether a visit seen at `self` has timed out at `now`: at least
    /// `timeout` whole seconds have passed, the boundary included. A reading
    /// that lies before the visit times nothing out.
    pub open spec fn expired_at(self, now: Timestamp, timeout: nat) -> bool {
        match now.seconds_since(self) {
            Some(elapsed) => elapsed >= timeout,
            None => false,
        }
    }

    /// The reading `secs` seconds and `subsec_nanos` nanoseconds after the
    /// origin.
    pub fn new(secs: u64, subsec_nanos: u32) -> (t: Timestamp)
        ensures
            t.nanos() == secs as nat * NANOS_PER_SEC as nat + subsec_nanos as nat,
    {
        let whole: u128 = secs as u128 * NANOS_PER_SEC;
        Timestamp { nanos: whole + subsec_nanos as u128 }
    }

    /// The reading `secs` whole seconds after the origin.
    pub fn from_secs(secs: u64) -> (t: Timestamp)
        ensures
            t.nanos() == secs as nat * NANOS_PER_SEC as nat,
    {
        Timestamp::new(secs, 0)
    }

    /// Whether a visit seen at `self` has timed out at `now`.
    pub fn is_expired(&self, now: Timestamp, timeout: u64) -> (b: bool)
        ensures
            b == self.expired_at(now, timeout as nat),
    {
        if now.nanos >= self.nanos {
            (now.nanos - self.nanos) / NANOS_PER_SEC >= timeout as u128
        } else {
            false
        }
    }
}

} // verus!
