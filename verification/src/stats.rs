//! Interval statistics: accumulating, resettable byte counters.
//!
//! The engine adds to the counters on every successful transfer; the
//! manager samples them through an atomic take-and-reset that stamps the
//! window end and starts a fresh window.  Timestamps are Unix nanoseconds.

use vstd::prelude::*;

use crate::token_bucket::NANOS_PER_SEC;
use crate::units::BasePreference;
use crate::units::NBytes;
use crate::units::SizePreference;

verus! {

/// Plain byte counters for one reporting window.
#[derive(Debug, Clone, Copy, PartialEq, Eq, Structural)]
pub struct IntervalStats {
    pub bytes_sent: u64,
    pub bytes_recv: u64,
}

impl Default for IntervalStats {
    fn default() -> (r: Self)
        ensures
            r.bytes_sent == 0,
            r.bytes_recv == 0,
    {
        IntervalStats { bytes_sent: 0, bytes_recv: 0 }
    }
}

impl IntervalStats {
    pub fn add_sent(&mut self, n: u64)
        requires
            old(self).bytes_sent + n <= u64::MAX,
        ensures
            *final(self) == (IntervalStats { bytes_sent: (old(self).bytes_sent + n) as u64, ..*old(self) }),
    {
        self.bytes_sent = self.bytes_sent + n;
    }

    pub fn add_recv(&mut self, n: u64)
        requires
            old(self).bytes_recv + n <= u64::MAX,
        ensures
            *final(self) == (IntervalStats { bytes_recv: (old(self).bytes_recv + n) as u64, ..*old(self) }),
    {
        self.bytes_recv = self.bytes_recv + n;
    }

    /// Atomically hand the accumulated counters out and reset them to zero.
    pub fn take(&mut self) -> (r: IntervalStats)
        ensures
            r == *old(self),
            final(self).bytes_sent == 0,
            final(self).bytes_recv == 0,
    {
        let r = IntervalStats { bytes_sent: self.bytes_sent, bytes_recv: self.bytes_recv };
        self.bytes_sent = 0;
        self.bytes_recv = 0;
        r
    }
}

/// One reporting window: byte counters plus the `[start, end)` stamp, as
/// handed from the engine to the manager.
#[derive(Debug, Clone, Copy, PartialEq, Eq, Structural)]
pub struct IntervalResult {
    pub bytes_received: NBytes,
    pub bytes_sent: NBytes,
    pub start: u64,
    pub end: u64,
}

/// A window freshly begun at `now`: zero counters, the end provisionally
/// one second out (saturating at the clock's range).
pub open spec fn fresh_interval(now: u64) -> IntervalResult {
    IntervalResult {
        bytes_received: NBytes {
            n: 0,
            size_preference: SizePreference::Auto,
            base_preference: BasePreference::Base2,
        },
        bytes_sent: NBytes {
            n: 0,
            size_preference: SizePreference::Auto,
            base_preference: BasePreference::Base2,
        },
        start: now,
        end: if now + NANOS_PER_SEC <= u64::MAX { (now + NANOS_PER_SEC) as u64 } else { u64::MAX },
    }
}

impl IntervalResult {
    pub fn new_at(now: u64) -> (r: IntervalResult)
        ensures
            r == fresh_interval(now),
    {
        let end: u64 = if now <= u64::MAX - NANOS_PER_SEC { now + NANOS_PER_SEC } else { u64::MAX };
        IntervalResult {
            bytes_received: NBytes::default(),
            bytes_sent: NBytes::default(),
            start: now,
            end,
        }
    }

    pub fn add_bytes_sent(&mut self, sent: usize)
        requires
            old(self).bytes_sent.n + sent <= u64::MAX,
        ensures
            final(self).bytes_sent.n == old(self).bytes_sent.n + sent,
            final(self).bytes_sent.size_preference == old(self).bytes_sent.size_preference,
            final(self).bytes_sent.base_preference == old(self).bytes_sent.base_preference,
            final(self).bytes_received == old(self).bytes_received,
            final(self).start == old(self).start,
            final(self).end == old(self).end,
    {
        self.bytes_sent.add_bytes(sent as u64);
    }

    pub fn add_bytes_received(&mut self, received: usize)
        requires
            old(self).bytes_received.n + received <= u64::MAX,
        ensures
            final(self).bytes_received.n == old(self).bytes_received.n + received,
            final(self).bytes_received.size_preference == old(self).bytes_received.size_preference,
            final(self).bytes_received.base_preference == old(self).bytes_received.base_preference,
            final(self).bytes_sent == old(self).bytes_sent,
            final(self).start == old(self).start,
            final(self).end == old(self).end,
    {
        self.bytes_received.add_bytes(received as u64);
    }

    /// Stamp the window end before handing the snapshot out.
    pub fn prepare_to_send(&mut self, now: u64)
        ensures
            *final(self) == (IntervalResult { end: now, ..*old(self) }),
    {
        self.end = now;
    }

    /// Atomic take-and-reset: the snapshot keeps the accumulated counters
    /// with its end stamped `now`; the window restarts fresh at `now`.
    pub fn take_at(&mut self, now: u64) -> (r: IntervalResult)
        ensures
            r == (IntervalResult { end: now, ..*old(self) }),
            *final(self) == fresh_interval(now),
    {
        let mut taken = IntervalResult {
            bytes_received: self.bytes_received,
            bytes_sent: self.bytes_sent,
            start: self.start,
            end: self.end,
        };
        *self = IntervalResult::new_at(now);
        taken.prepare_to_send(now);
        taken
    }
}

/// Interval reset law: a take-and-reset at `t1` leaves zeroed counters, so
/// a second take at `t2` with no traffic in between reports a window with
/// zero bytes sent and zero bytes received.
pub proof fn lemma_interval_reset(t1: u64, t2: u64)
    ensures
        ({
            let after_first = fresh_interval(t1);
            let second_snapshot = IntervalResult { end: t2, ..after_first };
            &&& second_snapshot.bytes_sent.n == 0
            &&& second_snapshot.bytes_received.n == 0
        }),
{
}

} // verus!
