//! Coalescing bursts of events: a call goes through once the events have
//! been quiet for a while, after the last event of the burst.
use vstd::prelude::*;

verus! {

/// Remembers the last event and whether a call is still owed for it.
#[derive(Clone, Copy, Debug, PartialEq, Eq, Structural)]
pub struct Debouncer {
    /// The quiet time after the last event before the call, in milliseconds.
    pub duration: u64,
    /// When the last event came, in milliseconds.
    pub last_event: u64,
    /// Whether an event has come since the last call.
    pub pending: bool,
}

/// The time at which an event at `now` becomes due, unless another comes.
pub open spec fn deadline(now: int, duration: int) -> int {
    if now + duration <= u64::MAX {
        now + duration
    } else {
        u64::MAX as int
    }
}

impl Debouncer {
    /// A gate with nothing pending.
    pub fn new(duration: u64) -> (r: Debouncer)
        ensures
            r.duration == duration,
            r.last_event == 0,
            !r.pending,
    {
        Debouncer { duration, last_event: 0, pending: false }
    }

    /// Records an event at `now`; returns when the call becomes due if no
    /// other event comes before.
    pub fn record(&mut self, now: u64) -> (r: u64)
        ensures
            final(self).last_event == now,
            final(self).pending,
            final(self).duration == old(self).duration,
            r == deadline(now as int, old(self).duration as int),
    {
        self.last_event = now;
        self.pending = true;
        if now <= u64::MAX - self.duration {
            now + self.duration
        } else {
            u64::MAX
        }
    }

    /// Called when a timer fires at `now`: whether the handler runs now,
    /// which is when an event is pending and the quiet time has passed since
    /// the last one. Running it clears the pending event.
    pub fn fire(&mut self, now: u64) -> (r: bool)
        ensures
            r == (old(self).pending && now >= deadline(
                old(self).last_event as int,
                old(self).duration as int,
            )),
            r ==> !final(self).pending,
            !r ==> *final(self) == *old(self),
            final(self).last_event == old(self).last_event,
            final(self).duration == old(self).duration,
    {
        let due: u64 = if self.last_event <= u64::MAX - self.duration {
            self.last_event + self.duration
        } else {
            u64::MAX
        };
        if self.pending && now >= due {
            self.pending = false;
            true
        } else {
            false
        }
    }
}

} // verus!
