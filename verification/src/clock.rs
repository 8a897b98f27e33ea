//! The clock that steps a match.

use vstd::prelude::*;

verus! {

/// How far behind a clock may fall before it gives the lost time up: half a
/// second, in nanoseconds.
pub const CATCH_UP: u64 = 500_000_000;

/// When the next tick is due, in nanoseconds since the server started, and how
/// long one lasts.
#[derive(Clone, Copy, Debug, PartialEq, Eq, Structural)]
pub struct TickClock {
    pub next: u64,
    pub tick: u64,
}

impl TickClock {
    /// Whether a tick is due.
    pub fn due(&self, now: u64) -> (r: bool)
        ensures
            r == (now >= self.next),
    {
        now >= self.next
    }

    /// Counts a tick that has been stepped. Says whether to look for another.
    ///
    /// Guards against falling so far behind that everything goes into catching
    /// up, as after the process was suspended: the time lost is given up.
    pub fn stepped(&mut self, now: u64) -> (more: bool)
        requires
            old(self).next + old(self).tick + CATCH_UP <= u64::MAX,
        ensures
            final(self).tick == old(self).tick,
            more == (now <= old(self).next + old(self).tick + CATCH_UP),
            final(self).next == if more {
                (old(self).next + old(self).tick) as u64
            } else {
                now
            },
    {
        self.next = self.next + self.tick;
        if now > self.next + CATCH_UP {
            self.next = now;
            return false;
        }
        true
    }

    pub open spec fn rest_spec(self, now: u64) -> u64 {
        if now >= self.next {
            0
        } else if self.next - now <= self.tick {
            (self.next - now) as u64
        } else {
            self.tick
        }
    }

    /// How long to sleep. Never longer than one tick: a client's packet should
    /// not wait for the simulation before it is even read.
    pub fn rest(&self, now: u64) -> (r: u64)
        ensures
            now >= self.next ==> r == 0,
            now < self.next && self.next - now <= self.tick ==> now + r == self.next,
            now < self.next && self.next - now > self.tick ==> r == self.tick,
            r == self.rest_spec(now),
    {
        if now >= self.next {
            0
        } else if self.next - now <= self.tick {
            self.next - now
        } else {
            self.tick
        }
    }
}

/// A host is never asked to sleep for longer than one tick, nor past the next
/// one.
pub proof fn lemma_rest_is_at_most_a_tick(clock: TickClock, now: u64)
    ensures
        clock.rest_spec(now) <= clock.tick,
        now < clock.next ==> now + clock.rest_spec(now) <= clock.next,
{
}

/// A host that keeps up loses no time: ticks fall due one tick apart, whenever
/// each of them was actually stepped.
pub proof fn lemma_ticks_do_not_drift(clock: TickClock, first: u64, second: u64)
    requires
        clock.next + 2 * clock.tick + CATCH_UP <= u64::MAX,
        first <= clock.next + clock.tick + CATCH_UP,
        clock.next + clock.tick <= second,
    ensures
        ({
            let once = TickClock { next: (clock.next + clock.tick) as u64, ..clock };
            &&& once.rest_spec(second) == 0
            &&& once.next - clock.next == clock.tick
        }),
{
}

} // verus!
