use vstd::prelude::*;

use crate::clock::get_us;

verus! {

/// Counts frames and says, once per interval, how many were drawn.
pub struct FrameCounter {
    pub ticks: u32,
    pub last_reset: u64,
    /// Length of a counting interval, in microseconds.
    pub interval: u64,
}

/// One more frame, held at `u32::MAX`.
pub open spec fn bumped(ticks: u32) -> u32 {
    if ticks < u32::MAX {
        (ticks + 1) as u32
    } else {
        ticks
    }
}

impl FrameCounter {
    /// Whether the interval that began at `last_reset` is over at `now`.
    pub open spec fn due(&self, now: u64) -> bool {
        now >= self.last_reset + self.interval
    }

    /// A counter with no frames yet, whose first interval starts now.
    pub fn new(interval: u64) -> (r: FrameCounter)
        ensures
            r.ticks == 0,
            r.interval == interval,
    {
        FrameCounter { ticks: 0, last_reset: get_us(), interval }
    }

    /// Counts one frame drawn at `now`. When the interval is over, returns
    /// the frames counted in it, and a new interval starts with this frame.
    pub fn tick_at(&mut self, now: u64) -> (r: Option<u32>)
        ensures
            final(self).interval == old(self).interval,
            old(self).due(now) ==> r == Some(old(self).ticks) && final(self).ticks == 1
                && final(self).last_reset == now,
            !old(self).due(now) ==> r is None && final(self).ticks == bumped(old(self).ticks)
                && final(self).last_reset == old(self).last_reset,
    {
        let report = if now >= self.last_reset && now - self.last_reset >= self.interval {
            let counted = self.ticks;
            self.ticks = 0;
            self.last_reset = now;
            Some(counted)
        } else {
            None
        };
        if self.ticks < u32::MAX {
            self.ticks = self.ticks + 1;
        }
        report
    }

    /// Counts one frame drawn now, as `tick_at` does at the clock's time.
    pub fn tick(&mut self) -> (r: Option<u32>)
        ensures
            final(self).interval == old(self).interval,
            r is Some ==> r == Some(old(self).ticks) && final(self).ticks == 1 && old(self).due(
                final(self).last_reset,
            ),
            r is None ==> final(self).ticks == bumped(old(self).ticks) && final(self).last_reset
                == old(self).last_reset,
    {
        let now = get_us();
        self.tick_at(now)
    }
}

} // verus!
