use vstd::prelude::*;

verus! {

/// The timing of one frame, in nanoseconds.
#[derive(Debug, Clone, Copy, PartialEq, Eq, Structural)]
pub struct Tick {
    /// The reading of the clock at this frame.
    pub time: u64,
    /// Time since the clock was started.
    pub elapsed: u64,
    /// Time since the previous frame.
    pub delta: u64,
}

/// Decides when the next frame is due, from readings of a monotonic clock in nanoseconds.
#[derive(Debug, Clone, Copy)]
pub struct FrameClock {
    pub start: u64,
    pub last: u64,
    pub next_frame: u64,
    pub target_delta: u64,
}

impl FrameClock {
    /// A clock started at `now` whose first frame is due at once.
    pub fn new(now: u64, target_delta: u64) -> (r: Self)
        ensures
            r == (FrameClock { start: now, last: now, next_frame: now, target_delta }),
    {
        FrameClock { start: now, last: now, next_frame: now, target_delta }
    }

    /// Pushes the next frame back to one target interval after `now`.
    pub fn resume(&mut self, now: u64)
        ensures
            *final(self) == (FrameClock {
                next_frame: (if now as int + old(self).target_delta <= u64::MAX {
                    (now + old(self).target_delta) as u64
                } else {
                    u64::MAX
                }),
                ..*old(self)
            }),
    {
        self.next_frame = now.saturating_add(self.target_delta);
    }

    /// At a reading `now` before the next frame is due, nothing changes and
    /// there is no frame. Otherwise a frame is due: its timing is returned,
    /// it becomes the last frame, and the next one is due one target interval later.
    pub fn tick(&mut self, now: u64) -> (r: Option<Tick>)
        ensures
            now < old(self).next_frame ==> r.is_none() && *final(self) == *old(self),
            now >= old(self).next_frame ==> r == Some(
                Tick {
                    time: now,
                    elapsed: (if now >= old(self).start {
                        (now - old(self).start) as u64
                    } else {
                        0
                    }),
                    delta: (if now >= old(self).last {
                        (now - old(self).last) as u64
                    } else {
                        0
                    }),
                },
            ) && *final(self) == (FrameClock {
                last: now,
                next_frame: (if now as int + old(self).target_delta <= u64::MAX {
                    (now + old(self).target_delta) as u64
                } else {
                    u64::MAX
                }),
                ..*old(self)
            }),
    {
        if now < self.next_frame {
            return None;
        }
        let tick = Tick {
            time: now,
            elapsed: now.saturating_sub(self.start),
            delta: now.saturating_sub(self.last),
        };
        self.last = now;
        self.next_frame = now.saturating_add(self.target_delta);
        Some(tick)
    }
}

} // verus!
