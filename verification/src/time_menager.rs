//! Frame timing utilities: an accumulating pausable timer and a
//! frames-per-second counter. The caller reads the monotonic clock once
//! per tick and hands the same nanosecond reading to every update, so all
//! comparisons within a tick agree.

use vstd::prelude::*;

verus! {

/// Nanoseconds of wall time between `last` and `now` (zero when the
/// reading did not move forward).
pub open spec fn elapsed_nanos(now: u128, last: u128) -> int {
    if now >= last {
        now - last
    } else {
        0
    }
}

/// A frames-per-second counter: frames seen since the second started, and
/// the rate measured over the last full second.
#[derive(Clone, Copy, PartialEq, Eq, Structural, Debug)]
pub struct Fps {
    pub fps: i32,
    pub fps_counter: i32,
    pub last_time: u128,
}

/// The counter after one frame at `now`: the frame is counted and, once a
/// full second has passed, the rate is published and the window restarts.
pub open spec fn fps_update_spec(s: Fps, now: u128) -> Fps {
    let counted = if s.fps_counter < i32::MAX {
        (s.fps_counter + 1) as i32
    } else {
        s.fps_counter
    };
    if elapsed_nanos(now, s.last_time) >= 1000000000 {
        Fps { fps: counted, fps_counter: 0, last_time: now }
    } else {
        Fps { fps: s.fps, fps_counter: counted, last_time: s.last_time }
    }
}

impl Fps {
    /// A fresh counter, with the current second starting at `now_nanos`.
    pub fn new(now_nanos: u128) -> (r: Fps)
        ensures
            r == (Fps { fps: 0, fps_counter: 0, last_time: now_nanos }),
    {
        Fps { fps: 0, fps_counter: 0, last_time: now_nanos }
    }

    /// Count one frame at `now_nanos`.
    pub fn update(&mut self, now_nanos: u128)
        ensures
            *final(self) == fps_update_spec(*old(self), now_nanos),
    {
        if self.fps_counter < i32::MAX {
            self.fps_counter = self.fps_counter + 1;
        }
        let elapsed: u128 = if now_nanos >= self.last_time {
            now_nanos - self.last_time
        } else {
            0
        };
        if elapsed >= 1000000000 {
            self.last_time = now_nanos;
            self.fps = self.fps_counter;
            self.fps_counter = 0;
        }
    }
}

/// An accumulating timer that can pause: while running, each update adds
/// the wall time since the previous update to the total. Nanoseconds are
/// accumulated (not whole milliseconds) so no error piles up at high
/// refresh rates.
#[derive(Clone, Copy, PartialEq, Eq, Structural, Debug)]
pub struct Timer {
    pub time_elapsed: u128,
    pub last_time: u128,
    pub paused: bool,
}

/// The timer after an update at `now`: a running timer accumulates the
/// elapsed nanoseconds (saturating), a paused one only moves its
/// reference point.
pub open spec fn timer_update_spec(s: Timer, now: u128) -> Timer {
    let gained = if s.paused {
        0int
    } else {
        elapsed_nanos(now, s.last_time)
    };
    let total = if s.time_elapsed + gained > u128::MAX {
        u128::MAX as int
    } else {
        s.time_elapsed + gained
    };
    Timer { time_elapsed: total as u128, last_time: now, paused: s.paused }
}

impl Timer {
    /// A fresh running timer with nothing accumulated.
    pub fn new(now_nanos: u128) -> (r: Timer)
        ensures
            r == (Timer { time_elapsed: 0, last_time: now_nanos, paused: false }),
    {
        Timer { time_elapsed: 0, last_time: now_nanos, paused: false }
    }

    /// Accumulate the time since the previous update (when not paused) and
    /// move the reference point to `now_nanos`.
    pub fn update(&mut self, now_nanos: u128)
        ensures
            *final(self) == timer_update_spec(*old(self), now_nanos),
    {
        if !self.paused {
            let gained: u128 = if now_nanos >= self.last_time {
                now_nanos - self.last_time
            } else {
                0
            };
            self.time_elapsed = self.time_elapsed.saturating_add(gained);
        }
        self.last_time = now_nanos;
    }

    /// The accumulated time in whole microseconds.
    pub fn get_elapsed(&self) -> (r: u128)
        ensures
            r == self.time_elapsed / 1000,
    {
        self.time_elapsed / 1000
    }

    pub fn pause(&mut self)
        ensures
            *final(self) == (Timer { paused: true, ..*old(self) }),
    {
        self.paused = true;
    }

    pub fn resume(&mut self)
        ensures
            *final(self) == (Timer { paused: false, ..*old(self) }),
    {
        self.paused = false;
    }

    pub fn pause_resume(&mut self)
        ensures
            *final(self) == (Timer { paused: !old(self).paused, ..*old(self) }),
    {
        if self.paused {
            self.paused = false;
        } else {
            self.paused = true;
        }
    }
}

/// Per-frame time bookkeeping: the last tick's clock reading and a
/// frames-per-second counter.
#[derive(Clone, Copy, PartialEq, Eq, Structural, Debug)]
pub struct TimeMenager {
    pub fps: Fps,
    pub last_time: u128,
}

impl TimeMenager {
    /// Fresh bookkeeping starting at `now_nanos`.
    pub fn new(now_nanos: u128) -> (r: TimeMenager)
        ensures
            r == (TimeMenager { fps: Fps { fps: 0, fps_counter: 0, last_time: now_nanos }, last_time: now_nanos }),
    {
        TimeMenager { fps: Fps::new(now_nanos), last_time: now_nanos }
    }

    /// Record one frame at `now_nanos`.
    pub fn update(&mut self, now_nanos: u128)
        ensures
            *final(self) == (TimeMenager {
                fps: fps_update_spec(old(self).fps, now_nanos),
                last_time: now_nanos,
            }),
    {
        self.last_time = now_nanos;
        self.fps.update(now_nanos);
    }

    /// The frame rate measured over the last full second.
    pub fn fps(&self) -> (r: i32)
        ensures
            r == self.fps.fps,
    {
        self.fps.fps
    }
}

} // verus!
