//! Frame timers, in whole milliseconds: a once timer for the laser fire-rate
//! cooldown and a repeating timer for the asteroid spawner. `tick` advances a
//! timer by the frame's elapsed time; a once timer stays finished until it is
//! reset, a repeating timer wraps and reports the ticks on which it wrapped.

use vstd::prelude::*;

verus! {

#[derive(Clone, Copy, Debug, PartialEq, Eq, Structural)]
pub enum TimerMode {
    Once,
    Repeating,
}

#[derive(Clone, Copy, Debug, PartialEq, Eq, Structural)]
pub struct Timer {
    pub mode: TimerMode,
    pub duration_ms: u64,
    pub elapsed_ms: u64,
    pub just_finished: bool,
}

impl Timer {
    /// A timer is well formed when its duration is positive and its elapsed
    /// time never runs past one period.
    pub open spec fn wf(self) -> bool {
        &&& self.duration_ms >= 1
        &&& match self.mode {
            TimerMode::Once => self.elapsed_ms <= self.duration_ms,
            TimerMode::Repeating => self.elapsed_ms < self.duration_ms,
        }
    }

    /// A fresh timer: nothing elapsed, nothing finished.
    pub fn new(mode: TimerMode, duration_ms: u64) -> (t: Timer)
        requires
            duration_ms >= 1,
        ensures
            t == (Timer { mode, duration_ms, elapsed_ms: 0, just_finished: false }),
            t.wf(),
    {
        Timer { mode, duration_ms, elapsed_ms: 0, just_finished: false }
    }

    /// Whether the timer has run out: a once timer once its elapsed time has
    /// reached its duration, a repeating timer on the ticks where it wrapped.
    pub open spec fn spec_finished(self) -> bool {
        match self.mode {
            TimerMode::Once => self.elapsed_ms >= self.duration_ms,
            TimerMode::Repeating => self.just_finished,
        }
    }

    pub fn finished(&self) -> (r: bool)
        ensures
            r == self.spec_finished(),
    {
        match self.mode {
            TimerMode::Once => self.elapsed_ms >= self.duration_ms,
            TimerMode::Repeating => self.just_finished,
        }
    }

    /// The timer as it stands after one tick of `delta_ms` milliseconds: a
    /// once timer accumulates up to its duration and notes whether this tick
    /// crossed it; a repeating timer wraps its elapsed time and notes whether
    /// this tick wrapped.
    pub open spec fn spec_tick(self, delta_ms: int) -> Timer {
        match self.mode {
            TimerMode::Once => Timer {
                elapsed_ms: spec_min_u64(
                    self.elapsed_ms + delta_ms,
                    self.duration_ms as int,
                ) as u64,
                just_finished: self.elapsed_ms < self.duration_ms && self.elapsed_ms + delta_ms
                    >= self.duration_ms,
                ..self
            },
            TimerMode::Repeating => Timer {
                elapsed_ms: ((self.elapsed_ms + delta_ms) % (self.duration_ms as int)) as u64,
                just_finished: self.elapsed_ms + delta_ms >= self.duration_ms,
                ..self
            },
        }
    }

    /// The timer wound back to its fresh state.
    pub open spec fn spec_reset(self) -> Timer {
        Timer { elapsed_ms: 0, just_finished: false, ..self }
    }

    /// Advance the timer by `delta_ms`, as `spec_tick` states.
    pub fn tick(&mut self, delta_ms: u64)
        requires
            old(self).wf(),
            old(self).elapsed_ms + delta_ms <= u64::MAX,
        ensures
            final(self).wf(),
            *final(self) == old(self).spec_tick(delta_ms as int),
    {
        let total = self.elapsed_ms + delta_ms;
        match self.mode {
            TimerMode::Once => {
                self.just_finished = self.elapsed_ms < self.duration_ms && total
                    >= self.duration_ms;
                self.elapsed_ms = if total >= self.duration_ms {
                    self.duration_ms
                } else {
                    total
                };
            },
            TimerMode::Repeating => {
                self.just_finished = total >= self.duration_ms;
                self.elapsed_ms = total % self.duration_ms;
            },
        }
    }

    /// Wind the timer back to its fresh state.
    pub fn reset(&mut self)
        ensures
            *final(self) == old(self).spec_reset(),
    {
        self.elapsed_ms = 0;
        self.just_finished = false;
    }
}

/// The smaller of a machine value and a mathematical bound.
pub open spec fn spec_min_u64(a: int, b: int) -> int {
    if a <= b {
        a
    } else {
        b
    }
}

} // verus!
