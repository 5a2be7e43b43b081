//! A tick-driven timer in whole milliseconds: an elapsed counter against a
//! period, in one-shot or repeating mode. Repeating timers wrap by modulo
//! arithmetic on completion, so cadence never drifts across ticks.

use vstd::prelude::*;

verus! {

/// Largest duration or tick the timers accept, in milliseconds.
pub const TIME_LIMIT: u64 = 1_000_000_000_000;

/// A timer. `finished` says the period has been reached at least once;
/// `just_finished` says the period was reached during the latest tick.
#[derive(Clone, Copy, Debug)]
pub struct GameTimer {
    pub duration_ms: u64,
    pub elapsed_ms: u64,
    pub repeating: bool,
    pub finished: bool,
    pub just_finished: bool,
}

impl GameTimer {
    /// The timer's fields are consistent and within arithmetic limits.
    pub open spec fn wf(self) -> bool {
        &&& self.duration_ms <= TIME_LIMIT
        &&& self.elapsed_ms <= self.duration_ms
        &&& (self.repeating ==> self.duration_ms >= 1)
        &&& (!self.repeating && self.finished ==> self.elapsed_ms == self.duration_ms)
    }

    /// A fresh timer with the given period.
    pub open spec fn fresh(duration_ms: u64, repeating: bool) -> GameTimer {
        GameTimer {
            duration_ms,
            elapsed_ms: 0,
            repeating,
            finished: false,
            just_finished: false,
        }
    }

    /// The state after one tick of `dt` milliseconds.
    pub open spec fn ticked(self, dt: u64) -> GameTimer {
        let total = self.elapsed_ms + dt;
        if self.repeating {
            GameTimer {
                elapsed_ms: (total % (self.duration_ms as int)) as u64,
                finished: self.finished || total >= self.duration_ms,
                just_finished: total >= self.duration_ms,
                ..self
            }
        } else {
            GameTimer {
                elapsed_ms: if total >= self.duration_ms { self.duration_ms } else { total as u64 },
                finished: total >= self.duration_ms,
                just_finished: !self.finished && total >= self.duration_ms,
                ..self
            }
        }
    }

    /// The state after a reset: nothing elapsed, nothing finished.
    pub open spec fn reset_state(self) -> GameTimer {
        GameTimer { elapsed_ms: 0, finished: false, just_finished: false, ..self }
    }

    /// Create a timer with the given period, not yet started.
    pub fn new(duration_ms: u64, repeating: bool) -> (r: GameTimer)
        requires
            duration_ms <= TIME_LIMIT,
            repeating ==> duration_ms >= 1,
        ensures
            r == GameTimer::fresh(duration_ms, repeating),
            r.wf(),
    {
        GameTimer {
            duration_ms,
            elapsed_ms: 0,
            repeating,
            finished: false,
            just_finished: false,
        }
    }

    /// Advance the timer by `dt` milliseconds. A repeating timer wraps its
    /// elapsed time modulo the period; a one-shot timer saturates at it.
    pub fn tick(&mut self, dt: u64)
        requires
            old(self).wf(),
            dt <= TIME_LIMIT,
        ensures
            *final(self) == old(self).ticked(dt),
            final(self).wf(),
    {
        let total: u64 = self.elapsed_ms + dt;
        if self.repeating {
            self.just_finished = total >= self.duration_ms;
            self.finished = self.finished || self.just_finished;
            self.elapsed_ms = total % self.duration_ms;
        } else {
            self.just_finished = !self.finished && total >= self.duration_ms;
            self.finished = total >= self.duration_ms;
            self.elapsed_ms = if total >= self.duration_ms {
                self.duration_ms
            } else {
                total
            };
        }
    }

    /// Wind the timer back to its starting state.
    pub fn reset(&mut self)
        ensures
            *final(self) == old(self).reset_state(),
    {
        self.elapsed_ms = 0;
        self.finished = false;
        self.just_finished = false;
    }

    /// Change the period, keeping the elapsed time.
    pub fn set_duration(&mut self, duration_ms: u64)
        requires
            duration_ms <= TIME_LIMIT,
        ensures
            *final(self) == (GameTimer { duration_ms, ..*old(self) }),
    {
        self.duration_ms = duration_ms;
    }

    /// The timer's period in milliseconds.
    pub fn duration(&self) -> (r: u64)
        ensures
            r == self.duration_ms,
    {
        self.duration_ms
    }

    /// The period has been reached at least once.
    pub fn is_finished(&self) -> (r: bool)
        ensures
            r == self.finished,
    {
        self.finished
    }

    /// The period was reached during the latest tick.
    pub fn is_just_finished(&self) -> (r: bool)
        ensures
            r == self.just_finished,
    {
        self.just_finished
    }

    /// Whether the timer repeats after reaching its period.
    pub fn is_repeating(&self) -> (r: bool)
        ensures
            r == self.repeating,
    {
        self.repeating
    }
}

} // verus!
