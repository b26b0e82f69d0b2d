//! A one-shot, restartable timer over integer nanoseconds.
//!
//! The timer does what the `Timer` of the `bevy_time` crate does in its
//! `Once` mode while it is never paused: advancing, reading, resetting and
//! changing the duration give the same elapsed time, duration and finished
//! flag, so an application that shows the simulation with that crate can
//! put one for the other.

use vstd::prelude::*;

verus! {

/// A one-shot timer. It accumulates elapsed time until that reaches its
/// duration; from then on it is finished and stands still until it is reset.
/// Whether it is finished is decided when it is advanced and kept as a flag,
/// so changing the duration changes neither the flag nor the elapsed time.
#[derive(Debug, Clone, Copy, PartialEq, Eq, Structural)]
pub struct Timer {
    /// Time accumulated since the last reset, in nanoseconds.
    pub elapsed: u64,
    /// Time that has to accumulate for the timer to finish, in nanoseconds.
    pub duration: u64,
    /// Whether an advance has found the elapsed time to reach the duration
    /// since the last reset.
    pub finished: bool,
}

impl Timer {
    /// The timer as it is created: no elapsed time, not finished.
    pub open spec fn started(duration: u64) -> Timer {
        Timer { elapsed: 0, duration, finished: false }
    }

    /// The timer after `delta` more nanoseconds. A finished timer stays as it
    /// is. Otherwise the elapsed time grows by `delta`; when that reaches the
    /// duration the timer is finished and its elapsed time is the duration.
    pub open spec fn ticked(self, delta: u64) -> Timer {
        if self.finished {
            self
        } else if self.elapsed + delta >= self.duration {
            Timer { elapsed: self.duration, duration: self.duration, finished: true }
        } else {
            Timer {
                elapsed: (self.elapsed + delta) as u64,
                duration: self.duration,
                finished: false,
            }
        }
    }

    /// The timer restarted: no elapsed time, not finished, same duration.
    pub open spec fn restarted(self) -> Timer {
        Timer { elapsed: 0, duration: self.duration, finished: false }
    }

    /// The timer with a new duration and nothing else changed.
    pub open spec fn with_duration(self, duration: u64) -> Timer {
        Timer { duration, ..self }
    }

    /// The number of ticks of `delta` nanoseconds after which the timer is
    /// finished: one for a timer that is finished or whose elapsed time has
    /// reached its duration, else what it takes to cover the rest.
    pub open spec fn ticks_left(self, delta: u64) -> nat
        recommends
            delta > 0,
    {
        if self.finished || self.elapsed >= self.duration {
            1
        } else {
            ticks_to_cover((self.duration - self.elapsed) as u64, delta)
        }
    }

    /// Creates a timer with no elapsed time.
    pub fn new(duration: u64) -> (timer: Timer)
        ensures
            timer == Timer::started(duration),
    {
        Timer { elapsed: 0, duration, finished: false }
    }

    /// Advances the timer by `delta` nanoseconds.
    pub fn tick(&mut self, delta: u64)
        ensures
            *final(self) == old(self).ticked(delta),
    {
        if !self.finished {
            if self.elapsed >= self.duration || delta >= self.duration - self.elapsed {
                self.elapsed = self.duration;
                self.finished = true;
            } else {
                self.elapsed = self.elapsed + delta;
            }
        }
    }

    /// Tells whether the timer is finished.
    pub fn finished(&self) -> (done: bool)
        ensures
            done == self.finished,
    {
        self.finished
    }

    /// Restarts the timer from zero elapsed time.
    pub fn reset(&mut self)
        ensures
            *final(self) == old(self).restarted(),
    {
        self.elapsed = 0;
        self.finished = false;
    }

    /// Changes the duration. The elapsed time and the finished flag stay.
    pub fn set_duration(&mut self, duration: u64)
        ensures
            *final(self) == old(self).with_duration(duration),
    {
        self.duration = duration;
    }

    /// The configured duration in nanoseconds.
    pub fn duration(&self) -> (duration: u64)
        ensures
            duration == self.duration,
    {
        self.duration
    }

    /// The elapsed time in nanoseconds.
    pub fn elapsed(&self) -> (elapsed: u64)
        ensures
            elapsed == self.elapsed,
    {
        self.elapsed
    }
}

/// The number of ticks of length `delta` that it takes to cover `time`: the
/// least positive count whose total length reaches it.
pub open spec fn ticks_to_cover(time: u64, delta: u64) -> nat
    recommends
        delta > 0,
{
    if time == 0 {
        1
    } else {
        ((time + delta - 1) / (delta as int)) as nat
    }
}

/// [`ticks_to_cover`] is positive, reaches the time, and no smaller count
/// does.
pub proof fn lemma_ticks_to_cover(time: u64, delta: u64)
    requires
        delta > 0,
    ensures
        ticks_to_cover(time, delta) >= 1,
        (ticks_to_cover(time, delta) - 1) * delta < time || time == 0,
        ticks_to_cover(time, delta) * delta >= time,
{
    if time > 0 {
        let ticks = (time + delta - 1) / (delta as int);
        assert(ticks >= 1 && (ticks - 1) * delta < time && ticks * delta >= time)
            by (nonlinear_arith)
            requires
                ticks == (time + delta - 1) / (delta as int),
                time > 0,
                delta > 0,
        ;
    }
}

/// A longer time takes no fewer ticks to cover.
pub proof fn lemma_ticks_to_cover_grows(shorter: u64, longer: u64, delta: u64)
    requires
        delta > 0,
        shorter <= longer,
    ensures
        ticks_to_cover(shorter, delta) <= ticks_to_cover(longer, delta),
{
    lemma_ticks_to_cover(shorter, delta);
    lemma_ticks_to_cover(longer, delta);
    let few = ticks_to_cover(shorter, delta);
    let many = ticks_to_cover(longer, delta);
    if shorter > 0 && few > many {
        assert((few - 1) * delta >= many * delta) by (nonlinear_arith)
            requires
                few - 1 >= many,
                delta > 0,
        ;
    }
}

/// A time that one tick does not cover takes one tick more than what is left
/// of it after that tick.
pub proof fn lemma_ticks_to_cover_falls(time: u64, delta: u64)
    requires
        delta > 0,
        time > delta,
    ensures
        ticks_to_cover((time - delta) as u64, delta) < ticks_to_cover(time, delta),
{
    lemma_ticks_to_cover((time - delta) as u64, delta);
    lemma_ticks_to_cover(time, delta);
    let few = ticks_to_cover((time - delta) as u64, delta);
    let many = ticks_to_cover(time, delta);
    if few >= many {
        assert((few - 1) * delta >= (many - 1) * delta && (many - 1) * delta == many * delta
            - delta) by (nonlinear_arith)
            requires
                few >= many,
                delta > 0,
        ;
    }
}

} // verus!
