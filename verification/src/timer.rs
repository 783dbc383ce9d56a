//! Countdown timers driven by frame time.

use vstd::prelude::*;
use vstd::arithmetic::div_mod::{
    lemma_fundamental_div_mod, lemma_fundamental_div_mod_converse, lemma_mod_bound,
};

verus! {

/// A timer that is advanced by the time of each frame.
///
/// A one-shot timer runs until its duration has passed, fires once and then
/// stays finished. A repeating timer fires once for every full period that
/// has passed and keeps the remainder.
#[derive(Clone, Copy, Debug, PartialEq, Eq, Structural)]
pub struct Timer {
    /// Duration of a one-shot timer, period of a repeating one, in
    /// nanoseconds.
    pub duration: u64,
    /// Time counted so far, in nanoseconds.
    pub elapsed: u64,
    /// Whether the timer starts over when it fires.
    pub repeating: bool,
    /// Whether a one-shot timer has run out.
    pub finished: bool,
}

impl Timer {
    /// A one-shot timer holds at most its duration, and all of it once it is
    /// finished; a repeating timer has a positive period, holds less than it
    /// and never finishes.
    pub open spec fn wf(self) -> bool {
        if self.repeating {
            self.elapsed < self.duration && !self.finished
        } else {
            self.elapsed <= self.duration && (self.finished ==> self.elapsed == self.duration)
        }
    }

    /// Whether the timer is still counting.
    pub open spec fn running(self) -> bool {
        !self.finished
    }

    /// A one-shot timer at its start.
    pub open spec fn one_shot(duration: u64) -> Timer {
        Timer { duration, elapsed: 0, repeating: false, finished: false }
    }

    /// A repeating timer at its start.
    pub open spec fn periodic(period: u64) -> Timer {
        Timer { duration: period, elapsed: 0, repeating: true, finished: false }
    }

    /// How often the timer fires during the next `delta` nanoseconds: a
    /// repeating timer once for each period that becomes full, a one-shot
    /// timer once if it runs out.
    pub open spec fn firings(self, delta: u64) -> nat {
        if self.repeating {
            ((self.elapsed + delta) / (self.duration as int)) as nat
        } else if !self.finished && self.elapsed + delta >= self.duration {
            1
        } else {
            0
        }
    }

    /// The timer after `delta` more nanoseconds.
    pub open spec fn ticked(self, delta: u64) -> Timer {
        if self.repeating {
            Timer { elapsed: ((self.elapsed + delta) % (self.duration as int)) as u64, ..self }
        } else if self.finished {
            self
        } else if self.elapsed + delta >= self.duration {
            Timer { elapsed: self.duration, finished: true, ..self }
        } else {
            Timer { elapsed: (self.elapsed + delta) as u64, ..self }
        }
    }

    /// Starts a one-shot timer of `duration` nanoseconds. A timer of no
    /// duration fires on its first tick.
    pub fn once(duration: u64) -> (timer: Timer)
        ensures
            timer == Timer::one_shot(duration),
            timer.wf(),
    {
        Timer { duration, elapsed: 0, repeating: false, finished: false }
    }

    /// Starts a repeating timer with a period of `period` nanoseconds.
    pub fn every(period: u64) -> (timer: Timer)
        requires
            period > 0,
        ensures
            timer == Timer::periodic(period),
            timer.wf(),
    {
        Timer { duration: period, elapsed: 0, repeating: true, finished: false }
    }

    /// Computes [`Timer::wf`].
    pub fn is_wf(&self) -> (sound: bool)
        ensures
            sound == self.wf(),
    {
        if self.repeating {
            self.elapsed < self.duration && !self.finished
        } else {
            self.elapsed <= self.duration && (!self.finished || self.elapsed == self.duration)
        }
    }

    /// Advances the timer by `delta` nanoseconds and returns how often it
    /// fired on the way.
    pub fn tick(&mut self, delta: u64) -> (fired: u64)
        requires
            old(self).wf(),
        ensures
            *final(self) == old(self).ticked(delta),
            fired == old(self).firings(delta),
            final(self).wf(),
    {
        let total: u128 = (self.elapsed as u128) + (delta as u128);
        if self.repeating {
            let period: u128 = self.duration as u128;
            proof {
                lemma_periods_fit(self.elapsed as int, delta as int, self.duration as int);
            }
            self.elapsed = (total % period) as u64;
            (total / period) as u64
        } else if self.finished {
            0
        } else if total >= (self.duration as u128) {
            self.elapsed = self.duration;
            self.finished = true;
            1
        } else {
            self.elapsed = total as u64;
            0
        }
    }
}

/// A timer that holds less than one period cannot complete more periods
/// during a tick than the tick has nanoseconds.
pub proof fn lemma_periods_fit(elapsed: int, delta: int, period: int)
    requires
        0 <= elapsed < period,
        0 <= delta,
    ensures
        0 <= (elapsed + delta) / period <= delta,
        0 <= (elapsed + delta) % period < period,
        elapsed + delta == period * ((elapsed + delta) / period) + (elapsed + delta) % period,
{
    let total = elapsed + delta;
    lemma_fundamental_div_mod(total, period);
    lemma_mod_bound(total, period);
    let count = total / period;
    assert(0 <= count <= delta) by (nonlinear_arith)
        requires
            total == period * count + total % period,
            0 <= total % period < period,
            0 <= elapsed < period,
            0 <= delta,
            total == elapsed + delta,
    ;
}

/// Two ticks of a timer leave it as one tick of their sum does, and make it
/// fire as often.
pub proof fn lemma_ticks_add_up(timer: Timer, first: u64, second: u64)
    requires
        timer.wf(),
        first + second <= u64::MAX,
    ensures
        timer.ticked(first).wf(),
        timer.ticked(first).ticked(second) == timer.ticked((first + second) as u64),
        timer.firings(first) + timer.ticked(first).firings(second) == timer.firings(
            (first + second) as u64,
        ),
{
    if timer.repeating {
        let period = timer.duration as int;
        let start = timer.elapsed as int;
        lemma_periods_fit(start, first as int, period);
        let between = (start + first) % period;
        lemma_periods_fit(between, second as int, period);
        let early = (start + first) / period;
        let late = (between + second) / period;
        let rest = (between + second) % period;
        assert(start + first + second == (early + late) * period + rest) by (nonlinear_arith)
            requires
                start + first == period * early + between,
                between + second == period * late + rest,
        ;
        lemma_fundamental_div_mod_converse(start + first + second, period, early + late, rest);
    }
}

} // verus!
