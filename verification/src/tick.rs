//! The fixed-step simulation clock of one peer, and the smoothed estimates of
//! round-trip time and clock offset of a connection.

use vstd::prelude::*;
use vstd::arithmetic::div_mod::{lemma_fundamental_div_mod, lemma_mod_bound};

verus! {

/// Distance between two tick numbers.
pub open spec fn drift(a: u64, b: u64) -> int {
    if a >= b {
        a - b
    } else {
        b - a
    }
}

/// Monotonic, gap-free tick counter.
pub struct TickClock {
    pub tick: u64,
}

impl TickClock {
    pub fn new(start: u64) -> (c: Self)
        ensures
            c.tick == start,
    {
        TickClock { tick: start }
    }

    pub fn current_tick(&self) -> (t: u64)
        ensures
            t == self.tick,
    {
        self.tick
    }

    /// One fixed simulation step: the tick number grows by exactly one.
    pub fn advance(&mut self)
        requires
            old(self).tick < u64::MAX,
        ensures
            final(self).tick == old(self).tick + 1,
    {
        self.tick = self.tick + 1;
    }

    /// Whether the local tick has drifted from the server's acknowledged tick
    /// by more than `bound`.
    pub fn needs_resync(&self, server_tick: u64, bound: u64) -> (r: bool)
        ensures
            r == (drift(self.tick, server_tick) > bound),
    {
        if self.tick >= server_tick {
            self.tick - server_tick > bound
        } else {
            server_tick - self.tick > bound
        }
    }

    /// Rebases the counter on the server's tick when the drift exceeds
    /// `bound`, and leaves it alone otherwise.
    pub fn resync(&mut self, server_tick: u64, bound: u64) -> (rebased: bool)
        ensures
            rebased == (drift(old(self).tick, server_tick) > bound),
            rebased ==> final(self).tick == server_tick,
            !rebased ==> final(self).tick == old(self).tick,
    {
        if self.needs_resync(server_tick, bound) {
            self.tick = server_tick;
            true
        } else {
            false
        }
    }
}

/// Exponential smoothing with weight one eighth: the estimate moves an eighth
/// of the way to the sample, rounded towards the estimate.
pub open spec fn smoothed(estimate: int, sample: int) -> int {
    if sample >= estimate {
        estimate + (sample - estimate) / 8
    } else {
        estimate - (estimate - sample) / 8
    }
}

pub fn smooth_unsigned(estimate: u64, sample: u64) -> (r: u64)
    ensures
        r == smoothed(estimate as int, sample as int),
{
    if sample >= estimate {
        estimate + (sample - estimate) / 8
    } else {
        estimate - (estimate - sample) / 8
    }
}

pub fn smooth_signed(estimate: i64, sample: i64) -> (r: i64)
    ensures
        r == smoothed(estimate as int, sample as int),
{
    if sample >= estimate {
        let d: u64 = (sample as i128 - estimate as i128) as u64;
        (estimate as i128 + (d / 8) as i128) as i64
    } else {
        let d: u64 = (estimate as i128 - sample as i128) as u64;
        (estimate as i128 - (d / 8) as i128) as i64
    }
}

/// Smoothed timing of one connection, in microseconds.
#[derive(Clone, Copy, Debug, PartialEq, Eq, Structural)]
pub struct LinkEstimate {
    pub round_trip: u64,
    pub offset: i64,
    /// Whether any sample has been taken in.
    pub primed: bool,
}

impl LinkEstimate {
    pub fn new() -> (e: Self)
        ensures
            e == (LinkEstimate { round_trip: 0, offset: 0, primed: false }),
    {
        LinkEstimate { round_trip: 0, offset: 0, primed: false }
    }

    /// The estimate after one more sample: the first sample is taken as it
    /// is, each later one is smoothed in.
    pub open spec fn with_sample(self, round_trip: u64, offset: i64) -> LinkEstimate {
        if self.primed {
            LinkEstimate {
                round_trip: smoothed(self.round_trip as int, round_trip as int) as u64,
                offset: smoothed(self.offset as int, offset as int) as i64,
                primed: true,
            }
        } else {
            LinkEstimate { round_trip, offset, primed: true }
        }
    }

    pub fn record_sample(&mut self, round_trip: u64, offset: i64)
        ensures
            *final(self) == old(self).with_sample(round_trip, offset),
    {
        if self.primed {
            self.round_trip = smooth_unsigned(self.round_trip, round_trip);
            self.offset = smooth_signed(self.offset, offset);
        } else {
            self.round_trip = round_trip;
            self.offset = offset;
            self.primed = true;
        }
    }

    /// The current estimate of the peer's clock offset.
    pub fn estimate_offset(&self) -> (r: i64)
        ensures
            r == self.offset,
    {
        self.offset
    }
}

/// Turns elapsed wall-clock time into whole simulation steps of fixed length.
pub struct StepTimer {
    /// Length of one step, in microseconds.
    pub step: u64,
    /// Time that has passed since the last whole step.
    pub carried: u64,
}

impl StepTimer {
    /// Less than a step is carried over.
    pub open spec fn wf(&self) -> bool {
        self.carried < self.step
    }

    pub fn new(step: u64) -> (t: Self)
        requires
            step > 0,
        ensures
            t.wf(),
            t.step == step,
            t.carried == 0,
    {
        StepTimer { step, carried: 0 }
    }

    /// Takes in the time that passed and returns the number of steps that
    /// the clock has to advance by; no time is lost and none counted twice.
    pub fn feed(&mut self, elapsed: u64) -> (steps: u64)
        requires
            old(self).wf(),
        ensures
            final(self).wf(),
            final(self).step == old(self).step,
            steps * old(self).step + final(self).carried == old(self).carried + elapsed,
    {
        let whole: u64 = elapsed / self.step;
        let part: u64 = elapsed % self.step;
        proof {
            lemma_fundamental_div_mod(elapsed as int, self.step as int);
            lemma_mod_bound(elapsed as int, self.step as int);
            assert(self.step * whole == whole * self.step) by (nonlinear_arith);
        }
        if self.carried >= self.step - part {
            proof {
                assert((whole + 1) * self.step == whole * self.step + self.step)
                    by (nonlinear_arith);
                assert(whole < u64::MAX) by (nonlinear_arith)
                    requires
                        whole * self.step + part == elapsed,
                        self.carried < self.step,
                        self.carried >= self.step - part,
                        0 <= part,
                        elapsed <= u64::MAX,
                        whole >= 0,
                {
                }
            }
            self.carried = self.carried - (self.step - part);
            whole + 1
        } else {
            self.carried = self.carried + part;
            whole
        }
    }
}

} // verus!
