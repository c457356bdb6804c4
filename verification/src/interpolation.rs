//! Smoothing of entities that are not predicted: the rendered state lies
//! between the two newest authoritative snapshots, a fixed delay behind.

use vstd::prelude::*;
use crate::prediction::Position;

verus! {

/// The value a fraction `num / den` of the way from `v0` to `v1`, rounded towards `v0`.
pub open spec fn lerp(v0: int, v1: int, num: int, den: int) -> int {
    if v1 >= v0 {
        v0 + ((v1 - v0) * num) / den
    } else {
        v0 - ((v0 - v1) * num) / den
    }
}

/// The value rendered at `render_tick` between a snapshot at `t0` and one at
/// `t1`: held before `t0` and after `t1`, linear in between.
pub open spec fn interpolated(t0: u64, v0: i64, t1: u64, v1: i64, render_tick: u64) -> int {
    if render_tick <= t0 {
        v0 as int
    } else if render_tick >= t1 {
        v1 as int
    } else {
        lerp(v0 as int, v1 as int, render_tick - t0, t1 - t0)
    }
}

proof fn lemma_scaled_within(mag: int, num: int, den: int)
    requires
        0 <= mag <= u64::MAX,
        0 <= num < den <= u64::MAX,
    ensures
        0 <= mag * num <= u128::MAX,
        0 <= (mag * num) / den <= mag,
{
    assert(0 <= mag * num <= mag * den) by (nonlinear_arith)
        requires
            0 <= mag,
            0 <= num < den,
    ;
    assert(mag * den <= 0xffff_ffff_ffff_ffff * 0xffff_ffff_ffff_ffff) by (nonlinear_arith)
        requires
            0 <= mag <= 0xffff_ffff_ffff_ffff,
            0 <= den <= 0xffff_ffff_ffff_ffff,
    ;
    assert(0 <= (mag * num) / den <= mag) by (nonlinear_arith)
        requires
            0 <= mag * num <= mag * den,
            0 < den,
    ;
}

/// Interpolates one coordinate.
pub fn interpolate(t0: u64, v0: i64, t1: u64, v1: i64, render_tick: u64) -> (r: i64)
    requires
        t0 < t1,
    ensures
        r == interpolated(t0, v0, t1, v1, render_tick),
        v0 <= v1 ==> v0 <= r <= v1,
        v1 <= v0 ==> v1 <= r <= v0,
{
    if render_tick <= t0 {
        return v0;
    }
    if render_tick >= t1 {
        return v1;
    }
    let num: u64 = render_tick - t0;
    let den: u64 = t1 - t0;
    if v1 >= v0 {
        let mag: u64 = (v1 as i128 - v0 as i128) as u64;
        proof {
            lemma_scaled_within(mag as int, num as int, den as int);
        }
        let q: u128 = (mag as u128 * num as u128) / (den as u128);
        (v0 as i128 + q as i128) as i64
    } else {
        let mag: u64 = (v0 as i128 - v1 as i128) as u64;
        proof {
            lemma_scaled_within(mag as int, num as int, den as int);
        }
        let q: u128 = (mag as u128 * num as u128) / (den as u128);
        (v0 as i128 - q as i128) as i64
    }
}

/// An authoritative state with its tick.
#[derive(Clone, Copy, Debug, PartialEq, Eq, Structural)]
pub struct Sample {
    pub tick: u64,
    pub state: Position,
}

/// The two newest authoritative snapshots of an entity.
#[derive(Clone, Copy, Debug, PartialEq, Eq, Structural)]
pub struct InterpolationBuffer {
    pub older: Option<Sample>,
    pub newer: Option<Sample>,
}

/// The tick that is rendered `delay` ticks behind `current_tick`.
pub open spec fn render_tick_of(current_tick: u64, delay: u64) -> u64 {
    if current_tick >= delay {
        (current_tick - delay) as u64
    } else {
        0
    }
}

impl InterpolationBuffer {
    /// An older snapshot is only held beside a newer one, and precedes it.
    pub open spec fn wf(&self) -> bool {
        self.older is Some ==> self.newer is Some && self.older->0.tick < self.newer->0.tick
    }

    /// The buffer after a snapshot arrived: one newer than the newest moves
    /// the window on; any other is discarded.
    pub open spec fn with_sample(self, s: Sample) -> InterpolationBuffer {
        if self.newer is None {
            InterpolationBuffer { older: None, newer: Some(s) }
        } else if s.tick > self.newer->0.tick {
            InterpolationBuffer { older: self.newer, newer: Some(s) }
        } else {
            self
        }
    }

    /// The state rendered for `render_tick`: nothing without a snapshot, the
    /// only snapshot held as it is, else the interpolation of each coordinate.
    pub open spec fn rendered(self, render_tick: u64) -> Option<Position> {
        if self.newer is None {
            None
        } else if self.older is None {
            Some(self.newer->0.state)
        } else {
            let a = self.older->0;
            let b = self.newer->0;
            Some(
                Position {
                    x: interpolated(a.tick, a.state.x, b.tick, b.state.x, render_tick) as i64,
                    y: interpolated(a.tick, a.state.y, b.tick, b.state.y, render_tick) as i64,
                },
            )
        }
    }

    pub fn new() -> (b: Self)
        ensures
            b.wf(),
            b.older is None,
            b.newer is None,
    {
        InterpolationBuffer { older: None, newer: None }
    }

    pub fn push(&mut self, s: Sample)
        requires
            old(self).wf(),
        ensures
            final(self).wf(),
            *final(self) == old(self).with_sample(s),
    {
        match self.newer {
            None => {
                self.older = None;
                self.newer = Some(s);
            },
            Some(n) => {
                if s.tick > n.tick {
                    self.older = Some(n);
                    self.newer = Some(s);
                }
            },
        }
    }

    /// The state to render at `current_tick` with the given interpolation delay.
    pub fn sample(&self, current_tick: u64, delay: u64) -> (r: Option<Position>)
        requires
            self.wf(),
        ensures
            r == self.rendered(render_tick_of(current_tick, delay)),
    {
        let render_tick: u64 = if current_tick >= delay {
            current_tick - delay
        } else {
            0
        };
        match self.newer {
            None => None,
            Some(b) => match self.older {
                None => Some(b.state),
                Some(a) => Some(
                    Position {
                        x: interpolate(a.tick, a.state.x, b.tick, b.state.x, render_tick),
                        y: interpolate(a.tick, a.state.y, b.tick, b.state.y, render_tick),
                    },
                ),
            },
        }
    }
}

} // verus!
