//! Client-side prediction and reconciliation of one controlled entity.
//!
//! A predictor holds a base state at a base tick, the inputs issued after it
//! and, for each of them, the speculative state it produced. The records are
//! always the replay of the buffered inputs on the base state.

use vstd::prelude::*;

verus! {

/// Replicated position of an entity on the integer grid.
#[derive(Clone, Copy, Debug, PartialEq, Eq, Structural)]
pub struct Position {
    pub x: i64,
    pub y: i64,
}

/// One player's intent for one simulation tick.
#[derive(Clone, Copy, Debug, PartialEq, Eq, Structural)]
pub struct InputCommand {
    pub tick: u64,
    pub seq: u64,
    pub dx: i64,
    pub dy: i64,
}

/// Where a predicted entity stands between speculation and confirmation.
#[derive(Clone, Copy, Debug, PartialEq, Eq, Structural)]
pub enum PredictionState {
    Speculative,
    Reconciling,
    Confirmed,
}

/// What an authoritative snapshot did to a predictor.
#[derive(Clone, Copy, Debug, PartialEq, Eq, Structural)]
pub enum Reconciliation {
    /// The record for the tick agreed within tolerance; nothing was replayed.
    Confirmed,
    /// The record diverged; the later ticks were replayed on the authoritative state.
    Resimulated,
    /// The record diverged but the replay exceeds the budget; try again next tick.
    Deferred,
    /// The tick lies at or before the base: its record is gone, a full resync is needed.
    RollbackOverflow,
    /// The tick lies beyond every prediction; the authoritative state became the base.
    Adopted,
}

/// Nearest `i64` to an integer.
pub open spec fn clamp_i64(v: int) -> int {
    if v > i64::MAX {
        i64::MAX as int
    } else if v < i64::MIN {
        i64::MIN as int
    } else {
        v
    }
}

/// The simulation step: the input's displacement, saturating at the edges of the grid.
pub open spec fn step_spec(s: Position, c: InputCommand) -> Position {
    Position { x: clamp_i64(s.x + c.dx) as i64, y: clamp_i64(s.y + c.dy) as i64 }
}

/// The state reached from `s` by the inputs in order.
pub open spec fn replay(s: Position, inputs: Seq<InputCommand>) -> Position
    decreases inputs.len(),
{
    if inputs.len() == 0 {
        s
    } else {
        step_spec(replay(s, inputs.drop_last()), inputs.last())
    }
}

/// Distance between two coordinates.
pub open spec fn gap(a: i64, b: i64) -> int {
    if a >= b {
        a - b
    } else {
        b - a
    }
}

/// Both coordinates agree up to `tolerance`; with tolerance 0 this is equality.
pub open spec fn within_tolerance(a: Position, b: Position, tolerance: u64) -> bool {
    gap(a.x, b.x) <= tolerance && gap(a.y, b.y) <= tolerance
}

fn add_clamped(a: i64, b: i64) -> (r: i64)
    ensures
        r == clamp_i64(a + b),
{
    let s: i128 = a as i128 + b as i128;
    if s > i64::MAX as i128 {
        i64::MAX
    } else if s < i64::MIN as i128 {
        i64::MIN
    } else {
        s as i64
    }
}

fn close(a: i64, b: i64, tolerance: u64) -> (r: bool)
    ensures
        r == (gap(a, b) <= tolerance),
{
    let d: i128 = if a >= b {
        a as i128 - b as i128
    } else {
        b as i128 - a as i128
    };
    d <= tolerance as i128
}

/// Applies one input to a state.
pub fn step(s: Position, c: InputCommand) -> (r: Position)
    ensures
        r == step_spec(s, c),
{
    Position { x: add_clamped(s.x, c.dx), y: add_clamped(s.y, c.dy) }
}

/// Compares a predicted state with an authoritative one.
pub fn agrees(a: Position, b: Position, tolerance: u64) -> (r: bool)
    ensures
        r == within_tolerance(a, b, tolerance),
{
    close(a.x, b.x, tolerance) && close(a.y, b.y, tolerance)
}

/// Replaying `a` and then `b` is replaying their concatenation.
pub proof fn lemma_replay_concat(s: Position, a: Seq<InputCommand>, b: Seq<InputCommand>)
    ensures
        replay(s, a + b) == replay(replay(s, a), b),
    decreases b.len(),
{
    if b.len() == 0 {
        assert(a + b =~= a);
    } else {
        lemma_replay_concat(s, a, b.drop_last());
        assert((a + b).drop_last() =~= a + b.drop_last());
        assert((a + b).last() == b.last());
    }
}

/// One more input extends a replay by one step.
pub proof fn lemma_replay_extend(s: Position, inputs: Seq<InputCommand>, n: int)
    requires
        0 <= n < inputs.len(),
    ensures
        replay(s, inputs.take(n + 1)) == step_spec(replay(s, inputs.take(n)), inputs[n]),
{
    assert(inputs.take(n + 1).drop_last() =~= inputs.take(n));
}

/// Determinism of the simulation: two instances that start from the same state
/// and receive the same inputs end in the same state, field for field.
pub proof fn lemma_replay_deterministic(
    s1: Position,
    s2: Position,
    a: Seq<InputCommand>,
    b: Seq<InputCommand>,
)
    requires
        s1 == s2,
        a =~= b,
    ensures
        replay(s1, a) == replay(s2, b),
        replay(s1, a).x == replay(s2, b).x,
        replay(s1, a).y == replay(s2, b).y,
{
}

/// Runs the inputs in order on a state.
pub fn simulate(initial: Position, inputs: &Vec<InputCommand>) -> (r: Position)
    ensures
        r == replay(initial, inputs@),
{
    let mut s: Position = initial;
    let mut i: usize = 0;
    while i < inputs.len()
        invariant
            i <= inputs.len(),
            s == replay(initial, inputs@.take(i as int)),
        decreases inputs.len() - i,
    {
        proof {
            lemma_replay_extend(initial, inputs@, i as int);
        }
        s = step(s, inputs[i]);
        i += 1;
    }
    assert(inputs@.take(inputs.len() as int) =~= inputs@);
    s
}

} // verus!
