//! The rollback buffer of a predicted entity and its reconciliation with
//! authoritative snapshots.

use vstd::prelude::*;
use crate::prediction::{
    agrees, lemma_replay_concat, lemma_replay_extend, replay, step, within_tolerance,
    InputCommand, Position, PredictionState, Reconciliation,
};

verus! {

/// Prediction state of one entity that the local client controls.
pub struct Predictor {
    /// Tick of the base state.
    pub base_tick: u64,
    /// State that every buffered input is replayed on.
    pub base: Position,
    /// Inputs of the ticks after the base tick, one per tick.
    pub inputs: Vec<InputCommand>,
    /// `records[i]` is the speculative state after `inputs[i]`.
    pub records: Vec<Position>,
    /// Largest number of ticks kept for rollback.
    pub window: usize,
    /// Largest per-coordinate gap that still counts as agreement.
    pub tolerance: u64,
    pub state: PredictionState,
    /// Number of snapshots that disagreed with their record.
    pub divergences: u64,
}

impl Predictor {
    /// The buffer is gap-free, within its window, and every record is the
    /// replay of the inputs up to its tick on the base state.
    pub open spec fn wf(&self) -> bool {
        &&& self.window >= 1
        &&& self.records.len() == self.inputs.len()
        &&& self.inputs.len() <= self.window
        &&& self.base_tick + self.inputs.len() <= u64::MAX
        &&& forall|i: int|
            0 <= i < self.inputs.len() ==> (#[trigger] self.inputs[i]).tick == self.base_tick + 1
                + i
        &&& forall|i: int|
            0 <= i < self.records.len() ==> #[trigger] self.records[i] == replay(
                self.base,
                self.inputs@.take(i + 1),
            )
    }

    /// The newest predicted state.
    pub open spec fn current_spec(&self) -> Position {
        if self.records.len() == 0 {
            self.base
        } else {
            self.records@.last()
        }
    }

    /// The newest predicted tick.
    pub open spec fn current_tick_spec(&self) -> int {
        self.base_tick + self.inputs.len()
    }

    /// What a snapshot for `tick` with state `authoritative` leads to.
    pub open spec fn outcome_spec(
        &self,
        tick: u64,
        authoritative: Position,
        budget: usize,
    ) -> Reconciliation {
        if tick <= self.base_tick {
            Reconciliation::RollbackOverflow
        } else if tick > self.current_tick_spec() {
            Reconciliation::Adopted
        } else if within_tolerance(
            self.records[tick - self.base_tick - 1],
            authoritative,
            self.tolerance,
        ) {
            Reconciliation::Confirmed
        } else if self.inputs.len() - (tick - self.base_tick) > budget {
            Reconciliation::Deferred
        } else {
            Reconciliation::Resimulated
        }
    }

    /// A predictor confirmed at `tick` in `state`, with nothing speculated yet.
    pub fn new(tick: u64, state: Position, window: usize, tolerance: u64) -> (p: Self)
        requires
            window >= 1,
        ensures
            p.wf(),
            p.base_tick == tick,
            p.base == state,
            p.inputs@ == Seq::<InputCommand>::empty(),
            p.records@ == Seq::<Position>::empty(),
            p.window == window,
            p.tolerance == tolerance,
            p.state == PredictionState::Confirmed,
            p.divergences == 0,
    {
        Predictor {
            base_tick: tick,
            base: state,
            inputs: Vec::new(),
            records: Vec::new(),
            window,
            tolerance,
            state: PredictionState::Confirmed,
            divergences: 0,
        }
    }

    pub fn current(&self) -> (s: Position)
        requires
            self.wf(),
        ensures
            s == self.current_spec(),
            s == replay(self.base, self.inputs@),
    {
        proof {
            assert(self.inputs@.take(self.inputs.len() as int) =~= self.inputs@);
        }
        if self.records.len() == 0 {
            self.base
        } else {
            self.records[self.records.len() - 1]
        }
    }

    pub fn current_tick(&self) -> (t: u64)
        requires
            self.wf(),
        ensures
            t == self.current_tick_spec(),
    {
        self.base_tick + self.inputs.len() as u64
    }

    /// The recorded state for `tick`, while the rollback window still holds it.
    pub fn record_at(&self, tick: u64) -> (r: Option<Position>)
        requires
            self.wf(),
        ensures
            r is Some <==> self.base_tick < tick <= self.current_tick_spec(),
            r is Some ==> r->0 == self.records[tick - self.base_tick - 1],
    {
        if tick > self.base_tick && tick - self.base_tick <= self.inputs.len() as u64 {
            Some(self.records[(tick - self.base_tick - 1) as usize])
        } else {
            None
        }
    }

    /// Drops the `k` oldest ticks; the record of the last of them becomes the base.
    fn drop_oldest(&mut self, k: usize)
        requires
            old(self).wf(),
            1 <= k <= old(self).inputs.len(),
        ensures
            final(self).wf(),
            final(self).base_tick == old(self).base_tick + k,
            final(self).base == old(self).records[k - 1],
            final(self).inputs@ == old(self).inputs@.skip(k as int),
            final(self).records@ == old(self).records@.skip(k as int),
            final(self).window == old(self).window,
            final(self).tolerance == old(self).tolerance,
            final(self).state == old(self).state,
            final(self).divergences == old(self).divergences,
            final(self).current_spec() == old(self).current_spec(),
    {
        let ghost pre = *self;
        let new_base: Position = self.records[k - 1];
        let later_inputs = self.inputs.split_off(k);
        let later_records = self.records.split_off(k);
        self.inputs = later_inputs;
        self.records = later_records;
        self.base = new_base;
        self.base_tick = self.base_tick + k as u64;
        proof {
            assert(self.inputs@ =~= pre.inputs@.skip(k as int));
            assert(self.records@ =~= pre.records@.skip(k as int));
            assert forall|i: int| 0 <= i < self.records.len() implies #[trigger] self.records[i]
                == replay(self.base, self.inputs@.take(i + 1)) by {
                assert(self.records[i] == pre.records[k + i]);
                let head = pre.inputs@.take(k as int);
                let tail = self.inputs@.take(i + 1);
                assert(head + tail =~= pre.inputs@.take(k + i + 1));
                lemma_replay_concat(pre.base, head, tail);
                assert(pre.records[k - 1] == replay(pre.base, head));
            }
            assert forall|i: int| 0 <= i < self.inputs.len() implies (#[trigger] self.inputs[i]).tick
                == self.base_tick + 1 + i by {
                assert(self.inputs[i] == pre.inputs[k + i]);
            }
            if self.records.len() > 0 {
                assert(self.records@.last() == pre.records@.last());
            }
        }
    }

    /// Applies a freshly captured input at once and records the speculative
    /// state under the input's tick. An input for any tick but the next one is
    /// refused and changes nothing. When the window is full its oldest tick is
    /// pruned.
    pub fn predict(&mut self, input: InputCommand) -> (r: Option<Position>)
        requires
            old(self).wf(),
        ensures
            final(self).wf(),
            r is Some <==> input.tick == old(self).current_tick_spec() + 1,
            r is None ==> *final(self) == *old(self),
            r is Some ==> {
                &&& r->0 == crate::prediction::step_spec(old(self).current_spec(), input)
                &&& final(self).current_spec() == r->0
                &&& final(self).current_tick_spec() == input.tick
                &&& final(self).state == PredictionState::Speculative
                &&& final(self).divergences == old(self).divergences
                &&& final(self).window == old(self).window
                &&& final(self).tolerance == old(self).tolerance
                &&& final(self).inputs@.last() == input
                &&& if old(self).inputs.len() < old(self).window {
                    &&& final(self).base_tick == old(self).base_tick
                    &&& final(self).base == old(self).base
                    &&& final(self).inputs@ == old(self).inputs@.push(input)
                } else {
                    &&& final(self).base_tick == old(self).base_tick + 1
                    &&& final(self).base == old(self).records[0]
                    &&& final(self).inputs@ == old(self).inputs@.skip(1).push(input)
                }
            },
    {
        let now: u64 = self.current_tick();
        if now == u64::MAX || input.tick != now + 1 {
            return None;
        }
        if self.inputs.len() == self.window {
            self.drop_oldest(1);
        }
        let ghost mid = *self;
        let next: Position = step(self.current(), input);
        self.inputs.push(input);
        self.records.push(next);
        self.state = PredictionState::Speculative;
        proof {
            let n = mid.inputs.len() as int;
            assert(self.inputs@.take(n) =~= mid.inputs@);
            assert(mid.inputs@.take(n) =~= mid.inputs@);
            lemma_replay_extend(self.base, self.inputs@, n);
            assert forall|i: int| 0 <= i < self.records.len() implies #[trigger] self.records[i]
                == replay(self.base, self.inputs@.take(i + 1)) by {
                if i < n {
                    assert(self.records[i] == mid.records[i]);
                    assert(self.inputs@.take(i + 1) =~= mid.inputs@.take(i + 1));
                }
            }
            assert forall|i: int| 0 <= i < self.inputs.len() implies (#[trigger] self.inputs[i]).tick
                == self.base_tick + 1 + i by {
                if i < n {
                    assert(self.inputs[i] == mid.inputs[i]);
                }
            }
        }
        Some(next)
    }
}

impl Predictor {
    /// Replays every buffered input on the base state and overwrites the records.
    fn resimulate(&mut self)
        requires
            old(self).inputs.len() <= old(self).window,
            old(self).window >= 1,
            old(self).base_tick + old(self).inputs.len() <= u64::MAX,
            forall|i: int|
                0 <= i < old(self).inputs.len() ==> (#[trigger] old(self).inputs[i]).tick == old(
                    self,
                ).base_tick + 1 + i,
        ensures
            final(self).wf(),
            final(self).base_tick == old(self).base_tick,
            final(self).base == old(self).base,
            final(self).inputs == old(self).inputs,
            final(self).window == old(self).window,
            final(self).tolerance == old(self).tolerance,
            final(self).state == old(self).state,
            final(self).divergences == old(self).divergences,
    {
        let mut fresh: Vec<Position> = Vec::new();
        let mut s: Position = self.base;
        let mut i: usize = 0;
        while i < self.inputs.len()
            invariant
                i <= self.inputs.len(),
                fresh.len() == i,
                s == replay(self.base, self.inputs@.take(i as int)),
                forall|j: int|
                    0 <= j < i ==> #[trigger] fresh[j] == replay(
                        self.base,
                        self.inputs@.take(j + 1),
                    ),
            decreases self.inputs.len() - i,
        {
            proof {
                lemma_replay_extend(self.base, self.inputs@, i as int);
            }
            s = step(s, self.inputs[i]);
            fresh.push(s);
            i += 1;
        }
        self.records = fresh;
    }

    /// Forgets every prediction and restarts from a full authoritative state.
    pub fn resync(&mut self, tick: u64, authoritative: Position)
        requires
            old(self).window >= 1,
        ensures
            final(self).wf(),
            final(self).base_tick == tick,
            final(self).base == authoritative,
            final(self).inputs@ == Seq::<InputCommand>::empty(),
            final(self).records@ == Seq::<Position>::empty(),
            final(self).current_spec() == authoritative,
            final(self).state == PredictionState::Confirmed,
            final(self).window == old(self).window,
            final(self).tolerance == old(self).tolerance,
            final(self).divergences == old(self).divergences,
    {
        self.base_tick = tick;
        self.base = authoritative;
        self.inputs = Vec::new();
        self.records = Vec::new();
        self.state = PredictionState::Confirmed;
    }

    /// Holds an authoritative snapshot for `tick` against the record of that tick.
    ///
    /// Agreement within tolerance confirms the tick and discards the records up
    /// to and including it. Divergence adopts the authoritative state at that
    /// tick and replays the later inputs in ascending tick order, so that the
    /// newest state is what an authoritative replay of those inputs gives; when
    /// more than `budget` ticks would have to be replayed, nothing but the
    /// divergence counter and the state changes and the caller tries again on
    /// the next tick. A tick whose record was pruned is reported and leaves the
    /// predictor as it was, for `resync` to recover.
    pub fn reconcile(&mut self, tick: u64, authoritative: Position, budget: usize) -> (out:
        Reconciliation)
        requires
            old(self).wf(),
        ensures
            final(self).wf(),
            out == old(self).outcome_spec(tick, authoritative, budget),
            reconciles(*old(self), *final(self), tick, authoritative, budget),
    {
        if tick <= self.base_tick {
            return Reconciliation::RollbackOverflow;
        }
        let k64: u64 = tick - self.base_tick;
        if k64 > self.inputs.len() as u64 {
            self.resync(tick, authoritative);
            return Reconciliation::Adopted;
        }
        let k: usize = k64 as usize;
        if agrees(self.records[k - 1], authoritative, self.tolerance) {
            self.drop_oldest(k);
            self.state = PredictionState::Confirmed;
            return Reconciliation::Confirmed;
        }
        self.state = PredictionState::Reconciling;
        if self.divergences < u64::MAX {
            self.divergences = self.divergences + 1;
        }
        if self.inputs.len() - k > budget {
            return Reconciliation::Deferred;
        }
        let ghost pre = *self;
        let later_inputs = self.inputs.split_off(k);
        self.inputs = later_inputs;
        self.base = authoritative;
        self.base_tick = tick;
        proof {
            assert(self.inputs@ =~= pre.inputs@.skip(k as int));
            assert forall|i: int| 0 <= i < self.inputs.len() implies (#[trigger] self.inputs[i]).tick
                == self.base_tick + 1 + i by {
                assert(self.inputs[i] == pre.inputs[k + i]);
            }
        }
        self.resimulate();
        proof {
            assert(self.inputs@.take(self.inputs.len() as int) =~= self.inputs@);
        }
        Reconciliation::Resimulated
    }
}

/// How `reconcile` changes a predictor: `post` is `pre` after a snapshot for
/// `tick` with state `authoritative`, under a replay budget of `budget` ticks.
pub open spec fn reconciles(
    pre: Predictor,
    post: Predictor,
    tick: u64,
    authoritative: Position,
    budget: usize,
) -> bool {
    let out = pre.outcome_spec(tick, authoritative, budget);
    let k = tick - pre.base_tick;
    &&& post.window == pre.window
    &&& post.tolerance == pre.tolerance
    &&& out == Reconciliation::RollbackOverflow ==> post == pre
    &&& out == Reconciliation::Adopted ==> {
        &&& post.base_tick == tick
        &&& post.base == authoritative
        &&& post.inputs@ == Seq::<InputCommand>::empty()
        &&& post.records@ == Seq::<Position>::empty()
        &&& post.current_spec() == authoritative
        &&& post.state == PredictionState::Confirmed
        &&& post.divergences == pre.divergences
    }
    &&& out == Reconciliation::Confirmed ==> {
        &&& post.base_tick == tick
        &&& post.base == pre.records[k - 1]
        &&& post.inputs@ == pre.inputs@.skip(k)
        &&& post.records@ == pre.records@.skip(k)
        &&& post.current_spec() == pre.current_spec()
        &&& post.state == PredictionState::Confirmed
        &&& post.divergences == pre.divergences
    }
    &&& out == Reconciliation::Deferred ==> {
        &&& post.base_tick == pre.base_tick
        &&& post.base == pre.base
        &&& post.inputs == pre.inputs
        &&& post.records == pre.records
        &&& post.state == PredictionState::Reconciling
        &&& post.divergences == bump(pre.divergences)
    }
    &&& out == Reconciliation::Resimulated ==> {
        &&& post.base_tick == tick
        &&& post.base == authoritative
        &&& post.inputs@ == pre.inputs@.skip(k)
        &&& post.current_spec() == replay(authoritative, pre.inputs@.skip(k))
        &&& post.current_tick_spec() == pre.current_tick_spec()
        &&& post.state == PredictionState::Reconciling
        &&& post.divergences == bump(pre.divergences)
    }
}

/// The divergence counter after one more divergence; it stops at the largest value.
pub open spec fn bump(n: u64) -> u64 {
    if n < u64::MAX {
        (n + 1) as u64
    } else {
        n
    }
}

/// Resimulation after a divergence ends in the state that a replay of the
/// same inputs on the authoritative state gives, with no trace of the
/// speculation that went wrong; the newest tick stays what it was.
pub proof fn lemma_resimulation_is_authoritative_replay(
    pre: Predictor,
    post: Predictor,
    tick: u64,
    authoritative: Position,
    budget: usize,
)
    requires
        pre.wf(),
        post.wf(),
        reconciles(pre, post, tick, authoritative, budget),
        pre.outcome_spec(tick, authoritative, budget) == Reconciliation::Resimulated,
    ensures
        pre.base_tick < tick <= pre.current_tick_spec(),
        !within_tolerance(pre.records[tick - pre.base_tick - 1], authoritative, pre.tolerance),
        post.current_spec() == replay(authoritative, pre.inputs@.skip(tick - pre.base_tick)),
        within_tolerance(
            post.current_spec(),
            replay(authoritative, pre.inputs@.skip(tick - pre.base_tick)),
            post.tolerance,
        ),
        post.current_tick_spec() == pre.current_tick_spec(),
        forall|i: int|
            0 <= i < post.records.len() ==> #[trigger] post.records[i] == replay(
                authoritative,
                pre.inputs@.skip(tick - pre.base_tick).take(i + 1),
            ),
{
}

} // verus!
