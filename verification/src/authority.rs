//! The server's side of input replication: inputs arrive ahead of their tick,
//! wait for it, and are applied when the simulation reaches it.

use vstd::prelude::*;
use crate::prediction::{step, step_spec, InputCommand, Position};

verus! {

/// The authoritative state of one controlled entity.
pub struct Authority {
    /// The tick that `state` belongs to.
    pub tick: u64,
    pub state: Position,
    /// Inputs for ticks that are still to come, at most one per tick.
    pub pending: Vec<InputCommand>,
}

/// The place among the first `n` pending inputs of the input for `tick`.
pub open spec fn slot_upto(pending: Seq<InputCommand>, tick: int, n: int) -> Option<int>
    decreases n,
{
    if n <= 0 {
        None
    } else if pending[n - 1].tick == tick {
        Some(n - 1)
    } else {
        slot_upto(pending, tick, n - 1)
    }
}

proof fn lemma_slot(pending: Seq<InputCommand>, tick: int, n: int)
    requires
        0 <= n <= pending.len(),
    ensures
        match slot_upto(pending, tick, n) {
            Some(k) => 0 <= k < n && pending[k].tick == tick,
            None => forall|i: int| 0 <= i < n ==> (#[trigger] pending[i]).tick != tick,
        },
    decreases n,
{
    if n > 0 {
        lemma_slot(pending, tick, n - 1);
    }
}

impl Authority {
    /// Every pending input is for a later tick, and no tick has two.
    pub open spec fn wf(&self) -> bool {
        &&& forall|i: int| 0 <= i < self.pending.len() ==> (#[trigger] self.pending@[i]).tick > self.tick
        &&& forall|i: int, j: int|
            0 <= i < j < self.pending.len() ==> (#[trigger] self.pending@[i]).tick != (
            #[trigger] self.pending@[j]).tick
    }

    /// The place of the pending input for `tick`, if one waits.
    pub open spec fn slot_of(&self, tick: int) -> Option<int> {
        slot_upto(self.pending@, tick, self.pending.len() as int)
    }

    pub fn new(tick: u64, state: Position) -> (a: Self)
        ensures
            a.wf(),
            a.tick == tick,
            a.state == state,
            a.pending@ == Seq::<InputCommand>::empty(),
    {
        Authority { tick, state, pending: Vec::new() }
    }

    fn find(&self, tick: u64) -> (r: Option<usize>)
        ensures
            match r {
                Some(k) => self.slot_of(tick as int) == Some(k as int),
                None => self.slot_of(tick as int) is None,
            },
    {
        let mut found: Option<usize> = None;
        let mut i: usize = 0;
        while i < self.pending.len()
            invariant
                i <= self.pending.len(),
                match found {
                    Some(k) => slot_upto(self.pending@, tick as int, i as int) == Some(k as int),
                    None => slot_upto(self.pending@, tick as int, i as int) is None,
                },
            decreases self.pending.len() - i,
        {
            if self.pending[i].tick == tick {
                found = Some(i);
            }
            i += 1;
        }
        found
    }

    /// Takes in an input that a client sent. One for a tick that has passed,
    /// or for a tick that already has its input, is dropped.
    pub fn submit(&mut self, input: InputCommand) -> (kept: bool)
        requires
            old(self).wf(),
        ensures
            final(self).wf(),
            final(self).tick == old(self).tick,
            final(self).state == old(self).state,
            kept == (input.tick > old(self).tick && old(self).slot_of(input.tick as int) is None),
            kept ==> final(self).pending@ == old(self).pending@.push(input),
            !kept ==> final(self).pending@ == old(self).pending@,
    {
        if input.tick <= self.tick {
            return false;
        }
        match self.find(input.tick) {
            Some(_) => false,
            None => {
                proof {
                    lemma_slot(self.pending@, input.tick as int, self.pending.len() as int);
                }
                self.pending.push(input);
                true
            },
        }
    }

    /// One simulation step: the input that waits for the next tick is applied
    /// and leaves the buffer; without one the state stays as it is.
    pub fn advance(&mut self) -> (s: Position)
        requires
            old(self).wf(),
            old(self).tick < u64::MAX,
        ensures
            final(self).wf(),
            final(self).tick == old(self).tick + 1,
            s == final(self).state,
            match old(self).slot_of(old(self).tick + 1) {
                Some(k) => final(self).state == step_spec(old(self).state, old(self).pending@[k])
                    && final(self).pending@ == old(self).pending@.remove(k),
                None => final(self).state == old(self).state && final(self).pending@ == old(
                    self,
                ).pending@,
            },
    {
        let next: u64 = self.tick + 1;
        let ghost before = self.pending@;
        proof {
            lemma_slot(before, next as int, before.len() as int);
        }
        match self.find(next) {
            Some(at) => {
                let input: InputCommand = self.pending.remove(at);
                self.state = step(self.state, input);
                proof {
                    let after = self.pending@;
                    assert forall|i: int| 0 <= i < after.len() implies (#[trigger] after[i]).tick
                        > next by {
                        let a = if i < at { i } else { i + 1 };
                        assert(after[i] == before[a]);
                        if a < at {
                            assert(before[a].tick != before[at as int].tick);
                        } else {
                            assert(before[at as int].tick != before[a].tick);
                        }
                    }
                    assert forall|i: int, j: int| 0 <= i < j < after.len() implies (
                    #[trigger] after[i]).tick != (#[trigger] after[j]).tick by {
                        let a = if i < at { i } else { i + 1 };
                        let b = if j < at { j } else { j + 1 };
                        assert(after[i] == before[a]);
                        assert(after[j] == before[b]);
                    }
                }
            },
            None => {},
        }
        self.tick = next;
        self.state
    }
}

} // verus!
