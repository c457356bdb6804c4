//! What the server keeps for one connection: its interest set, the tick each
//! visible entity was last acknowledged at, and whether the connection has
//! failed. From these it plans the snapshot of each entity for each tick.

use vstd::prelude::*;
use crate::delta::delta_of;
use crate::interest::{contains_id, interest_transitions, transition_notices, Notice};
use crate::replication::{make_snapshot, Baseline, Payload, Snapshot};

verus! {

/// How an entity is sent to a connection in one tick.
#[derive(Clone, Copy, Debug, PartialEq, Eq, Structural)]
pub enum SnapshotPlan {
    /// Nothing is sent: the connection has failed or may not see the entity.
    Skip,
    /// Every replicated field is sent.
    Full,
    /// The fields that changed since the state of this tick are sent.
    DeltaFrom(u64),
}

/// Replication state of one connection.
pub struct ConnectionReplication {
    pub connection: u64,
    /// The entities that the connection sees.
    pub interest: Vec<u64>,
    /// `acked[i]` is the tick that entity `interest[i]` was last acknowledged at.
    pub acked: Vec<Option<u64>>,
    pub failed: bool,
}

/// The acknowledged tick of `id` among the first `n` entries; the last entry
/// of an identifier counts.
pub open spec fn acked_upto(interest: Seq<u64>, acked: Seq<Option<u64>>, id: u64, n: int) -> Option<
    u64,
>
    decreases n,
{
    if n <= 0 {
        None
    } else if interest[n - 1] == id {
        acked[n - 1]
    } else {
        acked_upto(interest, acked, id, n - 1)
    }
}

/// The plan for an entity with acknowledged tick `acked` at `tick`: a delta
/// needs a baseline that precedes the tick by no more than `horizon`.
pub open spec fn plan_of(visible: bool, acked: Option<u64>, tick: u64, horizon: u64) -> SnapshotPlan {
    if !visible {
        SnapshotPlan::Skip
    } else if acked is Some && acked->0 < tick && tick - acked->0 <= horizon {
        SnapshotPlan::DeltaFrom(acked->0)
    } else {
        SnapshotPlan::Full
    }
}

/// An identifier outside the first `n` entries has no acknowledged tick there.
pub proof fn lemma_unseen_unacked(interest: Seq<u64>, acked: Seq<Option<u64>>, id: u64, n: int)
    requires
        n <= interest.len(),
        !interest.contains(id),
    ensures
        acked_upto(interest, acked, id, n) is None,
    decreases n,
{
    if n > 0 {
        assert(interest[n - 1] != id);
        lemma_unseen_unacked(interest, acked, id, n - 1);
    }
}

proof fn lemma_carried(
    next: Seq<u64>,
    fresh: Seq<Option<u64>>,
    before: Seq<u64>,
    before_acked: Seq<Option<u64>>,
    id: u64,
    n: int,
)
    requires
        0 <= n <= next.len(),
        n <= fresh.len(),
        forall|j: int|
            0 <= j < n ==> #[trigger] fresh[j] == acked_upto(
                before,
                before_acked,
                next[j],
                before.len() as int,
            ),
    ensures
        acked_upto(next, fresh, id, n) == if next.take(n).contains(id) {
            acked_upto(before, before_acked, id, before.len() as int)
        } else {
            None
        },
    decreases n,
{
    if n > 0 {
        lemma_carried(next, fresh, before, before_acked, id, n - 1);
        let wide = next.take(n);
        let narrow = next.take(n - 1);
        if next[n - 1] == id {
            assert(wide[n - 1] == id);
        } else {
            if wide.contains(id) {
                let k = choose|k: int| 0 <= k < wide.len() && wide[k] == id;
                assert(narrow[k] == id);
            }
            if narrow.contains(id) {
                let k = choose|k: int| 0 <= k < narrow.len() && narrow[k] == id;
                assert(wide[k] == id);
            }
        }
    }
}

impl ConnectionReplication {
    pub open spec fn wf(&self) -> bool {
        &&& self.acked.len() == self.interest.len()
        &&& self.failed ==> self.interest.len() == 0
    }

    /// The tick that the connection last acknowledged for `id`, if it sees it
    /// and has acknowledged any.
    pub open spec fn acked_of(&self, id: u64) -> Option<u64> {
        acked_upto(self.interest@, self.acked@, id, self.interest.len() as int)
    }

    /// A connection that sees nothing yet.
    pub fn new(connection: u64) -> (c: Self)
        ensures
            c.wf(),
            c.connection == connection,
            c.interest@ == Seq::<u64>::empty(),
            !c.failed,
    {
        ConnectionReplication {
            connection,
            interest: Vec::new(),
            acked: Vec::new(),
            failed: false,
        }
    }

    pub fn acked_tick(&self, id: u64) -> (r: Option<u64>)
        requires
            self.wf(),
        ensures
            r == self.acked_of(id),
    {
        let mut found: Option<u64> = None;
        let mut i: usize = 0;
        while i < self.interest.len()
            invariant
                self.wf(),
                i <= self.interest.len(),
                found == acked_upto(self.interest@, self.acked@, id, i as int),
            decreases self.interest.len() - i,
        {
            if self.interest[i] == id {
                found = self.acked[i];
            }
            i += 1;
        }
        found
    }

    /// Plans the snapshot of entity `id` for `tick`. A failed connection and
    /// an entity outside the interest set get nothing. An entity without an
    /// acknowledged baseline, or with one older than `horizon` ticks, gets a
    /// full snapshot; any other a delta against its baseline.
    pub fn plan(&self, id: u64, tick: u64, horizon: u64) -> (p: SnapshotPlan)
        requires
            self.wf(),
        ensures
            p == plan_of(
                !self.failed && self.interest@.contains(id),
                self.acked_of(id),
                tick,
                horizon,
            ),
            self.failed ==> p == SnapshotPlan::Skip,
            !self.failed && self.interest@.contains(id) && self.acked_of(id) is None ==> p
                == SnapshotPlan::Full,
    {
        if self.failed || !contains_id(&self.interest, id) {
            return SnapshotPlan::Skip;
        }
        match self.acked_tick(id) {
            Some(t) => {
                if t < tick && tick - t <= horizon {
                    SnapshotPlan::DeltaFrom(t)
                } else {
                    SnapshotPlan::Full
                }
            },
            None => SnapshotPlan::Full,
        }
    }

    /// Replaces the interest set and lists what the change makes the server
    /// send. An entity that stays keeps its acknowledged tick; one that
    /// enters has none, so that its first snapshot is a full one. A failed
    /// connection sees nothing, whatever is asked for.
    pub fn update_interest(&mut self, next: Vec<u64>) -> (notices: Vec<Notice>)
        requires
            old(self).wf(),
        ensures
            final(self).wf(),
            final(self).connection == old(self).connection,
            final(self).failed == old(self).failed,
            old(self).failed ==> notices@ == Seq::<Notice>::empty() && *final(self) == *old(self),
            !old(self).failed ==> {
                &&& final(self).interest@ == next@
                &&& notices@ == transition_notices(old(self).interest@, next@)
                &&& forall|id: u64|
                    #[trigger] final(self).acked_of(id) == if next@.contains(id) {
                        old(self).acked_of(id)
                    } else {
                        None
                    }
                &&& forall|id: u64|
                    !old(self).interest@.contains(id) ==> #[trigger] final(self).acked_of(id) is None
            },
    {
        if self.failed {
            return Vec::new();
        }
        let notices: Vec<Notice> = interest_transitions(&self.interest, &next);
        let mut fresh: Vec<Option<u64>> = Vec::new();
        let mut i: usize = 0;
        while i < next.len()
            invariant
                self.wf(),
                i <= next.len(),
                fresh.len() == i,
                forall|j: int|
                    0 <= j < i ==> #[trigger] fresh@[j] == self.acked_of(next@[j]),
            decreases next.len() - i,
        {
            let t: Option<u64> = self.acked_tick(next[i]);
            fresh.push(t);
            i += 1;
        }
        proof {
            assert(next@.take(next.len() as int) =~= next@);
            assert forall|id: u64|
                acked_upto(next@, fresh@, id, next.len() as int) == if next@.contains(id) {
                    self.acked_of(id)
                } else {
                    None
                } by {
                lemma_carried(
                    next@,
                    fresh@,
                    self.interest@,
                    self.acked@,
                    id,
                    next.len() as int,
                );
            }
            assert forall|id: u64| !self.interest@.contains(id) implies self.acked_of(id) is None by {
                lemma_unseen_unacked(
                    self.interest@,
                    self.acked@,
                    id,
                    self.interest.len() as int,
                );
            }
        }
        self.interest = next;
        self.acked = fresh;
        notices
    }

    /// Takes note that the connection has applied the snapshot of `tick` for
    /// entity `id`. Acknowledged ticks only move forward, and only entities
    /// in the interest set have one.
    pub fn acknowledge(&mut self, id: u64, tick: u64)
        requires
            old(self).wf(),
        ensures
            final(self).wf(),
            final(self).connection == old(self).connection,
            final(self).failed == old(self).failed,
            final(self).interest == old(self).interest,
            final(self).acked.len() == old(self).acked.len(),
            forall|i: int|
                0 <= i < old(self).acked.len() ==> #[trigger] final(self).acked@[i] == if old(
                    self,
                ).interest@[i] == id && (old(self).acked@[i] is None || old(self).acked@[i]->0
                    < tick) {
                    Some(tick)
                } else {
                    old(self).acked@[i]
                },
    {
        let mut i: usize = 0;
        while i < self.interest.len()
            invariant
                self.wf(),
                i <= self.interest.len(),
                self.connection == old(self).connection,
                self.failed == old(self).failed,
                self.interest == old(self).interest,
                self.acked.len() == old(self).acked.len(),
                forall|j: int|
                    0 <= j < i ==> #[trigger] self.acked@[j] == if old(self).interest@[j] == id && (
                    old(self).acked@[j] is None || old(self).acked@[j]->0 < tick) {
                        Some(tick)
                    } else {
                        old(self).acked@[j]
                    },
                forall|j: int|
                    i <= j < self.acked.len() ==> #[trigger] self.acked@[j] == old(self).acked@[j],
            decreases self.interest.len() - i,
        {
            if self.interest[i] == id {
                let newer: bool = match self.acked[i] {
                    Some(t) => t < tick,
                    None => true,
                };
                if newer {
                    self.acked.set(i, Some(tick));
                }
            }
            i += 1;
        }
    }

    /// Marks the connection failed: its interest set and acknowledged ticks
    /// are discarded and nothing is planned for it any more.
    pub fn mark_failed(&mut self)
        ensures
            final(self).wf(),
            final(self).failed,
            final(self).connection == old(self).connection,
            final(self).interest@ == Seq::<u64>::empty(),
            final(self).acked@ == Seq::<Option<u64>>::empty(),
    {
        self.failed = true;
        self.interest = Vec::new();
        self.acked = Vec::new();
    }
}

/// The recorded state is the baseline that a plan asks for, in the shape of
/// the current state.
pub open spec fn serves(history: Option<&Baseline>, plan: SnapshotPlan, fields: nat) -> bool {
    &&& plan is DeltaFrom
    &&& history is Some
    &&& history->0.tick == plan->DeltaFrom_0
    &&& history->0.values.len() == fields
}

impl ConnectionReplication {
    /// Makes the snapshot of entity `id` for this connection at `tick`, or
    /// none where nothing is to be sent. `history` is the state that the
    /// server recorded for the entity's acknowledged tick, if it still has it:
    /// a planned delta is made against it, and falls back to a full snapshot
    /// where it is missing or of another shape.
    pub fn snapshot_for(
        &self,
        id: u64,
        tick: u64,
        current: &Vec<i64>,
        history: Option<&Baseline>,
        horizon: u64,
    ) -> (r: Option<Snapshot>)
        requires
            self.wf(),
        ensures
            r is None <==> self.failed || !self.interest@.contains(id),
            r is Some ==> {
                let plan = plan_of(true, self.acked_of(id), tick, horizon);
                &&& r->0.entity == id
                &&& r->0.tick == tick
                &&& match r->0.payload {
                    Payload::Delta { baseline_tick, changes } => serves(
                        history,
                        plan,
                        current@.len(),
                    ) && baseline_tick == history->0.tick && changes@ == delta_of(
                        history->0.values@,
                        current@,
                    ),
                    Payload::Full(values) => !serves(history, plan, current@.len()) && values@
                        == current@,
                }
            },
    {
        match self.plan(id, tick, horizon) {
            SnapshotPlan::Skip => None,
            SnapshotPlan::Full => Some(make_snapshot(id, tick, current, None, horizon)),
            SnapshotPlan::DeltaFrom(t) => {
                match history {
                    Some(b) => {
                        if b.tick == t {
                            return Some(make_snapshot(id, tick, current, history, horizon));
                        }
                    },
                    None => {},
                }
                Some(make_snapshot(id, tick, current, None, horizon))
            },
        }
    }
}

} // verus!
