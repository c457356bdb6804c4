//! Snapshots of authoritative state: how the server chooses between a full
//! and a delta snapshot, and how a client applies what arrives.

use vstd::prelude::*;
use crate::delta::{
    apply_delta, copy_values, delta_of, diff, fits, lemma_delta_round_trip, patched, FieldChange,
};

verus! {

/// What a snapshot carries: every replicated field, or the fields that changed
/// since the state of `baseline_tick`.
pub enum Payload {
    Full(Vec<i64>),
    Delta { baseline_tick: u64, changes: Vec<FieldChange> },
}

/// Authoritative state of one entity at one tick.
pub struct Snapshot {
    pub entity: u64,
    pub tick: u64,
    pub payload: Payload,
}

/// The last state that a connection is known to have applied for an entity.
pub struct Baseline {
    pub tick: u64,
    pub values: Vec<i64>,
}

/// What the receiver did with a snapshot.
#[derive(Clone, Copy, Debug, PartialEq, Eq, Structural)]
pub enum Receipt {
    /// The snapshot is now the entity's state.
    Applied,
    /// Older than the state already applied: discarded.
    Stale,
    /// A delta against a state that the receiver does not hold: a full snapshot is needed.
    NeedsFull,
}

/// A client's copy of one entity.
pub struct Replica {
    /// Tick of the snapshot applied last; `None` before the first.
    pub applied_tick: Option<u64>,
    pub values: Vec<i64>,
}

/// A replica as plain values.
pub struct ReplicaView {
    pub applied_tick: Option<u64>,
    pub values: Seq<i64>,
}

impl View for Replica {
    type V = ReplicaView;

    open spec fn view(&self) -> ReplicaView {
        ReplicaView { applied_tick: self.applied_tick, values: self.values@ }
    }
}

/// A delta may be sent: the baseline is known, older than `tick`, no older than
/// `horizon` ticks, and of the same shape as the current state.
pub open spec fn delta_allowed(
    tick: u64,
    fields: nat,
    baseline: Option<&Baseline>,
    horizon: u64,
) -> bool {
    &&& baseline is Some
    &&& baseline->0.tick < tick
    &&& tick - baseline->0.tick <= horizon
    &&& baseline->0.values.len() == fields
}

/// The snapshot of `current` for a connection whose baseline is `baseline`:
/// a delta against the baseline where one is allowed, else a full snapshot.
pub fn make_snapshot(
    entity: u64,
    tick: u64,
    current: &Vec<i64>,
    baseline: Option<&Baseline>,
    horizon: u64,
) -> (snap: Snapshot)
    ensures
        snap.entity == entity,
        snap.tick == tick,
        delta_allowed(tick, current@.len(), baseline, horizon) ==> (match snap.payload {
            Payload::Delta { baseline_tick, changes } => baseline_tick == baseline->0.tick
                && changes@ == delta_of(baseline->0.values@, current@),
            Payload::Full(_) => false,
        }),
        !delta_allowed(tick, current@.len(), baseline, horizon) ==> (match snap.payload {
            Payload::Full(values) => values@ == current@,
            Payload::Delta { .. } => false,
        }),
{
    match baseline {
        Some(b) => {
            if b.tick < tick && tick - b.tick <= horizon {
                match diff(&b.values, current) {
                    Some(changes) => {
                        return Snapshot {
                            entity,
                            tick,
                            payload: Payload::Delta { baseline_tick: b.tick, changes },
                        };
                    },
                    None => {},
                }
            }
        },
        None => {},
    }
    Snapshot { entity, tick, payload: Payload::Full(copy_values(current)) }
}

/// What a replica does with a snapshot. Strictly older ticks are discarded; a
/// full snapshot always applies; a delta applies only on the state of its
/// baseline tick, which must precede the snapshot's own.
pub open spec fn receipt_of(r: ReplicaView, snap: Snapshot) -> Receipt {
    if r.applied_tick is Some && snap.tick < r.applied_tick->0 {
        Receipt::Stale
    } else {
        match snap.payload {
            Payload::Full(_) => Receipt::Applied,
            Payload::Delta { baseline_tick, changes } => {
                if r.applied_tick == Some(baseline_tick) && baseline_tick < snap.tick && fits(
                    changes@,
                    r.values.len(),
                ) {
                    Receipt::Applied
                } else {
                    Receipt::NeedsFull
                }
            },
        }
    }
}

/// The replica after a snapshot arrived.
pub open spec fn received(r: ReplicaView, snap: Snapshot) -> ReplicaView {
    if receipt_of(r, snap) == Receipt::Applied {
        ReplicaView {
            applied_tick: Some(snap.tick),
            values: match snap.payload {
                Payload::Full(values) => values@,
                Payload::Delta { baseline_tick, changes } => patched(r.values, changes@),
            },
        }
    } else {
        r
    }
}

impl Replica {
    /// A replica that has seen no snapshot yet.
    pub fn new() -> (r: Self)
        ensures
            r@.applied_tick is None,
            r@.values == Seq::<i64>::empty(),
    {
        Replica { applied_tick: None, values: Vec::new() }
    }

    /// Takes in a snapshot that arrived, in whatever order the network chose.
    pub fn receive(&mut self, snap: Snapshot) -> (out: Receipt)
        ensures
            out == receipt_of(old(self)@, snap),
            final(self)@ == received(old(self)@, snap),
    {
        match self.applied_tick {
            Some(t) => {
                if snap.tick < t {
                    return Receipt::Stale;
                }
            },
            None => {},
        }
        match snap.payload {
            Payload::Full(values) => {
                self.values = values;
                self.applied_tick = Some(snap.tick);
                Receipt::Applied
            },
            Payload::Delta { baseline_tick, changes } => {
                let on_baseline: bool = match self.applied_tick {
                    Some(t) => t == baseline_tick,
                    None => false,
                };
                if !on_baseline || baseline_tick >= snap.tick {
                    return Receipt::NeedsFull;
                }
                match apply_delta(&self.values, &changes) {
                    Some(values) => {
                        self.values = values;
                        self.applied_tick = Some(snap.tick);
                        Receipt::Applied
                    },
                    None => Receipt::NeedsFull,
                }
            },
        }
    }
}

/// A delta applied on its baseline gives what the full snapshot of the same
/// tick gives: the server's current state.
pub proof fn lemma_delta_equals_full(
    r: ReplicaView,
    delta: Snapshot,
    full: Snapshot,
    current: Seq<i64>,
)
    requires
        r.applied_tick is Some,
        r.values.len() == current.len(),
        current.len() <= usize::MAX,
        delta.tick == full.tick,
        r.applied_tick->0 < delta.tick,
        delta.payload matches Payload::Delta { baseline_tick, changes } && baseline_tick
            == r.applied_tick->0 && changes@ == delta_of(r.values, current),
        full.payload matches Payload::Full(values) && values@ == current,
    ensures
        receipt_of(r, delta) == Receipt::Applied,
        received(r, delta) == received(r, full),
        received(r, delta).values == current,
{
    lemma_delta_round_trip(r.values, current);
}

/// Duplicate delivery: a snapshot that arrives a second time changes nothing.
pub proof fn lemma_duplicate_changes_nothing(r: ReplicaView, snap: Snapshot)
    ensures
        received(received(r, snap), snap) == received(r, snap),
{
}

/// Newest wins: the applied tick never moves back, and a snapshot older than
/// the applied tick leaves the replica as it was.
pub proof fn lemma_newest_wins(r: ReplicaView, snap: Snapshot)
    ensures
        r.applied_tick is Some ==> received(r, snap).applied_tick is Some && received(
            r,
            snap,
        ).applied_tick->0 >= r.applied_tick->0,
        r.applied_tick is Some && snap.tick < r.applied_tick->0 ==> received(r, snap) == r,
{
}

} // verus!
