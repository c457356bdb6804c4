//! A client's copy of one entity: what arrives is applied newest-wins and
//! then handed to reconciliation or interpolation, as the entity's route says.

use vstd::prelude::*;
use crate::interpolation::{InterpolationBuffer, Sample};
use crate::policy::Route;
use crate::prediction::{Position, Reconciliation};
use crate::predictor::{reconciles, Predictor};
use crate::replication::{receipt_of, received, Receipt, Replica, Snapshot};

verus! {

/// What a client did with a snapshot.
#[derive(Clone, Copy, Debug, PartialEq, Eq, Structural)]
pub enum Applied {
    /// Older than the state already applied.
    Discarded,
    /// A delta that cannot be applied here; a full snapshot has to be asked for.
    NeedsFull,
    /// Applied and held against the prediction, with this outcome.
    Reconciled(Reconciliation),
    /// Applied and handed to interpolation.
    Buffered,
    /// Applied, and nothing more.
    Direct,
}

/// One replicated entity on a client.
pub struct ClientEntity {
    pub route: Route,
    pub replica: Replica,
    pub predictor: Predictor,
    pub buffer: InterpolationBuffer,
    /// The server has to send a full snapshot before the entity is in step again.
    pub needs_full: bool,
}

/// The position that a component state carries in its first two fields.
pub open spec fn position_spec(values: Seq<i64>) -> Option<Position> {
    if values.len() >= 2 {
        Some(Position { x: values[0], y: values[1] })
    } else {
        None
    }
}

pub fn position_of(values: &Vec<i64>) -> (r: Option<Position>)
    ensures
        r == position_spec(values@),
{
    if values.len() >= 2 {
        Some(Position { x: values[0], y: values[1] })
    } else {
        None
    }
}

impl ClientEntity {
    pub open spec fn wf(&self) -> bool {
        self.predictor.wf() && self.buffer.wf()
    }

    /// What a snapshot leads to, given the state it arrives on.
    pub open spec fn applied_spec(&self, snap: Snapshot, budget: usize) -> Applied {
        match receipt_of(self.replica@, snap) {
            Receipt::Stale => Applied::Discarded,
            Receipt::NeedsFull => Applied::NeedsFull,
            Receipt::Applied => {
                let p = position_spec(received(self.replica@, snap).values);
                if p is None {
                    Applied::Direct
                } else {
                    match self.route {
                        Route::Reconcile => Applied::Reconciled(
                            self.predictor.outcome_spec(snap.tick, p->0, budget),
                        ),
                        Route::Interpolate => Applied::Buffered,
                        Route::Direct => Applied::Direct,
                    }
                }
            },
        }
    }

    /// An entity that has seen no snapshot, predicted from `state` at `tick`.
    pub fn new(route: Route, tick: u64, state: Position, window: usize, tolerance: u64) -> (e: Self)
        requires
            window >= 1,
        ensures
            e.wf(),
            e.route == route,
            e.replica@.applied_tick is None,
            e.predictor.base_tick == tick,
            e.predictor.base == state,
            e.predictor.inputs@ == Seq::<crate::prediction::InputCommand>::empty(),
            e.predictor.window == window,
            e.predictor.tolerance == tolerance,
            e.buffer.newer is None,
            !e.needs_full,
    {
        ClientEntity {
            route,
            replica: Replica::new(),
            predictor: Predictor::new(tick, state, window, tolerance),
            buffer: InterpolationBuffer::new(),
            needs_full: false,
        }
    }

    /// Takes in a snapshot of the entity.
    ///
    /// The replica applies it newest-wins. A snapshot that is applied goes to
    /// reconciliation on the client that predicts the entity and to the
    /// interpolation buffer elsewhere. A full snapshot is needed after a delta
    /// that could not be applied and after a snapshot for a tick that the
    /// rollback window no longer holds.
    pub fn receive_snapshot(&mut self, snap: Snapshot, budget: usize) -> (out: Applied)
        requires
            old(self).wf(),
        ensures
            final(self).wf(),
            out == old(self).applied_spec(snap, budget),
            final(self).route == old(self).route,
            final(self).replica@ == received(old(self).replica@, snap),
            out is Reconciled ==> final(self).buffer == old(self).buffer && reconciles(
                old(self).predictor,
                final(self).predictor,
                snap.tick,
                position_spec(final(self).replica@.values)->0,
                budget,
            ),
            out is Buffered ==> final(self).predictor == old(self).predictor && final(self).buffer
                == old(self).buffer.with_sample(
                Sample { tick: snap.tick, state: position_spec(final(self).replica@.values)->0 },
            ),
            !(out is Reconciled) && !(out is Buffered) ==> final(self).predictor == old(
                self,
            ).predictor && final(self).buffer == old(self).buffer,
            final(self).needs_full == (match out {
                Applied::Discarded => old(self).needs_full,
                Applied::NeedsFull => true,
                Applied::Reconciled(r) => r == Reconciliation::RollbackOverflow,
                Applied::Buffered => false,
                Applied::Direct => false,
            }),
    {
        let tick: u64 = snap.tick;
        let receipt: Receipt = self.replica.receive(snap);
        match receipt {
            Receipt::Stale => Applied::Discarded,
            Receipt::NeedsFull => {
                self.needs_full = true;
                Applied::NeedsFull
            },
            Receipt::Applied => {
                self.needs_full = false;
                match position_of(&self.replica.values) {
                    None => Applied::Direct,
                    Some(p) => match self.route {
                        Route::Reconcile => {
                            let r: Reconciliation = self.predictor.reconcile(tick, p, budget);
                            if r == Reconciliation::RollbackOverflow {
                                self.needs_full = true;
                            }
                            Applied::Reconciled(r)
                        },
                        Route::Interpolate => {
                            self.buffer.push(Sample { tick, state: p });
                            Applied::Buffered
                        },
                        Route::Direct => Applied::Direct,
                    },
                }
            },
        }
    }
}

} // verus!
