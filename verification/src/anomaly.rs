//! What can go wrong, and who gets to know: only the loss of a connection is
//! shown to the user, every anomaly of snapshots and predictions heals itself.

use vstd::prelude::*;
use crate::client::Applied;
use crate::prediction::Reconciliation;

verus! {

/// The kinds of anomaly.
#[derive(Clone, Copy, Debug, PartialEq, Eq, Structural)]
pub enum Anomaly {
    /// The socket failed; the connection is lost.
    TransportError,
    /// A reliable message stayed unacknowledged past the retry budget.
    ChannelTimeout,
    /// A delta against a baseline that the receiver does not hold.
    StaleBaseline,
    /// A prediction disagreed with the authoritative state.
    ReconciliationDivergence,
    /// A divergence older than the rollback window.
    RollbackOverflow,
}

impl Anomaly {
    /// The anomaly ends the connection and is shown to the user.
    pub open spec fn surfaced(self) -> bool {
        self == Anomaly::TransportError || self == Anomaly::ChannelTimeout
    }

    pub fn is_user_visible(&self) -> (r: bool)
        ensures
            r == self.surfaced(),
    {
        match *self {
            Anomaly::TransportError => true,
            Anomaly::ChannelTimeout => true,
            _ => false,
        }
    }
}

/// The anomaly, if any, that shows in what a client did with a snapshot.
pub open spec fn anomaly_spec(applied: Applied) -> Option<Anomaly> {
    match applied {
        Applied::NeedsFull => Some(Anomaly::StaleBaseline),
        Applied::Reconciled(Reconciliation::Resimulated) => Some(Anomaly::ReconciliationDivergence),
        Applied::Reconciled(Reconciliation::Deferred) => Some(Anomaly::ReconciliationDivergence),
        Applied::Reconciled(Reconciliation::RollbackOverflow) => Some(Anomaly::RollbackOverflow),
        _ => None,
    }
}

/// Names the anomaly in the outcome of a snapshot, for the counters of the
/// client. None of them is shown to the user.
pub fn anomaly_of(applied: Applied) -> (r: Option<Anomaly>)
    ensures
        r == anomaly_spec(applied),
        r is Some ==> !r->0.surfaced(),
{
    match applied {
        Applied::NeedsFull => Some(Anomaly::StaleBaseline),
        Applied::Reconciled(out) => match out {
            Reconciliation::Resimulated => Some(Anomaly::ReconciliationDivergence),
            Reconciliation::Deferred => Some(Anomaly::ReconciliationDivergence),
            Reconciliation::RollbackOverflow => Some(Anomaly::RollbackOverflow),
            _ => None,
        },
        _ => None,
    }
}

} // verus!
