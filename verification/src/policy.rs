//! Which clients predict an entity, which interpolate it, and how a client
//! routes the snapshots of an entity accordingly.

use vstd::prelude::*;

verus! {

/// A set of clients.
#[derive(Clone, Copy, Debug, PartialEq, Eq, Structural)]
pub enum NetworkTarget {
    Nobody,
    All,
    Single(u64),
    AllExceptSingle(u64),
}

/// How an entity is replicated.
#[derive(Clone, Copy, Debug, PartialEq, Eq, Structural)]
pub struct ReplicationPolicy {
    /// The clients that predict the entity.
    pub prediction: NetworkTarget,
    /// The clients that interpolate the entity.
    pub interpolation: NetworkTarget,
    /// The clients that control the entity.
    pub controlled_by: NetworkTarget,
    /// Whether the entity is sent only to the connections whose interest set holds it.
    pub interest_managed: bool,
}

/// Where a client sends the snapshots of an entity.
#[derive(Clone, Copy, Debug, PartialEq, Eq, Structural)]
pub enum Route {
    /// Into reconciliation with the client's own prediction.
    Reconcile,
    /// Into the interpolation buffer.
    Interpolate,
    /// The snapshot is applied as it is.
    Direct,
}

impl NetworkTarget {
    /// The client belongs to the set.
    pub open spec fn targets(self, client: u64) -> bool {
        match self {
            NetworkTarget::Nobody => false,
            NetworkTarget::All => true,
            NetworkTarget::Single(c) => c == client,
            NetworkTarget::AllExceptSingle(c) => c != client,
        }
    }

    pub fn includes(&self, client: u64) -> (r: bool)
        ensures
            r == self.targets(client),
    {
        match *self {
            NetworkTarget::Nobody => false,
            NetworkTarget::All => true,
            NetworkTarget::Single(c) => c == client,
            NetworkTarget::AllExceptSingle(c) => c != client,
        }
    }
}

/// The policy of a player's entity: its client predicts and controls it,
/// every other client interpolates it, and interest decides who sees it.
pub open spec fn player_policy(client_id: u64) -> ReplicationPolicy {
    ReplicationPolicy {
        prediction: NetworkTarget::Single(client_id),
        interpolation: NetworkTarget::AllExceptSingle(client_id),
        controlled_by: NetworkTarget::Single(client_id),
        interest_managed: true,
    }
}

/// Where a policy sends a client's snapshots: prediction comes before interpolation.
pub open spec fn route_of(policy: ReplicationPolicy, client: u64) -> Route {
    if policy.prediction.targets(client) {
        Route::Reconcile
    } else if policy.interpolation.targets(client) {
        Route::Interpolate
    } else {
        Route::Direct
    }
}

/// The replication policy of the entity spawned for a client.
pub fn spawn_player_entity(client_id: u64) -> (p: ReplicationPolicy)
    ensures
        p == player_policy(client_id),
{
    ReplicationPolicy {
        prediction: NetworkTarget::Single(client_id),
        interpolation: NetworkTarget::AllExceptSingle(client_id),
        controlled_by: NetworkTarget::Single(client_id),
        interest_managed: true,
    }
}

/// Decides what `client` does with the snapshots of an entity.
pub fn route(policy: &ReplicationPolicy, client: u64) -> (r: Route)
    ensures
        r == route_of(*policy, client),
{
    if policy.prediction.includes(client) {
        Route::Reconcile
    } else if policy.interpolation.includes(client) {
        Route::Interpolate
    } else {
        Route::Direct
    }
}

/// A player's entity is reconciled on its own client and interpolated on every other.
pub proof fn lemma_player_routes(owner: u64, client: u64)
    ensures
        route_of(player_policy(owner), client) == if client == owner {
            Route::Reconcile
        } else {
            Route::Interpolate
        },
{
}

} // verus!
