//! The client's table from client identifiers to the entities of their players.

use vstd::prelude::*;
use std::collections::HashMap;

verus! {

broadcast use vstd::std_specs::hash::group_hash_axioms;

/// Maps client id to player entity.
pub struct PlayerMap {
    pub players: HashMap<u64, u64>,
}

/// What the client does for a player entity that has just been spawned.
#[derive(Clone, Copy, Debug, PartialEq, Eq, Structural)]
pub struct SpawnActions {
    /// The entity is the local client's own player: it is marked as such and
    /// its input is replicated to the server.
    pub local: bool,
    /// The entity that the client had for this player before, if any.
    pub replaced: Option<u64>,
}

impl View for PlayerMap {
    type V = Map<u64, u64>;

    open spec fn view(&self) -> Map<u64, u64> {
        self.players@
    }
}

impl PlayerMap {
    pub fn new() -> (m: Self)
        ensures
            m@ == Map::<u64, u64>::empty(),
    {
        PlayerMap { players: HashMap::new() }
    }

    /// Records the entity of a client's player and returns the one it replaces.
    pub fn insert(&mut self, client_id: u64, entity: u64) -> (previous: Option<u64>)
        ensures
            final(self)@ == old(self)@.insert(client_id, entity),
            previous == (if old(self)@.contains_key(client_id) {
                Some(old(self)@[client_id])
            } else {
                None
            }),
    {
        self.players.insert(client_id, entity)
    }

    /// The entity of a client's player.
    pub fn get(&self, client_id: u64) -> (entity: Option<u64>)
        ensures
            entity == (if self@.contains_key(client_id) {
                Some(self@[client_id])
            } else {
                None
            }),
    {
        match self.players.get(&client_id) {
            Some(e) => Some(*e),
            None => None,
        }
    }

    /// Takes note of a predicted player entity that has just appeared: the
    /// map learns the entity, and the entity is the local one exactly if it
    /// belongs to this client.
    pub fn handle_player_spawn(&mut self, client_id: u64, entity: u64, my_client_id: u64) -> (a:
        SpawnActions)
        ensures
            final(self)@ == old(self)@.insert(client_id, entity),
            a.local == (client_id == my_client_id),
            a.replaced == (if old(self)@.contains_key(client_id) {
                Some(old(self)@[client_id])
            } else {
                None
            }),
    {
        let replaced: Option<u64> = self.insert(client_id, entity);
        SpawnActions { local: client_id == my_client_id, replaced }
    }
}

/// The entity that the map holds for a client.
pub open spec fn entity_of(players: Map<u64, u64>, client_id: u64) -> Option<u64> {
    if players.contains_key(client_id) {
        Some(players[client_id])
    } else {
        None
    }
}

/// Finds, for each client whose actions arrived, the entity that they move;
/// the actions of a client without an entity move nothing.
pub fn handle_player_movement(player_map: &PlayerMap, actors: &Vec<u64>) -> (targets: Vec<
    Option<u64>,
>)
    ensures
        targets.len() == actors.len(),
        forall|i: int|
            0 <= i < actors.len() ==> #[trigger] targets@[i] == entity_of(player_map@, actors@[i]),
{
    let mut targets: Vec<Option<u64>> = Vec::new();
    let mut i: usize = 0;
    while i < actors.len()
        invariant
            i <= actors.len(),
            targets.len() == i,
            forall|j: int|
                0 <= j < i ==> #[trigger] targets@[j] == entity_of(player_map@, actors@[j]),
        decreases actors.len() - i,
    {
        targets.push(player_map.get(actors[i]));
        i += 1;
    }
    targets
}

} // verus!
