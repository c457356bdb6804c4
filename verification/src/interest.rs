//! Which entities a connection may observe, and what a change of that set
//! makes the server send.

use vstd::prelude::*;

verus! {

/// An entity subject to replication, as the interest policy sees it.
#[derive(Clone, Copy, Debug, PartialEq, Eq, Structural)]
pub struct NetworkEntity {
    /// Network-wide identifier, stable for the entity's lifetime.
    pub id: u64,
    /// The connection that controls the entity, if any.
    pub owner: Option<u64>,
}

/// What the server sends a connection when its interest set changes.
#[derive(Clone, Copy, Debug, PartialEq, Eq, Structural)]
pub enum Notice {
    /// The entity came into view: a full snapshot goes out, never a delta.
    FullSnapshot(u64),
    /// The entity left the view: a despawn notice goes out on the reliable channel.
    Despawn(u64),
}

/// The default policy: a connection sees what it owns and what is on its list.
pub open spec fn is_visible(e: NetworkEntity, connection: u64, listed: Seq<u64>) -> bool {
    e.owner == Some(connection) || listed.contains(e.id)
}

/// Identifiers of the visible entities among the first `n` of the world, in world order.
pub open spec fn visible_upto(
    world: Seq<NetworkEntity>,
    connection: u64,
    listed: Seq<u64>,
    n: int,
) -> Seq<u64>
    decreases n,
{
    if n <= 0 {
        Seq::empty()
    } else if is_visible(world[n - 1], connection, listed) {
        visible_upto(world, connection, listed, n - 1).push(world[n - 1].id)
    } else {
        visible_upto(world, connection, listed, n - 1)
    }
}

/// The interest set of a connection.
pub open spec fn interest_of(world: Seq<NetworkEntity>, connection: u64, listed: Seq<u64>) -> Seq<
    u64,
> {
    visible_upto(world, connection, listed, world.len() as int)
}

/// An identifier is in the interest set exactly if a visible entity carries it.
pub proof fn lemma_interest_members(
    world: Seq<NetworkEntity>,
    connection: u64,
    listed: Seq<u64>,
    n: int,
    id: u64,
)
    requires
        0 <= n <= world.len(),
    ensures
        visible_upto(world, connection, listed, n).contains(id) <==> exists|i: int|
            0 <= i < n && (#[trigger] world[i]).id == id && is_visible(
                world[i],
                connection,
                listed,
            ),
    decreases n,
{
    if n > 0 {
        lemma_interest_members(world, connection, listed, n - 1, id);
        let before = visible_upto(world, connection, listed, n - 1);
        let now = visible_upto(world, connection, listed, n);
        if is_visible(world[n - 1], connection, listed) {
            assert(now == before.push(world[n - 1].id));
            assert(now[now.len() - 1] == world[n - 1].id);
            if before.contains(id) {
                let k = choose|k: int| 0 <= k < before.len() && before[k] == id;
                assert(now[k] == id);
            }
            if now.contains(id) {
                let k = choose|k: int| 0 <= k < now.len() && now[k] == id;
                if k < before.len() {
                    assert(before[k] == id);
                }
            }
        }
    }
}

/// Whether `id` occurs in `ids`.
pub fn contains_id(ids: &Vec<u64>, id: u64) -> (r: bool)
    ensures
        r == ids@.contains(id),
{
    let mut i: usize = 0;
    while i < ids.len()
        invariant
            i <= ids.len(),
            forall|j: int| 0 <= j < i ==> ids@[j] != id,
        decreases ids.len() - i,
    {
        if ids[i] == id {
            return true;
        }
        i += 1;
    }
    false
}

/// Computes the interest set of `connection`: the identifiers of the entities
/// it owns or has on its list, in world order.
pub fn compute_interest(connection: u64, listed: &Vec<u64>, world: &Vec<NetworkEntity>) -> (r: Vec<
    u64,
>)
    ensures
        r@ == interest_of(world@, connection, listed@),
        forall|id: u64|
            r@.contains(id) <==> exists|i: int|
                0 <= i < world.len() && (#[trigger] world@[i]).id == id && is_visible(
                    world@[i],
                    connection,
                    listed@,
                ),
{
    let mut out: Vec<u64> = Vec::new();
    let mut i: usize = 0;
    while i < world.len()
        invariant
            i <= world.len(),
            out@ == visible_upto(world@, connection, listed@, i as int),
        decreases world.len() - i,
    {
        let e: NetworkEntity = world[i];
        let owned: bool = match e.owner {
            Some(c) => c == connection,
            None => false,
        };
        if owned || contains_id(listed, e.id) {
            out.push(e.id);
        }
        i += 1;
    }
    proof {
        assert forall|id: u64|
            out@.contains(id) <==> exists|i: int|
                0 <= i < world.len() && (#[trigger] world@[i]).id == id && is_visible(
                    world@[i],
                    connection,
                    listed@,
                ) by {
            lemma_interest_members(world@, connection, listed@, world.len() as int, id);
        }
    }
    out
}

/// The notices for the first `n` identifiers: one per identifier that `skip`
/// does not hold, made by `full` or as a despawn.
pub open spec fn notices_upto(ids: Seq<u64>, skip: Seq<u64>, full: bool, n: int) -> Seq<Notice>
    decreases n,
{
    if n <= 0 {
        Seq::empty()
    } else if !skip.contains(ids[n - 1]) {
        notices_upto(ids, skip, full, n - 1).push(
            if full {
                Notice::FullSnapshot(ids[n - 1])
            } else {
                Notice::Despawn(ids[n - 1])
            },
        )
    } else {
        notices_upto(ids, skip, full, n - 1)
    }
}

/// What a move from the interest set `before` to `after` makes the server
/// send: a despawn for each entity that left, then a full snapshot for each
/// that entered.
pub open spec fn transition_notices(before: Seq<u64>, after: Seq<u64>) -> Seq<Notice> {
    notices_upto(before, after, false, before.len() as int) + notices_upto(
        after,
        before,
        true,
        after.len() as int,
    )
}

fn push_notices(out: &mut Vec<Notice>, ids: &Vec<u64>, skip: &Vec<u64>, full: bool)
    ensures
        final(out)@ == old(out)@ + notices_upto(ids@, skip@, full, ids.len() as int),
{
    let ghost start = out@;
    let mut i: usize = 0;
    while i < ids.len()
        invariant
            i <= ids.len(),
            out@ == start + notices_upto(ids@, skip@, full, i as int),
        decreases ids.len() - i,
    {
        let id: u64 = ids[i];
        let ghost sofar = notices_upto(ids@, skip@, full, i as int);
        if !contains_id(skip, id) {
            let n: Notice = if full {
                Notice::FullSnapshot(id)
            } else {
                Notice::Despawn(id)
            };
            out.push(n);
            proof {
                assert((start + sofar).push(n) =~= start + sofar.push(n));
            }
        }
        i += 1;
    }
}

/// Compares two interest sets of one connection and lists what has to be sent.
pub fn interest_transitions(before: &Vec<u64>, after: &Vec<u64>) -> (r: Vec<Notice>)
    ensures
        r@ == transition_notices(before@, after@),
{
    let mut out: Vec<Notice> = Vec::new();
    push_notices(&mut out, before, after, false);
    push_notices(&mut out, after, before, true);
    proof {
        assert(out@ =~= transition_notices(before@, after@));
    }
    out
}

/// Settles the spawn and despawn requests of one tick: an entity that is
/// asked to appear and to disappear in the same tick disappears, and no
/// snapshot goes out for it.
pub fn resolve_transitions(spawned: &Vec<u64>, despawned: &Vec<u64>) -> (r: Vec<Notice>)
    ensures
        r@ == notices_upto(despawned@, Seq::<u64>::empty(), false, despawned.len() as int)
            + notices_upto(spawned@, despawned@, true, spawned.len() as int),
{
    let none: Vec<u64> = Vec::new();
    let mut out: Vec<Notice> = Vec::new();
    push_notices(&mut out, despawned, &none, false);
    push_notices(&mut out, spawned, despawned, true);
    proof {
        assert(none@ =~= Seq::<u64>::empty());
        assert(out@ =~= notices_upto(
            despawned@,
            Seq::<u64>::empty(),
            false,
            despawned.len() as int,
        ) + notices_upto(spawned@, despawned@, true, spawned.len() as int));
    }
    out
}

/// Whether the interest set of a connection is to be computed anew at
/// `tick`: at once when it never was, and then every `period` ticks, however
/// often snapshots go out in between.
pub fn refresh_due(last_refresh: Option<u64>, tick: u64, period: u64) -> (due: bool)
    ensures
        due == (last_refresh is None || (tick >= last_refresh->0 && tick - last_refresh->0
            >= period)),
{
    match last_refresh {
        None => true,
        Some(last) => tick >= last && tick - last >= period,
    }
}

} // verus!
