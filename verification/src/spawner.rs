//! Batched spawning: configurations move from a pool into a bounded queue and
//! leave it a frame's worth at a time.

use vstd::prelude::*;
use std::collections::VecDeque;

verus! {

/// The number of configurations spawned in one frame.
pub const SPAWN_PER_FRAME: usize = 100;

/// The default length that the spawn queue is filled up to.
pub const DEFAULT_BATCH_SIZE: usize = 100;

/// Queue of configurations that wait to be spawned.
pub struct RectangleBatchSpawner<T> {
    pub batch_size: usize,
    pub spawn_queue: VecDeque<T>,
}

/// The smaller of two numbers.
pub open spec fn least(a: int, b: int) -> int {
    if a <= b {
        a
    } else {
        b
    }
}

/// The number of configurations that a fill moves from the pool to the queue.
pub open spec fn fill_count(queued: int, batch_size: int, pooled: int) -> int {
    if queued >= batch_size {
        0
    } else {
        least(batch_size - queued, pooled)
    }
}

/// The last `k` items of the pool, last first: the order in which they are taken.
pub open spec fn taken<T>(pool: Seq<T>, k: int) -> Seq<T> {
    Seq::new(k as nat, |i: int| pool[pool.len() - 1 - i])
}

impl<T> Default for RectangleBatchSpawner<T> {
    fn default() -> (s: Self)
        ensures
            s.batch_size == DEFAULT_BATCH_SIZE,
            s.spawn_queue@ == Seq::<T>::empty(),
    {
        RectangleBatchSpawner { batch_size: DEFAULT_BATCH_SIZE, spawn_queue: VecDeque::new() }
    }
}

/// Fills the queue from the pool until it holds `batch_size` configurations
/// or the pool is empty.
pub fn fill_spawn_queue<T>(spawner: &mut RectangleBatchSpawner<T>, pool: &mut Vec<T>)
    ensures
        final(spawner).batch_size == old(spawner).batch_size,
        final(spawner).spawn_queue@ == old(spawner).spawn_queue@ + taken(
            old(pool)@,
            fill_count(
                old(spawner).spawn_queue@.len() as int,
                old(spawner).batch_size as int,
                old(pool)@.len() as int,
            ),
        ),
        final(pool)@ == old(pool)@.take(
            old(pool)@.len() - fill_count(
                old(spawner).spawn_queue@.len() as int,
                old(spawner).batch_size as int,
                old(pool)@.len() as int,
            ),
        ),
{
    let ghost queue0 = spawner.spawn_queue@;
    let ghost pool0 = pool@;
    let ghost goal = fill_count(
        queue0.len() as int,
        spawner.batch_size as int,
        pool0.len() as int,
    );
    let ghost moved: int = 0;
    proof {
        assert(queue0 + taken(pool0, 0) =~= queue0);
        assert(pool0.take(pool0.len() as int) =~= pool0);
    }
    while spawner.spawn_queue.len() < spawner.batch_size && pool.len() > 0
        invariant
            spawner.batch_size == old(spawner).batch_size,
            0 <= moved <= goal,
            goal == fill_count(
                queue0.len() as int,
                spawner.batch_size as int,
                pool0.len() as int,
            ),
            spawner.spawn_queue@ == queue0 + taken(pool0, moved),
            pool@ == pool0.take(pool0.len() - moved),
            moved < goal <==> (spawner.spawn_queue@.len() < spawner.batch_size && pool@.len() > 0),
        decreases pool.len(),
    {
        let config: T = pool.pop().unwrap();
        spawner.spawn_queue.push_back(config);
        proof {
            assert(config == pool0[pool0.len() - 1 - moved]);
            assert(taken(pool0, moved).push(config) =~= taken(pool0, moved + 1));
            assert((queue0 + taken(pool0, moved)).push(config) =~= queue0 + taken(
                pool0,
                moved + 1,
            ));
            assert(pool@ =~= pool0.take(pool0.len() - (moved + 1)));
            moved = moved + 1;
        }
    }
}

/// Takes up to `limit` configurations from the front of the queue, in order.
pub fn take_batch<T>(spawner: &mut RectangleBatchSpawner<T>, limit: usize) -> (batch: Vec<T>)
    ensures
        final(spawner).batch_size == old(spawner).batch_size,
        batch@ == old(spawner).spawn_queue@.take(
            least(limit as int, old(spawner).spawn_queue@.len() as int),
        ),
        final(spawner).spawn_queue@ == old(spawner).spawn_queue@.skip(
            least(limit as int, old(spawner).spawn_queue@.len() as int),
        ),
{
    let ghost queue0 = spawner.spawn_queue@;
    let mut batch: Vec<T> = Vec::new();
    proof {
        assert(queue0.skip(0) =~= queue0);
        assert(queue0.take(0) =~= batch@);
    }
    while batch.len() < limit && spawner.spawn_queue.len() > 0
        invariant
            spawner.batch_size == old(spawner).batch_size,
            batch.len() <= limit,
            batch.len() <= queue0.len(),
            batch@ == queue0.take(batch.len() as int),
            spawner.spawn_queue@ == queue0.skip(batch.len() as int),
        decreases spawner.spawn_queue@.len(),
    {
        let ghost n = batch.len() as int;
        let config: T = spawner.spawn_queue.pop_front().unwrap();
        batch.push(config);
        proof {
            assert(config == queue0[n]);
            assert(batch@ =~= queue0.take(n + 1));
            assert(spawner.spawn_queue@ =~= queue0.skip(n + 1));
        }
    }
    batch
}

/// One frame of batched spawning: the queue is filled from the pool, and the
/// configurations to spawn in this frame leave it.
pub fn batch_spawn_rectangles<T>(spawner: &mut RectangleBatchSpawner<T>, pool: &mut Vec<T>) -> (batch:
    Vec<T>)
    ensures
        final(spawner).batch_size == old(spawner).batch_size,
        final(pool)@ == old(pool)@.take(
            old(pool)@.len() - fill_count(
                old(spawner).spawn_queue@.len() as int,
                old(spawner).batch_size as int,
                old(pool)@.len() as int,
            ),
        ),
        batch@ + final(spawner).spawn_queue@ == old(spawner).spawn_queue@ + taken(
            old(pool)@,
            fill_count(
                old(spawner).spawn_queue@.len() as int,
                old(spawner).batch_size as int,
                old(pool)@.len() as int,
            ),
        ),
        batch@.len() == least(
            SPAWN_PER_FRAME as int,
            old(spawner).spawn_queue@.len() + fill_count(
                old(spawner).spawn_queue@.len() as int,
                old(spawner).batch_size as int,
                old(pool)@.len() as int,
            ),
        ),
{
    fill_spawn_queue(spawner, pool);
    let ghost filled = spawner.spawn_queue@;
    let batch: Vec<T> = take_batch(spawner, SPAWN_PER_FRAME);
    proof {
        let k = least(SPAWN_PER_FRAME as int, filled.len() as int);
        assert(filled.take(k) + filled.skip(k) =~= filled);
    }
    batch
}

} // verus!
