//! What holds of every pool, whatever is asked of it.

use super::key::{PoolKeyView, RenderPassMode};
use super::lease::{Build, GraphicsCtor, LeaseView};
use super::model::{
    lemma_issue, lemma_release, lemma_seed, lemma_slot_of, lemma_take, lemma_with_pass,
    lemma_with_queue, PoolView,
};
use super::queue::{last_fit, lemma_last_fit_some, Idle};
use vstd::prelude::*;

verus! {

impl PoolView {
    /// Whether two more objects, one more queue and one more render pass can
    /// be numbered.
    pub open spec fn has_room(self) -> bool {
        &&& self.objects.len() + 2 <= usize::MAX
        &&& self.queues.len() < usize::MAX
        &&& self.passes.len() < usize::MAX
    }
}

/// A lease names an object that waits in no idle queue.
pub proof fn law_leased_is_not_idle(pool: PoolView, lease: LeaseView, s: int, i: int)
    requires
        pool.inv(),
        pool.holds(lease),
        pool.has_entry(s, i),
    ensures
        pool.entry(s, i).id != lease.id,
{
}

/// Two live leases of one object are the same lease: they name the same
/// queue and the same capacity.
pub proof fn law_one_lease_per_object(pool: PoolView, a: LeaseView, b: LeaseView)
    requires
        pool.holds(a),
        pool.holds(b),
        a.id == b.id,
    ensures
        a.slot == b.slot,
        a.capacity == b.capacity,
{
}

/// A request hands out an object that nobody holds: the new lease is live,
/// it names another object than every lease that was live before, and those
/// leases stay live.
pub proof fn law_at_most_one_owner(
    pool: PoolView,
    key: PoolKeyView,
    need: u64,
    on_hit: Build,
    on_miss: Build,
    other: LeaseView,
)
    requires
        pool.inv(),
        pool.has_room(),
        pool.holds(other),
    ensures
        pool.acquire(key, need, on_hit, on_miss).0.inv(),
        pool.acquire(key, need, on_hit, on_miss).0.holds(pool.acquire(key, need, on_hit, on_miss).1),
        pool.acquire(key, need, on_hit, on_miss).0.holds(other),
        pool.acquire(key, need, on_hit, on_miss).1.id != other.id,
{
    let slot = pool.slot_of(key);
    let queued = pool.with_queue(key);
    lemma_with_queue(pool, key);
    lemma_take(queued, slot, need);
    let (taken, hit) = queued.take(slot, need);
    if hit is None {
        lemma_issue(taken, slot, need);
    }
}

/// The same holds of a request for a texture, which may issue two objects.
pub proof fn law_at_most_one_owner_texture(pool: PoolView, key: PoolKeyView, other: LeaseView)
    requires
        pool.inv(),
        pool.has_room(),
        pool.holds(other),
    ensures
        pool.acquire_texture(key).0.inv(),
        pool.acquire_texture(key).0.holds(pool.acquire_texture(key).1),
        pool.acquire_texture(key).0.holds(other),
        pool.acquire_texture(key).1.id != other.id,
{
    let slot = pool.slot_of(key);
    let queued = pool.with_queue(key);
    lemma_with_queue(pool, key);
    lemma_take(queued, slot, 0);
    let (taken, hit) = queued.take(slot, 0);
    if hit is None {
        lemma_issue(taken, slot, 0);
        lemma_seed(taken.issue(slot, 0), slot, 0);
    }
}

/// The same holds of a request for a graphics pipeline.
pub proof fn law_at_most_one_owner_graphics(
    pool: PoolView,
    key: PoolKeyView,
    mode: RenderPassMode,
    ctor: GraphicsCtor,
    need: u64,
    other: LeaseView,
)
    requires
        pool.inv(),
        pool.has_room(),
        pool.holds(other),
    ensures
        pool.acquire_graphics(key, mode, ctor, need).0.inv(),
        pool.acquire_graphics(key, mode, ctor, need).0.holds(
            pool.acquire_graphics(key, mode, ctor, need).1,
        ),
        pool.acquire_graphics(key, mode, ctor, need).0.holds(other),
        pool.acquire_graphics(key, mode, ctor, need).1.id != other.id,
{
    let slot = pool.slot_of(key);
    let queued = pool.with_queue(key);
    lemma_with_queue(pool, key);
    lemma_take(queued, slot, need);
    let (taken, hit) = queued.take(slot, need);
    if hit is None {
        lemma_issue(taken, slot, need);
        lemma_with_pass(taken.issue(slot, need), mode);
    }
}

/// An object that was released is the one that the next fitting request
/// under the same key gets: it is taken from the queue, not built.
pub proof fn law_round_trip(pool: PoolView, lease: LeaseView, need: u64, on_hit: Build, on_miss: Build)
    requires
        pool.inv(),
        pool.holds(lease),
        need <= lease.capacity,
    ensures
        ({
            let key = pool.queues[lease.slot as int].key;
            let (next, again) = pool.release(lease).acquire(key, need, on_hit, on_miss);
            &&& again.id == lease.id
            &&& again.slot == lease.slot
            &&& again.capacity == lease.capacity
            &&& again.build == on_hit
            &&& next.objects.len() == pool.objects.len()
        }),
{
    let slot = lease.slot as int;
    let key = pool.queues[slot].key;
    let back = pool.release(lease);
    lemma_release(pool, lease);
    lemma_slot_of(back, key, slot);
    let queue = back.queues[slot].idle;
    lemma_last_fit_some(queue, need, queue.len() - 1);
}

/// A request for a texture gets back a texture that was released under the
/// same key.
pub proof fn law_round_trip_texture(pool: PoolView, lease: LeaseView)
    requires
        pool.inv(),
        pool.holds(lease),
    ensures
        ({
            let key = pool.queues[lease.slot as int].key;
            let (next, again) = pool.release(lease).acquire_texture(key);
            &&& again.id == lease.id
            &&& again.build == Build::Reuse
            &&& next.objects.len() == pool.objects.len()
        }),
{
    let slot = lease.slot as int;
    let key = pool.queues[slot].key;
    let back = pool.release(lease);
    lemma_release(pool, lease);
    lemma_slot_of(back, key, slot);
    let queue = back.queues[slot].idle;
    lemma_last_fit_some(queue, 0, queue.len() - 1);
}

/// A request for a graphics pipeline gets back a pipeline that was
/// released under the same key and has the sets asked for.
pub proof fn law_round_trip_graphics(
    pool: PoolView,
    lease: LeaseView,
    mode: RenderPassMode,
    ctor: GraphicsCtor,
    need: u64,
)
    requires
        pool.inv(),
        pool.holds(lease),
        need <= lease.capacity,
    ensures
        ({
            let key = pool.queues[lease.slot as int].key;
            let (next, again) = pool.release(lease).acquire_graphics(key, mode, ctor, need);
            &&& again.id == lease.id
            &&& again.capacity == lease.capacity
            &&& again.build == Build::Reuse
            &&& next.objects.len() == pool.objects.len()
            &&& next.passes == pool.passes
        }),
{
    let slot = lease.slot as int;
    let key = pool.queues[slot].key;
    let back = pool.release(lease);
    lemma_release(pool, lease);
    lemma_slot_of(back, key, slot);
    let queue = back.queues[slot].idle;
    lemma_last_fit_some(queue, need, queue.len() - 1);
}

/// A request never gets an object that holds less than was asked for. Where
/// an idle object of the key fits, no object is built; where none fits,
/// exactly one is.
pub proof fn law_fitness(pool: PoolView, key: PoolKeyView, need: u64, on_hit: Build, on_miss: Build)
    requires
        pool.inv(),
        pool.has_room(),
    ensures
        ({
            let (next, lease) = pool.acquire(key, need, on_hit, on_miss);
            &&& lease.capacity >= need
            &&& last_fit(pool.idle_of(key), need) is Some ==> {
                &&& next.objects.len() == pool.objects.len()
                &&& lease.build == on_hit
                &&& pool.is_idle(lease.id as int)
            }
            &&& last_fit(pool.idle_of(key), need) is None ==> {
                &&& next.objects.len() == pool.objects.len() + 1
                &&& lease.build == on_miss
                &&& lease.capacity == need
                &&& lease.id == pool.objects.len()
            }
        }),
{
    let slot = pool.slot_of(key);
    let queued = pool.with_queue(key);
    lemma_with_queue(pool, key);
    lemma_take(queued, slot, need);
    assert(queued.queues[slot].idle == pool.idle_of(key));
}

/// The same holds of a request for a graphics pipeline; one that builds a
/// pipeline also sees to it that the registry holds the render pass.
pub proof fn law_fitness_graphics(
    pool: PoolView,
    key: PoolKeyView,
    mode: RenderPassMode,
    ctor: GraphicsCtor,
    need: u64,
)
    requires
        pool.inv(),
        pool.has_room(),
    ensures
        ({
            let (next, lease) = pool.acquire_graphics(key, mode, ctor, need);
            &&& lease.capacity >= need
            &&& last_fit(pool.idle_of(key), need) is Some ==> {
                &&& next.objects.len() == pool.objects.len()
                &&& lease.build == Build::Reuse
                &&& next.passes == pool.passes
            }
            &&& last_fit(pool.idle_of(key), need) is None ==> {
                &&& next.objects.len() == pool.objects.len() + 1
                &&& lease.capacity == need
                &&& lease.build matches Build::CreateGraphics { graphics, pass, pass_is_new }
                &&& graphics == ctor
                &&& pass < next.passes.len()
                &&& next.passes[pass as int] == mode
                &&& pass_is_new == !pool.passes.contains(mode)
            }
        }),
{
    let slot = pool.slot_of(key);
    let queued = pool.with_queue(key);
    lemma_with_queue(pool, key);
    lemma_take(queued, slot, need);
    assert(queued.queues[slot].idle == pool.idle_of(key));
    let (taken, hit) = queued.take(slot, need);
    if hit is None {
        lemma_issue(taken, slot, need);
        let issued = taken.issue(slot, need);
        assert(issued.passes == pool.passes);
        lemma_with_pass(issued, mode);
        assert(issued.pass_of(mode) == pool.pass_of(mode));
        if pool.passes.contains(mode) {
            let i = choose|i: int| 0 <= i < pool.passes.len() && pool.passes[i] == mode;
            assert(pool.pass_of(mode) < pool.passes.len());
        }
    }
}

/// A request for a texture that finds its queue empty builds exactly two
/// objects, one of which waits in the queue afterwards; one that finds an
/// idle texture builds none.
pub proof fn law_texture_spare(pool: PoolView, key: PoolKeyView)
    requires
        pool.inv(),
        pool.has_room(),
    ensures
        ({
            let (next, lease) = pool.acquire_texture(key);
            &&& pool.idle_of(key).len() > 0 ==> {
                &&& next.objects.len() == pool.objects.len()
                &&& lease.build == Build::Reuse
                &&& lease.id == pool.idle_of(key).last().id
            }
            &&& pool.idle_of(key).len() == 0 ==> {
                &&& next.objects.len() == pool.objects.len() + 2
                &&& lease.build == (Build::CreateWithSpare { spare: (pool.objects.len() + 1) as usize })
                &&& next.idle_of(key) == seq![
                    Idle { id: (pool.objects.len() + 1) as usize, capacity: 0, released: pool.frame },
                ]
            }
        }),
{
    let slot = pool.slot_of(key);
    let queued = pool.with_queue(key);
    lemma_with_queue(pool, key);
    lemma_take(queued, slot, 0);
    let queue = queued.queues[slot].idle;
    assert(queue == pool.idle_of(key));
    if queue.len() > 0 {
        lemma_last_fit_some(queue, 0, queue.len() - 1);
    } else {
        let (taken, hit) = queued.take(slot, 0);
        lemma_issue(taken, slot, 0);
        let next = taken.issue(slot, 0).seed(slot, 0);
        lemma_seed(taken.issue(slot, 0), slot, 0);
        lemma_slot_of(next, key, slot);
        assert(next.queues[slot].idle =~= seq![
            Idle { id: (pool.objects.len() + 1) as usize, capacity: 0, released: pool.frame },
        ]);
    }
}

/// Every command pool that a request hands out is reset before use, whether
/// it was used before or not.
pub proof fn law_command_pool_reset(pool: PoolView, family: usize)
    ensures
        pool.acquire(PoolKeyView::CommandPool { family }, 0, Build::Reset, Build::CreateAndReset).1.build.resets(),
{
}

} // verus!
