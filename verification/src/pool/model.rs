//! The pool as a mathematical value, and the steps it can take.

use super::key::{PoolKeyView, RenderPassMode};
use super::lease::{Build, GraphicsCtor, LeaseView};
use super::queue::{last_fit, lemma_last_fit, Idle};
use vstd::prelude::*;

verus! {

/// Where an object of the pool is.
#[derive(Clone, Copy, Debug, PartialEq, Eq, Structural)]
pub enum Status {
    /// On lease; it returns to the idle queue `slot`.
    Leased { slot: usize, capacity: u64 },
    /// Waiting in an idle queue.
    Idle,
    /// No longer in the pool: evicted, or given up before it was built.
    Gone,
}

/// One idle queue with its key. The back of `idle` is its end: the entry
/// released last stands there.
pub struct QueueView {
    pub key: PoolKeyView,
    pub idle: Seq<Idle>,
}

/// The state of a pool.
pub struct PoolView {
    /// The idle queues, in the order in which their keys were first asked for.
    pub queues: Seq<QueueView>,
    /// Every object the pool ever issued, by its number.
    pub objects: Seq<Status>,
    /// The modes of the render passes in the registry.
    pub passes: Seq<RenderPassMode>,
    /// The current frame.
    pub frame: u64,
    /// After how many frames of disuse an idle object may be evicted.
    pub lru_threshold: usize,
}

impl PoolView {
    /// Whether queue `s` has an entry at `i`.
    pub open spec fn has_entry(self, s: int, i: int) -> bool {
        0 <= s < self.queues.len() && 0 <= i < self.queues[s].idle.len()
    }

    /// The entry at `i` of queue `s`.
    pub open spec fn entry(self, s: int, i: int) -> Idle {
        self.queues[s].idle[i]
    }

    /// What holds of every pool: keys name one queue each; an idle entry
    /// names an object that is idle, and no two entries name the same object;
    /// a leased object returns to a queue that exists; the registry holds
    /// each render pass once; queues, objects and render passes are no more
    /// than can be numbered.
    pub open spec fn inv(self) -> bool {
        &&& self.queues.len() <= usize::MAX
        &&& self.objects.len() <= usize::MAX
        &&& self.passes.len() <= usize::MAX
        &&& forall|s: int, t: int|
            0 <= s < t < self.queues.len() ==> (#[trigger] self.queues[s]).key != (
            #[trigger] self.queues[t]).key
        &&& forall|s: int, i: int| #[trigger]
            self.has_entry(s, i) ==> {
                &&& self.entry(s, i).id < self.objects.len()
                &&& self.objects[self.entry(s, i).id as int] is Idle
                &&& self.entry(s, i).released <= self.frame
            }
        &&& forall|s: int, i: int, t: int, j: int|
            #[trigger] self.has_entry(s, i) && #[trigger] self.has_entry(t, j) && self.entry(s, i).id
                == self.entry(t, j).id ==> s == t && i == j
        &&& forall|id: int|
            0 <= id < self.objects.len() ==> (#[trigger] self.objects[id] matches Status::Leased {
                slot,
                ..
            } ==> slot < self.queues.len())
        &&& forall|i: int, j: int|
            0 <= i < j < self.passes.len() ==> #[trigger] self.passes[i] != #[trigger] self.passes[j]
    }

    /// The pool before anything was asked of it.
    pub open spec fn empty(lru_threshold: usize) -> PoolView {
        PoolView {
            queues: Seq::empty(),
            objects: Seq::empty(),
            passes: Seq::empty(),
            frame: 0,
            lru_threshold,
        }
    }

    /// Whether `id` waits in an idle queue.
    pub open spec fn is_idle(self, id: int) -> bool {
        0 <= id < self.objects.len() && self.objects[id] is Idle
    }

    /// Whether `lease` is a live lease of this pool.
    pub open spec fn holds(self, lease: LeaseView) -> bool {
        &&& lease.id < self.objects.len()
        &&& self.objects[lease.id as int] == (Status::Leased {
            slot: lease.slot,
            capacity: lease.capacity,
        })
    }

    /// The place of the queue keyed by `key`; the number of queues if there
    /// is none, which is the place a new queue gets.
    pub open spec fn slot_of(self, key: PoolKeyView) -> int {
        if exists|s: int| 0 <= s < self.queues.len() && (#[trigger] self.queues[s]).key == key {
            choose|s: int| 0 <= s < self.queues.len() && (#[trigger] self.queues[s]).key == key
        } else {
            self.queues.len() as int
        }
    }

    /// The idle entries under `key`, front first; none if the key has no queue.
    pub open spec fn idle_of(self, key: PoolKeyView) -> Seq<Idle> {
        if self.slot_of(key) < self.queues.len() {
            self.queues[self.slot_of(key)].idle
        } else {
            Seq::empty()
        }
    }

    /// The pool with an empty queue added for `key`, if it had none.
    pub open spec fn with_queue(self, key: PoolKeyView) -> PoolView {
        if self.slot_of(key) < self.queues.len() {
            self
        } else {
            PoolView { queues: self.queues.push(QueueView { key, idle: Seq::empty() }), ..self }
        }
    }

    /// Takes from queue `slot` the entry nearest to its back that can hold
    /// `need`, and puts the object on lease.
    pub open spec fn take(self, slot: int, need: u64) -> (PoolView, Option<Idle>) {
        let queue = self.queues[slot];
        match last_fit(queue.idle, need) {
            Some(at) => {
                let e = queue.idle[at];
                (
                    PoolView {
                        queues: self.queues.update(
                            slot,
                            QueueView { key: queue.key, idle: queue.idle.remove(at) },
                        ),
                        objects: self.objects.update(
                            e.id as int,
                            Status::Leased { slot: slot as usize, capacity: e.capacity },
                        ),
                        ..self
                    },
                    Some(e),
                )
            },
            None => (self, None),
        }
    }

    /// Issues a new object of the given capacity, on lease from queue `slot`.
    /// Its number is the number of objects issued before.
    pub open spec fn issue(self, slot: int, capacity: u64) -> PoolView {
        PoolView {
            objects: self.objects.push(Status::Leased { slot: slot as usize, capacity }),
            ..self
        }
    }

    /// Issues a new object of the given capacity and puts it at the front of
    /// queue `slot`, where it is taken after all entries that are there.
    pub open spec fn seed(self, slot: int, capacity: u64) -> PoolView {
        let queue = self.queues[slot];
        let spare = Idle { id: self.objects.len() as usize, capacity, released: self.frame };
        PoolView {
            queues: self.queues.update(
                slot,
                QueueView { key: queue.key, idle: seq![spare] + queue.idle },
            ),
            objects: self.objects.push(Status::Idle),
            ..self
        }
    }

    /// Leases an object under `key` that can hold `need`: the idle entry
    /// nearest to the back of the key's queue that fits, else a new object of
    /// exactly that capacity. The lease says `on_hit` or `on_miss`.
    pub open spec fn acquire(self, key: PoolKeyView, need: u64, on_hit: Build, on_miss: Build) -> (
        PoolView,
        LeaseView,
    ) {
        let slot = self.slot_of(key);
        let (taken, hit) = self.with_queue(key).take(slot, need);
        match hit {
            Some(e) => (
                taken,
                LeaseView { id: e.id, slot: slot as usize, capacity: e.capacity, build: on_hit },
            ),
            None => (
                taken.issue(slot, need),
                LeaseView {
                    id: taken.objects.len() as usize,
                    slot: slot as usize,
                    capacity: need,
                    build: on_miss,
                },
            ),
        }
    }

    /// Leases a texture under `key`: the idle entry at the back of the key's
    /// queue, else a new object, and with it a second new object that is put
    /// into the queue as a spare.
    pub open spec fn acquire_texture(self, key: PoolKeyView) -> (PoolView, LeaseView) {
        let slot = self.slot_of(key);
        let (taken, hit) = self.with_queue(key).take(slot, 0);
        match hit {
            Some(e) => (
                taken,
                LeaseView { id: e.id, slot: slot as usize, capacity: e.capacity, build: Build::Reuse },
            ),
            None => (
                taken.issue(slot, 0).seed(slot, 0),
                LeaseView {
                    id: taken.objects.len() as usize,
                    slot: slot as usize,
                    capacity: 0,
                    build: Build::CreateWithSpare { spare: (taken.objects.len() + 1) as usize },
                },
            ),
        }
    }

    /// The place of the render pass of `mode` in the registry; the number of
    /// passes if it is not there, which is the place a new pass gets.
    pub open spec fn pass_of(self, mode: RenderPassMode) -> int {
        if exists|i: int| 0 <= i < self.passes.len() && #[trigger] self.passes[i] == mode {
            choose|i: int| 0 <= i < self.passes.len() && #[trigger] self.passes[i] == mode
        } else {
            self.passes.len() as int
        }
    }

    /// The pool with the render pass of `mode` in its registry.
    pub open spec fn with_pass(self, mode: RenderPassMode) -> PoolView {
        if self.pass_of(mode) < self.passes.len() {
            self
        } else {
            PoolView { passes: self.passes.push(mode), ..self }
        }
    }

    /// Leases a graphics pipeline under `key` that has at least `need` sets.
    /// A new pipeline is made by `ctor` for the render pass of `mode`, which
    /// enters the registry if it is not there yet.
    pub open spec fn acquire_graphics(
        self,
        key: PoolKeyView,
        mode: RenderPassMode,
        ctor: GraphicsCtor,
        need: u64,
    ) -> (PoolView, LeaseView) {
        let slot = self.slot_of(key);
        let (taken, hit) = self.with_queue(key).take(slot, need);
        match hit {
            Some(e) => (
                taken,
                LeaseView { id: e.id, slot: slot as usize, capacity: e.capacity, build: Build::Reuse },
            ),
            None => (
                taken.issue(slot, need).with_pass(mode),
                LeaseView {
                    id: taken.objects.len() as usize,
                    slot: slot as usize,
                    capacity: need,
                    build: Build::CreateGraphics {
                        graphics: ctor,
                        pass: self.pass_of(mode) as usize,
                        pass_is_new: self.pass_of(mode) == self.passes.len(),
                    },
                },
            ),
        }
    }

    /// Ends `lease`: the object goes to the back of its queue, marked with
    /// the current frame.
    pub open spec fn release(self, lease: LeaseView) -> PoolView {
        let queue = self.queues[lease.slot as int];
        let e = Idle { id: lease.id, capacity: lease.capacity, released: self.frame };
        PoolView {
            queues: self.queues.update(
                lease.slot as int,
                QueueView { key: queue.key, idle: queue.idle.push(e) },
            ),
            objects: self.objects.update(lease.id as int, Status::Idle),
            ..self
        }
    }

    /// The pool without the entry at the front of queue `slot`, if that
    /// entry names the object `id`: the object leaves the pool.
    pub open spec fn without_front(self, slot: int, id: usize) -> PoolView {
        let queue = self.queues[slot];
        if queue.idle.len() > 0 && queue.idle[0].id == id {
            PoolView {
                queues: self.queues.update(
                    slot,
                    QueueView { key: queue.key, idle: queue.idle.drop_first() },
                ),
                objects: self.objects.update(id as int, Status::Gone),
                ..self
            }
        } else {
            self
        }
    }

    /// Gives up `lease` without returning the object: it leaves the pool.
    /// Where the lease came with a spare that still waits at the front of the
    /// queue, the spare leaves too.
    pub open spec fn forget(self, lease: LeaseView) -> PoolView {
        let gone = PoolView { objects: self.objects.update(lease.id as int, Status::Gone), ..self };
        match lease.build {
            Build::CreateWithSpare { spare } => gone.without_front(lease.slot as int, spare),
            _ => gone,
        }
    }

    /// Whether an entry has been idle for more than `lru_threshold` frames.
    pub open spec fn stale(self, e: Idle) -> bool {
        self.frame - e.released > self.lru_threshold
    }

    /// The pool one frame later. The frame count stays at its greatest value
    /// once it has reached it.
    pub open spec fn next_frame(self) -> PoolView {
        PoolView { frame: if self.frame < u64::MAX { (self.frame + 1) as u64 } else { self.frame }, ..self }
    }
}

/// Looking for a key's queue finds the one queue that has the key.
pub proof fn lemma_slot_of(pool: PoolView, key: PoolKeyView, slot: int)
    requires
        pool.inv(),
        0 <= slot < pool.queues.len(),
        pool.queues[slot].key == key,
    ensures
        pool.slot_of(key) == slot,
{
    let found = pool.slot_of(key);
    if found != slot {
        if found < slot {
            assert(pool.queues[found].key != pool.queues[slot].key);
        } else {
            assert(pool.queues[slot].key != pool.queues[found].key);
        }
    }
}

/// Looking for a key that no queue has gives the place behind the last queue.
pub proof fn lemma_slot_of_absent(pool: PoolView, key: PoolKeyView)
    requires
        forall|s: int| 0 <= s < pool.queues.len() ==> (#[trigger] pool.queues[s]).key != key,
    ensures
        pool.slot_of(key) == pool.queues.len(),
{
}

/// Looking for a render pass finds the one place that has its mode.
pub proof fn lemma_pass_of(pool: PoolView, mode: RenderPassMode, at: int)
    requires
        pool.inv(),
        0 <= at < pool.passes.len(),
        pool.passes[at] == mode,
    ensures
        pool.pass_of(mode) == at,
{
    let found = pool.pass_of(mode);
    if found != at {
        if found < at {
            assert(pool.passes[found] != pool.passes[at]);
        } else {
            assert(pool.passes[at] != pool.passes[found]);
        }
    }
}

/// Adding a key's queue keeps the pool valid, and the key is then found at
/// the place that `slot_of` gave before.
pub proof fn lemma_with_queue(pool: PoolView, key: PoolKeyView)
    requires
        pool.inv(),
        pool.slot_of(key) == pool.queues.len() ==> pool.queues.len() < usize::MAX,
    ensures
        pool.with_queue(key).inv(),
        0 <= pool.slot_of(key) < pool.with_queue(key).queues.len(),
        pool.with_queue(key).queues[pool.slot_of(key)].key == key,
        pool.with_queue(key).slot_of(key) == pool.slot_of(key),
        pool.with_queue(key).objects == pool.objects,
        forall|lease: LeaseView| pool.holds(lease) ==> pool.with_queue(key).holds(lease),
{
    let next = pool.with_queue(key);
    let slot = pool.slot_of(key);
    if slot < pool.queues.len() {
    } else {
        assert forall|s: int, i: int| #[trigger] next.has_entry(s, i) implies pool.has_entry(s, i)
            && pool.entry(s, i) == next.entry(s, i) by {}
        assert forall|s: int, t: int| 0 <= s < t < next.queues.len() implies (
        #[trigger] next.queues[s]).key != (#[trigger] next.queues[t]).key by {
            if t == pool.queues.len() {
                assert(pool.queues[s].key != key);
            }
        }
        assert(next.inv());
        lemma_slot_of(next, key, slot);
    }
}

/// Taking an entry keeps the pool valid. The object taken was idle, is now
/// on lease from the queue, and can hold what was asked for; every other
/// lease stays as it was. Where nothing fits, nothing changes.
pub proof fn lemma_take(pool: PoolView, slot: int, need: u64)
    requires
        pool.inv(),
        0 <= slot < pool.queues.len(),
    ensures
        pool.take(slot, need).0.inv(),
        pool.take(slot, need).0.queues.len() == pool.queues.len(),
        pool.take(slot, need).0.objects.len() == pool.objects.len(),
        forall|s: int|
            0 <= s < pool.queues.len() ==> (#[trigger] pool.take(slot, need).0.queues[s]).key
                == pool.queues[s].key,
        match pool.take(slot, need).1 {
            Some(e) => {
                &&& e.capacity >= need
                &&& pool.is_idle(e.id as int)
                &&& pool.take(slot, need).0.holds(
                    LeaseView { id: e.id, slot: slot as usize, capacity: e.capacity, build: Build::Reuse },
                )
                &&& forall|lease: LeaseView|
                    pool.holds(lease) ==> lease.id != e.id && pool.take(slot, need).0.holds(lease)
            },
            None => {
                &&& pool.take(slot, need).0 == pool
                &&& forall|i: int|
                    0 <= i < pool.queues[slot].idle.len() ==> (#[trigger] pool.queues[slot].idle[i]).capacity
                        < need
            },
        },
{
    let queue = pool.queues[slot];
    lemma_last_fit(queue.idle, need);
    match last_fit(queue.idle, need) {
        Some(at) => {
            let next = pool.take(slot, need).0;
            let e = queue.idle[at];
            assert(pool.has_entry(slot, at));
            assert(pool.entry(slot, at) == e);
            assert forall|s: int, i: int| #[trigger] next.has_entry(s, i) implies {
                let k = if s == slot && i >= at { i + 1 } else { i };
                &&& pool.has_entry(s, k)
                &&& pool.entry(s, k) == next.entry(s, i)
                &&& next.entry(s, i).id != e.id
            } by {
                let k = if s == slot && i >= at { i + 1 } else { i };
                assert(pool.has_entry(s, k));
            }
            assert forall|s: int, i: int, t: int, j: int|
                #[trigger] next.has_entry(s, i) && #[trigger] next.has_entry(t, j) && next.entry(s, i).id
                    == next.entry(t, j).id implies s == t && i == j by {
                let k = if s == slot && i >= at { i + 1 } else { i };
                let m = if t == slot && j >= at { j + 1 } else { j };
                assert(pool.has_entry(s, k));
                assert(pool.has_entry(t, m));
            }
            assert(next.inv());
        },
        None => {},
    }
}

/// Where the queues stay as they are, the entries stay as they are: each
/// is found where it was, and no two name the same object.
pub proof fn lemma_same_entries(pool: PoolView, next: PoolView)
    requires
        pool.inv(),
        next.queues == pool.queues,
    ensures
        forall|s: int, i: int| #[trigger]
            next.has_entry(s, i) ==> pool.has_entry(s, i) && pool.entry(s, i) == next.entry(s, i),
        forall|s: int, i: int, t: int, j: int|
            #[trigger] next.has_entry(s, i) && #[trigger] next.has_entry(t, j) && next.entry(s, i).id
                == next.entry(t, j).id ==> s == t && i == j,
{
    assert forall|s: int, i: int, t: int, j: int|
        #[trigger] next.has_entry(s, i) && #[trigger] next.has_entry(t, j) && next.entry(s, i).id
            == next.entry(t, j).id implies s == t && i == j by {
        assert(pool.has_entry(s, i));
        assert(pool.has_entry(t, j));
    }
}

/// Issuing a new object keeps the pool valid; the new lease is live and
/// every other lease stays as it was.
pub proof fn lemma_issue(pool: PoolView, slot: int, capacity: u64)
    requires
        pool.inv(),
        0 <= slot < pool.queues.len(),
        pool.objects.len() < usize::MAX,
    ensures
        pool.issue(slot, capacity).inv(),
        pool.issue(slot, capacity).holds(
            LeaseView {
                id: pool.objects.len() as usize,
                slot: slot as usize,
                capacity,
                build: Build::Reuse,
            },
        ),
        forall|lease: LeaseView|
            pool.holds(lease) ==> lease.id != pool.objects.len() && pool.issue(slot, capacity).holds(
                lease,
            ),
{
    let next = pool.issue(slot, capacity);
    lemma_same_entries(pool, next);
}

/// Seeding a queue keeps the pool valid and every lease as it was.
pub proof fn lemma_seed(pool: PoolView, slot: int, capacity: u64)
    requires
        pool.inv(),
        0 <= slot < pool.queues.len(),
        pool.objects.len() < usize::MAX,
    ensures
        pool.seed(slot, capacity).inv(),
        forall|lease: LeaseView| pool.holds(lease) ==> pool.seed(slot, capacity).holds(lease),
{
    let next = pool.seed(slot, capacity);
    assert forall|s: int, i: int| #[trigger] next.has_entry(s, i) implies {
        ||| (s == slot && i == 0 && next.entry(s, i).id == pool.objects.len())
        ||| {
            let k = if s == slot { i - 1 } else { i };
            pool.has_entry(s, k) && pool.entry(s, k) == next.entry(s, i)
        }
    } by {
        if !(s == slot && i == 0) {
            let k = if s == slot { i - 1 } else { i };
            assert(pool.has_entry(s, k));
        }
    }
    assert forall|s: int, i: int, t: int, j: int|
        #[trigger] next.has_entry(s, i) && #[trigger] next.has_entry(t, j) && next.entry(s, i).id
            == next.entry(t, j).id implies s == t && i == j by {
        let k = if s == slot { i - 1 } else { i };
        let m = if t == slot { j - 1 } else { j };
        if !(s == slot && i == 0) {
            assert(pool.has_entry(s, k));
        }
        if !(t == slot && j == 0) {
            assert(pool.has_entry(t, m));
        }
    }
}

/// Registering a render pass keeps the pool valid and every lease as it
/// was; the pass is then found at the place that `pass_of` gave before.
pub proof fn lemma_with_pass(pool: PoolView, mode: RenderPassMode)
    requires
        pool.inv(),
        pool.pass_of(mode) == pool.passes.len() ==> pool.passes.len() < usize::MAX,
    ensures
        pool.with_pass(mode).inv(),
        0 <= pool.pass_of(mode) < pool.with_pass(mode).passes.len(),
        pool.with_pass(mode).passes[pool.pass_of(mode)] == mode,
        forall|lease: LeaseView| pool.holds(lease) ==> pool.with_pass(mode).holds(lease),
{
    let next = pool.with_pass(mode);
    if pool.pass_of(mode) < pool.passes.len() {
    } else {
        lemma_same_entries(pool, next);
        assert forall|i: int, j: int| 0 <= i < j < next.passes.len() implies #[trigger] next.passes[i]
            != #[trigger] next.passes[j] by {
            if j == pool.passes.len() {
                assert(pool.passes[i] != mode);
            }
        }
    }
}

/// Releasing a live lease keeps the pool valid: the object is idle again,
/// at the back of its queue, and every other lease stays as it was.
pub proof fn lemma_release(pool: PoolView, lease: LeaseView)
    requires
        pool.inv(),
        pool.holds(lease),
    ensures
        pool.release(lease).inv(),
        !pool.release(lease).holds(lease),
        pool.release(lease).is_idle(lease.id as int),
        forall|other: LeaseView|
            pool.holds(other) && other.id != lease.id ==> pool.release(lease).holds(other),
{
    let next = pool.release(lease);
    let slot = lease.slot as int;
    assert(pool.objects[lease.id as int] is Leased);
    let last = pool.queues[slot].idle.len() as int;
    assert forall|s: int, i: int| #[trigger] next.has_entry(s, i) implies {
        ||| (s == slot && i == last && next.entry(s, i).id == lease.id)
        ||| (pool.has_entry(s, i) && pool.entry(s, i) == next.entry(s, i) && next.entry(s, i).id
            != lease.id)
    } by {
        if !(s == slot && i == last) {
            assert(pool.has_entry(s, i));
        }
    }
    assert forall|s: int, i: int, t: int, j: int|
        #[trigger] next.has_entry(s, i) && #[trigger] next.has_entry(t, j) && next.entry(s, i).id
            == next.entry(t, j).id implies s == t && i == j by {
        if !(s == slot && i == last) {
            assert(pool.has_entry(s, i));
        }
        if !(t == slot && j == last) {
            assert(pool.has_entry(t, j));
        }
    }
}

/// Dropping the entry at the front of a queue keeps the pool valid and
/// every lease as it was.
pub proof fn lemma_without_front(pool: PoolView, slot: int, id: usize)
    requires
        pool.inv(),
        0 <= slot < pool.queues.len(),
    ensures
        pool.without_front(slot, id).inv(),
        forall|lease: LeaseView| pool.holds(lease) ==> pool.without_front(slot, id).holds(lease),
{
    let next = pool.without_front(slot, id);
    let queue = pool.queues[slot];
    if queue.idle.len() > 0 && queue.idle[0].id == id {
        assert(pool.has_entry(slot, 0));
        assert forall|s: int, i: int| #[trigger] next.has_entry(s, i) implies {
            let k = if s == slot { i + 1 } else { i };
            &&& pool.has_entry(s, k)
            &&& pool.entry(s, k) == next.entry(s, i)
            &&& next.entry(s, i).id != id
        } by {
            let k = if s == slot { i + 1 } else { i };
            assert(pool.has_entry(s, k));
        }
        assert forall|s: int, i: int, t: int, j: int|
            #[trigger] next.has_entry(s, i) && #[trigger] next.has_entry(t, j) && next.entry(s, i).id
                == next.entry(t, j).id implies s == t && i == j by {
            let k = if s == slot { i + 1 } else { i };
            let m = if t == slot { j + 1 } else { j };
            assert(pool.has_entry(s, k));
            assert(pool.has_entry(t, m));
        }
    }
}

/// Marking a leased object as gone keeps the pool valid and every other
/// lease as it was.
pub proof fn lemma_leased_gone(pool: PoolView, lease: LeaseView)
    requires
        pool.inv(),
        pool.holds(lease),
    ensures
        (PoolView { objects: pool.objects.update(lease.id as int, Status::Gone), ..pool }).inv(),
        forall|other: LeaseView|
            pool.holds(other) && other.id != lease.id ==> (PoolView {
                objects: pool.objects.update(lease.id as int, Status::Gone),
                ..pool
            }).holds(other),
{
    let gone = PoolView { objects: pool.objects.update(lease.id as int, Status::Gone), ..pool };
    assert(pool.objects[lease.id as int] is Leased);
    assert forall|s: int, i: int| #[trigger] gone.has_entry(s, i) implies pool.has_entry(s, i)
        && pool.entry(s, i) == gone.entry(s, i) && gone.entry(s, i).id != lease.id by {
        assert(pool.has_entry(s, i));
    }
    assert forall|s: int, i: int, t: int, j: int|
        #[trigger] gone.has_entry(s, i) && #[trigger] gone.has_entry(t, j) && gone.entry(s, i).id
            == gone.entry(t, j).id implies s == t && i == j by {
        assert(pool.has_entry(s, i));
        assert(pool.has_entry(t, j));
    }
}

/// Giving up a live lease keeps the pool valid; the object is gone and
/// every other lease stays as it was.
pub proof fn lemma_forget(pool: PoolView, lease: LeaseView)
    requires
        pool.inv(),
        pool.holds(lease),
    ensures
        pool.forget(lease).inv(),
        !pool.forget(lease).holds(lease),
        forall|other: LeaseView|
            pool.holds(other) && other.id != lease.id ==> pool.forget(lease).holds(other),
{
    let gone = PoolView { objects: pool.objects.update(lease.id as int, Status::Gone), ..pool };
    lemma_leased_gone(pool, lease);
    match lease.build {
        Build::CreateWithSpare { spare } => {
            lemma_without_front(gone, lease.slot as int, spare);
            let next = gone.without_front(lease.slot as int, spare);
            assert(next.objects[lease.id as int] is Gone) by {
                let queue = gone.queues[lease.slot as int];
                if queue.idle.len() > 0 && queue.idle[0].id == spare {
                    assert(gone.has_entry(lease.slot as int, 0));
                }
            }
            assert forall|other: LeaseView| pool.holds(other) && other.id != lease.id implies next.holds(
                other,
            ) by {
                assert(gone.holds(other));
            }
        },
        _ => {},
    }
}

/// Another threshold keeps the pool valid and every lease as it was.
pub proof fn lemma_threshold(pool: PoolView, frames: usize)
    requires
        pool.inv(),
    ensures
        (PoolView { lru_threshold: frames, ..pool }).inv(),
        forall|lease: LeaseView|
            pool.holds(lease) ==> (PoolView { lru_threshold: frames, ..pool }).holds(lease),
{
    let next = PoolView { lru_threshold: frames, ..pool };
    lemma_same_entries(pool, next);
}

/// A new frame keeps the pool valid and every lease as it was.
pub proof fn lemma_next_frame(pool: PoolView)
    requires
        pool.inv(),
    ensures
        pool.next_frame().inv(),
        forall|lease: LeaseView| pool.holds(lease) ==> pool.next_frame().holds(lease),
{
    let next = pool.next_frame();
    lemma_same_entries(pool, next);
}

} // verus!
