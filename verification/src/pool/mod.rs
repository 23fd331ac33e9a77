//! The resource cache: idle queues keyed by creation parameters.

pub mod drain;
pub mod key;
pub mod laws;
pub mod lease;
pub mod model;
pub mod queue;

use self::key::{
    canonical_ranges, sorted_ranges, ComputeMode, DescriptorRange, Extent, GraphicsMode, PoolKey,
    PoolKeyView, RenderPassMode,
};
use self::lease::{Build, Lease, LeaseView};
use self::model::{
    lemma_forget, lemma_issue, lemma_leased_gone, lemma_next_frame, lemma_pass_of, lemma_release, lemma_seed,
    lemma_slot_of, lemma_slot_of_absent, lemma_take, lemma_threshold, lemma_with_pass, lemma_with_queue, PoolView,
    QueueView, Status,
};
use self::queue::{lemma_last_fit_none, lemma_last_fit_some, remove_last_by, Idle};
use std::collections::VecDeque;
use vstd::prelude::*;

verus! {

/// The number of frames after which an unused idle object counts as
/// obsolete, unless the pool is told otherwise.
pub const DEFAULT_LRU_THRESHOLD: usize = 8;

/// A place in the registry of render passes.
#[derive(Clone, Copy, Debug, PartialEq, Eq, Structural)]
pub struct RenderPassRef {
    /// Where the registry holds the render pass.
    pub index: usize,
    /// Whether the render pass entered the registry with this request, so
    /// that it still has to be constructed.
    pub is_new: bool,
}

/// One idle queue and the key that its objects share.
struct Slot {
    key: PoolKey,
    idle: VecDeque<Idle>,
}

/// The cache of reusable driver objects.
///
/// Queues and render passes stand in lists that are searched by key, each
/// key once. Keys are compared by their contents, which is what the
/// contracts speak of; a hashed map would have to take on trust that the
/// hash of a key agrees with that comparison.
pub struct Pool {
    /// The idle queues, in the order in which their keys were first asked for.
    slots: Vec<Slot>,
    /// Where each object is, by its number.
    objects: Vec<Status>,
    /// The registry of render passes, by mode.
    passes: Vec<RenderPassMode>,
    frame: u64,
    lru_threshold: usize,
}

impl View for Pool {
    type V = PoolView;

    closed spec fn view(&self) -> PoolView {
        PoolView {
            queues: Seq::new(
                self.slots@.len(),
                |s: int| QueueView { key: self.slots@[s].key@, idle: self.slots@[s].idle@ },
            ),
            objects: self.objects@,
            passes: self.passes@,
            frame: self.frame,
            lru_threshold: self.lru_threshold,
        }
    }
}

impl Pool {
    /// Finds the queue of `key`, adding an empty one if the key has none.
    fn slot_for(&mut self, key: PoolKey) -> (slot: usize)
        requires
            old(self)@.inv(),
        ensures
            final(self)@ == old(self)@.with_queue(key@),
            final(self)@.inv(),
            slot == old(self)@.slot_of(key@),
            slot < final(self)@.queues.len(),
    {
        let mut at: usize = 0;
        while at < self.slots.len()
            invariant
                at <= self.slots.len(),
                *self == *old(self),
                self@.inv(),
                forall|s: int| 0 <= s < at ==> (#[trigger] self@.queues[s]).key != key@,
            decreases self.slots.len() - at,
        {
            if self.slots[at].key.same(&key) {
                proof {
                    assert(self@.queues[at as int].key == key@);
                    lemma_slot_of(self@, key@, at as int);
                    lemma_with_queue(self@, key@);
                }
                return at;
            }
            at = at + 1;
        }
        let ghost before = self@;
        self.slots.push(Slot { key, idle: VecDeque::new() });
        proof {
            assert(self.slots.len() == before.queues.len() + 1);
            lemma_slot_of_absent(before, key@);
            lemma_with_queue(before, key@);
            assert(self@.queues =~= before.queues.push(QueueView { key: key@, idle: Seq::empty() }));
        }
        at
    }

    /// Takes from queue `slot` the entry nearest to its back that can hold
    /// `need`, and marks the object as leased.
    fn take(&mut self, slot: usize, need: u64) -> (hit: Option<Idle>)
        requires
            old(self)@.inv(),
            slot < old(self)@.queues.len(),
        ensures
            (final(self)@, hit) == old(self)@.take(slot as int, need),
            final(self)@.inv(),
    {
        let ghost before = self@;
        let ghost queue = self.slots@[slot as int].idle@;
        proof {
            lemma_take(before, slot as int, need);
            assert(before.queues[slot as int].idle == queue);
        }
        let fits = |e: &Idle| -> (fits: bool)
            ensures
                fits == (e.capacity >= need),
            { e.capacity >= need };
        let found = remove_last_by(&mut self.slots[slot].idle, fits);
        match found {
            Some(e) => {
                proof {
                    let at = choose|at: int|
                        {
                            &&& 0 <= at < queue.len()
                            &&& e == #[trigger] queue[at]
                            &&& call_ensures(fits, (&queue[at],), true)
                            &&& forall|j: int|
                                at < j < queue.len() ==> call_ensures(fits, (&#[trigger] queue[j],), false)
                            &&& self.slots@[slot as int].idle@ == queue.remove(at)
                        };
                    lemma_last_fit_some(queue, need, at);
                    assert(before.has_entry(slot as int, at));
                }
                self.objects.set(e.id, Status::Leased { slot, capacity: e.capacity });
                proof {
                    assert(self@.queues =~= before.take(slot as int, need).0.queues);
                }
                Some(e)
            },
            None => {
                proof {
                    lemma_last_fit_none(queue, need);
                    assert(self@.queues =~= before.queues);
                }
                None
            },
        }
    }

    /// Issues a new object of the given capacity, on lease from queue `slot`.
    fn issue(&mut self, slot: usize, capacity: u64) -> (id: usize)
        requires
            old(self)@.inv(),
            slot < old(self)@.queues.len(),
        ensures
            final(self)@ == old(self)@.issue(slot as int, capacity),
            final(self)@.inv(),
            id == old(self)@.objects.len(),
            old(self)@.objects.len() < usize::MAX,
    {
        let ghost before = self@;
        let id = self.objects.len();
        self.objects.push(Status::Leased { slot, capacity });
        proof {
            assert(self.objects.len() == id + 1);
            lemma_issue(before, slot as int, capacity);
            assert(self@.queues =~= before.queues);
        }
        id
    }

    /// Issues a new idle object and puts it at the front of queue `slot`.
    fn seed(&mut self, slot: usize, capacity: u64) -> (id: usize)
        requires
            old(self)@.inv(),
            slot < old(self)@.queues.len(),
        ensures
            final(self)@ == old(self)@.seed(slot as int, capacity),
            final(self)@.inv(),
            id == old(self)@.objects.len(),
            old(self)@.objects.len() < usize::MAX,
    {
        let ghost before = self@;
        let id = self.objects.len();
        self.objects.push(Status::Idle);
        self.slots[slot].idle.push_front(Idle { id, capacity, released: self.frame });
        proof {
            assert(self.objects.len() == id + 1);
            lemma_seed(before, slot as int, capacity);
            assert(self@.queues =~= before.seed(slot as int, capacity).queues);
        }
        id
    }

    /// Leases an object under `key` that can hold `need`.
    fn acquire(&mut self, key: PoolKey, need: u64, on_hit: Build, on_miss: Build) -> (lease: Lease)
        requires
            old(self)@.inv(),
        ensures
            (final(self)@, lease@) == old(self)@.acquire(key@, need, on_hit, on_miss),
            final(self)@.inv(),
            final(self)@.holds(lease@),
    {
        let ghost before = self@;
        let ghost k = key@;
        let slot = self.slot_for(key);
        proof {
            lemma_take(before.with_queue(k), slot as int, need);
        }
        match self.take(slot, need) {
            Some(e) => Lease::new(e.id, slot, e.capacity, on_hit),
            None => {
                let id = self.issue(slot, need);
                Lease::new(id, slot, need, on_miss)
            },
        }
    }

    /// A pool that holds nothing, with the given eviction threshold.
    pub fn new(lru_threshold: usize) -> (pool: Pool)
        ensures
            pool@ == PoolView::empty(lru_threshold),
            pool@.inv(),
    {
        let pool = Pool {
            slots: Vec::new(),
            objects: Vec::new(),
            passes: Vec::new(),
            frame: 0,
            lru_threshold,
        };
        proof {
            assert(pool@.queues =~= Seq::empty());
        }
        pool
    }

    /// Leases a command pool of the queue family `family`. Whether it comes
    /// from the queue or is new, it has to be reset before use: commands
    /// recorded in an earlier frame must not be seen again.
    pub fn cmd_pool(&mut self, family: usize) -> (lease: Lease)
        requires
            old(self)@.inv(),
        ensures
            (final(self)@, lease@) == old(self)@.acquire(
                PoolKeyView::CommandPool { family },
                0,
                Build::Reset,
                Build::CreateAndReset,
            ),
            final(self)@.inv(),
            final(self)@.holds(lease@),
            lease@.build.resets(),
    {
        self.acquire(PoolKey::CommandPool { family }, 0, Build::Reset, Build::CreateAndReset)
    }

    /// Leases a shader compiler.
    pub fn compiler(&mut self) -> (lease: Lease)
        requires
            old(self)@.inv(),
        ensures
            (final(self)@, lease@) == old(self)@.acquire(
                PoolKeyView::Compiler,
                0,
                Build::Reuse,
                Build::Create,
            ),
            final(self)@.inv(),
            final(self)@.holds(lease@),
    {
        self.acquire(PoolKey::Compiler, 0, Build::Reuse, Build::Create)
    }

    /// Leases a compute pipeline of `mode` with room for one descriptor set.
    pub fn compute(&mut self, mode: ComputeMode) -> (lease: Lease)
        requires
            old(self)@.inv(),
        ensures
            (final(self)@, lease@) == old(self)@.acquire(
                PoolKeyView::Compute { mode },
                1,
                Build::Reuse,
                Build::CreateCompute { compute: mode.ctor_of() },
            ),
            final(self)@.inv(),
            final(self)@.holds(lease@),
    {
        self.compute_sets(mode, 1)
    }

    /// Leases a compute pipeline of `mode` with room for at least `max_sets`
    /// descriptor sets.
    pub fn compute_sets(&mut self, mode: ComputeMode, max_sets: usize) -> (lease: Lease)
        requires
            old(self)@.inv(),
        ensures
            (final(self)@, lease@) == old(self)@.acquire(
                PoolKeyView::Compute { mode },
                max_sets as u64,
                Build::Reuse,
                Build::CreateCompute { compute: mode.ctor_of() },
            ),
            final(self)@.inv(),
            final(self)@.holds(lease@),
    {
        self.acquire(
            PoolKey::Compute { mode },
            max_sets as u64,
            Build::Reuse,
            Build::CreateCompute { compute: mode.ctor() },
        )
    }

    /// Leases a data buffer of at least `len` bytes with no usage flags.
    pub fn data(&mut self, len: u64) -> (lease: Lease)
        requires
            old(self)@.inv(),
        ensures
            (final(self)@, lease@) == old(self)@.acquire(
                PoolKeyView::Data { usage: 0 },
                len,
                Build::Reuse,
                Build::Create,
            ),
            final(self)@.inv(),
            final(self)@.holds(lease@),
    {
        self.data_usage(len, 0)
    }

    /// Leases a data buffer of at least `len` bytes with the usage flags `usage`.
    pub fn data_usage(&mut self, len: u64, usage: u32) -> (lease: Lease)
        requires
            old(self)@.inv(),
        ensures
            (final(self)@, lease@) == old(self)@.acquire(
                PoolKeyView::Data { usage },
                len,
                Build::Reuse,
                Build::Create,
            ),
            final(self)@.inv(),
            final(self)@.holds(lease@),
    {
        self.acquire(PoolKey::Data { usage }, len, Build::Reuse, Build::Create)
    }

    /// Leases a descriptor pool with room for at least `max_sets` sets of the
    /// given descriptor ranges. The ranges key the queue as a sorted set:
    /// neither their order nor repetitions matter.
    pub fn desc_pool(&mut self, max_sets: usize, desc_ranges: &Vec<DescriptorRange>) -> (lease: Lease)
        requires
            old(self)@.inv(),
        ensures
            (final(self)@, lease@) == old(self)@.acquire(
                PoolKeyView::DescriptorPool { ranges: canonical_ranges(desc_ranges@) },
                max_sets as u64,
                Build::Reuse,
                Build::Create,
            ),
            final(self)@.inv(),
            final(self)@.holds(lease@),
    {
        let ranges = sorted_ranges(desc_ranges);
        self.acquire(PoolKey::DescriptorPool { ranges }, max_sets as u64, Build::Reuse, Build::Create)
    }

    /// Leases a fence. One that comes from the queue has to be reset before use.
    pub fn fence(&mut self) -> (lease: Lease)
        requires
            old(self)@.inv(),
        ensures
            (final(self)@, lease@) == old(self)@.acquire(
                PoolKeyView::Fence,
                0,
                Build::Reset,
                Build::Create,
            ),
            final(self)@.inv(),
            final(self)@.holds(lease@),
    {
        self.acquire(PoolKey::Fence, 0, Build::Reset, Build::Create)
    }

    /// Leases a block of device memory of type `mem_type` and at least `size` bytes.
    pub fn memory(&mut self, mem_type: usize, size: u64) -> (lease: Lease)
        requires
            old(self)@.inv(),
        ensures
            (final(self)@, lease@) == old(self)@.acquire(
                PoolKeyView::Memory { mem_type },
                size,
                Build::Reuse,
                Build::Create,
            ),
            final(self)@.inv(),
            final(self)@.holds(lease@),
    {
        self.acquire(PoolKey::Memory { mem_type }, size, Build::Reuse, Build::Create)
    }

    /// The number of frames which must elapse before an idle object is
    /// considered obsolete.
    pub fn lru_threshold(&self) -> (frames: usize)
        ensures
            frames == self@.lru_threshold,
    {
        self.lru_threshold
    }

    /// Sets the number of frames which must elapse before an idle object is
    /// considered obsolete. Higher numbers use more memory and thrash less.
    pub fn set_lru_threshold(&mut self, frames: usize)
        ensures
            final(self)@ == (PoolView { lru_threshold: frames, ..old(self)@ }),
            old(self)@.inv() ==> final(self)@.inv(),
    {
        let ghost before = self@;
        self.lru_threshold = frames;
        proof {
            assert(self@.queues =~= before.queues);
            if before.inv() {
                lemma_threshold(before, frames);
            }
        }
    }

    /// The current frame.
    pub fn frame(&self) -> (frame: u64)
        ensures
            frame == self@.frame,
    {
        self.frame
    }

    /// How many objects the pool has issued so far.
    pub fn issued(&self) -> (count: usize)
        ensures
            count == self@.objects.len(),
    {
        self.objects.len()
    }

    /// Where the object `id` is; nothing if no object has that number.
    pub fn status(&self, id: usize) -> (status: Option<Status>)
        ensures
            status == if id < self@.objects.len() {
                Some(self@.objects[id as int])
            } else {
                None
            },
    {
        if id < self.objects.len() {
            Some(self.objects[id])
        } else {
            None
        }
    }

    /// How many idle queues the pool has.
    pub fn queue_count(&self) -> (count: usize)
        ensures
            count == self@.queues.len(),
    {
        self.slots.len()
    }

    /// How many objects wait in queue `slot`.
    pub fn idle_count(&self, slot: usize) -> (count: usize)
        requires
            slot < self@.queues.len(),
        ensures
            count == self@.queues[slot as int].idle.len(),
    {
        self.slots[slot].idle.len()
    }

    /// The entry at `at` of queue `slot`, counted from the front.
    pub fn idle_at(&self, slot: usize, at: usize) -> (e: Idle)
        requires
            self@.has_entry(slot as int, at as int),
        ensures
            e == self@.entry(slot as int, at as int),
    {
        self.slots[slot].idle[at]
    }

    /// Marks an object as gone.
    pub(crate) fn mark_gone(&mut self, id: usize)
        requires
            id < old(self)@.objects.len(),
        ensures
            final(self)@ == (PoolView {
                objects: old(self)@.objects.update(id as int, Status::Gone),
                ..old(self)@
            }),
    {
        let ghost before = self@;
        self.objects.set(id, Status::Gone);
        proof {
            assert(self@.queues =~= before.queues);
        }
    }

    /// Replaces the entries of queue `slot`.
    pub(crate) fn set_idle(&mut self, slot: usize, idle: VecDeque<Idle>)
        requires
            slot < old(self)@.queues.len(),
        ensures
            final(self)@ == (PoolView {
                queues: old(self)@.queues.update(
                    slot as int,
                    QueueView { key: old(self)@.queues[slot as int].key, idle: idle@ },
                ),
                ..old(self)@
            }),
    {
        let ghost before = self@;
        self.slots[slot].idle = idle;
        proof {
            assert(self@.queues =~= before.queues.update(
                slot as int,
                QueueView { key: before.queues[slot as int].key, idle: idle@ },
            ));
        }
    }

    /// Whether `lease` is a live lease of this pool.
    pub fn holds(&self, lease: &Lease) -> (live: bool)
        ensures
            live == self@.holds(lease@),
    {
        lease.id() < self.objects.len() && self.objects[lease.id()] == (Status::Leased {
            slot: lease.queue(),
            capacity: lease.capacity(),
        })
    }

    /// Ends a lease: the object goes to the back of its idle queue, from
    /// where the next fitting request takes it.
    pub fn release(&mut self, lease: Lease)
        requires
            old(self)@.inv(),
            old(self)@.holds(lease@),
        ensures
            final(self)@ == old(self)@.release(lease@),
            final(self)@.inv(),
    {
        let ghost before = self@;
        proof {
            lemma_release(before, lease@);
        }
        let id = lease.id();
        let slot = lease.queue();
        self.slots[slot].idle.push_back(Idle { id, capacity: lease.capacity(), released: self.frame });
        self.objects.set(id, Status::Idle);
        proof {
            assert(self@.queues =~= before.release(lease@).queues);
        }
    }

    /// Gives up a lease whose object could not be built: the object leaves
    /// the pool and is never handed out. A spare that came with the lease and
    /// still waits at the front of the queue leaves with it.
    pub fn forget(&mut self, lease: Lease)
        requires
            old(self)@.inv(),
            old(self)@.holds(lease@),
        ensures
            final(self)@ == old(self)@.forget(lease@),
            final(self)@.inv(),
    {
        let ghost before = self@;
        proof {
            lemma_forget(before, lease@);
            lemma_leased_gone(before, lease@);
        }
        self.mark_gone(lease.id());
        match lease.build() {
            Build::CreateWithSpare { spare } => {
                let slot = lease.queue();
                if self.slots[slot].idle.len() > 0 && self.slots[slot].idle[0].id == spare {
                    let ghost gone = self@;
                    proof {
                        assert(gone.has_entry(slot as int, 0));
                        assert(gone.entry(slot as int, 0).id == spare);
                    }
                    let front = self.slots[slot].idle.pop_front();
                    self.objects.set(spare, Status::Gone);
                    proof {
                        assert(self@.queues =~= gone.without_front(slot as int, spare).queues);
                    }
                }
            },
            _ => {},
        }
    }

    /// Begins the next frame.
    pub fn advance_frame(&mut self)
        requires
            old(self)@.inv(),
        ensures
            final(self)@ == old(self)@.next_frame(),
            final(self)@.inv(),
    {
        let ghost before = self@;
        proof {
            lemma_next_frame(before);
        }
        if self.frame < u64::MAX {
            self.frame = self.frame + 1;
        }
        proof {
            assert(self@.queues =~= before.queues);
        }
    }

    /// Looks up the render pass of `mode`, entering it into the registry if
    /// it is not there. A render pass is built once and then kept: it never
    /// waits in an idle queue and is never evicted.
    pub fn render_pass(&mut self, mode: RenderPassMode) -> (pass: RenderPassRef)
        requires
            old(self)@.inv(),
        ensures
            final(self)@ == old(self)@.with_pass(mode),
            final(self)@.inv(),
            pass.index == old(self)@.pass_of(mode),
            pass.is_new == (old(self)@.pass_of(mode) == old(self)@.passes.len()),
            pass.index < final(self)@.passes.len(),
            final(self)@.passes[pass.index as int] == mode,
    {
        let ghost before = self@;
        let mut at: usize = 0;
        while at < self.passes.len()
            invariant
                at <= self.passes.len(),
                *self == *old(self),
                self@ == before,
                before.inv(),
                forall|i: int| 0 <= i < at ==> #[trigger] before.passes[i] != mode,
            decreases self.passes.len() - at,
        {
            if self.passes[at] == mode {
                proof {
                    lemma_pass_of(before, mode, at as int);
                    lemma_with_pass(before, mode);
                }
                return RenderPassRef { index: at, is_new: false };
            }
            at = at + 1;
        }
        self.passes.push(mode);
        proof {
            assert(self.passes.len() == before.passes.len() + 1);
            assert(before.pass_of(mode) == before.passes.len());
            lemma_with_pass(before, mode);
            assert(self@.queues =~= before.queues);
        }
        RenderPassRef { index: at, is_new: true }
    }

    /// Leases a graphics pipeline with room for one descriptor set.
    pub fn graphics(
        &mut self,
        graphics_mode: GraphicsMode,
        render_pass_mode: RenderPassMode,
        subpass_idx: u8,
    ) -> (lease: Lease)
        requires
            old(self)@.inv(),
        ensures
            (final(self)@, lease@) == old(self)@.acquire_graphics(
                PoolKeyView::Graphics { graphics_mode, render_pass_mode, subpass_idx },
                render_pass_mode,
                graphics_mode.ctor_of(),
                1,
            ),
            final(self)@.inv(),
            final(self)@.holds(lease@),
            lease@.build matches Build::CreateGraphics { graphics, pass, .. } ==> {
                &&& graphics == graphics_mode.ctor_of()
                &&& pass < final(self)@.passes.len()
                &&& final(self)@.passes[pass as int] == render_pass_mode
            },
    {
        self.graphics_sets(graphics_mode, render_pass_mode, subpass_idx, 1)
    }

    /// Leases a graphics pipeline of `graphics_mode` for the subpass
    /// `subpass_idx` of the render pass of `render_pass_mode`, with room for
    /// at least `max_sets` descriptor sets. A pipeline that has to be built
    /// needs its render pass: the lease says where the registry holds it and
    /// whether it has to be built too.
    pub fn graphics_sets(
        &mut self,
        graphics_mode: GraphicsMode,
        render_pass_mode: RenderPassMode,
        subpass_idx: u8,
        max_sets: usize,
    ) -> (lease: Lease)
        requires
            old(self)@.inv(),
        ensures
            (final(self)@, lease@) == old(self)@.acquire_graphics(
                PoolKeyView::Graphics { graphics_mode, render_pass_mode, subpass_idx },
                render_pass_mode,
                graphics_mode.ctor_of(),
                max_sets as u64,
            ),
            final(self)@.inv(),
            final(self)@.holds(lease@),
            lease@.build matches Build::CreateGraphics { graphics, pass, .. } ==> {
                &&& graphics == graphics_mode.ctor_of()
                &&& pass < final(self)@.passes.len()
                &&& final(self)@.passes[pass as int] == render_pass_mode
            },
    {
        let ghost before = self@;
        let ghost k = PoolKeyView::Graphics { graphics_mode, render_pass_mode, subpass_idx };
        let need = max_sets as u64;
        let slot = self.slot_for(PoolKey::Graphics { graphics_mode, render_pass_mode, subpass_idx });
        proof {
            lemma_take(before.with_queue(k), slot as int, need);
        }
        match self.take(slot, need) {
            Some(e) => Lease::new(e.id, slot, e.capacity, Build::Reuse),
            None => {
                let id = self.issue(slot, need);
                let ghost issued = self@;
                let pass = self.render_pass(render_pass_mode);
                proof {
                    lemma_with_pass(issued, render_pass_mode);
                }
                Lease::new(
                    id,
                    slot,
                    need,
                    Build::CreateGraphics {
                        graphics: graphics_mode.ctor(),
                        pass: pass.index,
                        pass_is_new: pass.is_new,
                    },
                )
            },
        }
    }

    /// Leases a two-dimensional image. Images of one queue are all alike, so
    /// the one released last is taken. Where the queue is empty a new image
    /// is leased, and a second new image is put into the queue, so that the
    /// next request of the same kind finds one waiting.
    pub fn texture(&mut self, dims: Extent, fmt: u32, usage: u32, layers: u16, mips: u8, samples: u8) -> (lease:
        Lease)
        requires
            old(self)@.inv(),
        ensures
            (final(self)@, lease@) == old(self)@.acquire_texture(
                PoolKeyView::Texture { dims, fmt, layers, mips, samples, usage },
            ),
            final(self)@.inv(),
            final(self)@.holds(lease@),
    {
        let ghost before = self@;
        let ghost k = PoolKeyView::Texture { dims, fmt, layers, mips, samples, usage };
        let slot = self.slot_for(PoolKey::Texture { dims, fmt, layers, mips, samples, usage });
        proof {
            lemma_take(before.with_queue(k), slot as int, 0);
        }
        match self.take(slot, 0) {
            Some(e) => Lease::new(e.id, slot, e.capacity, Build::Reuse),
            None => {
                let id = self.issue(slot, 0);
                let ghost issued = self@;
                let spare = self.seed(slot, 0);
                proof {
                    lemma_seed(issued, slot as int, 0);
                }
                Lease::new(id, slot, 0, Build::CreateWithSpare { spare })
            },
        }
    }
}

impl Default for Pool {
    /// A pool that holds nothing and evicts after `DEFAULT_LRU_THRESHOLD` frames.
    fn default() -> (pool: Pool)
        ensures
            pool@ == PoolView::empty(DEFAULT_LRU_THRESHOLD),
            pool@.inv(),
    {
        Pool::new(DEFAULT_LRU_THRESHOLD)
    }
}

} // verus!
