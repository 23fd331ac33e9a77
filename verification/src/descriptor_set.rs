//! Descriptor pools of fixed capacity and the descriptor sets taken from them.
//!
//! The driver is not called from here. A pool keeps count of the sets that
//! are allocated from it, refuses requests beyond its capacity before the
//! driver is asked, and can only be destroyed when no set is left.

use crate::error::DriverError;
use vstd::pervasive::unreached;
use vstd::prelude::*;

verus! {

/// A number of descriptors of one type that a pool has room for.
#[derive(Clone, Copy, Debug, Eq, Hash, PartialEq, Structural)]
pub struct DescriptorPoolSize {
    /// The driver's code of the descriptor type.
    pub ty: i32,
    pub descriptor_count: u32,
}

/// Why a builder could not build.
#[derive(Clone, Copy, Debug, PartialEq, Eq)]
pub enum BuilderError {
    /// The named field was never set.
    UninitializedField(&'static str),
}

/// Collects the fields of a `DescriptorPoolSize`.
#[derive(Clone, Copy, Debug)]
pub struct DescriptorPoolSizeBuilder {
    ty: Option<i32>,
    descriptor_count: Option<u32>,
}

impl DescriptorPoolSizeBuilder {
    /// What has been set of the type.
    pub closed spec fn spec_ty(self) -> Option<i32> {
        self.ty
    }

    /// What has been set of the count.
    pub closed spec fn spec_descriptor_count(self) -> Option<u32> {
        self.descriptor_count
    }

    /// Sets the descriptor type.
    pub fn ty(self, value: i32) -> (builder: DescriptorPoolSizeBuilder)
        ensures
            builder.spec_ty() == Some(value),
            builder.spec_descriptor_count() == self.spec_descriptor_count(),
    {
        DescriptorPoolSizeBuilder { ty: Some(value), descriptor_count: self.descriptor_count }
    }

    /// Sets the number of descriptors.
    pub fn descriptor_count(self, value: u32) -> (builder: DescriptorPoolSizeBuilder)
        ensures
            builder.spec_ty() == self.spec_ty(),
            builder.spec_descriptor_count() == Some(value),
    {
        DescriptorPoolSizeBuilder { ty: self.ty, descriptor_count: Some(value) }
    }

    /// Builds the value, or names the first field that was never set.
    pub fn build(self) -> (built: Result<DescriptorPoolSize, BuilderError>)
        ensures
            built == match (self.spec_ty(), self.spec_descriptor_count()) {
                (None, _) => Err::<DescriptorPoolSize, BuilderError>(
                    BuilderError::UninitializedField("ty"),
                ),
                (Some(_), None) => Err(BuilderError::UninitializedField("descriptor_count")),
                (Some(ty), Some(descriptor_count)) => Ok(DescriptorPoolSize { ty, descriptor_count }),
            },
    {
        match self.ty {
            None => Err(BuilderError::UninitializedField("ty")),
            Some(ty) => match self.descriptor_count {
                None => Err(BuilderError::UninitializedField("descriptor_count")),
                Some(descriptor_count) => Ok(DescriptorPoolSize { ty, descriptor_count }),
            },
        }
    }
}

impl Default for DescriptorPoolSizeBuilder {
    /// A builder with no field set.
    fn default() -> (builder: DescriptorPoolSizeBuilder)
        ensures
            builder.spec_ty() is None,
            builder.spec_descriptor_count() is None,
    {
        DescriptorPoolSizeBuilder { ty: None, descriptor_count: None }
    }
}

/// The capacity that a descriptor pool is created with.
#[derive(Clone, Debug, Eq, Hash, PartialEq)]
pub struct DescriptorPoolInfo {
    /// How many sets can be allocated from the pool at a time.
    pub max_sets: u32,
    pub pool_sizes: Vec<DescriptorPoolSize>,
}

/// The capacity of a descriptor pool as a mathematical value.
pub struct DescriptorPoolInfoView {
    pub max_sets: u32,
    pub pool_sizes: Seq<DescriptorPoolSize>,
}

impl View for DescriptorPoolInfo {
    type V = DescriptorPoolInfoView;

    open spec fn view(&self) -> DescriptorPoolInfoView {
        DescriptorPoolInfoView { max_sets: self.max_sets, pool_sizes: self.pool_sizes@ }
    }
}

/// Collects the fields of a `DescriptorPoolInfo`.
#[derive(Debug)]
pub struct DescriptorPoolInfoBuilder {
    max_sets: Option<u32>,
    pool_sizes: Option<Vec<DescriptorPoolSize>>,
}

impl DescriptorPoolInfoBuilder {
    /// What has been set of the number of sets.
    pub closed spec fn spec_max_sets(self) -> Option<u32> {
        self.max_sets
    }

    /// What has been set of the pool sizes.
    pub closed spec fn spec_pool_sizes(self) -> Option<Seq<DescriptorPoolSize>> {
        match self.pool_sizes {
            Some(sizes) => Some(sizes@),
            None => None,
        }
    }

    /// Whether every field has been set, so that `build` succeeds.
    pub open spec fn is_complete(self) -> bool {
        self.spec_max_sets() is Some && self.spec_pool_sizes() is Some
    }

    /// Sets the number of sets.
    pub fn max_sets(self, value: u32) -> (builder: DescriptorPoolInfoBuilder)
        ensures
            builder.spec_max_sets() == Some(value),
            builder.spec_pool_sizes() == self.spec_pool_sizes(),
    {
        DescriptorPoolInfoBuilder { max_sets: Some(value), pool_sizes: self.pool_sizes }
    }

    /// Sets the pool sizes.
    pub fn pool_sizes(self, value: Vec<DescriptorPoolSize>) -> (builder: DescriptorPoolInfoBuilder)
        ensures
            builder.spec_max_sets() == self.spec_max_sets(),
            builder.spec_pool_sizes() == Some(value@),
    {
        DescriptorPoolInfoBuilder { max_sets: self.max_sets, pool_sizes: Some(value) }
    }

    /// Whether every field has been set.
    pub fn complete(&self) -> (complete: bool)
        ensures
            complete == self.is_complete(),
    {
        self.max_sets.is_some() && self.pool_sizes.is_some()
    }

    /// Builds the value, or names the first field that was never set.
    pub fn build(self) -> (built: Result<DescriptorPoolInfo, BuilderError>)
        ensures
            match (self.spec_max_sets(), self.spec_pool_sizes()) {
                (None, _) => built == Err::<DescriptorPoolInfo, BuilderError>(
                    BuilderError::UninitializedField("max_sets"),
                ),
                (Some(_), None) => built == Err::<DescriptorPoolInfo, BuilderError>(
                    BuilderError::UninitializedField("pool_sizes"),
                ),
                (Some(max_sets), Some(pool_sizes)) => built is Ok && built->Ok_0@ == (
                DescriptorPoolInfoView { max_sets, pool_sizes }),
            },
    {
        match self.max_sets {
            None => Err(BuilderError::UninitializedField("max_sets")),
            Some(max_sets) => match self.pool_sizes {
                None => Err(BuilderError::UninitializedField("pool_sizes")),
                Some(pool_sizes) => Ok(DescriptorPoolInfo { max_sets, pool_sizes }),
            },
        }
    }
}

impl Default for DescriptorPoolInfoBuilder {
    /// A builder with no field set.
    fn default() -> (builder: DescriptorPoolInfoBuilder)
        ensures
            builder.spec_max_sets() is None,
            builder.spec_pool_sizes() is None,
    {
        DescriptorPoolInfoBuilder { max_sets: None, pool_sizes: None }
    }
}

/// What the driver is asked for when a descriptor pool is created.
#[derive(Clone, Debug, Eq, PartialEq)]
pub struct DescriptorPoolRequest {
    /// Sets of the pool can be freed one by one.
    pub free_descriptor_set: bool,
    pub max_sets: u32,
    /// The pool sizes, as the driver's type code and the count of each.
    pub pool_sizes: Vec<(i32, u32)>,
}

/// The pool sizes as the pairs that the driver is given.
pub open spec fn size_pairs(sizes: Seq<DescriptorPoolSize>) -> Seq<(i32, u32)> {
    Seq::new(sizes.len(), |i: int| (sizes[i].ty, sizes[i].descriptor_count))
}

impl DescriptorPoolInfo {
    /// Begins to describe a pool from which `max_sets` sets can be allocated.
    pub fn new(max_sets: u32) -> (builder: DescriptorPoolInfoBuilder)
        ensures
            builder.spec_max_sets() == Some(max_sets),
            builder.spec_pool_sizes() is None,
    {
        DescriptorPoolInfoBuilder::default().max_sets(max_sets)
    }

    /// The value that a complete builder describes.
    pub fn from(info: DescriptorPoolInfoBuilder) -> (built: DescriptorPoolInfo)
        requires
            info.is_complete(),
        ensures
            built@ == (DescriptorPoolInfoView {
                max_sets: info.spec_max_sets().unwrap(),
                pool_sizes: info.spec_pool_sizes().unwrap(),
            }),
    {
        match info.build() {
            Ok(built) => built,
            Err(_) => unreached(),
        }
    }

    /// What to ask of the driver to create a pool of this capacity: sets that
    /// can be freed one by one, the number of sets, and each pool size.
    pub fn request(&self) -> (request: DescriptorPoolRequest)
        ensures
            request.free_descriptor_set,
            request.max_sets == self.max_sets,
            request.pool_sizes@ == size_pairs(self.pool_sizes@),
    {
        let mut pool_sizes: Vec<(i32, u32)> = Vec::new();
        let mut n: usize = 0;
        while n < self.pool_sizes.len()
            invariant
                n <= self.pool_sizes.len(),
                pool_sizes@ == size_pairs(self.pool_sizes@.subrange(0, n as int)),
            decreases self.pool_sizes.len() - n,
        {
            let size = self.pool_sizes[n];
            pool_sizes.push((size.ty, size.descriptor_count));
            n = n + 1;
            assert(pool_sizes@ =~= size_pairs(self.pool_sizes@.subrange(0, n as int)));
        }
        assert(self.pool_sizes@.subrange(0, n as int) =~= self.pool_sizes@);
        DescriptorPoolRequest { free_descriptor_set: true, max_sets: self.max_sets, pool_sizes }
    }
}

/// What the driver is asked for when sets are allocated.
#[derive(Clone, Copy, Debug, PartialEq, Eq, Structural)]
pub struct DescriptorSetRequest {
    pub descriptor_pool: u64,
    pub layout: u64,
    pub count: u32,
}

/// What the driver is asked for when a set is freed.
#[derive(Clone, Copy, Debug, PartialEq, Eq, Structural)]
pub struct DescriptorSetFree {
    pub descriptor_pool: u64,
    pub descriptor_set: u64,
}

/// A descriptor set as a mathematical value.
pub struct DescriptorSetView {
    /// The handle of the pool that the set was allocated from.
    pub descriptor_pool: u64,
    /// The handle of the set.
    pub descriptor_set: u64,
}

/// A descriptor set. It names the pool it was allocated from, to which it
/// is handed back when it is no longer needed.
#[derive(Debug)]
pub struct DescriptorSet {
    descriptor_pool: u64,
    descriptor_set: u64,
}

impl View for DescriptorSet {
    type V = DescriptorSetView;

    closed spec fn view(&self) -> DescriptorSetView {
        DescriptorSetView { descriptor_pool: self.descriptor_pool, descriptor_set: self.descriptor_set }
    }
}

impl DescriptorSet {
    /// The raw handle of the set.
    pub fn handle(&self) -> (handle: u64)
        ensures
            handle == self@.descriptor_set,
    {
        self.descriptor_set
    }

    /// The raw handle of the pool that the set was allocated from.
    pub fn pool(&self) -> (handle: u64)
        ensures
            handle == self@.descriptor_pool,
    {
        self.descriptor_pool
    }
}

/// A descriptor pool as a mathematical value.
pub struct DescriptorPoolView {
    pub info: DescriptorPoolInfoView,
    /// The handle of the pool.
    pub descriptor_pool: u64,
    /// How many sets are allocated from the pool and not yet freed.
    pub live: nat,
}

impl DescriptorPoolView {
    /// How many more sets the pool has room for.
    pub open spec fn remaining(self) -> int {
        self.info.max_sets - self.live
    }

    /// The sets that wrap the handles which the driver returned.
    pub open spec fn wrap(self, handles: Seq<u64>) -> Seq<DescriptorSetView> {
        Seq::new(
            handles.len(),
            |i: int| DescriptorSetView { descriptor_pool: self.descriptor_pool, descriptor_set: handles[i] },
        )
    }

    /// What becomes of a request for `count` sets, given the driver's answer:
    /// `Unsupported` where the pool has no room for that many or the driver
    /// refused, `InvalidData` where the driver returned another number of sets
    /// than it was asked for, and the sets otherwise.
    pub open spec fn allocation(self, count: u32, answer: Result<Seq<u64>, i32>) -> Result<
        Seq<DescriptorSetView>,
        DriverError,
    > {
        if count > self.remaining() {
            Err(DriverError::Unsupported)
        } else {
            match answer {
                Err(_) => Err(DriverError::Unsupported),
                Ok(handles) => if handles.len() != count {
                    Err(DriverError::InvalidData)
                } else {
                    Ok(self.wrap(handles))
                },
            }
        }
    }
}

/// The driver's answer to an allocation, as a mathematical value.
pub open spec fn answer_view(answer: Result<Vec<u64>, i32>) -> Result<Seq<u64>, i32> {
    match answer {
        Ok(handles) => Ok(handles@),
        Err(code) => Err(code),
    }
}

/// A list of sets as a list of mathematical values.
pub open spec fn sets_view(sets: Seq<DescriptorSet>) -> Seq<DescriptorSetView> {
    Seq::new(sets.len(), |i: int| sets[i]@)
}

/// A descriptor pool: an allocator of descriptor sets with a fixed capacity.
#[derive(Debug)]
pub struct DescriptorPool {
    /// The capacity the pool was created with.
    info: DescriptorPoolInfo,
    descriptor_pool: u64,
    live: u32,
}

impl View for DescriptorPool {
    type V = DescriptorPoolView;

    closed spec fn view(&self) -> DescriptorPoolView {
        DescriptorPoolView {
            info: self.info@,
            descriptor_pool: self.descriptor_pool,
            live: self.live as nat,
        }
    }
}

impl DescriptorPool {
    /// What holds of every pool: no more sets are allocated than it has room for.
    pub open spec fn inv(&self) -> bool {
        self@.live <= self@.info.max_sets
    }

    /// Takes the driver's answer to `info.request()`: the handle of the new
    /// pool, or the code of a failure, which is reported as `Unsupported`.
    /// No set is allocated from a new pool.
    pub fn create(info: DescriptorPoolInfo, answer: Result<u64, i32>) -> (pool: Result<
        DescriptorPool,
        DriverError,
    >)
        ensures
            match answer {
                Ok(handle) => pool is Ok && pool->Ok_0.inv() && pool->Ok_0@ == (DescriptorPoolView {
                    info: info@,
                    descriptor_pool: handle,
                    live: 0,
                }),
                Err(_) => pool is Err && pool->Err_0 == DriverError::Unsupported,
            },
    {
        match answer {
            Ok(descriptor_pool) => Ok(DescriptorPool { info, descriptor_pool, live: 0 }),
            Err(_) => Err(DriverError::Unsupported),
        }
    }

    /// The capacity the pool was created with.
    pub fn info(&self) -> (info: &DescriptorPoolInfo)
        ensures
            info@ == self@.info,
    {
        &self.info
    }

    /// The raw handle of the pool.
    pub fn handle(&self) -> (handle: u64)
        ensures
            handle == self@.descriptor_pool,
    {
        self.descriptor_pool
    }

    /// How many sets are allocated from the pool and not yet freed.
    pub fn live_sets(&self) -> (live: u32)
        ensures
            live == self@.live,
    {
        self.live
    }

    /// What to ask of the driver for `count` sets of the given layout; nothing
    /// where the pool has no room for that many.
    pub fn descriptor_set_request(this: &Self, layout: u64, count: u32) -> (request: Option<
        DescriptorSetRequest,
    >)
        requires
            this.inv(),
        ensures
            request == if count <= this@.remaining() {
                Some(DescriptorSetRequest { descriptor_pool: this@.descriptor_pool, layout, count })
            } else {
                None
            },
    {
        if count <= this.info.max_sets - this.live {
            Some(DescriptorSetRequest { descriptor_pool: this.descriptor_pool, layout, count })
        } else {
            None
        }
    }

    /// Allocates one set of the given layout, given the driver's answer to
    /// the request for it.
    pub fn allocate_descriptor_set(this: &mut Self, layout: u64, answer: Result<Vec<u64>, i32>) -> (set:
        Result<DescriptorSet, DriverError>)
        requires
            old(this).inv(),
        ensures
            final(this).inv(),
            match old(this)@.allocation(1, answer_view(answer)) {
                Ok(sets) => {
                    &&& set is Ok
                    &&& set->Ok_0@ == sets[0]
                    &&& final(this)@ == (DescriptorPoolView { live: (old(this)@.live + 1) as nat, ..old(this)@ })
                },
                Err(e) => set is Err && set->Err_0 == e && final(this)@ == old(this)@,
            },
    {
        let ghost wrapped = this@.allocation(1, answer_view(answer));
        match Self::allocate_descriptor_sets(this, layout, 1, answer) {
            Ok(mut sets) => {
                let ghost all = sets@;
                assert(sets_view(all).len() == wrapped->Ok_0.len());
                let set = sets.remove(0);
                assert(set@ == sets_view(all)[0]);
                Ok(set)
            },
            Err(e) => Err(e),
        }
    }

    /// Allocates `count` sets of the given layout, given the driver's answer
    /// to the request for them. A request beyond the pool's capacity fails
    /// with `Unsupported` whatever the driver answered, and so does one that
    /// the driver refused; either way the pool is as it was.
    pub fn allocate_descriptor_sets(
        this: &mut Self,
        layout: u64,
        count: u32,
        answer: Result<Vec<u64>, i32>,
    ) -> (sets: Result<Vec<DescriptorSet>, DriverError>)
        requires
            old(this).inv(),
        ensures
            final(this).inv(),
            match old(this)@.allocation(count, answer_view(answer)) {
                Ok(wrapped) => {
                    &&& sets is Ok
                    &&& sets_view(sets->Ok_0@) == wrapped
                    &&& final(this)@ == (DescriptorPoolView { live: (old(this)@.live + count) as nat, ..old(this)@ })
                },
                Err(e) => sets is Err && sets->Err_0 == e && final(this)@ == old(this)@,
            },
    {
        if count > this.info.max_sets - this.live {
            return Err(DriverError::Unsupported);
        }
        match answer {
            Err(_) => Err(DriverError::Unsupported),
            Ok(handles) => {
                if handles.len() != count as usize {
                    return Err(DriverError::InvalidData);
                }
                let mut sets: Vec<DescriptorSet> = Vec::new();
                let mut n: usize = 0;
                while n < handles.len()
                    invariant
                        n <= handles.len(),
                        *this == *old(this),
                        sets@.len() == n,
                        sets_view(sets@) == this@.wrap(handles@.subrange(0, n as int)),
                    decreases handles.len() - n,
                {
                    let ghost done = sets@;
                    sets.push(
                        DescriptorSet { descriptor_pool: this.descriptor_pool, descriptor_set: handles[n] },
                    );
                    n = n + 1;
                    proof {
                        let grown = this@.wrap(handles@.subrange(0, n as int));
                        assert forall|i: int| 0 <= i < sets@.len() implies sets_view(sets@)[i] == grown[i] by {
                            if i < n - 1 {
                                assert(sets_view(done)[i] == this@.wrap(handles@.subrange(0, n - 1))[i]);
                            }
                        }
                        assert(sets_view(sets@) =~= grown);
                    }
                }
                assert(handles@.subrange(0, n as int) =~= handles@);
                this.live = this.live + count;
                Ok(sets)
            },
        }
    }

    /// Hands a set back to the pool it came from. Returns the request to
    /// free it, which the caller passes to the driver; a failure of the
    /// driver to free it is of no consequence. While the thread unwinds from
    /// a panic nothing is done and the set stays allocated.
    pub fn free_descriptor_set(this: &mut Self, set: DescriptorSet, panicking: bool) -> (request: Option<
        DescriptorSetFree,
    >)
        requires
            old(this).inv(),
            set@.descriptor_pool == old(this)@.descriptor_pool,
            old(this)@.live > 0,
        ensures
            final(this).inv(),
            panicking ==> request is None && final(this)@ == old(this)@,
            !panicking ==> {
                &&& final(this)@ == (DescriptorPoolView {
                    live: (old(this)@.live - 1) as nat,
                    ..old(this)@
                })
                &&& request == Some(
                    DescriptorSetFree {
                        descriptor_pool: set@.descriptor_pool,
                        descriptor_set: set@.descriptor_set,
                    },
                )
            },
    {
        if panicking {
            None
        } else {
            this.live = this.live - 1;
            Some(
                DescriptorSetFree {
                    descriptor_pool: set.descriptor_pool,
                    descriptor_set: set.descriptor_set,
                },
            )
        }
    }

    /// Whether no set is allocated from the pool, so that it may be destroyed.
    pub fn is_unused(&self) -> (unused: bool)
        ensures
            unused == (self@.live == 0),
    {
        self.live == 0
    }

    /// Ends the pool's life. Returns the handle to destroy; while the thread
    /// unwinds from a panic, nothing. A pool is destroyed only when no set
    /// allocated from it is left.
    pub fn destroy(self, panicking: bool) -> (handle: Option<u64>)
        requires
            self@.live == 0,
        ensures
            handle == if panicking {
                None
            } else {
                Some(self@.descriptor_pool)
            },
    {
        if panicking {
            None
        } else {
            Some(self.descriptor_pool)
        }
    }
}

} // verus!
