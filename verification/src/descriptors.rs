//! Descriptor pools: one active pool that sets are allocated from, the pools
//! that ran full (waiting for the GPU to be done with them), and pools that
//! were reset and can become active again.
//!
//! A null handle (`0`) in the active slot means there is no active pool.
use vstd::prelude::*;

verus! {

/// Sets a pool can hold.
pub const MAX_DESCRIPTOR_SETS: u32 = 1024;

/// Descriptors of each type a pool can hold.
pub const DESCRIPTORS_PER_TYPE: u32 = 1024;

/// `VK_ERROR_FRAGMENTED_POOL`.
pub const VK_ERROR_FRAGMENTED_POOL: i32 = -12;

/// `VK_ERROR_OUT_OF_POOL_MEMORY`.
pub const VK_ERROR_OUT_OF_POOL_MEMORY: i32 = -1_000_069_000;

/// One `VkDescriptorPoolSize`: a raw `VkDescriptorType` and its count.
#[derive(Clone, Copy, Debug, PartialEq, Eq, Structural)]
pub struct PoolSize {
    pub descriptor_type: i32,
    pub descriptor_count: u32,
}

/// Why a descriptor set could not be allocated.
#[derive(Clone, Copy, Debug, PartialEq, Eq, Structural)]
pub enum DescriptorError {
    /// No pool is active, or none could be created.
    InvalidState,
    /// The driver refused the allocation with this `VkResult`.
    Vulkan(i32),
}

/// What to do after an allocation attempt.
#[derive(Clone, Copy, Debug, PartialEq, Eq, Structural)]
pub enum AllocateStep {
    /// The set was allocated.
    Done(u64),
    /// The active pool ran full: it was retired (the caller discards it on
    /// the timeline) and another pool is active; try again.
    Retry { retired: u64 },
    /// Give up with this error.
    Failed(DescriptorError),
}

/// The sizes of every pool: 1024 descriptors of each type sets use.
pub open spec fn spec_pool_sizes() -> Seq<PoolSize> {
    seq![
        PoolSize { descriptor_type: 7, descriptor_count: DESCRIPTORS_PER_TYPE },
        PoolSize { descriptor_type: 3, descriptor_count: DESCRIPTORS_PER_TYPE },
        PoolSize { descriptor_type: 1, descriptor_count: DESCRIPTORS_PER_TYPE },
        PoolSize { descriptor_type: 6, descriptor_count: DESCRIPTORS_PER_TYPE },
        PoolSize { descriptor_type: 4, descriptor_count: DESCRIPTORS_PER_TYPE },
        PoolSize { descriptor_type: 10, descriptor_count: DESCRIPTORS_PER_TYPE },
        PoolSize { descriptor_type: 0, descriptor_count: DESCRIPTORS_PER_TYPE },
        PoolSize { descriptor_type: 2, descriptor_count: DESCRIPTORS_PER_TYPE },
    ]
}

/// See [`spec_pool_sizes`]: storage buffers, storage images, combined image
/// samplers, uniform buffers, uniform texel buffers, input attachments,
/// samplers and sampled images.
pub fn pool_sizes() -> (r: Vec<PoolSize>)
    ensures
        r@ == spec_pool_sizes(),
{
    let r = vec![
        PoolSize { descriptor_type: 7, descriptor_count: DESCRIPTORS_PER_TYPE },
        PoolSize { descriptor_type: 3, descriptor_count: DESCRIPTORS_PER_TYPE },
        PoolSize { descriptor_type: 1, descriptor_count: DESCRIPTORS_PER_TYPE },
        PoolSize { descriptor_type: 6, descriptor_count: DESCRIPTORS_PER_TYPE },
        PoolSize { descriptor_type: 4, descriptor_count: DESCRIPTORS_PER_TYPE },
        PoolSize { descriptor_type: 10, descriptor_count: DESCRIPTORS_PER_TYPE },
        PoolSize { descriptor_type: 0, descriptor_count: DESCRIPTORS_PER_TYPE },
        PoolSize { descriptor_type: 2, descriptor_count: DESCRIPTORS_PER_TYPE },
    ];
    assert(r@ =~= spec_pool_sizes());
    r
}

/// The descriptor pools of a device.
pub struct DescriptorPools {
    active_pool: u64,
    full_pools: Vec<u64>,
    recycled_pools: Vec<u64>,
}

impl DescriptorPools {
    /// The active pool, `0` when there is none.
    pub closed spec fn active(&self) -> u64 {
        self.active_pool
    }

    /// Pools retired because they ran full, oldest first.
    pub closed spec fn full(&self) -> Seq<u64> {
        self.full_pools@
    }

    /// Reset pools ready to become active, last recycled last.
    pub closed spec fn recycled(&self) -> Seq<u64> {
        self.recycled_pools@
    }

    /// No pools at all.
    pub fn empty() -> (r: Self)
        ensures
            r.active() == 0,
            r.full() == Seq::<u64>::empty(),
            r.recycled() == Seq::<u64>::empty(),
    {
        DescriptorPools { active_pool: 0, full_pools: Vec::new(), recycled_pools: Vec::new() }
    }

    /// The pools with one active pool made ready: `create` is asked for it.
    pub fn new<F: FnOnce() -> Result<u64, i32>>(create: F) -> (r: Result<Self, DescriptorError>)
        requires
            call_requires(create, ()),
        ensures
            match r {
                Ok(p) => p.full() == Seq::<u64>::empty() && p.recycled() == Seq::<u64>::empty()
                    && call_ensures(create, (), Ok::<u64, i32>(p.active())),
                Err(e) => e == DescriptorError::InvalidState && exists|c: i32|
                    call_ensures(create, (), Err::<u64, i32>(c)),
            },
    {
        let mut p = DescriptorPools::empty();
        match p.ensure_active_pool(create) {
            Ok(()) => Ok(p),
            Err(e) => Err(e),
        }
    }

    /// The active pool.
    pub fn active_pool(&self) -> (r: u64)
        ensures
            r == self.active(),
    {
        self.active_pool
    }

    /// Makes a pool active when none is: the last recycled pool if any,
    /// otherwise one from `create`; `InvalidState` when creation fails.
    pub fn ensure_active_pool<F: FnOnce() -> Result<u64, i32>>(&mut self, create: F) -> (r: Result<
        (),
        DescriptorError,
    >)
        requires
            call_requires(create, ()),
        ensures
            final(self).full() == old(self).full(),
            old(self).active() != 0 ==> r is Ok && *final(self) == *old(self),
            old(self).active() == 0 && old(self).recycled().len() > 0 ==> r is Ok && final(self).active()
                == old(self).recycled().last() && final(self).recycled() == old(
                self,
            ).recycled().drop_last(),
            old(self).active() == 0 && old(self).recycled().len() == 0 ==> final(self).recycled()
                == old(self).recycled() && match r {
                Ok(_) => call_ensures(create, (), Ok::<u64, i32>(final(self).active())),
                Err(e) => e == DescriptorError::InvalidState && final(self).active() == 0 && exists|
                    c: i32,
                | call_ensures(create, (), Err::<u64, i32>(c)),
            },
    {
        if self.active_pool != 0 {
            return Ok(());
        }
        match self.recycled_pools.pop() {
            Some(pool) => {
                self.active_pool = pool;
                return Ok(());
            },
            None => {},
        }
        let created = create();
        match created {
            Ok(pool) => {
                self.active_pool = pool;
                Ok(())
            },
            Err(c) => {
                assert(call_ensures(create, (), Err::<u64, i32>(c)));
                Err(DescriptorError::InvalidState)
            },
        }
    }

    /// Retires the active pool (it ran full): it joins the full pools and
    /// is returned for the caller to discard on the timeline; `None` when
    /// no pool is active.
    pub fn discard_active_pool(&mut self) -> (r: Option<u64>)
        ensures
            final(self).recycled() == old(self).recycled(),
            final(self).active() == 0,
            old(self).active() == 0 ==> r is None && final(self).full() == old(self).full(),
            old(self).active() != 0 ==> r == Some(old(self).active()) && final(self).full() == old(
                self,
            ).full().push(old(self).active()),
    {
        if self.active_pool == 0 {
            return None;
        }
        let pool = self.active_pool;
        self.full_pools.push(pool);
        self.active_pool = 0;
        Some(pool)
    }

    /// The pool to allocate from: the active one; `InvalidState` when none
    /// is.
    pub fn pool_for_allocation(&self) -> (r: Result<u64, DescriptorError>)
        ensures
            r == (if self.active() != 0 {
                Ok::<u64, DescriptorError>(self.active())
            } else {
                Err::<u64, DescriptorError>(DescriptorError::InvalidState)
            }),
    {
        if self.active_pool == 0 {
            Err(DescriptorError::InvalidState)
        } else {
            Ok(self.active_pool)
        }
    }

    /// Takes the driver's answer to an allocation from the active pool: a
    /// set ends the allocation; a full or fragmented pool is retired and a
    /// new one made active (from the recycled ones, or from `create`) for
    /// another attempt; any other error ends it.
    pub fn after_allocation<F: FnOnce() -> Result<u64, i32>>(
        &mut self,
        result: Result<u64, i32>,
        create: F,
    ) -> (r: AllocateStep)
        requires
            call_requires(create, ()),
            old(self).active() != 0,
        ensures
            match result {
                Ok(set) => r == AllocateStep::Done(set) && *final(self) == *old(self),
                Err(c) => if c == VK_ERROR_OUT_OF_POOL_MEMORY || c == VK_ERROR_FRAGMENTED_POOL {
                    &&& final(self).full() == old(self).full().push(old(self).active())
                    &&& if old(self).recycled().len() > 0 {
                        &&& r == AllocateStep::Retry { retired: old(self).active() }
                        &&& final(self).active() == old(self).recycled().last()
                        &&& final(self).recycled() == old(self).recycled().drop_last()
                    } else {
                        &&& final(self).recycled() == old(self).recycled()
                        &&& match r {
                            AllocateStep::Retry { retired } => retired == old(self).active()
                                && call_ensures(create, (), Ok::<u64, i32>(final(self).active())),
                            AllocateStep::Failed(e) => e == DescriptorError::InvalidState
                                && final(self).active() == 0,
                            AllocateStep::Done(_) => false,
                        }
                    }
                } else {
                    r == AllocateStep::Failed(DescriptorError::Vulkan(c)) && *final(self) == *old(self)
                },
            },
    {
        match result {
            Ok(set) => AllocateStep::Done(set),
            Err(c) => {
                if c == VK_ERROR_OUT_OF_POOL_MEMORY || c == VK_ERROR_FRAGMENTED_POOL {
                    let retired = self.discard_active_pool();
                    let retired = match retired {
                        Some(p) => p,
                        None => {
                            return AllocateStep::Failed(DescriptorError::InvalidState);
                        },
                    };
                    match self.ensure_active_pool(create) {
                        Ok(()) => AllocateStep::Retry { retired },
                        Err(e) => AllocateStep::Failed(e),
                    }
                } else {
                    AllocateStep::Failed(DescriptorError::Vulkan(c))
                }
            },
        }
    }

    /// Puts back a pool that was discarded, once `reset` reset it; a null
    /// pool, or one whose reset failed, is dropped.
    pub fn recycle<F: FnOnce(u64) -> Result<(), i32>>(&mut self, pool: u64, reset: F)
        requires
            call_requires(reset, (pool,)),
        ensures
            final(self).active() == old(self).active(),
            final(self).full() == old(self).full(),
            pool == 0 ==> final(self).recycled() == old(self).recycled(),
            pool != 0 ==> exists|res: Result<(), i32>|
                call_ensures(reset, (pool,), res) && final(self).recycled() == (if res is Ok {
                    old(self).recycled().push(pool)
                } else {
                    old(self).recycled()
                }),
    {
        if pool == 0 {
            return;
        }
        let res = reset(pool);
        assert(call_ensures(reset, (pool,), res));
        if res.is_ok() {
            self.recycled_pools.push(pool);
        }
    }

    /// Empties every list and returns all pools for destruction: the
    /// active one (if any), the full ones, then the recycled ones.
    pub fn cleanup(&mut self) -> (r: Vec<u64>)
        ensures
            final(self).active() == 0,
            final(self).full() == Seq::<u64>::empty(),
            final(self).recycled() == Seq::<u64>::empty(),
            r@ == (if old(self).active() != 0 {
                seq![old(self).active()]
            } else {
                Seq::<u64>::empty()
            }) + old(self).full() + old(self).recycled(),
    {
        let mut out: Vec<u64> = Vec::new();
        if self.active_pool != 0 {
            out.push(self.active_pool);
        }
        let ghost first = out@;
        out.append(&mut self.full_pools);
        out.append(&mut self.recycled_pools);
        self.active_pool = 0;
        out
    }
}

/// A pool that ran full is never handed out again before it was recycled:
/// retiring it leaves it among the full pools, not in the active slot nor
/// among the recycled ones, unless it was recycled before.
pub proof fn lemma_retired_pool_is_not_reused(full: Seq<u64>, recycled: Seq<u64>, active: u64)
    requires
        active != 0,
        !recycled.contains(active),
    ensures
        full.push(active).contains(active),
        recycled.len() > 0 ==> recycled.last() != active,
        recycled.len() > 0 ==> !recycled.drop_last().contains(active),
{
    assert(full.push(active)[full.len() as int] == active);
    if recycled.len() > 0 {
        assert(recycled.contains(recycled.last()));
    }
    if recycled.len() > 0 && recycled.drop_last().contains(active) {
        let i = choose|i: int| 0 <= i < recycled.drop_last().len() && recycled.drop_last()[i] == active;
        assert(recycled[i] == active);
    }
}

} // verus!
