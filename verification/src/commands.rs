//! Command buffer pools with a chunked bump-allocation strategy.
//!
//! Command buffers cannot be reset one by one, so whole pools are reset:
//! 1. Allocations are grouped by `(thread, queue family)`.
//! 2. A pool hands out at most `MAX_BUFFERS_PER_POOL` buffers; once full it
//!    moves to `pending` and a fresh pool takes its place.
//! 3. Every allocation bumps the pool's `in_flight` counter, every recycle
//!    decrements it.
//! 4. When a pending pool's `in_flight` reaches 0 the GPU is done with all of
//!    its buffers: it is reset in bulk and moved to `free` for reuse.
//!
//! Native Vulkan calls are supplied by the caller as closures: `create`
//! creates a pool for a queue family, `alloc` allocates a primary buffer from
//! a pool, `reset` resets a pool. Each returns the raw `VkResult` on failure.
use vstd::multiset::Multiset;
use vstd::prelude::*;

verus! {

/// Buffers a pool hands out before it is rotated.
pub const MAX_BUFFERS_PER_POOL: usize = 32;

/// Capacity of the `pending` list of a queue family.
pub const MAX_PENDING_TRACKED_POOL: usize = 24;

/// Capacity of the `free` list of a queue family.
pub const MAX_FREE_TRACKED_POOL: usize = 16;

/// Capacity of the map from command buffers to their pools: room for every
/// buffer of every pool a pair can hold (one active, `MAX_PENDING_TRACKED_POOL`
/// pending and `MAX_FREE_TRACKED_POOL` free pools of `MAX_BUFFERS_PER_POOL`
/// buffers each, 1312 in all), rounded up to the power of two the map needs.
pub const MAX_TRACKED_BUFFERS: usize = 2048;

/// Identifier of a command buffer handed out by the device.
#[derive(Clone, Copy, Debug, PartialEq, Eq, Structural)]
pub struct CommandBufferId(pub u64);

/// Why a pending pool could not be moved to `free`.
#[derive(Clone, Copy, Debug, PartialEq, Eq, Structural)]
pub enum MovePoolError {
    /// "Index out of bounds for pending queue"
    IndexOutOfBounds,
    /// "Cannot move to free: free pool vector is full"
    FreeFull,
    /// The reset call failed with this `VkResult`.
    Vulkan(i32),
}

/// Why the active pool could not be rotated.
#[derive(Clone, Copy, Debug, PartialEq, Eq, Structural)]
pub enum RotateError {
    /// "Cannot move active to pending: pending is full"
    PendingFull,
    /// "Cannot replace active: free pool is empty"
    FreeEmpty,
}

/// Errors of command pool operations.
#[derive(Clone, Copy, Debug, PartialEq, Eq, Structural)]
pub enum CommandPoolError {
    /// A native call failed with this `VkResult`.
    Vulkan(i32),
    /// "Pending queue is full"
    PendingFull,
    /// "Cannot replace active: free pool is empty"
    FreeEmpty,
    /// "Index out of bounds for pending queue"
    IndexOutOfBounds,
    /// "Cannot move to free: free pool vector is full"
    FreeFull,
    /// "Command pool state not found for recycling"
    StateNotFound,
    /// "Command Buffer not found in tracking map"
    BufferNotTracked,
}

impl CommandPoolError {
    /// Converts a move failure into a pool error.
    pub fn from_move(e: MovePoolError) -> (r: Self)
        ensures
            r == spec_from_move(e),
    {
        match e {
            MovePoolError::IndexOutOfBounds => CommandPoolError::IndexOutOfBounds,
            MovePoolError::FreeFull => CommandPoolError::FreeFull,
            MovePoolError::Vulkan(v) => CommandPoolError::Vulkan(v),
        }
    }

    /// Converts a rotation failure into a pool error.
    pub fn from_rotate(e: RotateError) -> (r: Self)
        ensures
            r == spec_from_rotate(e),
    {
        match e {
            RotateError::PendingFull => CommandPoolError::PendingFull,
            RotateError::FreeEmpty => CommandPoolError::FreeEmpty,
        }
    }
}

/// Pool error corresponding to a move failure.
pub open spec fn spec_from_move(e: MovePoolError) -> CommandPoolError {
    match e {
        MovePoolError::IndexOutOfBounds => CommandPoolError::IndexOutOfBounds,
        MovePoolError::FreeFull => CommandPoolError::FreeFull,
        MovePoolError::Vulkan(v) => CommandPoolError::Vulkan(v),
    }
}

/// Pool error corresponding to a rotation failure.
pub open spec fn spec_from_rotate(e: RotateError) -> CommandPoolError {
    match e {
        RotateError::PendingFull => CommandPoolError::PendingFull,
        RotateError::FreeEmpty => CommandPoolError::FreeEmpty,
    }
}

/// Abstract state of one tracked pool.
pub ghost struct PoolView {
    pub id: u64,
    /// Raw `VkCommandPool` handle.
    pub pool: u64,
    /// Buffers allocated from the pool so far, in allocation order.
    pub buffers: Seq<u64>,
    pub in_flight: nat,
    pub next_free_index: nat,
}

impl PoolView {
    /// Counters are consistent: `in_flight <= next_free_index <= buffers.len() <= MAX`.
    pub open spec fn wf(self) -> bool {
        &&& self.buffers.len() <= MAX_BUFFERS_PER_POOL
        &&& self.in_flight <= self.next_free_index
        &&& self.next_free_index <= self.buffers.len()
    }

    /// The pool has been rewound: nothing handed out, nothing in flight.
    pub open spec fn is_reset(self) -> bool {
        self.in_flight == 0 && self.next_free_index == 0
    }

    /// A newly created pool.
    pub open spec fn fresh(pool: u64, id: u64) -> PoolView {
        PoolView { id, pool, buffers: Seq::empty(), in_flight: 0, next_free_index: 0 }
    }

    /// The pool after a bulk reset: allocated buffers are kept for reuse.
    pub open spec fn rewound(self) -> PoolView {
        PoolView { in_flight: 0, next_free_index: 0, ..self }
    }

    /// The pool after handing out its next buffer.
    pub open spec fn handed_out(self) -> PoolView {
        PoolView { in_flight: self.in_flight + 1, next_free_index: self.next_free_index + 1, ..self }
    }

    /// The pool after a newly allocated buffer was appended.
    pub open spec fn appended(self, cmd: u64) -> PoolView {
        PoolView { buffers: self.buffers.push(cmd), ..self }
    }

    /// The pool after one of its buffers was given back.
    pub open spec fn released(self) -> PoolView {
        PoolView { in_flight: (self.in_flight - 1) as nat, ..self }
    }
}

/// A single native command pool and the buffers bump-allocated from it.
#[derive(Clone, Copy)]
pub struct TrackedPool {
    pub id: u64,
    /// Raw `VkCommandPool` handle.
    pub pool: u64,
    pub allocated_buffers: [u64; MAX_BUFFERS_PER_POOL],
    pub in_flight: usize,
    pub next_free_index: usize,
    pub allocated_count: usize,
}

impl View for TrackedPool {
    type V = PoolView;

    open spec fn view(&self) -> PoolView {
        PoolView {
            id: self.id,
            pool: self.pool,
            buffers: self.allocated_buffers@.subrange(0, self.allocated_count as int),
            in_flight: self.in_flight as nat,
            next_free_index: self.next_free_index as nat,
        }
    }
}

impl TrackedPool {
    /// Counters are consistent with the buffer array.
    pub open spec fn wf(&self) -> bool {
        &&& self.allocated_count <= MAX_BUFFERS_PER_POOL
        &&& self.in_flight <= self.next_free_index
        &&& self.next_free_index <= self.allocated_count
    }

    /// Tracks a newly created native pool.
    pub fn new(pool: u64, id: u64) -> (r: Self)
        ensures
            r.wf(),
            r@ == PoolView::fresh(pool, id),
    {
        let r = TrackedPool {
            id,
            pool,
            allocated_buffers: [0u64; MAX_BUFFERS_PER_POOL],
            in_flight: 0,
            next_free_index: 0,
            allocated_count: 0,
        };
        assert(r@.buffers =~= Seq::<u64>::empty());
        r
    }

    /// Resets the native pool through `reset` and, when it succeeds, rewinds
    /// the bump allocator. On failure nothing changes.
    pub fn reset_memory<F: FnOnce(u64) -> Result<(), i32>>(&mut self, reset: F) -> (r: Result<(), i32>)
        requires
            old(self).wf(),
            call_requires(reset, (old(self).pool,)),
        ensures
            final(self).wf(),
            call_ensures(reset, (old(self).pool,), r),
            r is Ok ==> final(self)@ == old(self)@.rewound(),
            r is Err ==> *final(self) == *old(self),
    {
        let res = reset(self.pool);
        if res.is_ok() {
            self.next_free_index = 0;
            self.in_flight = 0;
        }
        res
    }
}

/// Pools waiting for their buffers to come back, in the order they were sealed.
#[verifier::external_body]
pub struct PendingPools {
    inner: heapless::Vec<TrackedPool, MAX_PENDING_TRACKED_POOL>,
}

/// Contents of a [`PendingPools`], first element first.
pub uninterp spec fn pending_pools_contents(p: PendingPools) -> Seq<TrackedPool>;

impl PendingPools {
    /// `heapless::Vec::new`: an empty vector.
    #[verifier::external_body]
    pub(crate) fn new() -> (r: Self)
        ensures
            pending_pools_contents(r) == Seq::<TrackedPool>::empty(),
    {
        PendingPools { inner: heapless::Vec::new() }
    }

    /// `heapless::Vec::len`: the number of elements, never above the capacity.
    #[verifier::external_body]
    pub(crate) fn len(&self) -> (r: usize)
        ensures
            r == pending_pools_contents(*self).len(),
            r <= MAX_PENDING_TRACKED_POOL,
    {
        self.inner.len()
    }

    /// `heapless::Vec::push`: appends when there is room, else hands the item back.
    #[verifier::external_body]
    pub(crate) fn push(&mut self, item: TrackedPool) -> (r: Result<(), TrackedPool>)
        ensures
            r is Ok <==> pending_pools_contents(*old(self)).len() < MAX_PENDING_TRACKED_POOL,
            r is Ok ==> pending_pools_contents(*final(self)) == pending_pools_contents(
                *old(self),
            ).push(item),
            r matches Err(back) ==> back == item && pending_pools_contents(*final(self))
                == pending_pools_contents(*old(self)),
    {
        self.inner.push(item)
    }

    /// `heapless::Vec::remove`: takes out the element at `index`, shifting the rest down.
    #[verifier::external_body]
    pub(crate) fn remove(&mut self, index: usize) -> (r: TrackedPool)
        requires
            index < pending_pools_contents(*old(self)).len(),
        ensures
            r == pending_pools_contents(*old(self))[index as int],
            pending_pools_contents(*final(self)) == pending_pools_contents(*old(self)).remove(
                index as int,
            ),
    {
        self.inner.remove(index)
    }

    /// Slice indexing through `heapless::Vec`'s `Deref`: a copy of the element at `index`.
    #[verifier::external_body]
    pub(crate) fn get(&self, index: usize) -> (r: TrackedPool)
        requires
            index < pending_pools_contents(*self).len(),
        ensures
            r == pending_pools_contents(*self)[index as int],
    {
        self.inner[index]
    }

    /// Slice index assignment through `heapless::Vec`'s `DerefMut`.
    #[verifier::external_body]
    pub(crate) fn set(&mut self, index: usize, item: TrackedPool)
        requires
            index < pending_pools_contents(*old(self)).len(),
        ensures
            pending_pools_contents(*final(self)) == pending_pools_contents(*old(self)).update(
                index as int,
                item,
            ),
    {
        self.inner[index] = item;
    }
}

/// Reset pools ready to become active again.
#[verifier::external_body]
pub struct FreePools {
    inner: heapless::Vec<TrackedPool, MAX_FREE_TRACKED_POOL>,
}

/// Contents of a [`FreePools`], first element first.
pub uninterp spec fn free_pools_contents(p: FreePools) -> Seq<TrackedPool>;

impl FreePools {
    /// `heapless::Vec::new`: an empty vector.
    #[verifier::external_body]
    pub(crate) fn new() -> (r: Self)
        ensures
            free_pools_contents(r) == Seq::<TrackedPool>::empty(),
    {
        FreePools { inner: heapless::Vec::new() }
    }

    /// `heapless::Vec::len`: the number of elements, never above the capacity.
    #[verifier::external_body]
    pub(crate) fn len(&self) -> (r: usize)
        ensures
            r == free_pools_contents(*self).len(),
            r <= MAX_FREE_TRACKED_POOL,
    {
        self.inner.len()
    }

    /// `heapless::Vec::push`: appends when there is room, else hands the item back.
    #[verifier::external_body]
    pub(crate) fn push(&mut self, item: TrackedPool) -> (r: Result<(), TrackedPool>)
        ensures
            r is Ok <==> free_pools_contents(*old(self)).len() < MAX_FREE_TRACKED_POOL,
            r is Ok ==> free_pools_contents(*final(self)) == free_pools_contents(*old(self)).push(
                item,
            ),
            r matches Err(back) ==> back == item && free_pools_contents(*final(self))
                == free_pools_contents(*old(self)),
    {
        self.inner.push(item)
    }

    /// `heapless::Vec::pop`: removes and returns the last element, `None` when empty.
    #[verifier::external_body]
    pub(crate) fn pop(&mut self) -> (r: Option<TrackedPool>)
        ensures
            r == (if free_pools_contents(*old(self)).len() == 0 {
                None
            } else {
                Some(free_pools_contents(*old(self)).last())
            }),
            free_pools_contents(*final(self)) == (if free_pools_contents(*old(self)).len() == 0 {
                free_pools_contents(*old(self))
            } else {
                free_pools_contents(*old(self)).drop_last()
            }),
    {
        self.inner.pop()
    }

    /// Slice indexing through `heapless::Vec`'s `Deref`: a copy of the element at `index`.
    #[verifier::external_body]
    pub(crate) fn get(&self, index: usize) -> (r: TrackedPool)
        requires
            index < free_pools_contents(*self).len(),
        ensures
            r == free_pools_contents(*self)[index as int],
    {
        self.inner[index]
    }
}

/// Which pool each allocated command buffer belongs to.
#[verifier::external_body]
pub struct BufferOwners {
    inner: heapless::index_map::FnvIndexMap<u64, u64, MAX_TRACKED_BUFFERS>,
}

/// Contents of a [`BufferOwners`]: command buffer handle to pool id.
pub uninterp spec fn buffer_owners_contents(m: BufferOwners) -> Map<u64, u64>;

impl BufferOwners {
    /// `heapless::index_map::IndexMap::new`: an empty map.
    #[verifier::external_body]
    pub(crate) fn new() -> (owners: Self)
        ensures
            buffer_owners_contents(owners) =~= Map::empty(),
    {
        BufferOwners { inner: heapless::index_map::FnvIndexMap::new() }
    }

    /// `heapless::index_map::IndexMap::get`: the value stored under `key`, if any.
    #[verifier::external_body]
    pub(crate) fn get(&self, key: u64) -> (r: Option<u64>)
        ensures
            buffer_owners_contents(*self).contains_key(key) ==> r == Some(
                buffer_owners_contents(*self)[key],
            ),
            !buffer_owners_contents(*self).contains_key(key) ==> r is None,
    {
        self.inner.get(&key).copied()
    }

    /// `heapless::index_map::IndexMap::insert`: replaces the value of a present
    /// key, adds a new key while fewer than the capacity are stored, and hands
    /// the pair back otherwise.
    #[verifier::external_body]
    pub(crate) fn insert(&mut self, key: u64, value: u64) -> (r: Result<Option<u64>, (u64, u64)>)
        ensures
            r == (if buffer_owners_contents(*old(self)).contains_key(key) {
                Ok(Some(buffer_owners_contents(*old(self))[key]))
            } else if buffer_owners_contents(*old(self)).dom().len() < MAX_TRACKED_BUFFERS {
                Ok(None)
            } else {
                Err((key, value))
            }),
            buffer_owners_contents(*final(self)) == spec_track(
                buffer_owners_contents(*old(self)),
                key,
                value,
            ),
    {
        self.inner.insert(key, value)
    }
}

/// The owner map after recording that `cmd` belongs to pool `id`, when the
/// fixed-capacity map has room for it.
pub open spec fn spec_track(owners: Map<u64, u64>, cmd: u64, id: u64) -> Map<u64, u64> {
    if owners.contains_key(cmd) || owners.dom().len() < MAX_TRACKED_BUFFERS {
        owners.insert(cmd, id)
    } else {
        owners
    }
}

/// Abstract state of the pools of one `(thread, queue family)` pair.
pub ghost struct PoolsView {
    /// Pool new buffers come from.
    pub active: PoolView,
    /// Sealed pools whose buffers may still be executing, oldest first.
    pub pending: Seq<PoolView>,
    /// Reset pools ready to become active.
    pub free: Seq<PoolView>,
    /// Command buffer handle to the id of the pool it came from.
    pub owners: Map<u64, u64>,
    pub next_pool_id: u64,
}

impl PoolsView {
    /// Capacities hold, every pool is consistent and every free pool is reset.
    pub open spec fn wf(self) -> bool {
        &&& self.active.wf()
        &&& self.pending.len() <= MAX_PENDING_TRACKED_POOL
        &&& forall|i: int| 0 <= i < self.pending.len() ==> #[trigger] self.pending[i].wf()
        &&& self.free.len() <= MAX_FREE_TRACKED_POOL
        &&& forall|i: int|
            0 <= i < self.free.len() ==> #[trigger] self.free[i].wf() && self.free[i].is_reset()
    }

    /// State right after the first pool of a pair was created.
    pub open spec fn initial(pool: u64, id: u64) -> PoolsView {
        PoolsView {
            active: PoolView::fresh(pool, id),
            pending: Seq::empty(),
            free: Seq::empty(),
            owners: Map::empty(),
            next_pool_id: 1,
        }
    }

    /// There is room in `pending` and a pool in `free`.
    pub open spec fn can_rotate(self) -> bool {
        self.pending.len() < MAX_PENDING_TRACKED_POOL && self.free.len() > 0
    }

    /// Active sealed into `pending`, last free pool made active.
    pub open spec fn rotated(self) -> PoolsView {
        PoolsView {
            active: self.free.last(),
            pending: self.pending.push(self.active),
            free: self.free.drop_last(),
            ..self
        }
    }

    /// Active sealed into `pending`, `fresh` made active.
    pub open spec fn sealed_with(self, fresh: PoolView) -> PoolsView {
        PoolsView { active: fresh, pending: self.pending.push(self.active), ..self }
    }

    /// Pending pool `index` moved to the end of `free`, rewound when `reset`.
    pub open spec fn moved_to_free(self, index: int, reset: bool) -> PoolsView {
        PoolsView {
            pending: self.pending.remove(index),
            free: self.free.push(
                if reset {
                    self.pending[index].rewound()
                } else {
                    self.pending[index]
                },
            ),
            ..self
        }
    }
}

/// Buffers allocated from `pools`, summed over the pools.
pub open spec fn buffers_in(pools: Seq<PoolView>) -> nat
    decreases pools.len(),
{
    if pools.len() == 0 {
        0
    } else {
        buffers_in(pools.drop_last()) + pools.last().buffers.len()
    }
}

/// Buffers allocated from all the pools of a pair.
pub open spec fn total_buffers(s: PoolsView) -> nat {
    s.active.buffers.len() + buffers_in(s.pending) + buffers_in(s.free)
}

/// The owner map holds no more entries than the pools hold buffers.
pub open spec fn owners_fit(s: PoolsView) -> bool {
    s.owners.dom().finite() && s.owners.dom().len() <= total_buffers(s)
}

/// Every buffer of pool `p` has an owner in `owners`.
pub open spec fn pool_tracked(owners: Map<u64, u64>, p: PoolView) -> bool {
    forall|j: int| 0 <= j < p.buffers.len() ==> owners.contains_key(#[trigger] p.buffers[j])
}

/// Every buffer of every pool of the pair has an owner.
pub open spec fn all_tracked(s: PoolsView) -> bool {
    &&& pool_tracked(s.owners, s.active)
    &&& forall|i: int| 0 <= i < s.pending.len() ==> pool_tracked(s.owners, #[trigger] s.pending[i])
    &&& forall|i: int| 0 <= i < s.free.len() ==> pool_tracked(s.owners, #[trigger] s.free[i])
}

proof fn lemma_buffers_in_push(pools: Seq<PoolView>, p: PoolView)
    ensures
        buffers_in(pools.push(p)) == buffers_in(pools) + p.buffers.len(),
{
    assert(pools.push(p).drop_last() =~= pools);
}

proof fn lemma_buffers_in_remove(pools: Seq<PoolView>, i: int)
    requires
        0 <= i < pools.len(),
    ensures
        buffers_in(pools.remove(i)) + pools[i].buffers.len() == buffers_in(pools),
    decreases pools.len(),
{
    if i == pools.len() - 1 {
        assert(pools.remove(i) =~= pools.drop_last());
    } else {
        lemma_buffers_in_remove(pools.drop_last(), i);
        assert(pools.remove(i).drop_last() =~= pools.drop_last().remove(i));
        assert(pools.remove(i).last() == pools.last());
    }
}

proof fn lemma_buffers_in_update(pools: Seq<PoolView>, i: int, p: PoolView)
    requires
        0 <= i < pools.len(),
        p.buffers.len() == pools[i].buffers.len(),
    ensures
        buffers_in(pools.update(i, p)) == buffers_in(pools),
    decreases pools.len(),
{
    if i == pools.len() - 1 {
        assert(pools.update(i, p).drop_last() =~= pools.drop_last());
    } else {
        lemma_buffers_in_update(pools.drop_last(), i, p);
        assert(pools.update(i, p).drop_last() =~= pools.drop_last().update(i, p));
    }
}

proof fn lemma_buffers_in_bound(pools: Seq<PoolView>)
    requires
        forall|i: int| 0 <= i < pools.len() ==> (#[trigger] pools[i]).buffers.len() <= MAX_BUFFERS_PER_POOL,
    ensures
        buffers_in(pools) <= pools.len() * MAX_BUFFERS_PER_POOL,
    decreases pools.len(),
{
    if pools.len() > 0 {
        let d = pools.drop_last();
        assert forall|i: int| 0 <= i < d.len() implies (#[trigger] d[i]).buffers.len() <= MAX_BUFFERS_PER_POOL by {
            assert(d[i] == pools[i]);
        }
        lemma_buffers_in_bound(d);
        assert(pools.last() == pools[pools.len() - 1]);
    }
}

/// A consistent pair's pools hold at most 1312 buffers, fewer than the
/// owner map can store.
proof fn lemma_total_buffers_bound(s: PoolsView)
    requires
        s.wf(),
    ensures
        total_buffers(s) <= (1 + MAX_PENDING_TRACKED_POOL + MAX_FREE_TRACKED_POOL) * MAX_BUFFERS_PER_POOL,
        total_buffers(s) < MAX_TRACKED_BUFFERS,
{
    assert forall|i: int| 0 <= i < s.pending.len() implies (#[trigger] s.pending[i]).buffers.len()
        <= MAX_BUFFERS_PER_POOL by {
        assert(s.pending[i].wf());
    }
    assert forall|i: int| 0 <= i < s.free.len() implies (#[trigger] s.free[i]).buffers.len()
        <= MAX_BUFFERS_PER_POOL by {
        assert(s.free[i].wf());
    }
    lemma_buffers_in_bound(s.pending);
    lemma_buffers_in_bound(s.free);
    assert(s.pending.len() * MAX_BUFFERS_PER_POOL <= MAX_PENDING_TRACKED_POOL * MAX_BUFFERS_PER_POOL)
        by (nonlinear_arith)
        requires
            s.pending.len() <= MAX_PENDING_TRACKED_POOL,
    ;
    assert(s.free.len() * MAX_BUFFERS_PER_POOL <= MAX_FREE_TRACKED_POOL * MAX_BUFFERS_PER_POOL)
        by (nonlinear_arith)
        requires
            s.free.len() <= MAX_FREE_TRACKED_POOL,
    ;
}

/// Index of the first pending pool with id `id`, or -1.
pub open spec fn first_with_id(pools: Seq<PoolView>, id: u64) -> int
    decreases pools.len(),
{
    if pools.len() == 0 {
        -1
    } else if pools[0].id == id {
        0
    } else {
        let r = first_with_id(pools.drop_first(), id);
        if r < 0 {
            -1
        } else {
            r + 1
        }
    }
}

proof fn lemma_first_with_id_range(pools: Seq<PoolView>, id: u64)
    ensures
        first_with_id(pools, id) < pools.len(),
        first_with_id(pools, id) >= 0 ==> pools[first_with_id(pools, id)].id == id,
    decreases pools.len(),
{
    if pools.len() > 0 && pools[0].id != id {
        lemma_first_with_id_range(pools.drop_first(), id);
        let r = first_with_id(pools.drop_first(), id);
        if r >= 0 {
            assert(pools.drop_first()[r] == pools[r + 1]);
        }
    }
}

proof fn lemma_first_with_id(pools: Seq<PoolView>, id: u64, k: int)
    requires
        0 <= k <= pools.len(),
        forall|j: int| 0 <= j < k ==> #[trigger] pools[j].id != id,
    ensures
        k < pools.len() && pools[k].id == id ==> first_with_id(pools, id) == k,
        k == pools.len() ==> first_with_id(pools, id) == -1,
    decreases pools.len(),
{
    if pools.len() > 0 && k > 0 {
        let rest = pools.drop_first();
        assert forall|j: int| 0 <= j < k - 1 implies #[trigger] rest[j].id != id by {
            assert(rest[j] == pools[j + 1]);
        }
        lemma_first_with_id(rest, id, k - 1);
        if k < pools.len() {
            assert(rest[k - 1] == pools[k]);
        }
    }
}

/// What sealing a full active pool does before an allocation: nothing when
/// the active pool has room; a rotation when possible; otherwise a new pool
/// from `create`, or the error that stopped it (`err`).
pub open spec fn rotation_outcome<F: Fn(u32) -> Result<u64, i32>>(
    s0: PoolsView,
    create: F,
    queue_family_index: u32,
    id: u64,
    s1: PoolsView,
    err: Option<CommandPoolError>,
) -> bool {
    if s0.active.next_free_index < MAX_BUFFERS_PER_POOL {
        s1 == s0 && err is None
    } else if s0.can_rotate() {
        s1 == s0.rotated() && err is None
    } else if s0.pending.len() >= MAX_PENDING_TRACKED_POOL {
        s1 == s0 && err == Some(CommandPoolError::PendingFull)
    } else {
        exists|o: Result<u64, i32>|
            #[trigger] call_ensures(create, (queue_family_index,), o) && match o {
                Ok(pool) => s1 == s0.sealed_with(PoolView::fresh(pool, id)) && err is None,
                Err(v) => s1 == s0 && err == Some(CommandPoolError::Vulkan(v)),
            }
    }
}

/// What handing out the next buffer of the active pool does: reuse an
/// already allocated buffer, or allocate one from the pool through `alloc`
/// and record its owner.
pub open spec fn allocation_outcome<G: Fn(u64) -> Result<u64, i32>>(
    s1: PoolsView,
    alloc: G,
    s2: PoolsView,
    r: Result<u64, CommandPoolError>,
) -> bool {
    let a = s1.active;
    if a.next_free_index < a.buffers.len() {
        r == Ok::<u64, CommandPoolError>(a.buffers[a.next_free_index as int]) && s2 == PoolsView {
            active: a.handed_out(),
            ..s1
        }
    } else {
        exists|o: Result<u64, i32>|
            #[trigger] call_ensures(alloc, (a.pool,), o) && match o {
                Ok(cmd) => r == Ok::<u64, CommandPoolError>(cmd) && s2 == PoolsView {
                    active: a.appended(cmd).handed_out(),
                    owners: s1.owners.insert(cmd, a.id),
                    ..s1
                },
                Err(v) => r == Err::<u64, CommandPoolError>(CommandPoolError::Vulkan(v)) && s2
                    == s1,
            }
    }
}

/// A primary buffer allocation: the sealing step, then the hand-out step.
pub open spec fn primary_outcome<F: Fn(u32) -> Result<u64, i32>, G: Fn(u64) -> Result<u64, i32>>(
    s0: PoolsView,
    create: F,
    alloc: G,
    queue_family_index: u32,
    id: u64,
    s2: PoolsView,
    r: Result<u64, CommandPoolError>,
) -> bool {
    exists|s1: PoolsView, e: Option<CommandPoolError>|
        #[trigger] rotation_outcome(s0, create, queue_family_index, id, s1, e) && match e {
            Some(err) => r == Err::<u64, CommandPoolError>(err) && s2 == s1,
            None => allocation_outcome(s1, alloc, s2, r),
        }
}

/// What the caller must guarantee before giving `cmd` back: the pool it
/// belongs to still counts it as in flight.
pub open spec fn recycle_allowed(s: PoolsView, cmd: u64) -> bool {
    s.owners.contains_key(cmd) ==> {
        let id = s.owners[cmd];
        if s.active.id == id {
            s.active.in_flight > 0
        } else {
            let k = first_with_id(s.pending, id);
            k >= 0 ==> s.pending[k].in_flight > 0
        }
    }
}

/// What giving back `cmd` does: the owning pool's `in_flight` drops by one;
/// an active pool that reaches 0 is reset through `reset`, a pending pool
/// that reaches 0 is reset and moved to `free`.
pub open spec fn recycle_outcome<R: FnOnce(u64) -> Result<(), i32>>(
    s: PoolsView,
    reset: R,
    cmd: u64,
    s2: PoolsView,
    r: Result<(), CommandPoolError>,
) -> bool {
    if !s.owners.contains_key(cmd) {
        r == Err::<(), CommandPoolError>(CommandPoolError::BufferNotTracked) && s2 == s
    } else {
        let id = s.owners[cmd];
        if s.active.id == id {
            let a1 = s.active.released();
            if a1.in_flight == 0 {
                exists|o: Result<(), i32>|
                    #[trigger] call_ensures(reset, (a1.pool,), o) && match o {
                        Ok(_) => r is Ok && s2 == PoolsView { active: a1.rewound(), ..s },
                        Err(v) => r == Err::<(), CommandPoolError>(CommandPoolError::Vulkan(v)) && s2
                            == PoolsView { active: a1, ..s },
                    }
            } else {
                r is Ok && s2 == PoolsView { active: a1, ..s }
            }
        } else {
            let k = first_with_id(s.pending, id);
            if k < 0 {
                r is Ok && s2 == s
            } else {
                let p1 = s.pending[k].released();
                let s1 = PoolsView { pending: s.pending.update(k, p1), ..s };
                if p1.in_flight != 0 {
                    r is Ok && s2 == s1
                } else if s.free.len() >= MAX_FREE_TRACKED_POOL {
                    r == Err::<(), CommandPoolError>(CommandPoolError::FreeFull) && s2 == s1
                } else {
                    exists|o: Result<(), i32>|
                        #[trigger] call_ensures(reset, (p1.pool,), o) && match o {
                            Ok(_) => r is Ok && s2 == s1.moved_to_free(k, true),
                            Err(v) => r == Err::<(), CommandPoolError>(CommandPoolError::Vulkan(v))
                                && s2 == s1,
                        }
                }
            }
        }
    }
}

/// Pools of one `(thread, queue family)` pair: the active pool, the sealed
/// pending ones and the reset free ones.
pub struct QueueFamilyPoolsInner {
    active: TrackedPool,
    pending: PendingPools,
    free: FreePools,
    buffer_to_pool: BufferOwners,
    next_pool_id: u64,
}

impl QueueFamilyPoolsInner {
    /// Abstract state.
    pub closed spec fn pools_view(&self) -> PoolsView {
        PoolsView {
            active: self.active@,
            pending: pending_pools_contents(self.pending).map_values(|p: TrackedPool| p@),
            free: free_pools_contents(self.free).map_values(|p: TrackedPool| p@),
            owners: buffer_owners_contents(self.buffer_to_pool),
            next_pool_id: self.next_pool_id,
        }
    }

    /// Every stored pool is consistent and the abstract invariant holds.
    pub closed spec fn wf(&self) -> bool {
        &&& self.active.wf()
        &&& forall|i: int|
            0 <= i < pending_pools_contents(self.pending).len() ==> (#[trigger] pending_pools_contents(
                self.pending,
            )[i]).wf()
        &&& forall|i: int|
            0 <= i < free_pools_contents(self.free).len() ==> (#[trigger] free_pools_contents(
                self.free,
            )[i]).wf()
        &&& self.pools_view().wf()
        &&& owners_fit(self.pools_view())
        &&& all_tracked(self.pools_view())
    }
}

impl QueueFamilyPoolsInner {
    /// A consistent pair holds at most 24 pending and 16 free pools, its
    /// owner map has room for every buffer its pools can hold, and every
    /// buffer of every pool has an owner.
    pub proof fn lemma_tracking(&self)
        requires
            self.wf(),
        ensures
            self@.wf(),
            self@.pending.len() <= MAX_PENDING_TRACKED_POOL,
            self@.free.len() <= MAX_FREE_TRACKED_POOL,
            owners_fit(self@),
            all_tracked(self@),
            total_buffers(self@) < MAX_TRACKED_BUFFERS,
    {
        lemma_total_buffers_bound(self@);
    }
}

proof fn lemma_pool_wf(p: TrackedPool)
    requires
        p.wf(),
    ensures
        p@.wf(),
{
}

impl QueueFamilyPoolsInner {
    /// State of a pair right after its first pool was created.
    pub fn new_with_active(pool: u64, id: u64) -> (r: Self)
        ensures
            r.wf(),
            r@ == PoolsView::initial(pool, id),
    {
        let r = QueueFamilyPoolsInner {
            active: TrackedPool::new(pool, id),
            pending: PendingPools::new(),
            free: FreePools::new(),
            buffer_to_pool: BufferOwners::new(),
            next_pool_id: 1,
        };
        assert(r@.pending =~= Seq::<PoolView>::empty());
        assert(r@.free =~= Seq::<PoolView>::empty());
        r
    }

    /// The active pool.
    pub fn active(&self) -> (r: TrackedPool)
        requires
            self.wf(),
        ensures
            r@ == self@.active,
            r.wf(),
    {
        self.active
    }

    /// Number of pending pools.
    pub fn pending_len(&self) -> (r: usize)
        requires
            self.wf(),
        ensures
            r == self@.pending.len(),
    {
        self.pending.len()
    }

    /// Number of free pools.
    pub fn free_len(&self) -> (r: usize)
        requires
            self.wf(),
        ensures
            r == self@.free.len(),
    {
        self.free.len()
    }

    /// The pending pool at `index`.
    pub fn pending_at(&self, index: usize) -> (r: TrackedPool)
        requires
            self.wf(),
            index < self@.pending.len(),
        ensures
            r@ == self@.pending[index as int],
    {
        self.pending.get(index)
    }

    /// The free pool at `index`.
    pub fn free_at(&self, index: usize) -> (r: TrackedPool)
        requires
            self.wf(),
            index < self@.free.len(),
        ensures
            r@ == self@.free[index as int],
    {
        self.free.get(index)
    }

    /// Id of the pool that handed out `cmd`, if it is tracked.
    pub fn owner_of(&self, cmd: u64) -> (r: Option<u64>)
        requires
            self.wf(),
        ensures
            r == (if self@.owners.contains_key(cmd) {
                Some(self@.owners[cmd])
            } else {
                None
            }),
    {
        self.buffer_to_pool.get(cmd)
    }

    /// True when there is room in `pending` and a pool in `free`.
    pub fn can_rotate(&self) -> (r: bool)
        requires
            self.wf(),
        ensures
            r == self@.can_rotate(),
    {
        self.pending.len() < MAX_PENDING_TRACKED_POOL && self.free.len() > 0
    }

    /// Moves the active pool to the end of `pending` and makes the last free
    /// pool active.
    pub fn rotate_active_pool(&mut self) -> (r: Result<(), RotateError>)
        requires
            old(self).wf(),
        ensures
            final(self).wf(),
            r == (if old(self)@.pending.len() == MAX_PENDING_TRACKED_POOL {
                Err(RotateError::PendingFull)
            } else if old(self)@.free.len() == 0 {
                Err(RotateError::FreeEmpty)
            } else {
                Ok(())
            }),
            r is Ok ==> final(self)@ == old(self)@.rotated(),
            r is Err ==> final(self)@ == old(self)@,
    {
        if self.pending.len() == MAX_PENDING_TRACKED_POOL {
            return Err(RotateError::PendingFull);
        }
        if self.free.len() == 0 {
            return Err(RotateError::FreeEmpty);
        }
        let ghost s0 = self@;
        let ghost fc = free_pools_contents(self.free);
        let ghost pc = pending_pools_contents(self.pending);
        let old_active = self.active;
        let popped = self.free.pop();
        let next = popped.unwrap();
        let pushed = self.pending.push(old_active);
        assert(pushed is Ok);
        self.active = next;
        proof {
            assert(fc.last() == fc[fc.len() - 1]);
            assert(self@.pending =~= s0.pending.push(s0.active)) by {
                assert(pending_pools_contents(self.pending) == pc.push(old_active));
            }
            assert(self@.free =~= s0.free.drop_last()) by {
                assert(free_pools_contents(self.free) == fc.drop_last());
            }
            assert(self@.active == s0.free.last());
            let pn = pending_pools_contents(self.pending);
            assert forall|i: int| 0 <= i < pn.len() implies (#[trigger] pn[i]).wf() by {
                if i < pc.len() {
                    assert(pn[i] == pc[i]);
                }
            }
            let fnw = free_pools_contents(self.free);
            assert forall|i: int| 0 <= i < fnw.len() implies (#[trigger] fnw[i]).wf() by {
                assert(fnw[i] == fc[i]);
            }
            assert(fc[fc.len() - 1].wf());
            assert(self@.pending[s0.pending.len() as int] == s0.active);
            lemma_buffers_in_push(s0.pending, s0.active);
            assert(buffers_in(s0.free) == buffers_in(s0.free.drop_last()) + s0.free.last().buffers.len());
            assert(total_buffers(self@) == total_buffers(s0));
        }
        Ok(())
    }
}

impl QueueFamilyPoolsInner {
    /// Moves the pending pool at `index` to the end of `free`, shifting the
    /// later pending pools down. With `reset`, the native pool is reset first
    /// and the bump allocator rewound; if that call fails nothing moves.
    /// Without it, the pool must already be rewound.
    pub fn move_pending_to_free_at<F: FnOnce(u64) -> Result<(), i32>>(
        &mut self,
        index: usize,
        reset: Option<F>,
    ) -> (r: Result<(), MovePoolError>)
        requires
            old(self).wf(),
            index < old(self)@.pending.len() && old(self)@.free.len() < MAX_FREE_TRACKED_POOL ==> match reset {
                Some(f) => call_requires(f, (old(self)@.pending[index as int].pool,)),
                None => old(self)@.pending[index as int].is_reset(),
            },
        ensures
            final(self).wf(),
            index >= old(self)@.pending.len() ==> r == Err::<(), MovePoolError>(
                MovePoolError::IndexOutOfBounds,
            ) && final(self)@ == old(self)@,
            index < old(self)@.pending.len() && old(self)@.free.len() >= MAX_FREE_TRACKED_POOL
                ==> r == Err::<(), MovePoolError>(MovePoolError::FreeFull) && final(self)@ == old(self)@,
            index < old(self)@.pending.len() && old(self)@.free.len() < MAX_FREE_TRACKED_POOL
                ==> match reset {
                None => r is Ok && final(self)@ == old(self)@.moved_to_free(index as int, false),
                Some(f) => exists|o: Result<(), i32>|
                    #[trigger] call_ensures(f, (old(self)@.pending[index as int].pool,), o) && match o {
                        Ok(_) => r is Ok && final(self)@ == old(self)@.moved_to_free(index as int, true),
                        Err(v) => r == Err::<(), MovePoolError>(MovePoolError::Vulkan(v)) && final(self)@ == old(self)@,
                    },
            },
    {
        let pending_len = self.pending.len();
        let free_len = self.free.len();
        if index >= pending_len {
            return Err(MovePoolError::IndexOutOfBounds);
        }
        if free_len == MAX_FREE_TRACKED_POOL {
            return Err(MovePoolError::FreeFull);
        }
        let ghost s0 = self@;
        let ghost pc = pending_pools_contents(self.pending);
        let ghost fc = free_pools_contents(self.free);
        let target = self.pending.get(index);
        assert(target@ == s0.pending[index as int]);
        let do_reset = reset.is_some();
        match reset {
            Some(f) => {
                let res = f(target.pool);
                match res {
                    Ok(()) => {},
                    Err(v) => {
                        assert(call_ensures(f, (s0.pending[index as int].pool,), res));
                        return Err(MovePoolError::Vulkan(v));
                    },
                }
                assert(call_ensures(f, (s0.pending[index as int].pool,), res));
            },
            None => {},
        }
        let mut moved = self.pending.remove(index);
        if do_reset {
            moved.next_free_index = 0;
            moved.in_flight = 0;
        }
        let pushed = self.free.push(moved);
        assert(pushed is Ok);
        proof {
            let pn = pending_pools_contents(self.pending);
            let fnw = free_pools_contents(self.free);
            assert(pn == pc.remove(index as int));
            assert(fnw == fc.push(moved));
            assert(self@.pending =~= s0.pending.remove(index as int));
            assert(moved@ == (if do_reset {
                s0.pending[index as int].rewound()
            } else {
                s0.pending[index as int]
            }));
            assert(self@.free =~= s0.free.push(moved@));
            assert forall|i: int| 0 <= i < pn.len() implies (#[trigger] pn[i]).wf() by {
                if i < index {
                    assert(pn[i] == pc[i]);
                } else {
                    assert(pn[i] == pc[i + 1]);
                }
            }
            assert(pc[index as int].wf());
            assert forall|i: int| 0 <= i < fnw.len() implies (#[trigger] fnw[i]).wf() by {
                if i < fc.len() {
                    assert(fnw[i] == fc[i]);
                }
            }
            assert(self@.free[fc.len() as int] == moved@);
            assert(forall|i: int| 0 <= i < self@.pending.len() ==> #[trigger] self@.pending[i] == (
            if i < index {
                s0.pending[i]
            } else {
                s0.pending[i + 1]
            }));
            lemma_buffers_in_remove(s0.pending, index as int);
            lemma_buffers_in_push(s0.free, moved@);
            assert(total_buffers(self@) == total_buffers(s0));
        }
        Ok(())
    }

    /// Seals the active pool into `pending` and makes a pool newly created by
    /// `create` active. If creation fails the old active pool stays in place.
    pub fn move_active_to_pending_and_allocate_new<F: Fn(u32) -> Result<u64, i32>>(
        &mut self,
        create: &F,
        queue_family_index: u32,
        id: u64,
    ) -> (r: Result<(), CommandPoolError>)
        requires
            old(self).wf(),
            forall|q: u32| call_requires(*create, (q,)),
        ensures
            final(self).wf(),
            old(self)@.pending.len() >= MAX_PENDING_TRACKED_POOL ==> r == Err::<(), CommandPoolError>(
                CommandPoolError::PendingFull,
            ) && final(self)@ == old(self)@,
            old(self)@.pending.len() < MAX_PENDING_TRACKED_POOL ==> exists|o: Result<u64, i32>|
                #[trigger] call_ensures(*create, (queue_family_index,), o) && match o {
                    Ok(pool) => r is Ok && final(self)@ == old(self)@.sealed_with(
                        PoolView::fresh(pool, id),
                    ),
                    Err(v) => r == Err::<(), CommandPoolError>(CommandPoolError::Vulkan(v)) && final(self)@ == old(self)@,
                },
    {
        if self.pending.len() >= MAX_PENDING_TRACKED_POOL {
            return Err(CommandPoolError::PendingFull);
        }
        let ghost s0 = self@;
        let ghost pc = pending_pools_contents(self.pending);
        let res = create(queue_family_index);
        match res {
            Err(v) => {
                assert(call_ensures(*create, (queue_family_index,), res));
                Err(CommandPoolError::Vulkan(v))
            },
            Ok(pool) => {
                let old_active = self.active;
                let pushed = self.pending.push(old_active);
                assert(pushed is Ok);
                self.active = TrackedPool::new(pool, id);
                proof {
                    let pn = pending_pools_contents(self.pending);
                    assert(pn == pc.push(old_active));
                    assert(self@.pending =~= s0.pending.push(s0.active));
                    assert forall|i: int| 0 <= i < pn.len() implies (#[trigger] pn[i]).wf() by {
                        if i < pc.len() {
                            assert(pn[i] == pc[i]);
                        }
                    }
                    assert(self@.pending[s0.pending.len() as int] == s0.active);
                    assert(call_ensures(*create, (queue_family_index,), res));
                    lemma_buffers_in_push(s0.pending, s0.active);
                    assert(total_buffers(self@) == total_buffers(s0));
                }
                Ok(())
            },
        }
    }
}

impl QueueFamilyPoolsInner {
    /// Hands out the next buffer of the active pool: an already allocated
    /// one when the pool has been reset, otherwise one newly allocated from
    /// the pool by `alloc`, whose owner is then recorded.
    #[verifier::spinoff_prover]
    #[verifier::rlimit(40)]
    fn hand_out<G: Fn(u64) -> Result<u64, i32>>(&mut self, alloc: &G) -> (r: Result<
        u64,
        CommandPoolError,
    >)
        requires
            old(self).wf(),
            old(self)@.active.next_free_index < MAX_BUFFERS_PER_POOL,
            forall|p: u64| call_requires(*alloc, (p,)),
        ensures
            final(self).wf(),
            allocation_outcome(old(self)@, *alloc, final(self)@, r),
            r matches Ok(cmd) ==> final(self)@.owners.contains_key(cmd),
    {
        let ghost s1 = self@;
        let mut active = self.active;
        if active.next_free_index < active.allocated_count {
            let cmd = active.allocated_buffers[active.next_free_index];
            assert(s1.active.buffers[active.next_free_index as int] == cmd);
            active.next_free_index = active.next_free_index + 1;
            active.in_flight = active.in_flight + 1;
            self.active = active;
            proof {
                assert(self@.active =~= s1.active.handed_out());
            }
            return Ok(cmd);
        }
        let res = alloc(active.pool);
        match res {
            Err(v) => {
                assert(call_ensures(*alloc, (s1.active.pool,), res));
                Err(CommandPoolError::Vulkan(v))
            },
            Ok(cmd) => {
                let count = active.allocated_count;
                active.allocated_buffers[count] = cmd;
                active.allocated_count = count + 1;
                active.next_free_index = active.next_free_index + 1;
                active.in_flight = active.in_flight + 1;
                self.active = active;
                let id = active.id;
                proof {
                    lemma_total_buffers_bound(s1);
                }
                let _ = self.buffer_to_pool.insert(cmd, id);
                proof {
                    assert(self@.owners == s1.owners.insert(cmd, id));
                    assert(self@.owners.dom() =~= s1.owners.dom().insert(cmd));
                    assert(total_buffers(self@) == total_buffers(s1) + 1);
                    assert(self@.active.buffers =~= s1.active.buffers.push(cmd));
                    assert(self@.active =~= s1.active.appended(cmd).handed_out());
                    assert(call_ensures(*alloc, (s1.active.pool,), res));
                }
                Ok(cmd)
            },
        }
    }

    /// Allocates a primary command buffer for this pair: seals a full active
    /// pool first (by rotation, or into a pool from `create`), then hands
    /// out the next buffer.
    pub fn allocate_primary_in<F: Fn(u32) -> Result<u64, i32>, G: Fn(u64) -> Result<u64, i32>>(
        &mut self,
        create: &F,
        alloc: &G,
        queue_family_index: u32,
        id: u64,
    ) -> (r: Result<u64, CommandPoolError>)
        requires
            old(self).wf(),
            forall|q: u32| call_requires(*create, (q,)),
            forall|p: u64| call_requires(*alloc, (p,)),
        ensures
            final(self).wf(),
            primary_outcome(old(self)@, *create, *alloc, queue_family_index, id, final(self)@, r),
            r matches Ok(cmd) ==> final(self)@.owners.contains_key(cmd),
    {
        let ghost s0 = self@;
        if self.active.next_free_index >= MAX_BUFFERS_PER_POOL {
            if self.can_rotate() {
                let rr = self.rotate_active_pool();
                assert(rr is Ok);
                assert(rotation_outcome(s0, *create, queue_family_index, id, self@, None));
            } else {
                let mr = self.move_active_to_pending_and_allocate_new(create, queue_family_index, id);
                match mr {
                    Err(e) => {
                        proof {
                            if s0.pending.len() < MAX_PENDING_TRACKED_POOL {
                                let o = choose|o: Result<u64, i32>|
                                    #[trigger] call_ensures(*create, (queue_family_index,), o) && match o {
                                        Ok(pool) => mr is Ok && self@ == s0.sealed_with(
                                            PoolView::fresh(pool, id),
                                        ),
                                        Err(v) => mr == Err::<(), CommandPoolError>(
                                            CommandPoolError::Vulkan(v),
                                        ) && self@ == s0,
                                    };
                                assert(rotation_outcome(s0, *create, queue_family_index, id, self@, Some(e)));
                            }
                            assert(rotation_outcome(s0, *create, queue_family_index, id, self@, Some(e)));
                        }
                        return Err(e);
                    },
                    Ok(()) => {
                        proof {
                            let o = choose|o: Result<u64, i32>|
                                #[trigger] call_ensures(*create, (queue_family_index,), o) && match o {
                                    Ok(pool) => mr is Ok && self@ == s0.sealed_with(
                                        PoolView::fresh(pool, id),
                                    ),
                                    Err(v) => mr == Err::<(), CommandPoolError>(
                                        CommandPoolError::Vulkan(v),
                                    ) && self@ == s0,
                                };
                            assert(rotation_outcome(s0, *create, queue_family_index, id, self@, None));
                        }
                    },
                }
            }
        } else {
            assert(rotation_outcome(s0, *create, queue_family_index, id, self@, None));
        }
        let ghost s1 = self@;
        proof {
            lemma_pool_wf(self.active);
        }
        let r = self.hand_out(alloc);
        assert(rotation_outcome(s0, *create, queue_family_index, id, s1, None));
        r
    }
}

impl QueueFamilyPoolsInner {
    /// Gives back `cmd`: its pool's `in_flight` drops by one; an active pool
    /// reaching 0 is reset through `reset`; a pending pool reaching 0 is
    /// reset and moved to `free`.
    pub fn recycle_in<R: FnOnce(u64) -> Result<(), i32>>(&mut self, reset: R, cmd: u64) -> (r:
        Result<(), CommandPoolError>)
        requires
            old(self).wf(),
            forall|p: u64| call_requires(reset, (p,)),
            recycle_allowed(old(self)@, cmd),
        ensures
            final(self).wf(),
            recycle_outcome(old(self)@, reset, cmd, final(self)@, r),
    {
        let ghost s0 = self@;
        let pool_id = match self.buffer_to_pool.get(cmd) {
            Some(id) => id,
            None => {
                return Err(CommandPoolError::BufferNotTracked);
            },
        };
        if self.active.id == pool_id {
            self.active.in_flight = self.active.in_flight - 1;
            assert(self@.active == s0.active.released());
            if self.active.in_flight == 0 {
                let ghost s1 = self@;
                let res = self.active.reset_memory(reset);
                match res {
                    Ok(()) => {
                        proof {
                            lemma_pool_wf(self.active);
                        }
                        assert(self@ == PoolsView { active: s0.active.released().rewound(), ..s0 });
                        return Ok(());
                    },
                    Err(v) => {
                        assert(self@ == PoolsView { active: s0.active.released(), ..s0 });
                        return Err(CommandPoolError::Vulkan(v));
                    },
                }
            }
            return Ok(());
        }
        let ghost pc = pending_pools_contents(self.pending);
        let len = self.pending.len();
        let mut i: usize = 0;
        while i < len && self.pending.get(i).id != pool_id
            invariant
                self.wf(),
                self@ == s0,
                pending_pools_contents(self.pending) == pc,
                len == s0.pending.len(),
                0 <= i <= len,
                forall|j: int| 0 <= j < i ==> #[trigger] s0.pending[j].id != pool_id,
            decreases len - i,
        {
            i = i + 1;
        }
        if i == len {
            proof {
                lemma_first_with_id(s0.pending, pool_id, i as int);
            }
            return Ok(());
        }
        let k = i;
        proof {
            lemma_first_with_id(s0.pending, pool_id, k as int);
        }
        let mut p = self.pending.get(k);
        p.in_flight = p.in_flight - 1;
        let remaining = p.in_flight;
        self.pending.set(k, p);
        let ghost s1 = self@;
        proof {
            let pn = pending_pools_contents(self.pending);
            assert(pn == pc.update(k as int, p));
            assert(s1.pending =~= s0.pending.update(k as int, s0.pending[k as int].released()));
            assert forall|j: int| 0 <= j < pn.len() implies (#[trigger] pn[j]).wf() by {
                if j != k {
                    assert(pn[j] == pc[j]);
                }
            }
            lemma_buffers_in_update(s0.pending, k as int, s0.pending[k as int].released());
            assert(total_buffers(s1) == total_buffers(s0));
        }
        if remaining == 0 {
            let mr = self.move_pending_to_free_at(k, Some(reset));
            match mr {
                Ok(()) => {
                    return Ok(());
                },
                Err(e) => {
                    return Err(CommandPoolError::from_move(e));
                },
            }
        }
        Ok(())
    }
}

impl View for QueueFamilyPoolsInner {
    type V = PoolsView;

    open spec fn view(&self) -> PoolsView {
        self.pools_view()
    }
}

/// Pools of one `(thread, queue family)` pair, with the pair.
pub struct RegistryEntry {
    thread_id: u64,
    queue_family_index: u32,
    pools: QueueFamilyPoolsInner,
}

/// Key of a registry entry.
pub closed spec fn entry_key(e: RegistryEntry) -> (u64, u32) {
    (e.thread_id, e.queue_family_index)
}

/// No two entries share a key.
pub closed spec fn unique_keys(s: Seq<RegistryEntry>) -> bool {
    forall|i: int, j: int|
        0 <= i < s.len() && 0 <= j < s.len() && i != j ==> entry_key(#[trigger] s[i]) != entry_key(
            #[trigger] s[j],
        )
}

/// Some entry has key `k`.
pub closed spec fn has_key(s: Seq<RegistryEntry>, k: (u64, u32)) -> bool {
    exists|i: int| 0 <= i < s.len() && entry_key(#[trigger] s[i]) == k
}

/// Position of the entry with key `k`.
pub closed spec fn key_index(s: Seq<RegistryEntry>, k: (u64, u32)) -> int {
    choose|i: int| 0 <= i < s.len() && entry_key(#[trigger] s[i]) == k
}

/// The registry as a map from `(thread, queue family)` to pool state.
pub closed spec fn registry_view(s: Seq<RegistryEntry>) -> Map<(u64, u32), PoolsView> {
    Map::new(|k: (u64, u32)| has_key(s, k), |k: (u64, u32)| s[key_index(s, k)].pools@)
}

proof fn lemma_key_index(s: Seq<RegistryEntry>, i: int)
    requires
        unique_keys(s),
        0 <= i < s.len(),
    ensures
        has_key(s, entry_key(s[i])),
        key_index(s, entry_key(s[i])) == i,
{
    let k = entry_key(s[i]);
    assert(entry_key(s[i]) == k);
    let j = key_index(s, k);
    if j != i {
        assert(entry_key(s[j]) != entry_key(s[i]));
    }
}

proof fn lemma_registry_update(s: Seq<RegistryEntry>, i: int, e: RegistryEntry)
    requires
        unique_keys(s),
        0 <= i < s.len(),
        entry_key(e) == entry_key(s[i]),
    ensures
        unique_keys(s.update(i, e)),
        registry_view(s.update(i, e)) == registry_view(s).insert(entry_key(e), e.pools@),
{
    let t = s.update(i, e);
    assert forall|a: int, b: int|
        0 <= a < t.len() && 0 <= b < t.len() && a != b implies entry_key(#[trigger] t[a]) != entry_key(
        #[trigger] t[b],
    ) by {
        assert(entry_key(t[a]) == entry_key(s[a]));
        assert(entry_key(t[b]) == entry_key(s[b]));
    }
    assert forall|k: (u64, u32)| #[trigger] has_key(t, k) == has_key(s, k) by {
        if has_key(t, k) {
            let j = choose|j: int| 0 <= j < t.len() && entry_key(#[trigger] t[j]) == k;
            assert(entry_key(s[j]) == k);
        }
        if has_key(s, k) {
            let j = choose|j: int| 0 <= j < s.len() && entry_key(#[trigger] s[j]) == k;
            assert(entry_key(t[j]) == k);
        }
    }
    assert forall|k: (u64, u32)| has_key(t, k) implies #[trigger] registry_view(t)[k] == registry_view(
        s,
    ).insert(entry_key(e), e.pools@)[k] by {
        let j = key_index(s, k);
        lemma_key_index(s, j);
        lemma_key_index(t, j);
    }
    assert(registry_view(t) =~= registry_view(s).insert(entry_key(e), e.pools@));
}

proof fn lemma_registry_push(s: Seq<RegistryEntry>, e: RegistryEntry)
    requires
        unique_keys(s),
        !has_key(s, entry_key(e)),
    ensures
        unique_keys(s.push(e)),
        registry_view(s.push(e)) == registry_view(s).insert(entry_key(e), e.pools@),
{
    let t = s.push(e);
    assert forall|a: int, b: int|
        0 <= a < t.len() && 0 <= b < t.len() && a != b implies entry_key(#[trigger] t[a]) != entry_key(
        #[trigger] t[b],
    ) by {
        if a < s.len() && b < s.len() {
            assert(t[a] == s[a] && t[b] == s[b]);
        } else if a < s.len() {
            assert(t[a] == s[a]);
            assert(entry_key(s[a]) != entry_key(e));
        } else if b < s.len() {
            assert(t[b] == s[b]);
            assert(entry_key(s[b]) != entry_key(e));
        }
    }
    assert forall|k: (u64, u32)| #[trigger] has_key(t, k) == (has_key(s, k) || k == entry_key(e)) by {
        if has_key(t, k) {
            let j = choose|j: int| 0 <= j < t.len() && entry_key(#[trigger] t[j]) == k;
            if j < s.len() {
                assert(t[j] == s[j]);
            }
        }
        if has_key(s, k) {
            let j = choose|j: int| 0 <= j < s.len() && entry_key(#[trigger] s[j]) == k;
            assert(t[j] == s[j]);
        }
        if k == entry_key(e) {
            assert(entry_key(t[s.len() as int]) == k);
        }
    }
    assert forall|k: (u64, u32)| has_key(t, k) implies #[trigger] registry_view(t)[k] == registry_view(
        s,
    ).insert(entry_key(e), e.pools@)[k] by {
        if k == entry_key(e) {
            lemma_key_index(t, s.len() as int);
        } else {
            let j = key_index(s, k);
            lemma_key_index(s, j);
            assert(t[j] == s[j]);
            lemma_key_index(t, j);
        }
    }
    assert(registry_view(t) =~= registry_view(s).insert(entry_key(e), e.pools@));
}

/// Command pools of every `(thread, queue family)` pair.
pub struct CommandPools {
    registry: Vec<RegistryEntry>,
}

impl View for CommandPools {
    type V = Map<(u64, u32), PoolsView>;

    open spec fn view(&self) -> Map<(u64, u32), PoolsView> {
        registry_view(self.entries())
    }
}

impl CommandPools {
    /// The registry entries, in creation order.
    pub closed spec fn entries(&self) -> Seq<RegistryEntry> {
        self.registry@
    }

    /// Keys are unique and every pair's pools are consistent.
    pub closed spec fn wf(&self) -> bool {
        &&& unique_keys(self.registry@)
        &&& forall|i: int| 0 <= i < self.registry@.len() ==> (#[trigger] self.registry@[i]).pools.wf()
    }

    /// Every pair's state satisfies the abstract invariant.
    pub proof fn lemma_wf_view(&self)
        requires
            self.wf(),
        ensures
            forall|k: (u64, u32)| #[trigger] self@.contains_key(k) ==> self@[k].wf(),
            forall|k: (u64, u32)|
                #[trigger] self@.contains_key(k) ==> owners_fit(self@[k]) && all_tracked(self@[k]),
    {
        assert forall|k: (u64, u32)| #[trigger] self@.contains_key(k) implies self@[k].wf() && owners_fit(
            self@[k],
        ) && all_tracked(self@[k]) by {
            let j = key_index(self.registry@, k);
            assert(self.registry@[j].pools.wf());
        }
    }

    /// No pair has pools yet.
    pub fn new() -> (r: Self)
        ensures
            r.wf(),
            r@ == Map::<(u64, u32), PoolsView>::empty(),
    {
        let r = CommandPools { registry: Vec::new() };
        assert(r@ =~= Map::<(u64, u32), PoolsView>::empty());
        r
    }

    fn find(&self, thread_id: u64, queue_family_index: u32) -> (r: Option<usize>)
        requires
            self.wf(),
        ensures
            r is None ==> !has_key(self.registry@, (thread_id, queue_family_index)),
            r matches Some(i) ==> i < self.registry@.len() && entry_key(self.registry@[i as int]) == (
            thread_id,
            queue_family_index,
            ),
    {
        let mut i: usize = 0;
        while i < self.registry.len()
            invariant
                0 <= i <= self.registry@.len(),
                forall|j: int| 0 <= j < i ==> entry_key(#[trigger] self.registry@[j]) != (
                thread_id,
                queue_family_index,
                ),
            decreases self.registry@.len() - i,
        {
            if self.registry[i].thread_id == thread_id && self.registry[i].queue_family_index
                == queue_family_index {
                return Some(i);
            }
            i = i + 1;
        }
        None
    }

    /// The pools of a pair, if it has any.
    pub fn pools_of(&self, thread_id: u64, queue_family_index: u32) -> (r: Option<
        &QueueFamilyPoolsInner,
    >)
        requires
            self.wf(),
        ensures
            r is None <==> !self@.contains_key((thread_id, queue_family_index)),
            r matches Some(p) ==> p.wf() && p@ == self@[(thread_id, queue_family_index)],
    {
        match self.find(thread_id, queue_family_index) {
            None => None,
            Some(i) => {
                proof {
                    lemma_key_index(self.registry@, i as int);
                }
                Some(&self.registry[i].pools)
            },
        }
    }

    /// Allocates a primary command buffer for `(thread_id, queue_family_index)`.
    /// A pair seen for the first time gets a pool from `create` (its id is
    /// the command buffer id); then a full active pool is sealed and the next
    /// buffer handed out, reusing a reset one or allocating through `alloc`.
    pub fn allocate_primary<F: Fn(u32) -> Result<u64, i32>, G: Fn(u64) -> Result<u64, i32>>(
        &mut self,
        create: &F,
        alloc: &G,
        thread_id: u64,
        queue_family_index: u32,
        id: CommandBufferId,
    ) -> (r: Result<u64, CommandPoolError>)
        requires
            old(self).wf(),
            forall|q: u32| call_requires(*create, (q,)),
            forall|p: u64| call_requires(*alloc, (p,)),
        ensures
            final(self).wf(),
            old(self)@.contains_key((thread_id, queue_family_index)) ==> final(self)@.contains_key(
                (thread_id, queue_family_index),
            ) && final(self)@ == old(self)@.insert(
                (thread_id, queue_family_index),
                final(self)@[(thread_id, queue_family_index)],
            ) && primary_outcome(
                old(self)@[(thread_id, queue_family_index)],
                *create,
                *alloc,
                queue_family_index,
                id.0,
                final(self)@[(thread_id, queue_family_index)],
                r,
            ),
            r matches Ok(cmd) ==> final(self)@[(thread_id, queue_family_index)].owners.contains_key(cmd),
            !old(self)@.contains_key((thread_id, queue_family_index)) ==> exists|
                o: Result<u64, i32>,
            |
                #[trigger] call_ensures(*create, (queue_family_index,), o) && match o {
                    Err(v) => r == Err::<u64, CommandPoolError>(CommandPoolError::Vulkan(v))
                        && final(self)@ == old(self)@,
                    Ok(pool) => final(self)@.contains_key((thread_id, queue_family_index))
                        && final(self)@ == old(self)@.insert(
                        (thread_id, queue_family_index),
                        final(self)@[(thread_id, queue_family_index)],
                    ) && primary_outcome(
                        PoolsView::initial(pool, id.0),
                        *create,
                        *alloc,
                        queue_family_index,
                        id.0,
                        final(self)@[(thread_id, queue_family_index)],
                        r,
                    ),
                },
    {
        let key = (thread_id, queue_family_index);
        let ghost s = self.registry@;
        let idx = match self.find(thread_id, queue_family_index) {
            Some(i) => {
                proof {
                    lemma_key_index(s, i as int);
                }
                i
            },
            None => {
                let res = create(queue_family_index);
                match res {
                    Err(v) => {
                        assert(call_ensures(*create, (queue_family_index,), res));
                        return Err(CommandPoolError::Vulkan(v));
                    },
                    Ok(pool) => {
                        let entry = RegistryEntry {
                            thread_id,
                            queue_family_index,
                            pools: QueueFamilyPoolsInner::new_with_active(pool, id.0),
                        };
                        proof {
                            lemma_registry_push(s, entry);
                        }
                        self.registry.push(entry);
                        assert(self.registry@ == s.push(entry));
                        assert(call_ensures(*create, (queue_family_index,), res));
                        self.registry.len() - 1
                    },
                }
            },
        };
        let ghost s1 = self.registry@;
        let ghost m1 = self@;
        proof {
            lemma_key_index(s1, idx as int);
            assert(self.registry@[idx as int].pools.wf());
        }
        let mut entry = self.registry.remove(idx);
        let r = entry.pools.allocate_primary_in(create, alloc, queue_family_index, id.0);
        self.registry.insert(idx, entry);
        proof {
            assert(self.registry@ =~= s1.update(idx as int, entry));
            lemma_registry_update(s1, idx as int, entry);
            assert forall|i: int| 0 <= i < self.registry@.len() implies (
            #[trigger] self.registry@[i]).pools.wf() by {
                if i != idx {
                    assert(self.registry@[i] == s1[i]);
                }
            }
            assert(self@[key] == entry.pools@);
        }
        r
    }

    /// Gives back `cmd`, allocated for `(thread_id, queue_family_index)`: see
    /// [`QueueFamilyPoolsInner::recycle_in`].
    pub fn recycle<R: FnOnce(u64) -> Result<(), i32>>(
        &mut self,
        reset: R,
        thread_id: u64,
        queue_family_index: u32,
        cmd: u64,
    ) -> (r: Result<(), CommandPoolError>)
        requires
            old(self).wf(),
            forall|p: u64| call_requires(reset, (p,)),
            old(self)@.contains_key((thread_id, queue_family_index)) ==> recycle_allowed(
                old(self)@[(thread_id, queue_family_index)],
                cmd,
            ),
        ensures
            final(self).wf(),
            !old(self)@.contains_key((thread_id, queue_family_index)) ==> r == Err::<
                (),
                CommandPoolError,
            >(CommandPoolError::StateNotFound) && final(self)@ == old(self)@,
            old(self)@.contains_key((thread_id, queue_family_index)) ==> final(self)@.contains_key(
                (thread_id, queue_family_index),
            ) && final(self)@ == old(self)@.insert(
                (thread_id, queue_family_index),
                final(self)@[(thread_id, queue_family_index)],
            ) && recycle_outcome(
                old(self)@[(thread_id, queue_family_index)],
                reset,
                cmd,
                final(self)@[(thread_id, queue_family_index)],
                r,
            ),
    {
        let key = (thread_id, queue_family_index);
        let ghost s = self.registry@;
        let idx = match self.find(thread_id, queue_family_index) {
            Some(i) => i,
            None => {
                return Err(CommandPoolError::StateNotFound);
            },
        };
        proof {
            lemma_key_index(s, idx as int);
            assert(self.registry@[idx as int].pools.wf());
        }
        let mut entry = self.registry.remove(idx);
        let r = entry.pools.recycle_in(reset, cmd);
        self.registry.insert(idx, entry);
        proof {
            assert(self.registry@ =~= s.update(idx as int, entry));
            lemma_registry_update(s, idx as int, entry);
            assert forall|i: int| 0 <= i < self.registry@.len() implies (
            #[trigger] self.registry@[i]).pools.wf() by {
                if i != idx {
                    assert(self.registry@[i] == s[i]);
                }
            }
            assert(self@[key] == entry.pools@);
        }
        r
    }

    /// Empties the registry and returns the native pools that must be
    /// destroyed: every pending and free pool, entry by entry. Active pools
    /// are not returned.
    pub fn cleanup(&mut self) -> (r: Vec<u64>)
        requires
            old(self).wf(),
        ensures
            final(self).wf(),
            final(self)@ == Map::<(u64, u32), PoolsView>::empty(),
            r@ == all_sealed_pools(old(self).entries()),
    {
        let mut out: Vec<u64> = Vec::new();
        let n = self.registry.len();
        let ghost s = self.registry@;
        let mut i: usize = 0;
        while i < n
            invariant
                self.wf(),
                self.registry@ == s,
                n == s.len(),
                0 <= i <= n,
                out@ == all_sealed_pools(s.take(i as int)),
            decreases n - i,
        {
            let pools = &self.registry[i].pools;
            assert(pools.wf());
            let ghost base = out@;
            let pl = pools.pending_len();
            let mut j: usize = 0;
            while j < pl
                invariant
                    pools.wf(),
                    pl == pools@.pending.len(),
                    0 <= j <= pl,
                    out@ == base + pools@.pending.take(j as int).map_values(|p: PoolView| p.pool),
                decreases pl - j,
            {
                let p = pools.pending_at(j);
                out.push(p.pool);
                proof {
                    assert(pools@.pending.take(j + 1).map_values(|p: PoolView| p.pool) =~= pools@.pending.take(
                        j as int,
                    ).map_values(|p: PoolView| p.pool).push(p.pool));
                }
                j = j + 1;
            }
            assert(pools@.pending.take(pl as int) =~= pools@.pending);
            let ghost mid = out@;
            let fl = pools.free_len();
            let mut j: usize = 0;
            while j < fl
                invariant
                    pools.wf(),
                    fl == pools@.free.len(),
                    0 <= j <= fl,
                    out@ == mid + pools@.free.take(j as int).map_values(|p: PoolView| p.pool),
                decreases fl - j,
            {
                let p = pools.free_at(j);
                out.push(p.pool);
                proof {
                    assert(pools@.free.take(j + 1).map_values(|p: PoolView| p.pool) =~= pools@.free.take(
                        j as int,
                    ).map_values(|p: PoolView| p.pool).push(p.pool));
                }
                j = j + 1;
            }
            assert(pools@.free.take(fl as int) =~= pools@.free);
            proof {
                assert(s.take(i + 1).drop_last() =~= s.take(i as int));
                assert(s.take(i + 1).last() == s[i as int]);
                assert(out@ =~= all_sealed_pools(s.take(i as int)) + sealed_pools(s[i as int].pools@));
            }
            i = i + 1;
        }
        assert(s.take(n as int) =~= s);
        self.registry = Vec::new();
        assert(self@ =~= Map::<(u64, u32), PoolsView>::empty());
        out
    }
}

/// Native handles of a pair's pending pools, then of its free pools.
pub open spec fn sealed_pools(p: PoolsView) -> Seq<u64> {
    p.pending.map_values(|q: PoolView| q.pool) + p.free.map_values(|q: PoolView| q.pool)
}

/// Sealed pools of every entry, entry by entry.
pub closed spec fn all_sealed_pools(s: Seq<RegistryEntry>) -> Seq<u64>
    decreases s.len(),
{
    if s.len() == 0 {
        Seq::empty()
    } else {
        all_sealed_pools(s.drop_last()) + sealed_pools(s.last().pools@)
    }
}

/// Native pool handles of a multiset of tracked pools.
pub open spec fn handles_of(pools: Seq<PoolView>) -> Multiset<u64> {
    pools.map_values(|p: PoolView| p.pool).to_multiset()
}

/// Every native pool a pair owns: active, pending and free.
pub open spec fn pool_handles(s: PoolsView) -> Multiset<u64> {
    Multiset::singleton(s.active.pool).add(handles_of(s.pending)).add(handles_of(s.free))
}

proof fn lemma_handles_push(pools: Seq<PoolView>, p: PoolView)
    ensures
        handles_of(pools.push(p)) =~= handles_of(pools).insert(p.pool),
{
    broadcast use vstd::seq_lib::group_to_multiset_ensures;

    assert(pools.push(p).map_values(|q: PoolView| q.pool) =~= pools.map_values(|q: PoolView| q.pool).push(
        p.pool,
    ));
}

proof fn lemma_handles_remove(pools: Seq<PoolView>, i: int)
    requires
        0 <= i < pools.len(),
    ensures
        handles_of(pools.remove(i)) =~= handles_of(pools).remove(pools[i].pool),
{
    broadcast use vstd::seq_lib::group_to_multiset_ensures;

    let m = pools.map_values(|q: PoolView| q.pool);
    assert(pools.remove(i).map_values(|q: PoolView| q.pool) =~= m.remove(i));
    assert(m[i] == pools[i].pool);
}

/// Rotating the active pool neither loses nor creates a native pool.
pub proof fn lemma_rotation_keeps_pools(s: PoolsView)
    requires
        s.can_rotate(),
    ensures
        pool_handles(s.rotated()) =~= pool_handles(s),
{
    broadcast use vstd::multiset::group_multiset_axioms;

    lemma_handles_push(s.pending, s.active);
    let last = s.free.len() - 1;
    lemma_handles_remove(s.free, last);
    assert(s.free.remove(last) =~= s.free.drop_last());
    assert(s.free[last] == s.free.last());
    assert(handles_of(s.free).count(s.free.last().pool) > 0) by {
        broadcast use vstd::seq_lib::group_to_multiset_ensures;

        let m = s.free.map_values(|q: PoolView| q.pool);
        assert(m[last] == s.free.last().pool);
        assert(m.contains(s.free.last().pool));
    }
}

/// Moving a finished pending pool to `free` neither loses nor creates a native pool.
pub proof fn lemma_move_to_free_keeps_pools(s: PoolsView, index: int, reset: bool)
    requires
        0 <= index < s.pending.len(),
    ensures
        pool_handles(s.moved_to_free(index, reset)) =~= pool_handles(s),
{
    broadcast use vstd::multiset::group_multiset_axioms;

    let moved = if reset {
        s.pending[index].rewound()
    } else {
        s.pending[index]
    };
    lemma_handles_remove(s.pending, index);
    lemma_handles_push(s.free, moved);
    assert(handles_of(s.pending).count(s.pending[index].pool) > 0) by {
        broadcast use vstd::seq_lib::group_to_multiset_ensures;

        let m = s.pending.map_values(|q: PoolView| q.pool);
        assert(m[index] == s.pending[index].pool);
        assert(m.contains(s.pending[index].pool));
    }
}

/// Sealing the active pool into `pending` for a newly created one adds
/// exactly that pool.
pub proof fn lemma_seal_adds_pool(s: PoolsView, pool: u64, id: u64)
    ensures
        pool_handles(s.sealed_with(PoolView::fresh(pool, id))) =~= pool_handles(s).insert(pool),
{
    broadcast use vstd::multiset::group_multiset_axioms;

    lemma_handles_push(s.pending, s.active);
}

/// Every step of the pool state machine keeps the invariant: rotation,
/// sealing into a new pool, moving a rewound pool to `free`, handing out a
/// buffer below the pool capacity, and releasing a buffer in flight.
#[verifier::spinoff_prover]
#[verifier::rlimit(40)]
pub proof fn lemma_steps_keep_wf(s: PoolsView, pool: u64, id: u64, index: int, cmd: u64)
    requires
        s.wf(),
    ensures
        s.can_rotate() ==> s.rotated().wf(),
        s.pending.len() < MAX_PENDING_TRACKED_POOL ==> s.sealed_with(PoolView::fresh(pool, id)).wf(),
        0 <= index < s.pending.len() && s.free.len() < MAX_FREE_TRACKED_POOL ==> s.moved_to_free(
            index,
            true,
        ).wf(),
        s.active.next_free_index < s.active.buffers.len() ==> (PoolsView {
            active: s.active.handed_out(),
            ..s
        }).wf(),
        s.active.next_free_index == s.active.buffers.len() && s.active.buffers.len()
            < MAX_BUFFERS_PER_POOL ==> (PoolsView { active: s.active.appended(cmd).handed_out(), ..s }).wf(),
        s.active.in_flight > 0 ==> (PoolsView { active: s.active.released(), ..s }).wf(),
{
    if s.can_rotate() {
        let t = s.rotated();
        assert forall|i: int| 0 <= i < t.pending.len() implies #[trigger] t.pending[i].wf() by {
            if i < s.pending.len() {
                assert(t.pending[i] == s.pending[i]);
            }
        }
        assert forall|i: int| 0 <= i < t.free.len() implies #[trigger] t.free[i].wf() && t.free[i].is_reset() by {
            assert(t.free[i] == s.free[i]);
        }
        assert(s.free[s.free.len() - 1].wf());
    }
    if s.pending.len() < MAX_PENDING_TRACKED_POOL {
        let t = s.sealed_with(PoolView::fresh(pool, id));
        assert forall|i: int| 0 <= i < t.pending.len() implies #[trigger] t.pending[i].wf() by {
            if i < s.pending.len() {
                assert(t.pending[i] == s.pending[i]);
            }
        }
    }
    if 0 <= index < s.pending.len() && s.free.len() < MAX_FREE_TRACKED_POOL {
        lemma_move_to_free_keeps_wf(s, index);
    }
}

proof fn lemma_move_to_free_keeps_wf(s: PoolsView, index: int)
    requires
        s.wf(),
        0 <= index < s.pending.len(),
        s.free.len() < MAX_FREE_TRACKED_POOL,
    ensures
        s.moved_to_free(index, true).wf(),
{
    let p2 = s.pending.remove(index);
    let f2 = s.free.push(s.pending[index].rewound());
    assert forall|i: int| 0 <= i < p2.len() implies #[trigger] p2[i].wf() by {
        if i < index {
            assert(p2[i] == s.pending[i]);
        } else {
            assert(p2[i] == s.pending[i + 1]);
        }
    }
    assert forall|i: int| 0 <= i < f2.len() implies #[trigger] f2[i].wf() && f2[i].is_reset() by {
        if i < s.free.len() {
            assert(f2[i] == s.free[i]);
        } else {
            assert(s.pending[index].wf());
        }
    }
    let t = PoolsView { pending: p2, free: f2, ..s };
    assert(t.wf());
    assert(t == s.moved_to_free(index, true));
}

/// Giving back a buffer that has an owner never fails for want of
/// tracking, and takes one off its owner's in-flight count: the active
/// pool's when it owns the buffer, else that of the pending pool with the
/// owner's id. A pool that reaches 0 is reset (the active one in place, a
/// pending one moved to `free`); only the reset call, or a full `free`
/// list, can make the call fail.
pub proof fn lemma_recycle_releases_owner<R: FnOnce(u64) -> Result<(), i32>>(
    s: PoolsView,
    reset: R,
    cmd: u64,
    s2: PoolsView,
    r: Result<(), CommandPoolError>,
)
    requires
        recycle_outcome(s, reset, cmd, s2, r),
        s.owners.contains_key(cmd),
        recycle_allowed(s, cmd),
    ensures
        r != Err::<(), CommandPoolError>(CommandPoolError::BufferNotTracked),
        s.owners[cmd] == s.active.id ==> {
            &&& s2.active.in_flight == s.active.in_flight - 1
            &&& s2.pending == s.pending
            &&& s2.free == s.free
            &&& (r is Ok || (s.active.in_flight == 1 && exists|v: i32|
                r == Err::<(), CommandPoolError>(CommandPoolError::Vulkan(v)) && #[trigger] call_ensures(
                    reset,
                    (s.active.pool,),
                    Err::<(), i32>(v),
                )))
        },
        ({
            let k = first_with_id(s.pending, s.owners[cmd]);
            s.owners[cmd] != s.active.id && k >= 0 ==> {
                &&& s2.active == s.active
                &&& s.pending[k].in_flight > 1 ==> r is Ok && s2.pending == s.pending.update(
                    k,
                    s.pending[k].released(),
                ) && s2.free == s.free
                &&& s.pending[k].in_flight == 1 && r is Ok ==> s2.pending == s.pending.remove(k)
                    && s2.free == s.free.push(s.pending[k].released().rewound())
                &&& s.pending[k].in_flight == 1 && r is Err ==> s2.pending == s.pending.update(
                    k,
                    s.pending[k].released(),
                ) && s2.free == s.free
            }
        }),
{
    let id = s.owners[cmd];
    if s.active.id == id {
        let a1 = s.active.released();
        if a1.in_flight == 0 {
            let o = choose|o: Result<(), i32>|
                #[trigger] call_ensures(reset, (a1.pool,), o) && match o {
                    Ok(_) => r is Ok && s2 == PoolsView { active: a1.rewound(), ..s },
                    Err(v) => r == Err::<(), CommandPoolError>(CommandPoolError::Vulkan(v)) && s2
                        == PoolsView { active: a1, ..s },
                };
            match o {
                Ok(_) => {},
                Err(v) => {
                    assert(call_ensures(reset, (s.active.pool,), Err::<(), i32>(v)));
                },
            }
        }
    } else {
        let k = first_with_id(s.pending, id);
        lemma_first_with_id_range(s.pending, id);
        if k >= 0 {
            let p1 = s.pending[k].released();
            let s1 = PoolsView { pending: s.pending.update(k, p1), ..s };
            if p1.in_flight == 0 && s.free.len() < MAX_FREE_TRACKED_POOL {
                let o = choose|o: Result<(), i32>|
                    #[trigger] call_ensures(reset, (p1.pool,), o) && match o {
                        Ok(_) => r is Ok && s2 == s1.moved_to_free(k, true),
                        Err(v) => r == Err::<(), CommandPoolError>(CommandPoolError::Vulkan(v)) && s2
                            == s1,
                    };
                match o {
                    Ok(_) => {
                        assert(s1.pending.remove(k) =~= s.pending.remove(k));
                        assert(s1.pending[k] == p1);
                    },
                    Err(_) => {},
                }
            }
        }
    }
}

/// A buffer just allocated fresh from the active pool is owned by it:
/// giving it back finds it and takes one off the active pool's count.
pub proof fn lemma_fresh_buffer_recycles<G: Fn(u64) -> Result<u64, i32>, R: FnOnce(u64) -> Result<(), i32>>(
    s1: PoolsView,
    alloc: G,
    s2: PoolsView,
    cmd: u64,
    reset: R,
    s3: PoolsView,
    r: Result<(), CommandPoolError>,
)
    requires
        s1.wf(),
        s1.active.next_free_index == s1.active.buffers.len(),
        allocation_outcome(s1, alloc, s2, Ok::<u64, CommandPoolError>(cmd)),
        recycle_outcome(s2, reset, cmd, s3, r),
    ensures
        s2.owners.contains_key(cmd),
        s2.owners[cmd] == s2.active.id,
        r != Err::<(), CommandPoolError>(CommandPoolError::BufferNotTracked),
        s3.active.in_flight == s2.active.in_flight - 1,
        s3.pending == s2.pending && s3.free == s2.free,
{
    let o = choose|o: Result<u64, i32>|
        #[trigger] call_ensures(alloc, (s1.active.pool,), o) && match o {
            Ok(c) => Ok::<u64, CommandPoolError>(cmd) == Ok::<u64, CommandPoolError>(c) && s2 == PoolsView {
                active: s1.active.appended(c).handed_out(),
                owners: s1.owners.insert(c, s1.active.id),
                ..s1
            },
            Err(v) => Ok::<u64, CommandPoolError>(cmd) == Err::<u64, CommandPoolError>(CommandPoolError::Vulkan(v))
                && s2 == s1,
        };
    assert(s2.active.in_flight > 0);
    lemma_recycle_releases_owner(s2, reset, cmd, s3, r);
}

/// No two pools of a pair share an id.
pub open spec fn distinct_ids(s: PoolsView) -> bool {
    &&& forall|i: int| 0 <= i < s.pending.len() ==> #[trigger] s.pending[i].id != s.active.id
    &&& forall|i: int| 0 <= i < s.free.len() ==> #[trigger] s.free[i].id != s.active.id
    &&& forall|i: int, j: int|
        0 <= i < j < s.pending.len() ==> #[trigger] s.pending[i].id != #[trigger] s.pending[j].id
    &&& forall|i: int, j: int| 0 <= i < j < s.free.len() ==> #[trigger] s.free[i].id != #[trigger] s.free[j].id
    &&& forall|i: int, j: int|
        0 <= i < s.pending.len() && 0 <= j < s.free.len() ==> #[trigger] s.pending[i].id != #[trigger] s.free[j].id
}

/// Some pool of the pair has id `p`.
pub open spec fn has_pool_id(s: PoolsView, p: u64) -> bool {
    ||| s.active.id == p
    ||| exists|i: int| 0 <= i < s.pending.len() && #[trigger] s.pending[i].id == p
    ||| exists|i: int| 0 <= i < s.free.len() && #[trigger] s.free[i].id == p
}

/// The in-flight count of the pool that recycling a buffer owned by `p`
/// decrements: the active pool's when it has id `p`, else the first
/// pending pool's with that id; 0 when there is none.
pub open spec fn owner_in_flight(s: PoolsView, p: u64) -> nat {
    if s.active.id == p {
        s.active.in_flight
    } else {
        let k = first_with_id(s.pending, p);
        if k >= 0 {
            s.pending[k].in_flight
        } else {
            0
        }
    }
}

proof fn lemma_find_distinct(pools: Seq<PoolView>, p: u64, k: int)
    requires
        0 <= k < pools.len(),
        pools[k].id == p,
        forall|i: int, j: int| 0 <= i < j < pools.len() ==> #[trigger] pools[i].id != #[trigger] pools[j].id,
    ensures
        first_with_id(pools, p) == k,
{
    assert forall|j: int| 0 <= j < k implies #[trigger] pools[j].id != p by {
        assert(pools[j].id != pools[k].id);
    }
    lemma_first_with_id(pools, p, k);
}

proof fn lemma_find_none(pools: Seq<PoolView>, p: u64)
    requires
        forall|j: int| 0 <= j < pools.len() ==> #[trigger] pools[j].id != p,
    ensures
        first_with_id(pools, p) == -1,
{
    lemma_first_with_id(pools, p, pools.len() as int);
}

/// The owner's count as seen through `s.pending` and the active pool,
/// read off position `k` of `pending` when that pool has id `p`.
proof fn lemma_owner_in_pending(s: PoolsView, p: u64)
    requires
        distinct_ids(s),
    ensures
        s.active.id != p ==> (forall|k: int|
            0 <= k < s.pending.len() && #[trigger] s.pending[k].id == p ==> owner_in_flight(s, p) == s.pending[k].in_flight),
        s.active.id != p && (forall|k: int| 0 <= k < s.pending.len() ==> #[trigger] s.pending[k].id != p) ==> owner_in_flight(s, p) == 0,
{
    if s.active.id != p {
        assert forall|k: int| 0 <= k < s.pending.len() && #[trigger] s.pending[k].id == p implies owner_in_flight(s, p)
            == s.pending[k].in_flight by {
            lemma_find_distinct(s.pending, p, k);
        }
        if forall|k: int| 0 <= k < s.pending.len() ==> #[trigger] s.pending[k].id != p {
            lemma_find_none(s.pending, p);
        }
    }
}

proof fn lemma_rotation_keeps_owners(s0: PoolsView, p: u64)
    requires
        s0.wf(),
        distinct_ids(s0),
        s0.can_rotate(),
    ensures
        distinct_ids(s0.rotated()),
        owner_in_flight(s0.rotated(), p) >= owner_in_flight(s0, p),
        forall|x: u64| has_pool_id(s0.rotated(), x) ==> has_pool_id(s0, x),
{
    let s1 = s0.rotated();
    let n = s0.free.len() - 1;
    assert(s1.active == s0.free[n]);
    assert forall|i: int| 0 <= i < s1.pending.len() implies #[trigger] s1.pending[i].id != s1.active.id by {
        if i < s0.pending.len() {
            assert(s1.pending[i] == s0.pending[i]);
            assert(s0.pending[i].id != s0.free[n].id);
        }
    }
    assert forall|i: int| 0 <= i < s1.free.len() implies #[trigger] s1.free[i].id != s1.active.id by {
        assert(s1.free[i] == s0.free[i]);
        assert(s0.free[i].id != s0.free[n].id);
    }
    assert forall|i: int, j: int| 0 <= i < j < s1.pending.len() implies #[trigger] s1.pending[i].id
        != #[trigger] s1.pending[j].id by {
        assert(s1.pending[i] == s0.pending[i]);
        if j < s0.pending.len() {
            assert(s1.pending[j] == s0.pending[j]);
        }
    }
    assert forall|i: int, j: int| 0 <= i < j < s1.free.len() implies #[trigger] s1.free[i].id
        != #[trigger] s1.free[j].id by {
        assert(s1.free[i] == s0.free[i]);
        assert(s1.free[j] == s0.free[j]);
    }
    assert forall|i: int, j: int| 0 <= i < s1.pending.len() && 0 <= j < s1.free.len() implies #[trigger] s1.pending[i].id
        != #[trigger] s1.free[j].id by {
        assert(s1.free[j] == s0.free[j]);
        if i < s0.pending.len() {
            assert(s1.pending[i] == s0.pending[i]);
        }
    }
    assert forall|x: u64| has_pool_id(s1, x) implies has_pool_id(s0, x) by {
        if exists|i: int| 0 <= i < s1.pending.len() && #[trigger] s1.pending[i].id == x {
            let i = choose|i: int| 0 <= i < s1.pending.len() && #[trigger] s1.pending[i].id == x;
            if i < s0.pending.len() {
                assert(s1.pending[i] == s0.pending[i]);
            }
        }
        if exists|i: int| 0 <= i < s1.free.len() && #[trigger] s1.free[i].id == x {
            let i = choose|i: int| 0 <= i < s1.free.len() && #[trigger] s1.free[i].id == x;
            assert(s1.free[i] == s0.free[i]);
        }
    }
    lemma_owner_in_pending(s0, p);
    lemma_owner_in_pending(s1, p);
    if s0.active.id == p {
        assert(s1.pending[s0.pending.len() as int] == s0.active);
    } else if exists|k: int| 0 <= k < s0.pending.len() && #[trigger] s0.pending[k].id == p {
        let k = choose|k: int| 0 <= k < s0.pending.len() && #[trigger] s0.pending[k].id == p;
        assert(s1.pending[k] == s0.pending[k]);
        assert(s0.free[n].id != s0.pending[k].id);
    }
}

proof fn lemma_seal_keeps_owners(s0: PoolsView, pool: u64, id: u64, p: u64)
    requires
        s0.wf(),
        distinct_ids(s0),
        !has_pool_id(s0, id),
    ensures
        distinct_ids(s0.sealed_with(PoolView::fresh(pool, id))),
        owner_in_flight(s0.sealed_with(PoolView::fresh(pool, id)), p) >= owner_in_flight(s0, p),
        forall|x: u64| has_pool_id(s0.sealed_with(PoolView::fresh(pool, id)), x) ==> has_pool_id(s0, x) || x == id,
{
    let s1 = s0.sealed_with(PoolView::fresh(pool, id));
    assert forall|i: int| 0 <= i < s1.pending.len() implies #[trigger] s1.pending[i].id != s1.active.id by {
        if i < s0.pending.len() {
            assert(s1.pending[i] == s0.pending[i]);
        }
    }
    assert forall|i: int| 0 <= i < s1.free.len() implies #[trigger] s1.free[i].id != s1.active.id by {
        assert(s1.free[i] == s0.free[i]);
    }
    assert forall|i: int, j: int| 0 <= i < j < s1.pending.len() implies #[trigger] s1.pending[i].id
        != #[trigger] s1.pending[j].id by {
        assert(s1.pending[i] == s0.pending[i]);
        if j < s0.pending.len() {
            assert(s1.pending[j] == s0.pending[j]);
        }
    }
    assert forall|i: int, j: int| 0 <= i < s1.pending.len() && 0 <= j < s1.free.len() implies #[trigger] s1.pending[i].id
        != #[trigger] s1.free[j].id by {
        if i < s0.pending.len() {
            assert(s1.pending[i] == s0.pending[i]);
        }
    }
    assert forall|x: u64| has_pool_id(s1, x) implies has_pool_id(s0, x) || x == id by {
        if exists|i: int| 0 <= i < s1.pending.len() && #[trigger] s1.pending[i].id == x {
            let i = choose|i: int| 0 <= i < s1.pending.len() && #[trigger] s1.pending[i].id == x;
            if i < s0.pending.len() {
                assert(s1.pending[i] == s0.pending[i]);
            }
        }
    }
    lemma_owner_in_pending(s0, p);
    lemma_owner_in_pending(s1, p);
    if s0.active.id == p {
        assert(s1.pending[s0.pending.len() as int] == s0.active);
    } else if exists|k: int| 0 <= k < s0.pending.len() && #[trigger] s0.pending[k].id == p {
        let k = choose|k: int| 0 <= k < s0.pending.len() && #[trigger] s0.pending[k].id == p;
        assert(s1.pending[k] == s0.pending[k]);
    }
}

/// Allocating a buffer takes nothing from the buffers already handed out:
/// every other buffer keeps its owner, and the count of in-flight buffers
/// that recycling a buffer owned by pool `p` decrements does not drop. This
/// holds while pool ids are distinct and the id of a pool the call may
/// create is new, as the device's counter gives them; the pair keeps
/// distinct ids, and has no pool id but the old ones and `id`. So a buffer
/// that was handed out stays tracked, with its pool's count above 0, over
/// any number of later allocations, until it is recycled.
pub proof fn lemma_allocation_keeps_owners<F: Fn(u32) -> Result<u64, i32>, G: Fn(u64) -> Result<u64, i32>>(
    s0: PoolsView,
    create: F,
    alloc: G,
    queue_family_index: u32,
    id: u64,
    s2: PoolsView,
    r: Result<u64, CommandPoolError>,
    p: u64,
    b: u64,
)
    requires
        s0.wf(),
        distinct_ids(s0),
        !has_pool_id(s0, id),
        primary_outcome(s0, create, alloc, queue_family_index, id, s2, r),
    ensures
        distinct_ids(s2),
        forall|x: u64| has_pool_id(s2, x) ==> has_pool_id(s0, x) || x == id,
        owner_in_flight(s2, p) >= owner_in_flight(s0, p),
        s0.owners.contains_key(b) && r != Ok::<u64, CommandPoolError>(b) ==> s2.owners.contains_key(b)
            && s2.owners[b] == s0.owners[b],
{
    let (s1, e) = choose|s1: PoolsView, e: Option<CommandPoolError>|
        #[trigger] rotation_outcome(s0, create, queue_family_index, id, s1, e) && match e {
            Some(err) => r == Err::<u64, CommandPoolError>(err) && s2 == s1,
            None => allocation_outcome(s1, alloc, s2, r),
        };
    if s0.active.next_free_index < MAX_BUFFERS_PER_POOL {
    } else if s0.can_rotate() {
        lemma_rotation_keeps_owners(s0, p);
    } else if s0.pending.len() >= MAX_PENDING_TRACKED_POOL {
    } else {
        let o = choose|o: Result<u64, i32>|
            #[trigger] call_ensures(create, (queue_family_index,), o) && match o {
                Ok(pool) => s1 == s0.sealed_with(PoolView::fresh(pool, id)) && e is None,
                Err(v) => s1 == s0 && e == Some(CommandPoolError::Vulkan(v)),
            };
        match o {
            Ok(pool) => {
                lemma_seal_keeps_owners(s0, pool, id, p);
            },
            Err(_) => {},
        }
    }
    if e is None {
        let a = s1.active;
        lemma_owner_in_pending(s1, p);
        if a.next_free_index < a.buffers.len() {
            assert(s2 == PoolsView { active: a.handed_out(), ..s1 });
        } else {
            let o = choose|o: Result<u64, i32>|
                #[trigger] call_ensures(alloc, (a.pool,), o) && match o {
                    Ok(cmd) => r == Ok::<u64, CommandPoolError>(cmd) && s2 == PoolsView {
                        active: a.appended(cmd).handed_out(),
                        owners: s1.owners.insert(cmd, a.id),
                        ..s1
                    },
                    Err(v) => r == Err::<u64, CommandPoolError>(CommandPoolError::Vulkan(v)) && s2 == s1,
                };
        }
        lemma_owner_in_pending(s2, p);
        if s1.active.id != p && exists|k: int| 0 <= k < s1.pending.len() && #[trigger] s1.pending[k].id == p {
            let k = choose|k: int| 0 <= k < s1.pending.len() && #[trigger] s1.pending[k].id == p;
            assert(s2.pending[k] == s1.pending[k]);
        }
    }
}

/// A buffer whose owner still counts buffers in flight may be given back.
pub proof fn lemma_in_flight_owner_allows_recycle(s: PoolsView, cmd: u64)
    requires
        s.owners.contains_key(cmd),
        owner_in_flight(s, s.owners[cmd]) > 0,
    ensures
        recycle_allowed(s, cmd),
{
}

/// A buffer handed out and then given back leaves its pool's in-flight
/// count as it was, one position further in the pool.
pub proof fn lemma_hand_out_then_release(p: PoolView)
    ensures
        p.handed_out().released().in_flight == p.in_flight,
        p.handed_out().released().next_free_index == p.next_free_index + 1,
        p.handed_out().released().buffers == p.buffers,
{
}

/// After a bulk reset, the next buffers handed out are the ones allocated
/// before, in the same order.
pub proof fn lemma_reset_reuses_buffers(p: PoolView)
    requires
        p.wf(),
        p.buffers.len() > 0,
    ensures
        p.rewound().next_free_index < p.rewound().buffers.len(),
        p.rewound().buffers[p.rewound().next_free_index as int] == p.buffers[0],
{
}

} // verus!
