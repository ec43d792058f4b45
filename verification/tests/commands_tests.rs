use aethervk_device::commands::{
    CommandBufferId, CommandPoolError, CommandPools, MovePoolError, QueueFamilyPoolsInner,
    RotateError, TrackedPool, MAX_BUFFERS_PER_POOL, MAX_PENDING_TRACKED_POOL,
};
use std::cell::{Cell, RefCell};

struct Driver {
    next_pool: Cell<u64>,
    next_buf: Cell<u64>,
    resets: RefCell<Vec<u64>>,
}

impl Driver {
    fn new() -> Self {
        Driver { next_pool: Cell::new(100), next_buf: Cell::new(1000), resets: RefCell::new(Vec::new()) }
    }
    fn create(&self, _q: u32) -> Result<u64, i32> {
        let v = self.next_pool.get();
        self.next_pool.set(v + 1);
        Ok(v)
    }
    fn allocate_buffer(&self, _p: u64) -> Result<u64, i32> {
        let v = self.next_buf.get();
        self.next_buf.set(v + 1);
        Ok(v)
    }
    fn reset(&self, p: u64) -> Result<(), i32> {
        self.resets.borrow_mut().push(p);
        Ok(())
    }
}

fn allocate(pools: &mut CommandPools, d: &Driver, id: u64) -> Result<u64, CommandPoolError> {
    let create = |q: u32| d.create(q);
    let alloc = |p: u64| d.allocate_buffer(p);
    pools.allocate_primary(&create, &alloc, 1, 0, CommandBufferId(id))
}

fn recycle(pools: &mut CommandPools, d: &Driver, cmd: u64) -> Result<(), CommandPoolError> {
    pools.recycle(|p: u64| d.reset(p), 1, 0, cmd)
}

#[test]
fn first_allocation_creates_pool_and_buffer() {
    let d = Driver::new();
    let mut pools = CommandPools::new();
    assert!(pools.pools_of(1, 0).is_none());
    assert_eq!(allocate(&mut pools, &d, 7), Ok(1000));
    let inner = pools.pools_of(1, 0).unwrap();
    let active = inner.active();
    assert_eq!(active.pool, 100);
    assert_eq!(active.id, 7);
    assert_eq!(active.in_flight, 1);
    assert_eq!(active.next_free_index, 1);
    assert_eq!(active.allocated_count, 1);
    assert_eq!(inner.owner_of(1000), Some(7));
    assert_eq!(inner.pending_len(), 0);
}

#[test]
fn create_failure_leaves_registry_empty() {
    let mut pools = CommandPools::new();
    let create = |_q: u32| -> Result<u64, i32> { Err(-2) };
    let alloc = |_p: u64| -> Result<u64, i32> { Ok(5) };
    assert_eq!(
        pools.allocate_primary(&create, &alloc, 1, 0, CommandBufferId(1)),
        Err(CommandPoolError::Vulkan(-2))
    );
    assert!(pools.pools_of(1, 0).is_none());
}

#[test]
fn alloc_failure_keeps_new_entry() {
    let mut pools = CommandPools::new();
    let create = |_q: u32| -> Result<u64, i32> { Ok(9) };
    let alloc = |_p: u64| -> Result<u64, i32> { Err(-1) };
    assert_eq!(
        pools.allocate_primary(&create, &alloc, 1, 0, CommandBufferId(1)),
        Err(CommandPoolError::Vulkan(-1))
    );
    let inner = pools.pools_of(1, 0).unwrap();
    assert_eq!(inner.active().pool, 9);
    assert_eq!(inner.active().in_flight, 0);
}

#[test]
fn full_pool_is_sealed_into_new_pool() {
    let d = Driver::new();
    let mut pools = CommandPools::new();
    for i in 0..MAX_BUFFERS_PER_POOL as u64 {
        assert_eq!(allocate(&mut pools, &d, i + 1), Ok(1000 + i));
    }
    assert_eq!(allocate(&mut pools, &d, 50), Ok(1000 + MAX_BUFFERS_PER_POOL as u64));
    let inner = pools.pools_of(1, 0).unwrap();
    assert_eq!(inner.pending_len(), 1);
    assert_eq!(inner.pending_at(0).pool, 100);
    assert_eq!(inner.pending_at(0).in_flight, MAX_BUFFERS_PER_POOL);
    assert_eq!(inner.active().pool, 101);
    assert_eq!(inner.active().id, 50);
    assert_eq!(inner.active().in_flight, 1);
}

#[test]
fn recycling_active_buffer_resets_pool_at_zero() {
    let d = Driver::new();
    let mut pools = CommandPools::new();
    let a = allocate(&mut pools, &d, 1).unwrap();
    let b = allocate(&mut pools, &d, 2).unwrap();
    assert_eq!(recycle(&mut pools, &d, a), Ok(()));
    assert!(d.resets.borrow().is_empty());
    assert_eq!(recycle(&mut pools, &d, b), Ok(()));
    assert_eq!(*d.resets.borrow(), vec![100]);
    let active = pools.pools_of(1, 0).unwrap().active();
    assert_eq!(active.in_flight, 0);
    assert_eq!(active.next_free_index, 0);
    assert_eq!(active.allocated_count, 2);
    // reset buffers are handed out again in order, without new allocations
    assert_eq!(allocate(&mut pools, &d, 3), Ok(a));
    assert_eq!(allocate(&mut pools, &d, 4), Ok(b));
    assert_eq!(allocate(&mut pools, &d, 5), Ok(1002));
}

#[test]
fn finished_pending_pool_moves_to_free_and_is_reused() {
    let d = Driver::new();
    let mut pools = CommandPools::new();
    let mut first = Vec::new();
    for i in 0..MAX_BUFFERS_PER_POOL as u64 {
        first.push(allocate(&mut pools, &d, i + 1).unwrap());
    }
    let c = allocate(&mut pools, &d, 40).unwrap();
    for cmd in &first {
        assert_eq!(recycle(&mut pools, &d, *cmd), Ok(()));
    }
    assert_eq!(*d.resets.borrow(), vec![100]);
    {
        let inner = pools.pools_of(1, 0).unwrap();
        assert_eq!(inner.pending_len(), 0);
        assert_eq!(inner.free_len(), 1);
        assert_eq!(inner.free_at(0).pool, 100);
        assert_eq!(inner.free_at(0).in_flight, 0);
        assert_eq!(inner.free_at(0).next_free_index, 0);
    }
    // fill the second pool, then the free one is rotated back in
    for i in 1..MAX_BUFFERS_PER_POOL as u64 {
        allocate(&mut pools, &d, 100 + i).unwrap();
    }
    let reused = allocate(&mut pools, &d, 200).unwrap();
    assert_eq!(reused, first[0]);
    let inner = pools.pools_of(1, 0).unwrap();
    assert_eq!(inner.active().pool, 100);
    assert_eq!(inner.pending_len(), 1);
    assert_eq!(inner.pending_at(0).pool, 101);
    assert_eq!(inner.free_len(), 0);
    let _ = c;
}

#[test]
fn recycle_errors() {
    let d = Driver::new();
    let mut pools = CommandPools::new();
    assert_eq!(recycle(&mut pools, &d, 1), Err(CommandPoolError::StateNotFound));
    allocate(&mut pools, &d, 1).unwrap();
    assert_eq!(recycle(&mut pools, &d, 77), Err(CommandPoolError::BufferNotTracked));
}

#[test]
fn reset_failure_is_reported() {
    let d = Driver::new();
    let mut pools = CommandPools::new();
    let a = allocate(&mut pools, &d, 1).unwrap();
    assert_eq!(pools.recycle(|_p: u64| Err(-4), 1, 0, a), Err(CommandPoolError::Vulkan(-4)));
    let active = pools.pools_of(1, 0).unwrap().active();
    assert_eq!(active.in_flight, 0);
    assert_eq!(active.next_free_index, 1);
}

#[test]
fn pending_full_stops_allocation() {
    let d = Driver::new();
    let mut pools = CommandPools::new();
    let total = MAX_BUFFERS_PER_POOL * (MAX_PENDING_TRACKED_POOL + 1);
    for i in 0..total as u64 {
        allocate(&mut pools, &d, i + 1).unwrap();
    }
    assert_eq!(pools.pools_of(1, 0).unwrap().pending_len(), MAX_PENDING_TRACKED_POOL);
    assert_eq!(allocate(&mut pools, &d, 9999), Err(CommandPoolError::PendingFull));
}

#[test]
fn every_allocated_buffer_is_tracked() {
    let d = Driver::new();
    let mut pools = CommandPools::new();
    let n = MAX_BUFFERS_PER_POOL as u64 * 3 + 1;
    for i in 0..n {
        allocate(&mut pools, &d, i + 1).unwrap();
    }
    let inner = pools.pools_of(1, 0).unwrap();
    assert_eq!(inner.owner_of(1000), Some(1));
    // the buffers of the second, third and fourth pools are tracked too
    assert_eq!(inner.owner_of(1000 + MAX_BUFFERS_PER_POOL as u64), Some(MAX_BUFFERS_PER_POOL as u64 + 1));
    assert_eq!(inner.owner_of(1000 + n - 1), Some(n));
    // and giving each one back succeeds and frees the pools
    for i in 0..n {
        assert_eq!(recycle(&mut pools, &d, 1000 + i), Ok(()));
    }
    let inner = pools.pools_of(1, 0).unwrap();
    assert_eq!(inner.active().in_flight, 0);
    assert_eq!(inner.pending_len(), 0);
    assert_eq!(inner.free_len(), 3);
}

#[test]
fn separate_pairs_have_separate_pools() {
    let d = Driver::new();
    let mut pools = CommandPools::new();
    let create = |q: u32| d.create(q);
    let alloc = |p: u64| d.allocate_buffer(p);
    pools.allocate_primary(&create, &alloc, 1, 0, CommandBufferId(1)).unwrap();
    pools.allocate_primary(&create, &alloc, 2, 0, CommandBufferId(2)).unwrap();
    pools.allocate_primary(&create, &alloc, 1, 3, CommandBufferId(3)).unwrap();
    assert_eq!(pools.pools_of(1, 0).unwrap().active().pool, 100);
    assert_eq!(pools.pools_of(2, 0).unwrap().active().pool, 101);
    assert_eq!(pools.pools_of(1, 3).unwrap().active().pool, 102);
}

#[test]
fn cleanup_returns_sealed_pools() {
    let d = Driver::new();
    let mut pools = CommandPools::new();
    for i in 0..(MAX_BUFFERS_PER_POOL as u64 * 2 + 1) {
        allocate(&mut pools, &d, i + 1).unwrap();
    }
    let destroyed = pools.cleanup();
    assert_eq!(destroyed, vec![100, 101]);
    assert!(pools.pools_of(1, 0).is_none());
}

#[test]
fn inner_rotation_and_moves() {
    let mut inner = QueueFamilyPoolsInner::new_with_active(5, 1);
    assert!(!inner.can_rotate());
    assert_eq!(inner.rotate_active_pool(), Err(RotateError::FreeEmpty));
    let create = |_q: u32| -> Result<u64, i32> { Ok(6) };
    assert_eq!(inner.move_active_to_pending_and_allocate_new(&create, 0, 2), Ok(()));
    assert_eq!(inner.pending_len(), 1);
    assert_eq!(inner.active().pool, 6);
    let none: Option<fn(u64) -> Result<(), i32>> = None;
    assert_eq!(inner.move_pending_to_free_at(3, none), Err(MovePoolError::IndexOutOfBounds));
    assert_eq!(
        inner.move_pending_to_free_at(0, Some(|_p: u64| -> Result<(), i32> { Err(-3) })),
        Err(MovePoolError::Vulkan(-3))
    );
    assert_eq!(inner.pending_len(), 1);
    assert_eq!(inner.move_pending_to_free_at(0, Some(|_p: u64| -> Result<(), i32> { Ok(()) })), Ok(()));
    assert_eq!(inner.free_len(), 1);
    assert!(inner.can_rotate());
    assert_eq!(inner.rotate_active_pool(), Ok(()));
    assert_eq!(inner.active().pool, 5);
    assert_eq!(inner.pending_at(0).pool, 6);
}

#[test]
fn tracked_pool_reset_memory() {
    let mut p = TrackedPool::new(3, 4);
    p.allocated_count = 2;
    p.next_free_index = 2;
    p.in_flight = 1;
    assert_eq!(p.reset_memory(|_h: u64| -> Result<(), i32> { Err(-1) }), Err(-1));
    assert_eq!(p.next_free_index, 2);
    assert_eq!(p.reset_memory(|h: u64| -> Result<(), i32> { assert_eq!(h, 3); Ok(()) }), Ok(()));
    assert_eq!(p.next_free_index, 0);
    assert_eq!(p.in_flight, 0);
    assert_eq!(p.allocated_count, 2);
}
