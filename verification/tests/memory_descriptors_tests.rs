use aethervk_device::descriptors::{
    pool_sizes, AllocateStep, DescriptorError, DescriptorPools, MAX_DESCRIPTOR_SETS,
    VK_ERROR_FRAGMENTED_POOL, VK_ERROR_OUT_OF_POOL_MEMORY,
};
use aethervk_device::memory::{budget_totals, BudgetTotals, FrameStagingArena, HeapBudget};

#[test]
fn arena_aligns_and_bumps() {
    let mut a = FrameStagingArena::new(1, 2, 256);
    assert_eq!(a.allocate(10, 16), Some(0));
    assert_eq!(a.offset(), 10);
    assert_eq!(a.allocate(10, 16), Some(16));
    assert_eq!(a.offset(), 26);
    assert_eq!(a.allocate(4, 1), Some(26));
    assert_eq!(a.capacity(), 256);
    assert_eq!(a.buffer(), 1);
    assert_eq!(a.allocation(), 2);
}

#[test]
fn arena_refuses_what_does_not_fit() {
    let mut a = FrameStagingArena::new(1, 2, 64);
    assert_eq!(a.allocate(60, 16), Some(0));
    assert_eq!(a.allocate(8, 16), None);
    assert_eq!(a.offset(), 60);
    assert_eq!(a.allocate(4, 4), Some(60));
    assert_eq!(a.allocate(1, 1), None);
}

#[test]
fn arena_reset_starts_over() {
    let mut a = FrameStagingArena::new(1, 2, 64);
    let _ = a.allocate(64, 1);
    a.reset();
    assert_eq!(a.offset(), 0);
    assert_eq!(a.allocate(64, 64), Some(0));
}

#[test]
fn pool_sizes_cover_eight_types() {
    let s = pool_sizes();
    assert_eq!(s.len(), 8);
    assert!(s.iter().all(|p| p.descriptor_count == 1024));
    assert_eq!(s[0].descriptor_type, 7);
    assert_eq!(MAX_DESCRIPTOR_SETS, 1024);
}

#[test]
fn new_pools_have_an_active_pool() {
    let p = DescriptorPools::new(|| Ok(11)).unwrap();
    assert_eq!(p.active_pool(), 11);
    assert_eq!(p.pool_for_allocation(), Ok(11));
    assert!(matches!(DescriptorPools::new(|| Err(-1)), Err(DescriptorError::InvalidState)));
}

#[test]
fn full_pool_is_retired_and_replaced() {
    let mut p = DescriptorPools::new(|| Ok(11)).unwrap();
    assert_eq!(p.after_allocation(Ok(5), || Ok(12)), AllocateStep::Done(5));
    assert_eq!(p.after_allocation(Err(VK_ERROR_OUT_OF_POOL_MEMORY), || Ok(12)), AllocateStep::Retry { retired: 11 });
    assert_eq!(p.active_pool(), 12);
    assert_eq!(p.after_allocation(Err(VK_ERROR_FRAGMENTED_POOL), || Err(-3)), AllocateStep::Failed(DescriptorError::InvalidState));
    assert_eq!(p.pool_for_allocation(), Err(DescriptorError::InvalidState));
}

#[test]
fn other_errors_end_the_allocation() {
    let mut p = DescriptorPools::new(|| Ok(11)).unwrap();
    assert_eq!(p.after_allocation(Err(-2), || Ok(12)), AllocateStep::Failed(DescriptorError::Vulkan(-2)));
    assert_eq!(p.active_pool(), 11);
}

#[test]
fn recycled_pools_are_reused_before_creating() {
    let mut p = DescriptorPools::new(|| Ok(11)).unwrap();
    p.recycle(20, |_x: u64| Ok(()));
    p.recycle(21, |_x: u64| Err(-1));
    p.recycle(0, |_x: u64| Ok(()));
    assert_eq!(p.discard_active_pool(), Some(11));
    assert_eq!(p.discard_active_pool(), None);
    assert_eq!(p.ensure_active_pool(|| Ok(99)), Ok(()));
    assert_eq!(p.active_pool(), 20);
    let mut all = p.cleanup();
    all.sort();
    assert_eq!(all, vec![11, 20]);
    assert_eq!(p.active_pool(), 0);
}

#[test]
fn budget_totals_sum_every_heap() {
    let heaps = vec![
        HeapBudget { budget: 1000, usage: 10 },
        HeapBudget { budget: 24, usage: 5 },
        HeapBudget { budget: 0, usage: 0 },
    ];
    assert_eq!(budget_totals(&heaps), BudgetTotals { budget: 1024, usage: 15 });
    assert_eq!(budget_totals(&Vec::new()), BudgetTotals { budget: 0, usage: 0 });
}

#[test]
fn arena_takes_the_widest_alignment() {
    let mut a = FrameStagingArena::new(1, 2, 64);
    assert_eq!(a.allocate(2, usize::MAX), Some(0));
    assert_eq!(a.offset(), 2);
    assert_eq!(a.allocate(1, 32), Some(32));
    assert_eq!(a.offset(), 33);
}
