use aethervk_device::snapshot::{
    fill_restore_staging, read_snapshot, reconcile_tables, restore_needed, staging_regions,
    staging_size, ParticleSnapshot, StagingRegion,
};
use std::collections::BTreeMap;

fn staged() -> Vec<u8> {
    // particle buffer (3 bytes), free list (2 bytes), two page tables of 2 bytes
    vec![1, 2, 3, 10, 11, 20, 21, 30, 31]
}

#[test]
fn staging_layout_puts_tables_after_the_free_list() {
    assert_eq!(staging_size(3, 2, 2, 2), 9);
    let regions = staging_regions(3, 2, 2, 2);
    assert_eq!(
        regions,
        vec![
            StagingRegion { offset: 0, size: 3 },
            StagingRegion { offset: 3, size: 2 },
            StagingRegion { offset: 5, size: 2 },
            StagingRegion { offset: 7, size: 2 },
        ]
    );
}

#[test]
fn snapshot_reads_parts_in_layout_order() {
    let snap = read_snapshot(&staged(), 3, 2, 2, &vec![9, 4]);
    assert_eq!(snap.global_buffer, vec![1, 2, 3]);
    assert_eq!(snap.free_list, vec![10, 11]);
    assert_eq!(snap.page_tables[&9], vec![20, 21]);
    assert_eq!(snap.page_tables[&4], vec![30, 31]);
    assert_eq!(snap.page_tables.len(), 2);
}

#[test]
fn empty_staging_gives_the_empty_snapshot() {
    let snap = read_snapshot(&vec![], 0, 0, 0, &vec![5]);
    assert!(snap.global_buffer.is_empty());
    assert!(snap.page_tables.is_empty());
    assert!(!restore_needed(&snap));
}

#[test]
fn restore_then_snapshot_round_trips() {
    let ids = vec![9, 4];
    let snap = read_snapshot(&staged(), 3, 2, 2, &ids);
    assert!(restore_needed(&snap));
    let staging = fill_restore_staging(&snap, 3, 2, 2, &ids);
    assert_eq!(staging, staged());
    let again = read_snapshot(&staging, 3, 2, 2, &ids);
    assert_eq!(again.global_buffer, snap.global_buffer);
    assert_eq!(again.free_list, snap.free_list);
    assert_eq!(again.page_tables, snap.page_tables);
}

#[test]
fn restore_writes_zeros_for_a_table_the_snapshot_lacks() {
    let mut page_tables = BTreeMap::new();
    page_tables.insert(4u64, vec![30u8, 31, 99]);
    let snap = ParticleSnapshot { global_buffer: vec![1, 2, 3, 4], free_list: vec![10, 11], page_tables };
    let staging = fill_restore_staging(&snap, 3, 2, 2, &vec![9, 4]);
    assert_eq!(staging, vec![1, 2, 3, 10, 11, 0, 0, 30, 31]);
}

#[test]
fn reconciliation_discards_and_creates() {
    let mut page_tables = BTreeMap::new();
    page_tables.insert(8u64, vec![0u8]);
    page_tables.insert(2u64, vec![0u8]);
    page_tables.insert(5u64, vec![0u8]);
    let snap = ParticleSnapshot { global_buffer: vec![1], free_list: vec![], page_tables };
    let plan = reconcile_tables(&vec![7, 5, 1], &snap);
    assert_eq!(plan.discard, vec![7, 1]);
    assert_eq!(plan.create, vec![2, 8]);
}
