use aethervk_device::particles::{
    emitter_bytes, emitter_upload_plan, initial_page_table, ResetDispatch, emission_chunk_count,
    BufferCopy, ACCESS_HOST_WRITE, ACCESS_SHADER_STORAGE_READ, STAGE_COMPUTE_SHADER, STAGE_HOST, free_list_contents, page_table_bytes, particle_buffer_layout,
    particle_system_shaders_num_workgroups, BarrierMasks, BufferAlloc, ParticleSystemManager,
    ParticleSystemState, QueueRole, Settings, ACCESS_TRANSFER_WRITE, DEFAULT_COMPACTION_US,
    DEFAULT_EMISSION_US, QUEUE_FAMILY_IGNORED, STAGE_NONE, STAGE_TRANSFER, WHOLE_SIZE,
};

fn buf(b: u64) -> BufferAlloc {
    BufferAlloc { buffer: b, alloc: b + 1000, address: b + 2000 }
}

fn manager() -> ParticleSystemManager {
    let layout = particle_buffer_layout(1000, 64, 256);
    let front = ParticleSystemState::new(buf(1), buf(2));
    let back = ParticleSystemState::new(buf(3), buf(4));
    ParticleSystemManager::new(front, back, layout)
}

#[test]
fn settings_default_intervals() {
    let s = Settings::new();
    assert_eq!(s.emission_us, 166_000);
    assert_eq!(s.compaction_us, 5_000_000);
    assert_eq!(DEFAULT_EMISSION_US, 166_000);
    assert_eq!(DEFAULT_COMPACTION_US, 5_000_000);
}

#[test]
fn buffer_layout_rounds_chunks_up() {
    let l = particle_buffer_layout(1000, 64, 256);
    assert_eq!(l.num_chunks, 16);
    assert_eq!(l.buffer_size, 16 * 256);
    assert_eq!(l.free_list_size, 16 * 4 + 4);
    assert_eq!(particle_buffer_layout(1024, 64, 1).num_chunks, 16);
    assert_eq!(page_table_bytes(32, 1000, 64), 32 + 4 * 16);
}

#[test]
fn free_list_counts_then_lists_chunks_backwards() {
    assert_eq!(free_list_contents(3), vec![3, 2, 1, 0]);
    assert_eq!(free_list_contents(0), vec![0]);
}

#[test]
fn workgroup_counts_round_up() {
    assert_eq!(particle_system_shaders_num_workgroups(64, 1000), 4);
    assert_eq!(particle_system_shaders_num_workgroups(64, 256), 1);
    assert_eq!(particle_system_shaders_num_workgroups(64, 257), 2);
    assert_eq!(emission_chunk_count(130, 64), 3);
    assert_eq!(emission_chunk_count(128, 64), 2);
    assert_eq!(emission_chunk_count(0, 64), 0);
}

#[test]
fn roles_read_opposite_states_and_swap() {
    let mut m = manager();
    m.add_page_tables(7, buf(10), buf(11));
    assert_eq!(m.front_index(), 0);
    assert_eq!(m.get_addresses(7, QueueRole::Graphics), Some((2001, 2010, 2002)));
    assert_eq!(m.get_addresses(7, QueueRole::Compute), Some((2003, 2011, 2004)));
    m.swap_buffers();
    assert_eq!(m.front_index(), 1);
    assert_eq!(m.get_addresses(7, QueueRole::Graphics), Some((2003, 2011, 2004)));
    assert_eq!(m.get_addresses_and_buffer(7, QueueRole::Compute), Some((2001, 2010, 10)));
    assert_eq!(m.get_addresses(8, QueueRole::Compute), None);
}

#[test]
fn removing_page_tables_reports_the_front() {
    let mut m = manager();
    m.add_page_tables(7, buf(10), buf(11));
    m.swap_buffers();
    let (pts, front) = m.remove_pages_tables(7).unwrap();
    assert_eq!(pts[0], buf(10));
    assert_eq!(pts[1], buf(11));
    assert_eq!(front, 1);
    assert!(m.remove_pages_tables(7).is_none());
}

#[test]
fn discard_splits_graphics_and_compute_tables() {
    let mut m = manager();
    m.add_page_tables(7, buf(10), buf(11));
    m.swap_buffers();
    assert_eq!(m.discard_particle_system(7), Some((buf(11), buf(10))));
    assert_eq!(m.discard_particle_system(7), None);
}

#[test]
fn state_barriers_cover_every_buffer() {
    let mut m = manager();
    m.add_page_tables(7, buf(10), buf(11));
    m.add_page_tables(8, buf(12), buf(13));
    let masks = BarrierMasks {
        src_stage: STAGE_TRANSFER,
        src_access: ACCESS_TRANSFER_WRITE,
        dst_stage: STAGE_NONE,
        dst_access: 0,
        src_family: QUEUE_FAMILY_IGNORED,
        dst_family: QUEUE_FAMILY_IGNORED,
    };
    let b = m.create_state_barriers(0, masks);
    assert_eq!(b.len(), 4);
    assert_eq!(b[0].buffer, 1);
    assert_eq!(b[0].size, m.buffer_size());
    assert_eq!(b[1].buffer, 2);
    assert_eq!(b[1].size, m.free_list_size());
    let mut rest: Vec<u64> = b[2..].iter().map(|x| x.buffer).collect();
    rest.sort();
    assert_eq!(rest, vec![10, 12]);
    assert!(b[2..].iter().all(|x| x.size == WHOLE_SIZE));
}

#[test]
fn same_family_needs_no_release() {
    let m = manager();
    assert!(m.graphics_release_front_barriers(0, 0).is_empty());
    assert_eq!(m.graphics_release_front_barriers(0, 1).len(), 2);
    assert_eq!(m.graphics_acquire_new_front_barriers(0, 0).len(), 2);
}

#[test]
fn copy_plan_copies_back_to_front() {
    let mut m = manager();
    m.add_page_tables(7, buf(10), buf(11));
    let same = m.compute_copy_and_release_plan(96, 0, 0);
    assert_eq!(same.pre_barriers.len(), 6);
    assert_eq!(same.post_barriers.len(), 3);
    assert_eq!(same.copies.len(), 3);
    assert_eq!(same.copies[0].src, 3);
    assert_eq!(same.copies[0].dst, 1);
    assert_eq!(same.copies[2].src, 11);
    assert_eq!(same.copies[2].dst, 10);
    assert_eq!(same.copies[2].size, 96);
    let cross = m.compute_copy_and_release_plan(96, 0, 1);
    assert_eq!(cross.post_barriers.len(), 6);
    assert_eq!(cross.pre_barriers[0].masks.src_family, 0);
    assert_eq!(cross.pre_barriers[0].masks.dst_family, 1);
}

#[test]
fn emission_and_compaction_intervals() {
    let m = manager();
    assert_eq!(m.emission_step(0, 166_000), (false, 0));
    assert_eq!(m.emission_step(0, 166_001), (true, 166_001));
    assert_eq!(m.compaction_step(10_000_000, 0), (true, 0));
    assert_eq!(m.compaction_step(0, 10_000_000), (false, 0));
    assert_eq!(m.emission_us(), 166_000);
    assert_eq!(m.compaction_us(), 5_000_000);
}

#[test]
fn new_page_table_has_its_header_then_empty_slots() {
    let t = initial_page_table(40);
    assert_eq!(&t[..8], &[0, 0, 0, 0, 1, 0, 0, 0]);
    assert!(t[8..32].iter().all(|b| *b == 0));
    assert!(t[32..].iter().all(|b| *b == 0xFF));
    assert_eq!(t.len(), 40);
}

#[test]
fn reset_dispatches_cover_every_system_of_the_compute_state() {
    let mut m = manager();
    m.add_page_tables(5, buf(50), buf(60));
    m.add_page_tables(6, buf(70), buf(80));
    let mut d = m.reset_dispatches(64, 1000);
    d.sort_by_key(|x| x.id);
    assert_eq!(
        d,
        vec![
            ResetDispatch { id: 5, page_table: 2060, free_list: 2004, groups_x: 4 },
            ResetDispatch { id: 6, page_table: 2080, free_list: 2004, groups_x: 4 },
        ]
    );
    let mut ids = m.table_ids(0);
    ids.sort();
    assert_eq!(ids, vec![5, 6]);
}

#[test]
fn emitter_is_packed_as_the_shaders_read_it() {
    let b = emitter_bytes(1.0f32.to_bits(), 2.0f32.to_bits(), 3.0f32.to_bits(), 4.5f32.to_bits(), 1);
    assert_eq!(b.len(), 32);
    assert_eq!(f32::from_le_bytes([b[4], b[5], b[6], b[7]]), 2.0);
    assert_eq!(f32::from_le_bytes([b[12], b[13], b[14], b[15]]), 4.5);
    assert_eq!(u32::from_le_bytes([b[16], b[17], b[18], b[19]]), 1);
    assert!(b[20..].iter().all(|x| *x == 0));
}

#[test]
fn emitter_upload_direct_or_staged() {
    let direct = emitter_upload_plan(10, None);
    assert_eq!(direct.host_barrier.masks.src_stage, STAGE_HOST);
    assert_eq!(direct.host_barrier.masks.dst_stage, STAGE_COMPUTE_SHADER);
    assert_eq!(direct.host_barrier.buffer, 10);
    assert!(direct.copy.is_none());
    assert_eq!(direct.discards, vec![10]);
    let staged = emitter_upload_plan(10, Some(11));
    assert_eq!(staged.host_barrier.buffer, 11);
    assert_eq!(staged.host_barrier.masks.src_access, ACCESS_HOST_WRITE);
    assert_eq!(staged.copy, Some(BufferCopy { src: 0, dst: 0, size: 32 }));
    let t = staged.transfer_barrier.unwrap();
    assert_eq!((t.buffer, t.masks.dst_access), (10, ACCESS_SHADER_STORAGE_READ));
    assert_eq!(staged.discards, vec![11, 10]);
}
