use aethervk_device::fnv::FnvState;
use aethervk_device::gizmos::{
    batch_barrier, gizmo_buffer_index, sphere_gizmo_batch, sphere_vertices, SphereGizmo,
};
use aethervk_device::particles::{ACCESS_SHADER_READ, STAGE_FRAGMENT_SHADER, STAGE_TRANSFER, STAGE_VERTEX_SHADER};

#[test]
fn sphere_vertex_counts() {
    // 4 subdivisions: 4 * 7 * 2 = 56 sphere vertices, plus 6 axis and 24 arrowhead vertices
    assert_eq!(sphere_vertices(0), 86);
    assert_eq!(sphere_vertices(4), 86);
    assert_eq!(sphere_vertices(8), 8 * 15 * 2 + 30);
}

#[test]
fn empty_batch_draws_nothing() {
    assert!(sphere_gizmo_batch(&vec![], 4).is_none());
}

#[test]
fn batch_places_records_by_slot() {
    let gizmos = vec![
        SphereGizmo { slot: 2, record: vec![1, 2, 3, 4], subdivisions: 8 },
        SphereGizmo { slot: 0, record: vec![5, 6, 7, 8], subdivisions: 2 },
    ];
    let b = sphere_gizmo_batch(&gizmos, 4).unwrap();
    assert_eq!(b.total_gizmos, 3);
    assert_eq!(b.total_vertices, 270);
    assert_eq!(b.staged, vec![5, 6, 7, 8, 0, 0, 0, 0, 1, 2, 3, 4]);
    let barrier = batch_barrier(77, 12);
    assert_eq!(barrier.masks.src_stage, STAGE_TRANSFER);
    assert_eq!(barrier.masks.dst_stage, STAGE_VERTEX_SHADER | STAGE_FRAGMENT_SHADER);
    assert_eq!(barrier.masks.dst_access, ACCESS_SHADER_READ);
    assert_eq!((barrier.buffer, barrier.size), (77, 12));
}

#[test]
fn later_gizmo_of_a_slot_wins() {
    let gizmos = vec![
        SphereGizmo { slot: 1, record: vec![1, 1], subdivisions: 4 },
        SphereGizmo { slot: 1, record: vec![2, 2], subdivisions: 4 },
    ];
    let b = sphere_gizmo_batch(&gizmos, 2).unwrap();
    assert_eq!(b.staged, vec![0, 0, 2, 2]);
}

#[test]
fn gizmo_buffer_follows_the_entity_hash() {
    let mut h = FnvState::new();
    h.write_u64(42);
    assert_eq!(gizmo_buffer_index(42, 16) as u64, h.h % 16);
    assert!(gizmo_buffer_index(7, 3) < 3);
}
