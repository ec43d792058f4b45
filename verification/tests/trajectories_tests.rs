use aethervk_device::trajectories::{
    allocated_offset, plan_trajectory_batch, segment_count, CurveDecision, SegmentMap,
    SegmentRange, TrajectoryBatch, TrajectoryCurves, TrajectoryInput,
};
use std::cell::{Cell, RefCell};

#[test]
fn new_trajectory_gets_room_to_grow() {
    let mut c = TrajectoryCurves::new();
    let _ = c.begin_frame();
    assert_eq!(c.touch(1, 4, 77), CurveDecision::Allocate { capacity: 6 });
    c.commit_allocation(1, 100, 6, 77);
    assert_eq!(c.touch(1, 4, 77), CurveDecision::Reuse { offset: 100 });
    assert_eq!(c.touch(1, 6, 77), CurveDecision::Reuse { offset: 100 });
    assert_eq!(c.touch(1, 6, 78), CurveDecision::Upload { offset: 100 });
    assert_eq!(c.touch(1, 6, 78), CurveDecision::Reuse { offset: 100 });
    assert_eq!(c.touch(1, 7, 78), CurveDecision::Reallocate { freed: SegmentRange { offset: 100, count: 6 }, capacity: 10 });
    c.commit_allocation(1, 200, 10, 78);
    assert_eq!(c.touch(1, 7, 78), CurveDecision::Reuse { offset: 200 });
    assert_eq!(c.touch(2, 0, 1), CurveDecision::Skip);
}

#[test]
fn undrawn_curves_are_freed_after_ten_frames() {
    let mut c = TrajectoryCurves::new();
    let _ = c.begin_frame();
    assert_eq!(c.tick(), 1);
    let _ = c.touch(1, 2, 5);
    c.commit_allocation(1, 40, 3, 5);
    for _ in 0..10 {
        assert!(c.begin_frame().is_empty());
    }
    assert_eq!(c.tick(), 11);
    assert_eq!(c.begin_frame(), vec![SegmentRange { offset: 40, count: 3 }]);
    assert_eq!(c.touch(1, 2, 5), CurveDecision::Allocate { capacity: 3 });
}

#[test]
fn drawing_keeps_the_range() {
    let mut c = TrajectoryCurves::new();
    let _ = c.begin_frame();
    let _ = c.touch(1, 2, 5);
    c.commit_allocation(1, 40, 3, 5);
    for _ in 0..30 {
        assert!(c.begin_frame().is_empty());
        assert_eq!(c.touch(1, 2, 5), CurveDecision::Reuse { offset: 40 });
    }
}

#[test]
fn helpers() {
    assert_eq!(allocated_offset(Some(12)), 12);
    assert_eq!(allocated_offset(None), 0);
    assert_eq!(segment_count(9), 2);
    assert_eq!(segment_count(3), 0);
}

#[test]
fn batch_collects_copies_maps_and_totals() {
    let mut b = TrajectoryBatch::new();
    b.add(0, 2, 10, true, 8, 0x1000);
    b.add(1, 3, 20, false, 16, 0x1000);
    b.add(2, 1, 30, true, 4, 0x1000);
    assert_eq!(b.upload_segments, 3);
    assert_eq!(b.segment_copies.len(), 2);
    assert_eq!(b.segment_copies[0].src_offset, 0);
    assert_eq!(b.segment_copies[0].dst_offset, 640);
    assert_eq!(b.segment_copies[0].size, 128);
    assert_eq!(b.segment_copies[1].src_offset, 128);
    assert_eq!(b.segment_copies[1].dst_offset, 1920);
    assert_eq!(b.segment_ptrs, vec![0x1000 + 640, 0x1000 + 1280, 0x1000 + 1920]);
    assert_eq!(b.maps.len(), 6);
    assert_eq!(b.maps[3].trajectory_id, 1);
    assert_eq!(b.maps[3].local_segment_id, 1);
    assert_eq!(b.maps[3].subdivisions, 16);
    assert_eq!(b.total_segments, 6);
    assert_eq!(b.max_subdivisions, 16);
    assert_eq!(b.total_vertices(), 34);
    assert_eq!(b.staging_sizes(), (192, 144, 72));
    let staged = b.staged_segment_copies(1000);
    assert_eq!(staged[1].src_offset, 1128);
    assert_eq!(staged[1].dst_offset, 1920);
}

#[test]
fn trajectory_batch_skips_short_trajectories() {
    let mut curves = TrajectoryCurves::new();
    let next = Cell::new(100u64);
    let alloc = |c: u64| -> Option<u64> {
        let o = next.get();
        next.set(o + c);
        Some(o)
    };
    let freed = RefCell::new(Vec::new());
    let free = |r: SegmentRange| freed.borrow_mut().push(r);
    let ts = vec![
        TrajectoryInput { entity: 1, points: 8, hash: 5, subdivisions: 3 },
        TrajectoryInput { entity: 2, points: 3, hash: 6, subdivisions: 9 },
        TrajectoryInput { entity: 3, points: 4, hash: 7, subdivisions: 2 },
    ];
    let b = plan_trajectory_batch(&mut curves, &ts, &alloc, &free, 0x1000, 1 << 20).unwrap();
    assert_eq!(b.total_segments, 3);
    assert_eq!(b.segment_ptrs, vec![0x1000 + 100 * 64, 0x1000 + 103 * 64]);
    assert_eq!(b.max_subdivisions, 3);
    assert_eq!(b.upload_segments, 3);
    assert_eq!(
        b.maps,
        vec![
            SegmentMap { trajectory_id: 0, local_segment_id: 0, subdivisions: 3 },
            SegmentMap { trajectory_id: 0, local_segment_id: 1, subdivisions: 3 },
            SegmentMap { trajectory_id: 2, local_segment_id: 0, subdivisions: 2 },
        ]
    );
    assert_eq!(b.total_vertices(), 8);
    // the same frame again: nothing new to upload
    let again = plan_trajectory_batch(&mut curves, &ts, &alloc, &free, 0x1000, 1 << 20).unwrap();
    assert_eq!(again.upload_segments, 0);
    assert!(freed.borrow().is_empty());
    let none = plan_trajectory_batch(
        &mut curves,
        &vec![TrajectoryInput { entity: 4, points: 2, hash: 0, subdivisions: 1 }],
        &alloc,
        &free,
        0x1000,
        1 << 20,
    );
    assert!(none.is_none());
}
