use aethervk_device::resources::{ClaimAction, ResourceState, ResourceTable};
use aethervk_device::sun::{
    commit_sun, dispatch_group_counts, plan_sun_operation, sun_compute_info, sun_dispatch_barriers,
    transient_release_timeline, Resolution, SunOperation, SunOutcome, SunResource,
    ACCESS_SHADER_STORAGE_WRITE, IMAGE_LAYOUT_GENERAL, IMAGE_LAYOUT_SHADER_READ_ONLY_OPTIMAL,
    IMAGE_LAYOUT_UNDEFINED, STAGE_FRAGMENT_SHADER, STAGE_NONE,
};

fn sun(image: u64) -> SunResource {
    SunResource {
        resolution: Resolution { x: 64, y: 64, z: 64 },
        image,
        image_view: 2,
        image_allocation: 3,
        descriptor_set: 4,
        is_generated: false,
        params_buffer: 5,
        params_alloc: 6,
        compute_descriptor_pool: 7,
        compute_descriptor_set_layout: 8,
        compute_descriptor_set: 9,
        compute_pipeline: 10,
        compute_pipeline_layout: 11,
        last_timeline: 0,
    }
}

#[test]
fn first_claim_wins_later_claims_wait() {
    let mut t: ResourceTable<u32> = ResourceTable::new();
    assert!(t.is_empty());
    assert_eq!(t.claim(5), ClaimAction::Winner);
    assert_eq!(t.claim(5), ClaimAction::Yield);
    assert!(matches!(t.state_of(5), Some(ResourceState::Pending)));
    assert_eq!(t.commit_ready(5, 42), None);
    assert_eq!(t.claim(5), ClaimAction::Ready);
    assert!(matches!(t.state_of(5), Some(ResourceState::Ready(42))));
}

#[test]
fn released_claim_lets_the_next_caller_win() {
    let mut t: ResourceTable<u32> = ResourceTable::new();
    assert_eq!(t.claim(1), ClaimAction::Winner);
    assert!(t.release_claim(1));
    assert!(t.state_of(1).is_none());
    assert!(!t.release_claim(1));
    assert_eq!(t.claim(1), ClaimAction::Winner);
}

#[test]
fn ready_entries_survive_a_release() {
    let mut t: ResourceTable<u32> = ResourceTable::new();
    let _ = t.commit_ready(2, 8);
    assert!(!t.release_claim(2));
    assert_eq!(t.commit_ready(2, 9), Some(8));
}

#[test]
fn drain_returns_ready_resources_in_order() {
    let mut t: ResourceTable<u32> = ResourceTable::new();
    let _ = t.commit_ready(1, 10);
    let _ = t.claim(2);
    let _ = t.commit_ready(3, 30);
    assert_eq!(t.drain_ready(), vec![10, 30]);
    assert!(t.is_empty());
}

#[test]
fn update_touches_only_ready_entries() {
    let mut t: ResourceTable<u32> = ResourceTable::new();
    let _ = t.claim(1);
    assert!(!t.update_ready(1, |v: u32| v + 1));
    let _ = t.commit_ready(2, 5);
    assert!(t.update_ready(2, |v: u32| v + 1));
    assert!(matches!(t.state_of(2), Some(ResourceState::Ready(6))));
}

#[test]
fn sun_is_created_then_dispatched_again() {
    let mut t: ResourceTable<SunResource> = ResourceTable::new();
    assert_eq!(plan_sun_operation(&t, 9), SunOperation::InitAndDispatch);
    assert_eq!(commit_sun(&mut t, 9, SunOutcome::Created(sun(77))), None);
    match plan_sun_operation(&t, 9) {
        SunOperation::DispatchOnly { image, compute_pipeline, is_generated, .. } => {
            assert_eq!(image, 77);
            assert_eq!(compute_pipeline, 10);
            assert!(is_generated);
        }
        other => panic!("unexpected {:?}", other),
    }
    assert_eq!(commit_sun(&mut t, 9, SunOutcome::Updated(31)), None);
    match t.state_of(9) {
        Some(ResourceState::Ready(s)) => assert_eq!(s.last_timeline, 31),
        _ => panic!("sun missing"),
    }
}

#[test]
fn update_of_a_missing_sun_changes_nothing() {
    let mut t: ResourceTable<SunResource> = ResourceTable::new();
    assert_eq!(commit_sun(&mut t, 3, SunOutcome::Updated(4)), None);
    assert!(t.state_of(3).is_none());
}

#[test]
fn dispatch_covers_the_volume() {
    assert_eq!(dispatch_group_counts(Resolution { x: 100, y: 8, z: 1 }), (13, 1, 1));
    assert_eq!(dispatch_group_counts(Resolution { x: 0, y: 16, z: 17 }), (0, 2, 3));
}

#[test]
fn first_dispatch_starts_from_undefined() {
    let (before, after) = sun_dispatch_barriers(false);
    assert_eq!(before.old_layout, IMAGE_LAYOUT_UNDEFINED);
    assert_eq!(before.src_stage, STAGE_NONE);
    assert_eq!(before.new_layout, IMAGE_LAYOUT_GENERAL);
    assert_eq!(before.dst_access, ACCESS_SHADER_STORAGE_WRITE);
    assert_eq!(after.new_layout, IMAGE_LAYOUT_SHADER_READ_ONLY_OPTIMAL);
    let (again, _) = sun_dispatch_barriers(true);
    assert_eq!(again.old_layout, IMAGE_LAYOUT_SHADER_READ_ONLY_OPTIMAL);
    assert_eq!(again.src_stage, STAGE_FRAGMENT_SHADER);
}

#[test]
fn sun_pipeline_carries_the_debug_switch() {
    let on = sun_compute_info(3, 4, true);
    assert_eq!(on.shader_module, 3);
    assert_eq!(on.pipeline_layout, 4);
    assert_eq!(on.specialization_constants.len(), 1);
    assert_eq!(on.specialization_constants[0].constant_id, 10);
    assert_eq!(on.specialization_constants_values, vec![1, 0, 0, 0]);
    let off = sun_compute_info(3, 4, false);
    assert_eq!(off.specialization_constants_values, vec![0, 0, 0, 0]);
    assert_ne!(on.pipeline_key(), off.pipeline_key());
}

#[test]
fn transient_objects_outlive_two_submissions() {
    assert_eq!(transient_release_timeline(10), 13);
}

#[test]
fn failed_build_leaves_no_pending_entry() {
    let mut t: ResourceTable<u32> = ResourceTable::new();
    assert_eq!(t.claim(9), ClaimAction::Winner);
    assert_eq!(t.finish_build(9, Err::<u32, i32>(-4)), Err(-4));
    assert!(t.state_of(9).is_none());
    assert_eq!(t.claim(9), ClaimAction::Winner);
    assert_eq!(t.finish_build::<i32>(9, Ok(77)), Ok(()));
    assert!(matches!(t.state_of(9), Some(ResourceState::Ready(77))));
    assert_eq!(t.claim(9), ClaimAction::Ready);
}
