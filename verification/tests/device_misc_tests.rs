use aethervk_device::queues::{Queue, Queues};
use aethervk_device::recording::{Disposal, RecordingState};
use aethervk_device::setup::{
    choose_depth_stencil_format, choose_physical_device, queue_create_families, SetupError,
    FORMAT_D24_UNORM_S8_UINT, FORMAT_D32_SFLOAT_S8_UINT,
};
use aethervk_device::sky::{needs_sky, sky_barriers, sky_cleanup_timeline, sky_compute_info, sky_dispatch};
use aethervk_device::submission::PresentationSync;

fn q(handle: u64, family: u32) -> Queue {
    Queue { handle, index: 0, family_index: family }
}

#[test]
fn roles_take_the_first_queue_of_their_family() {
    let qs = Queues::from_queues(vec![q(10, 0), q(11, 2), q(12, 1)], 0, 2, 1);
    assert_eq!(qs.get_graphics_queue().handle, 10);
    assert_eq!(qs.get_compute_queue().handle, 11);
    assert_eq!(qs.get_transfer_queue().handle, 12);
    let shared = Queues::from_queues(vec![q(10, 0)], 0, 0, 0);
    assert_eq!(shared.get_compute_queue().handle, 10);
    assert_eq!(shared.get_transfer_queue().family_index, 0);
}

#[test]
fn device_setup_choices() {
    assert_eq!(choose_physical_device(2, 1), Ok(1));
    assert_eq!(choose_physical_device(2, 2), Err(SetupError::NoDeviceAtIndex(2)));
    assert_eq!(choose_depth_stencil_format(0x200, 0x200), Ok(FORMAT_D24_UNORM_S8_UINT));
    assert_eq!(choose_depth_stencil_format(0x1, 0x201), Ok(FORMAT_D32_SFLOAT_S8_UINT));
    assert_eq!(choose_depth_stencil_format(0, 0), Err(SetupError::UnsupportedFeature));
    assert_eq!(queue_create_families(3), vec![0, 1, 2]);
}

#[test]
fn sky_generation_plan() {
    assert!(needs_sky(false));
    assert!(!needs_sky(true));
    assert_eq!(sky_dispatch(), (128, 128, 1));
    let info = sky_compute_info(1, 2, false);
    assert_eq!(info.specialization_constants.len(), 3);
    assert_eq!(info.specialization_constants[2].constant_id, 10);
    assert_eq!(info.specialization_constants_values, vec![16, 0, 0, 0, 16, 0, 0, 0, 0, 0, 0, 0]);
    let (a, b) = sky_barriers();
    assert_eq!(a.new_layout, b.old_layout);
    assert_eq!(sky_cleanup_timeline(5), 7);
}

#[test]
fn begin_is_idempotent_and_decides_disposal() {
    let mut r = RecordingState::new(44);
    assert_eq!(r.disposal(9), Disposal::RecycleNow);
    assert!(r.begin());
    assert!(!r.begin());
    assert_eq!(r.disposal(9), Disposal::DiscardAt(9));
    r.presentation = Some(PresentationSync { signal_semaphore: None, wait_semaphore: None, swapchain_generation: 1, submission_fence: None });
    assert!(r.take_presentation().is_some());
    assert!(r.take_presentation().is_none());
}
