use aethervk_device::submission::{SubmitTimelines, TimelineCounter, TimelinePoint};
use aethervk_device::particles::QueueRole;
use aethervk_device::submission::{
    check_sync_info_counts, gpu_sync_info_to_flags, is_resize_required, presentation_for_role,
    submission_plan, submission_result, PresentationSync, SubmitError, SyncInfo, SyncStage,
    STAGE_BOTTOM_OF_PIPE, STAGE_COLOR_ATTACHMENT_OUTPUT, STAGE_TOP_OF_PIPE, STAGE_TRANSFER,
    STAGE_VERTEX_ATTRIBUTE_INPUT,
};

fn pres() -> PresentationSync {
    PresentationSync { signal_semaphore: Some(5), wait_semaphore: Some(6), swapchain_generation: 3, submission_fence: Some(9) }
}

#[test]
fn sync_stage_flags() {
    assert_eq!(gpu_sync_info_to_flags(SyncStage::TopBottom, false), STAGE_TOP_OF_PIPE);
    assert_eq!(gpu_sync_info_to_flags(SyncStage::TopBottom, true), STAGE_BOTTOM_OF_PIPE);
    assert_eq!(gpu_sync_info_to_flags(SyncStage::Transfer, false), STAGE_TRANSFER);
    assert_eq!(gpu_sync_info_to_flags(SyncStage::VertexAttributeInput, true), STAGE_VERTEX_ATTRIBUTE_INPUT);
}

#[test]
fn at_most_eight_sync_infos() {
    assert_eq!(check_sync_info_counts(8, 8), Ok(()));
    assert_eq!(check_sync_info_counts(9, 0), Err(SubmitError::TooManySyncInfos));
    assert_eq!(check_sync_info_counts(0, 9), Err(SubmitError::TooManySyncInfos));
}

#[test]
fn compute_submissions_have_no_presentation() {
    assert_eq!(presentation_for_role(QueueRole::Compute, Some(pres())), None);
    assert_eq!(presentation_for_role(QueueRole::Graphics, Some(pres())), Some(pres()));
}

#[test]
fn frame_submission_semaphores() {
    let waits = vec![SyncInfo { timeline_semaphore: 20, timeline_value: 4, wait_stage_mask: SyncStage::Transfer }];
    let signals = vec![SyncInfo { timeline_semaphore: 21, timeline_value: 8, wait_stage_mask: SyncStage::TopBottom }];
    let plan = submission_plan(Some(pres()), &waits, &signals, 30, 100);
    assert_eq!(plan.waits.len(), 2);
    assert_eq!(plan.waits[0].semaphore, 6);
    assert_eq!(plan.waits[0].stage_mask, STAGE_COLOR_ATTACHMENT_OUTPUT);
    assert_eq!(plan.waits[1].semaphore, 20);
    assert_eq!(plan.waits[1].value, 4);
    assert_eq!(plan.waits[1].stage_mask, STAGE_TRANSFER);
    assert_eq!(plan.signals.len(), 3);
    assert_eq!(plan.signals[0].semaphore, 5);
    assert_eq!(plan.signals[1].semaphore, 21);
    assert_eq!(plan.signals[1].stage_mask, STAGE_TOP_OF_PIPE);
    assert_eq!(plan.signals[2].semaphore, 30);
    assert_eq!(plan.signals[2].value, 100);
    assert_eq!(plan.signals[2].stage_mask, STAGE_BOTTOM_OF_PIPE);
    assert_eq!(plan.fence, 9);
}

#[test]
fn compute_submission_signals_only_its_timeline() {
    let plan = submission_plan(None, &Vec::new(), &Vec::new(), 30, 7);
    assert!(plan.waits.is_empty());
    assert_eq!(plan.signals.len(), 1);
    assert_eq!(plan.fence, 0);
}

#[test]
fn resize_is_required_after_swapchain_recreation() {
    assert!(is_resize_required(Some(4), Some(pres())));
    assert!(!is_resize_required(Some(3), Some(pres())));
    assert!(!is_resize_required(None, Some(pres())));
    assert_eq!(submission_result(true, 1, 2), Err(SubmitError::ResizeRequired));
    assert_eq!(submission_result(false, 1, 2), Ok((1, 2)));
}

#[test]
fn timeline_values_follow_submission_order() {
    let mut t = SubmitTimelines {
        graphics: TimelineCounter { semaphore: 10, next: 5 },
        compute: TimelineCounter { semaphore: 20, next: 100 },
    };
    assert_eq!(t.allocate(QueueRole::Graphics), TimelinePoint { semaphore: 10, value: 5 });
    assert_eq!(t.allocate(QueueRole::Compute), TimelinePoint { semaphore: 20, value: 100 });
    assert_eq!(t.allocate(QueueRole::Graphics), TimelinePoint { semaphore: 10, value: 6 });
    assert_eq!(t.graphics.next, 7);
    assert_eq!(t.compute.next, 101);
}
