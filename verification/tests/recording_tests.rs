use aethervk_device::particles::QueueRole;
use aethervk_device::recording::{
    AcquiredImage, CommandAndEngine, CompositingContext, RecordingBuffers, RecordingError,
};
use aethervk_device::submission::PresentationSync;

fn sync() -> PresentationSync {
    PresentationSync { signal_semaphore: Some(11), wait_semaphore: Some(12), swapchain_generation: 0, submission_fence: Some(13) }
}

fn fresh_image(generation: u64) -> AcquiredImage {
    AcquiredImage { needs_resize: false, swapchain_generation: generation }
}

#[test]
fn unknown_command_buffers_are_refused() {
    let mut rb = RecordingBuffers::new();
    assert_eq!(rb.begin(1, QueueRole::Graphics), Err(RecordingError::InvalidCommandBuffer));
    assert_eq!(rb.command_buffer(1), Err(RecordingError::InvalidCommandBuffer));
    assert_eq!(rb.next_subpass(1), Err(RecordingError::InvalidCommandBuffer));
    assert_eq!(rb.end_render_pass(1), Err(RecordingError::InvalidCommandBuffer));
    assert_eq!(rb.set_presentation_engine(1, 5), Err(RecordingError::InvalidCommandBuffer));
    assert_eq!(rb.begin_render_pass(1, fresh_image(0), 0, sync()), Err(RecordingError::InvalidCommandBuffer));
}

#[test]
fn roles_are_kept_apart() {
    let mut rb = RecordingBuffers::new();
    rb.insert(1, QueueRole::Compute, 500);
    assert_eq!(rb.command_buffer(1), Err(RecordingError::InvalidCommandBuffer));
    assert_eq!(rb.begin(1, QueueRole::Compute), Ok(true));
    assert_eq!(rb.begin(1, QueueRole::Compute), Ok(false));
    assert!(rb.get(1, QueueRole::Graphics).is_none());
    assert_eq!(rb.remove(1, QueueRole::Compute).map(|s| s.command_buffer), Some(500));
    assert!(rb.get(1, QueueRole::Compute).is_none());
}

#[test]
fn render_pass_needs_a_begun_buffer_of_the_current_swapchain() {
    let mut rb = RecordingBuffers::new();
    rb.insert(2, QueueRole::Graphics, 700);
    assert_eq!(rb.begin_render_pass(2, fresh_image(3), 3, sync()), Err(RecordingError::NotBegun));
    assert_eq!(rb.begin(2, QueueRole::Graphics), Ok(true));
    assert_eq!(rb.begin_render_pass(2, fresh_image(3), 4, sync()), Err(RecordingError::ResizeRequired));
    let stale = AcquiredImage { needs_resize: true, swapchain_generation: 3 };
    assert_eq!(rb.begin_render_pass(2, stale, 3, sync()), Err(RecordingError::ResizeRequired));
    assert!(rb.get(2, QueueRole::Graphics).unwrap().presentation.is_none());
    assert_eq!(rb.begin_render_pass(2, fresh_image(3), 3, sync()), Ok(700));
    let p = rb.get(2, QueueRole::Graphics).unwrap().presentation.unwrap();
    assert_eq!(p.swapchain_generation, 3);
    assert_eq!(p.wait_semaphore, Some(12));
}

#[test]
fn compositing_subpasses_are_counted_and_cleared_at_the_end() {
    let mut rb = RecordingBuffers::new();
    rb.insert(4, QueueRole::Graphics, 900);
    assert_eq!(rb.compositing_context(4), Ok(None));
    rb.enter_compositing(4, 77, 6);
    assert_eq!(rb.next_subpass(4), Ok(900));
    assert_eq!(rb.next_subpass(4), Ok(900));
    assert_eq!(
        rb.compositing_context(4),
        Ok(Some(CompositingContext { render_pass: 77, subpass: 2, pe_handle: 6 }))
    );
    assert_eq!(rb.end_render_pass(4), Ok(900));
    assert_eq!(rb.compositing_context(4), Ok(None));
    rb.set_bound_pipeline(4, 31);
    assert_eq!(rb.get(4, QueueRole::Graphics).unwrap().bound_pipeline, Some(31));
}

#[test]
fn presentation_engine_lookup() {
    let mut rb = RecordingBuffers::new();
    rb.insert(8, QueueRole::Graphics, 1000);
    assert_eq!(rb.command_buffer_and_engine(8), Err(RecordingError::NoPresentationEngine));
    assert_eq!(rb.set_presentation_engine(8, 3), Ok(()));
    assert_eq!(
        rb.command_buffer_and_engine(8),
        Ok(CommandAndEngine { command_buffer: 1000, presentation_engine: 3 })
    );
    rb.insert(8, QueueRole::Graphics, 1001);
    assert_eq!(rb.command_buffer_and_engine(8), Err(RecordingError::NoPresentationEngine));
    assert_eq!(rb.command_buffer(8), Ok(1001));
}
