//! What a queue submission waits on and signals.
//!
//! A submission waits on the presentation engine's acquire semaphore (for a
//! frame) and on the caller's timeline points, and signals the presentation
//! engine's render-finished semaphore, the caller's timeline points and,
//! last, the queue's own timeline semaphore at the value that marks the
//! end of this submission.
use crate::particles::QueueRole;
use vstd::prelude::*;

verus! {

/// Timeline points a submission may wait on.
pub const MAX_WAIT_SYNC_INFOS: usize = 8;

/// Timeline points a submission may signal.
pub const MAX_SIGNAL_SYNC_INFOS: usize = 8;

/// `VK_PIPELINE_STAGE_2_TOP_OF_PIPE_BIT`.
pub const STAGE_TOP_OF_PIPE: u64 = 0x1;

/// `VK_PIPELINE_STAGE_2_COLOR_ATTACHMENT_OUTPUT_BIT`.
pub const STAGE_COLOR_ATTACHMENT_OUTPUT: u64 = 0x400;

/// `VK_PIPELINE_STAGE_2_TRANSFER_BIT`.
pub const STAGE_TRANSFER: u64 = 0x1000;

/// `VK_PIPELINE_STAGE_2_BOTTOM_OF_PIPE_BIT`.
pub const STAGE_BOTTOM_OF_PIPE: u64 = 0x2000;

/// `VK_PIPELINE_STAGE_2_VERTEX_ATTRIBUTE_INPUT_BIT`.
pub const STAGE_VERTEX_ATTRIBUTE_INPUT: u64 = 0x20_0000_0000;

/// The stage a timeline point is waited on or signalled at.
#[derive(Clone, Copy, Debug, PartialEq, Eq, Structural)]
pub enum SyncStage {
    /// The whole pipeline: top of pipe when waiting, bottom when signalling.
    TopBottom,
    Transfer,
    VertexAttributeInput,
}

/// A timeline point given by the caller.
#[derive(Clone, Copy, Debug, PartialEq, Eq, Structural)]
pub struct SyncInfo {
    pub timeline_semaphore: u64,
    pub timeline_value: u64,
    pub wait_stage_mask: SyncStage,
}

/// The presentation engine's part of a frame submission.
#[derive(Clone, Copy, Debug, PartialEq, Eq, Structural)]
pub struct PresentationSync {
    pub signal_semaphore: Option<u64>,
    pub wait_semaphore: Option<u64>,
    pub swapchain_generation: u64,
    pub submission_fence: Option<u64>,
}

/// One `VkSemaphoreSubmitInfo`.
#[derive(Clone, Copy, Debug, PartialEq, Eq, Structural)]
pub struct SemaphoreSubmit {
    pub semaphore: u64,
    pub value: u64,
    pub stage_mask: u64,
}

/// The semaphores and fence of one `vkQueueSubmit2`.
pub struct SubmitPlan {
    pub waits: Vec<SemaphoreSubmit>,
    pub signals: Vec<SemaphoreSubmit>,
    pub fence: u64,
}

/// Why a submission was refused or must be redone.
#[derive(Clone, Copy, Debug, PartialEq, Eq, Structural)]
pub enum SubmitError {
    /// More than eight timeline points to wait on or to signal.
    TooManySyncInfos,
    /// The swapchain was recreated since the frame was acquired.
    ResizeRequired,
}

/// The pipeline stage of a timeline point.
pub open spec fn spec_stage_flags(stage: SyncStage, is_signal: bool) -> u64 {
    match stage {
        SyncStage::TopBottom => if is_signal {
            STAGE_BOTTOM_OF_PIPE
        } else {
            STAGE_TOP_OF_PIPE
        },
        SyncStage::Transfer => STAGE_TRANSFER,
        SyncStage::VertexAttributeInput => STAGE_VERTEX_ATTRIBUTE_INPUT,
    }
}

/// See [`spec_stage_flags`].
pub fn gpu_sync_info_to_flags(stage: SyncStage, is_signal: bool) -> (r: u64)
    ensures
        r == spec_stage_flags(stage, is_signal),
{
    match stage {
        SyncStage::TopBottom => if is_signal {
            STAGE_BOTTOM_OF_PIPE
        } else {
            STAGE_TOP_OF_PIPE
        },
        SyncStage::Transfer => STAGE_TRANSFER,
        SyncStage::VertexAttributeInput => STAGE_VERTEX_ATTRIBUTE_INPUT,
    }
}

/// A caller's timeline point as submitted; signal points are given the
/// flags of their waiting stage too (`is_signal` false).
pub open spec fn submit_of(s: SyncInfo) -> SemaphoreSubmit {
    SemaphoreSubmit {
        semaphore: s.timeline_semaphore,
        value: s.timeline_value,
        stage_mask: spec_stage_flags(s.wait_stage_mask, false),
    }
}

/// Refuses more than eight timeline points to wait on or to signal.
pub fn check_sync_info_counts(wait_count: usize, signal_count: usize) -> (r: Result<(), SubmitError>)
    ensures
        r is Ok == (wait_count <= MAX_WAIT_SYNC_INFOS && signal_count <= MAX_SIGNAL_SYNC_INFOS),
        r is Err ==> r == Err::<(), SubmitError>(SubmitError::TooManySyncInfos),
{
    if wait_count > MAX_WAIT_SYNC_INFOS || signal_count > MAX_SIGNAL_SYNC_INFOS {
        Err(SubmitError::TooManySyncInfos)
    } else {
        Ok(())
    }
}

/// The presentation part of a submission: a graphics submission takes the
/// command buffer's, a compute one has none.
pub fn presentation_for_role(role: QueueRole, recorded: Option<PresentationSync>) -> (r: Option<
    PresentationSync,
>)
    ensures
        r == (match role {
            QueueRole::Graphics => recorded,
            QueueRole::Compute => None,
        }),
{
    match role {
        QueueRole::Graphics => recorded,
        QueueRole::Compute => None,
    }
}

/// The presentation engine's semaphores, at the color output stage.
pub open spec fn presentation_submit(sem: Option<u64>) -> Seq<SemaphoreSubmit> {
    match sem {
        Some(s) => seq![SemaphoreSubmit { semaphore: s, value: 0, stage_mask: STAGE_COLOR_ATTACHMENT_OUTPUT }],
        None => Seq::empty(),
    }
}

fn push_sync_infos(out: &mut Vec<SemaphoreSubmit>, infos: &Vec<SyncInfo>)
    ensures
        final(out)@ == old(out)@ + infos@.map_values(|s: SyncInfo| submit_of(s)),
{
    let ghost start = out@;
    let mut i: usize = 0;
    while i < infos.len()
        invariant
            0 <= i <= infos@.len(),
            out@ == start + infos@.subrange(0, i as int).map_values(|s: SyncInfo| submit_of(s)),
        decreases infos@.len() - i,
    {
        let s = infos[i];
        let stage = gpu_sync_info_to_flags(s.wait_stage_mask, false);
        out.push(SemaphoreSubmit { semaphore: s.timeline_semaphore, value: s.timeline_value, stage_mask: stage });
        proof {
            assert(infos@.subrange(0, i + 1) =~= infos@.subrange(0, i as int).push(s));
            assert(out@ =~= start + infos@.subrange(0, i + 1).map_values(|s: SyncInfo| submit_of(s)));
        }
        i = i + 1;
    }
    assert(infos@.subrange(0, infos@.len() as int) =~= infos@);
}

/// The semaphores of a submission: it waits on the presentation engine's
/// acquire semaphore then on the caller's points; it signals the
/// presentation engine's render-finished semaphore, the caller's points,
/// and last the queue's timeline semaphore at `next_value` at the bottom
/// of the pipe. The fence is the presentation engine's, if any.
pub fn submission_plan(
    presentation: Option<PresentationSync>,
    wait_infos: &Vec<SyncInfo>,
    signal_infos: &Vec<SyncInfo>,
    timeline_semaphore: u64,
    next_value: u64,
) -> (r: SubmitPlan)
    ensures
        r.waits@ == (match presentation {
            Some(p) => presentation_submit(p.wait_semaphore),
            None => Seq::<SemaphoreSubmit>::empty(),
        }) + wait_infos@.map_values(|s: SyncInfo| submit_of(s)),
        r.signals@ == (match presentation {
            Some(p) => presentation_submit(p.signal_semaphore),
            None => Seq::<SemaphoreSubmit>::empty(),
        }) + signal_infos@.map_values(|s: SyncInfo| submit_of(s)) + seq![
            SemaphoreSubmit {
                semaphore: timeline_semaphore,
                value: next_value,
                stage_mask: STAGE_BOTTOM_OF_PIPE,
            },
        ],
        r.fence == (match presentation {
            Some(p) => match p.submission_fence {
                Some(f) => f,
                None => 0,
            },
            None => 0,
        }),
{
    let mut waits: Vec<SemaphoreSubmit> = Vec::new();
    let mut signals: Vec<SemaphoreSubmit> = Vec::new();
    let mut fence: u64 = 0;
    match presentation {
        Some(p) => {
            match p.signal_semaphore {
                Some(s) => {
                    signals.push(SemaphoreSubmit { semaphore: s, value: 0, stage_mask: STAGE_COLOR_ATTACHMENT_OUTPUT });
                },
                None => {},
            }
            match p.wait_semaphore {
                Some(s) => {
                    waits.push(SemaphoreSubmit { semaphore: s, value: 0, stage_mask: STAGE_COLOR_ATTACHMENT_OUTPUT });
                },
                None => {},
            }
            match p.submission_fence {
                Some(f) => {
                    fence = f;
                },
                None => {},
            }
        },
        None => {},
    }
    let ghost w0 = waits@;
    let ghost s0 = signals@;
    proof {
        match presentation {
            Some(p) => {
                assert(w0 =~= presentation_submit(p.wait_semaphore));
                assert(s0 =~= presentation_submit(p.signal_semaphore));
            },
            None => {
                assert(w0 =~= Seq::<SemaphoreSubmit>::empty());
                assert(s0 =~= Seq::<SemaphoreSubmit>::empty());
            },
        }
    }
    push_sync_infos(&mut waits, wait_infos);
    push_sync_infos(&mut signals, signal_infos);
    signals.push(SemaphoreSubmit { semaphore: timeline_semaphore, value: next_value, stage_mask: STAGE_BOTTOM_OF_PIPE });
    SubmitPlan { waits, signals, fence }
}

/// A frame must be redone when the presentation engine's swapchain was
/// recreated after the frame was acquired.
pub fn is_resize_required(engine_generation: Option<u64>, presentation: Option<PresentationSync>) -> (r:
    bool)
    ensures
        r == (match (engine_generation, presentation) {
            (Some(g), Some(p)) => g != p.swapchain_generation,
            _ => false,
        }),
{
    match (engine_generation, presentation) {
        (Some(g), Some(p)) => g != p.swapchain_generation,
        _ => false,
    }
}

/// What a submission returns once it was made: the timeline semaphore and
/// the value it reaches when the work is done, or `ResizeRequired`.
pub fn submission_result(resize_required: bool, timeline_semaphore: u64, value: u64) -> (r: Result<
    (u64, u64),
    SubmitError,
>)
    ensures
        r == (if resize_required {
            Err::<(u64, u64), SubmitError>(SubmitError::ResizeRequired)
        } else {
            Ok::<(u64, u64), SubmitError>((timeline_semaphore, value))
        }),
{
    if resize_required {
        Err(SubmitError::ResizeRequired)
    } else {
        Ok((timeline_semaphore, value))
    }
}

/// Whatever the presentation engine and the caller ask for, a submission's
/// last signal is the queue's own timeline point, and nothing the caller
/// asked for is dropped.
pub proof fn lemma_timeline_signalled_last(
    presentation: Seq<SemaphoreSubmit>,
    caller: Seq<SemaphoreSubmit>,
    timeline_semaphore: u64,
    next_value: u64,
)
    ensures
        ({
            let own = SemaphoreSubmit { semaphore: timeline_semaphore, value: next_value, stage_mask: STAGE_BOTTOM_OF_PIPE };
            let signals = presentation + caller + seq![own];
            &&& signals.last() == own
            &&& signals.len() == presentation.len() + caller.len() + 1
            &&& forall|i: int| 0 <= i < caller.len() ==> signals[presentation.len() + i] == caller[i]
        }),
{
}

/// The next value of one queue's timeline semaphore.
#[derive(Clone, Copy, Debug, PartialEq, Eq, Structural)]
pub struct TimelineCounter {
    pub semaphore: u64,
    pub next: u64,
}

/// A point of a timeline: its semaphore and the value signalled there.
#[derive(Clone, Copy, Debug, PartialEq, Eq, Structural)]
pub struct TimelinePoint {
    pub semaphore: u64,
    pub value: u64,
}

/// The timelines submissions signal: the graphics queue's and the
/// compute queue's.
#[derive(Clone, Copy, Debug, PartialEq, Eq, Structural)]
pub struct SubmitTimelines {
    pub graphics: TimelineCounter,
    pub compute: TimelineCounter,
}

impl SubmitTimelines {
    /// The timeline of the queue `role` submits to.
    pub open spec fn counter(self, role: QueueRole) -> TimelineCounter {
        match role {
            QueueRole::Graphics => self.graphics,
            QueueRole::Compute => self.compute,
        }
    }

    /// Takes the next value of `role`'s timeline, in submission order: the
    /// counter hands out its current value and moves on by one (wrapping).
    /// The other queue's timeline is untouched.
    pub fn allocate(&mut self, role: QueueRole) -> (r: TimelinePoint)
        ensures
            r.semaphore == old(self).counter(role).semaphore,
            r.value == old(self).counter(role).next,
            final(self).counter(role).semaphore == old(self).counter(role).semaphore,
            final(self).counter(role).next == old(self).counter(role).next.wrapping_add(1),
            forall|other: QueueRole| other != role ==> #[trigger] final(self).counter(other) == old(self).counter(other),
    {
        match role {
            QueueRole::Graphics => {
                let v = self.graphics.next;
                self.graphics.next = v.wrapping_add(1);
                TimelinePoint { semaphore: self.graphics.semaphore, value: v }
            },
            QueueRole::Compute => {
                let v = self.compute.next;
                self.compute.next = v.wrapping_add(1);
                TimelinePoint { semaphore: self.compute.semaphore, value: v }
            },
        }
    }
}

/// Timeline values strictly increase in submission order: of two
/// allocations on one queue, with any allocations on the other queue in
/// between, the later value is the earlier one plus one, unless the
/// counter wraps at `u64::MAX`.
pub proof fn lemma_successive_allocations(
    t0: SubmitTimelines,
    t1: SubmitTimelines,
    t2: SubmitTimelines,
    role: QueueRole,
    first: TimelinePoint,
)
    requires
        first.value == t0.counter(role).next,
        t1.counter(role).next == t0.counter(role).next.wrapping_add(1),
        t2.counter(role) == t1.counter(role),
        t0.counter(role).next < u64::MAX,
    ensures
        t2.counter(role).next == first.value + 1,
        t2.counter(role).next > first.value,
{
}

} // verus!
