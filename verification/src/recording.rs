//! The state of a command buffer between its allocation and its
//! submission.
use crate::particles::QueueRole;
use crate::submission::PresentationSync;
use vstd::prelude::*;

verus! {

/// The compositing render pass a command buffer is inside of, if any.
#[derive(Clone, Copy, Debug, PartialEq, Eq, Structural)]
pub struct CompositingContext {
    pub render_pass: u64,
    pub subpass: u32,
    pub pe_handle: u64,
}

/// What becomes of a command buffer once it was submitted or dropped.
#[derive(Clone, Copy, Debug, PartialEq, Eq, Structural)]
pub enum Disposal {
    /// It was recorded: discarded once the GPU reached this timeline value.
    DiscardAt(u64),
    /// It was never begun: recycled at once.
    RecycleNow,
}

/// A command buffer being recorded.
#[derive(Clone, Copy, Debug, PartialEq, Eq, Structural)]
pub struct RecordingState {
    pub command_buffer: u64,
    pub bound_pipeline: Option<u64>,
    pub presentation: Option<PresentationSync>,
    pub presentation_engine: Option<u64>,
    pub has_begun: bool,
    pub compositing: Option<CompositingContext>,
}

impl RecordingState {
    /// A newly allocated command buffer: nothing bound, not begun.
    pub open spec fn spec_new(command_buffer: u64) -> Self {
        RecordingState {
            command_buffer,
            bound_pipeline: None,
            presentation: None,
            presentation_engine: None,
            has_begun: false,
            compositing: None,
        }
    }

    /// A newly allocated command buffer: nothing bound, not begun.
    pub fn new(command_buffer: u64) -> (r: Self)
        ensures
            r == Self::spec_new(command_buffer),
    {
        RecordingState {
            command_buffer,
            bound_pipeline: None,
            presentation: None,
            presentation_engine: None,
            has_begun: false,
            compositing: None,
        }
    }

    /// Marks the command buffer begun; true when it was not, so that the
    /// caller begins it on the driver (beginning twice does nothing).
    pub fn begin(&mut self) -> (r: bool)
        ensures
            r == !old(self).has_begun,
            *final(self) == (RecordingState { has_begun: true, ..*old(self) }),
    {
        if self.has_begun {
            return false;
        }
        self.has_begun = true;
        true
    }

    /// What becomes of the command buffer after a submission that reaches
    /// `timeline`: a recorded one waits for the GPU, one never begun is
    /// recycled at once.
    pub fn disposal(&self, timeline: u64) -> (r: Disposal)
        ensures
            r == (if self.has_begun {
                Disposal::DiscardAt(timeline)
            } else {
                Disposal::RecycleNow
            }),
    {
        if self.has_begun {
            Disposal::DiscardAt(timeline)
        } else {
            Disposal::RecycleNow
        }
    }

    /// Takes the presentation part out for the submission.
    pub fn take_presentation(&mut self) -> (r: Option<PresentationSync>)
        ensures
            r == old(self).presentation,
            *final(self) == (RecordingState { presentation: None, ..*old(self) }),
    {
        let p = self.presentation;
        self.presentation = None;
        p
    }
}

/// Why an operation on a recorded command buffer was refused.
#[derive(Clone, Copy, Debug, PartialEq, Eq, Structural)]
pub enum RecordingError {
    /// No command buffer of that handle is recorded for that queue.
    InvalidCommandBuffer,
    /// The command buffer was not begun.
    NotBegun,
    /// The swapchain changed since the image was acquired, or the acquire
    /// asked for a resize.
    ResizeRequired,
    /// No presentation engine was set on the command buffer.
    NoPresentationEngine,
}

/// What acquiring a swapchain image reported.
#[derive(Clone, Copy, Debug, PartialEq, Eq, Structural)]
pub struct AcquiredImage {
    /// The acquire reported the swapchain as out of date or suboptimal.
    pub needs_resize: bool,
    /// The swapchain generation the image belongs to.
    pub swapchain_generation: u64,
}

/// A command buffer and the presentation engine set on it.
#[derive(Clone, Copy, Debug, PartialEq, Eq, Structural)]
pub struct CommandAndEngine {
    pub command_buffer: u64,
    pub presentation_engine: u64,
}

/// The recorded command buffers of one queue, by handle.
#[verifier::external_body]
pub struct RoleTable {
    inner: dashmap::DashMap<u64, RecordingState>,
}

/// Contents of a [`RoleTable`].
pub uninterp spec fn role_table_contents(t: RoleTable) -> Map<u64, RecordingState>;

impl RoleTable {
    closed spec fn view(&self) -> Map<u64, RecordingState> {
        role_table_contents(*self)
    }

    /// `dashmap::DashMap::new`: an empty map.
    #[verifier::external_body]
    fn new() -> (r: Self)
        ensures
            role_table_contents(r) =~= Map::empty(),
    {
        RoleTable { inner: dashmap::DashMap::new() }
    }

    /// `dashmap::DashMap::get`, copied out.
    #[verifier::external_body]
    fn get(&self, handle: u64) -> (r: Option<RecordingState>)
        ensures
            r == (if role_table_contents(*self).contains_key(handle) {
                Some(role_table_contents(*self)[handle])
            } else {
                None
            }),
    {
        match self.inner.get(&handle) {
            Some(e) => Some(*e.value()),
            None => None,
        }
    }

    /// `dashmap::DashMap::insert`: stores `state` under `handle`.
    #[verifier::external_body]
    fn put(&mut self, handle: u64, state: RecordingState)
        ensures
            role_table_contents(*final(self)) == role_table_contents(*old(self)).insert(handle, state),
    {
        self.inner.insert(handle, state);
    }

    /// `dashmap::DashMap::remove`: takes out the state stored under `handle`.
    #[verifier::external_body]
    fn take(&mut self, handle: u64) -> (r: Option<RecordingState>)
        ensures
            r == (if role_table_contents(*old(self)).contains_key(handle) {
                Some(role_table_contents(*old(self))[handle])
            } else {
                None
            }),
            role_table_contents(*final(self)) == role_table_contents(*old(self)).remove(handle),
    {
        match self.inner.remove(&handle) {
            Some((_, v)) => Some(v),
            None => None,
        }
    }
}

/// The command buffers being recorded, by handle and queue.
pub struct RecordingBuffers {
    graphics: RoleTable,
    compute: RoleTable,
}

/// The state after a render pass begins on an acquired image.
pub open spec fn rendering(s: RecordingState, acquired: AcquiredImage, sync: PresentationSync) -> RecordingState {
    RecordingState {
        presentation: Some(PresentationSync { swapchain_generation: acquired.swapchain_generation, ..sync }),
        ..s
    }
}

/// The state after moving to the next subpass.
pub open spec fn advanced(s: RecordingState) -> RecordingState {
    match s.compositing {
        Some(c) => RecordingState {
            compositing: Some(CompositingContext { subpass: (c.subpass + 1) as u32, ..c }),
            ..s
        },
        None => s,
    }
}

/// Whether moving to the next subpass keeps the subpass index in range.
pub open spec fn can_advance(s: RecordingState) -> bool {
    match s.compositing {
        Some(c) => c.subpass < u32::MAX,
        None => true,
    }
}

impl RecordingBuffers {
    /// The command buffers recorded for `role`.
    pub closed spec fn table(&self, role: QueueRole) -> Map<u64, RecordingState> {
        match role {
            QueueRole::Graphics => self.graphics.view(),
            QueueRole::Compute => self.compute.view(),
        }
    }

    /// No command buffer recorded.
    pub fn new() -> (r: Self)
        ensures
            r.table(QueueRole::Graphics) == Map::<u64, RecordingState>::empty(),
            r.table(QueueRole::Compute) == Map::<u64, RecordingState>::empty(),
    {
        RecordingBuffers { graphics: RoleTable::new(), compute: RoleTable::new() }
    }

    /// The state of `handle` on `role`'s queue, if it is recorded.
    pub fn get(&self, handle: u64, role: QueueRole) -> (r: Option<RecordingState>)
        ensures
            r == (if self.table(role).contains_key(handle) {
                Some(self.table(role)[handle])
            } else {
                None
            }),
    {
        match role {
            QueueRole::Graphics => self.graphics.get(handle),
            QueueRole::Compute => self.compute.get(handle),
        }
    }

    /// Sets the state of `handle` on `role`'s queue.
    fn put(&mut self, handle: u64, role: QueueRole, state: RecordingState)
        ensures
            final(self).table(role) == old(self).table(role).insert(handle, state),
            forall|o: QueueRole| o != role ==> final(self).table(o) == old(self).table(o),
    {
        match role {
            QueueRole::Graphics => self.graphics.put(handle, state),
            QueueRole::Compute => self.compute.put(handle, state),
        }
    }

    /// Records a newly allocated command buffer under `handle`, replacing
    /// whatever was recorded under that handle for `role`.
    pub fn insert(&mut self, handle: u64, role: QueueRole, command_buffer: u64)
        ensures
            final(self).table(role) == old(self).table(role).insert(handle, RecordingState::spec_new(command_buffer)),
            forall|o: QueueRole| o != role ==> final(self).table(o) == old(self).table(o),
    {
        self.put(handle, role, RecordingState::new(command_buffer));
    }

    /// Takes `handle` out of `role`'s table, for a submission or a discard.
    pub fn remove(&mut self, handle: u64, role: QueueRole) -> (r: Option<RecordingState>)
        ensures
            r == (if old(self).table(role).contains_key(handle) {
                Some(old(self).table(role)[handle])
            } else {
                None
            }),
            final(self).table(role) == old(self).table(role).remove(handle),
            forall|o: QueueRole| o != role ==> final(self).table(o) == old(self).table(o),
    {
        match role {
            QueueRole::Graphics => self.graphics.take(handle),
            QueueRole::Compute => self.compute.take(handle),
        }
    }

    /// Begins `handle` on `role`'s queue. `Ok(true)` when the driver must
    /// begin the command buffer, `Ok(false)` when it was begun already.
    pub fn begin(&mut self, handle: u64, role: QueueRole) -> (r: Result<bool, RecordingError>)
        ensures
            forall|o: QueueRole| o != role ==> final(self).table(o) == old(self).table(o),
            !old(self).table(role).contains_key(handle) ==> r == Err::<bool, RecordingError>(
                RecordingError::InvalidCommandBuffer,
            ) && final(self).table(role) == old(self).table(role),
            old(self).table(role).contains_key(handle) ==> {
                let s = old(self).table(role)[handle];
                &&& r == Ok::<bool, RecordingError>(!s.has_begun)
                &&& final(self).table(role) == old(self).table(role).insert(
                    handle,
                    RecordingState { has_begun: true, ..s },
                )
            },
    {
        match self.get(handle, role) {
            None => Err(RecordingError::InvalidCommandBuffer),
            Some(mut s) => {
                let first = s.begin();
                self.put(handle, role, s);
                Ok(first)
            },
        }
    }

    /// Sets the presentation engine that `handle` (graphics) renders to.
    pub fn set_presentation_engine(&mut self, handle: u64, engine: u64) -> (r: Result<(), RecordingError>)
        ensures
            final(self).table(QueueRole::Compute) == old(self).table(QueueRole::Compute),
            !old(self).table(QueueRole::Graphics).contains_key(handle) ==> r == Err::<(), RecordingError>(
                RecordingError::InvalidCommandBuffer,
            ) && final(self).table(QueueRole::Graphics) == old(self).table(QueueRole::Graphics),
            old(self).table(QueueRole::Graphics).contains_key(handle) ==> r is Ok && final(self).table(
                QueueRole::Graphics,
            ) == old(self).table(QueueRole::Graphics).insert(
                handle,
                RecordingState {
                    presentation_engine: Some(engine),
                    ..old(self).table(QueueRole::Graphics)[handle]
                },
            ),
    {
        match self.get(handle, QueueRole::Graphics) {
            None => Err(RecordingError::InvalidCommandBuffer),
            Some(s) => {
                self.put(handle, QueueRole::Graphics, RecordingState { presentation_engine: Some(engine), ..s });
                Ok(())
            },
        }
    }

    /// The driver command buffer of `handle` (graphics).
    pub fn command_buffer(&self, handle: u64) -> (r: Result<u64, RecordingError>)
        ensures
            r == (if self.table(QueueRole::Graphics).contains_key(handle) {
                Ok::<u64, RecordingError>(self.table(QueueRole::Graphics)[handle].command_buffer)
            } else {
                Err::<u64, RecordingError>(RecordingError::InvalidCommandBuffer)
            }),
    {
        match self.get(handle, QueueRole::Graphics) {
            None => Err(RecordingError::InvalidCommandBuffer),
            Some(s) => Ok(s.command_buffer),
        }
    }

    /// The driver command buffer of `handle` (graphics) and the
    /// presentation engine set on it.
    pub fn command_buffer_and_engine(&self, handle: u64) -> (r: Result<CommandAndEngine, RecordingError>)
        ensures
            !self.table(QueueRole::Graphics).contains_key(handle) ==> r == Err::<CommandAndEngine, RecordingError>(
                RecordingError::InvalidCommandBuffer,
            ),
            self.table(QueueRole::Graphics).contains_key(handle) ==> {
                let s = self.table(QueueRole::Graphics)[handle];
                r == (match s.presentation_engine {
                    Some(e) => Ok::<CommandAndEngine, RecordingError>(
                        CommandAndEngine { command_buffer: s.command_buffer, presentation_engine: e },
                    ),
                    None => Err::<CommandAndEngine, RecordingError>(RecordingError::NoPresentationEngine),
                })
            },
    {
        match self.get(handle, QueueRole::Graphics) {
            None => Err(RecordingError::InvalidCommandBuffer),
            Some(s) => match s.presentation_engine {
                Some(e) => Ok(CommandAndEngine { command_buffer: s.command_buffer, presentation_engine: e }),
                None => Err(RecordingError::NoPresentationEngine),
            },
        }
    }

    /// Begins a render pass of `handle` (graphics) on an acquired image
    /// whose presentation engine is now at `engine_generation`: refused
    /// when the command buffer is unknown or not begun, or when the
    /// swapchain must be recreated; otherwise the frame's semaphores and
    /// fence are kept for the submission and the command buffer is
    /// returned.
    pub fn begin_render_pass(
        &mut self,
        handle: u64,
        acquired: AcquiredImage,
        engine_generation: u64,
        sync: PresentationSync,
    ) -> (r: Result<u64, RecordingError>)
        ensures
            final(self).table(QueueRole::Compute) == old(self).table(QueueRole::Compute),
            !old(self).table(QueueRole::Graphics).contains_key(handle) ==> r == Err::<u64, RecordingError>(
                RecordingError::InvalidCommandBuffer,
            ),
            old(self).table(QueueRole::Graphics).contains_key(handle) ==> {
                let s = old(self).table(QueueRole::Graphics)[handle];
                r == (if !s.has_begun {
                    Err::<u64, RecordingError>(RecordingError::NotBegun)
                } else if acquired.needs_resize || engine_generation != acquired.swapchain_generation {
                    Err::<u64, RecordingError>(RecordingError::ResizeRequired)
                } else {
                    Ok::<u64, RecordingError>(s.command_buffer)
                })
            },
            r is Ok ==> final(self).table(QueueRole::Graphics) == old(self).table(QueueRole::Graphics).insert(
                handle,
                rendering(old(self).table(QueueRole::Graphics)[handle], acquired, sync),
            ),
            r is Err ==> final(self).table(QueueRole::Graphics) == old(self).table(QueueRole::Graphics),
    {
        let s = match self.get(handle, QueueRole::Graphics) {
            None => {
                return Err(RecordingError::InvalidCommandBuffer);
            },
            Some(s) => s,
        };
        if !s.has_begun {
            return Err(RecordingError::NotBegun);
        }
        if acquired.needs_resize || engine_generation != acquired.swapchain_generation {
            return Err(RecordingError::ResizeRequired);
        }
        let presentation = PresentationSync { swapchain_generation: acquired.swapchain_generation, ..sync };
        self.put(handle, QueueRole::Graphics, RecordingState { presentation: Some(presentation), ..s });
        Ok(s.command_buffer)
    }

    /// Marks `handle` (graphics) as inside a compositing render pass, at
    /// its first subpass. Nothing happens for an unknown handle.
    pub fn enter_compositing(&mut self, handle: u64, render_pass: u64, engine: u64)
        ensures
            final(self).table(QueueRole::Compute) == old(self).table(QueueRole::Compute),
            final(self).table(QueueRole::Graphics) == (if old(self).table(QueueRole::Graphics).contains_key(
                handle,
            ) {
                old(self).table(QueueRole::Graphics).insert(
                    handle,
                    RecordingState {
                        compositing: Some(
                            CompositingContext { render_pass, subpass: 0, pe_handle: engine },
                        ),
                        ..old(self).table(QueueRole::Graphics)[handle]
                    },
                )
            } else {
                old(self).table(QueueRole::Graphics)
            }),
    {
        if let Some(s) = self.get(handle, QueueRole::Graphics) {
            let ctx = CompositingContext { render_pass, subpass: 0, pe_handle: engine };
            self.put(handle, QueueRole::Graphics, RecordingState { compositing: Some(ctx), ..s });
        }
    }

    /// Moves `handle` (graphics) to the next subpass; inside a compositing
    /// render pass the subpass index follows. Returns the command buffer.
    pub fn next_subpass(&mut self, handle: u64) -> (r: Result<u64, RecordingError>)
        requires
            old(self).table(QueueRole::Graphics).contains_key(handle) ==> can_advance(
                old(self).table(QueueRole::Graphics)[handle],
            ),
        ensures
            final(self).table(QueueRole::Compute) == old(self).table(QueueRole::Compute),
            !old(self).table(QueueRole::Graphics).contains_key(handle) ==> r == Err::<u64, RecordingError>(
                RecordingError::InvalidCommandBuffer,
            ) && final(self).table(QueueRole::Graphics) == old(self).table(QueueRole::Graphics),
            old(self).table(QueueRole::Graphics).contains_key(handle) ==> r == Ok::<u64, RecordingError>(
                old(self).table(QueueRole::Graphics)[handle].command_buffer,
            ) && final(self).table(QueueRole::Graphics) == old(self).table(QueueRole::Graphics).insert(
                handle,
                advanced(old(self).table(QueueRole::Graphics)[handle]),
            ),
    {
        match self.get(handle, QueueRole::Graphics) {
            None => Err(RecordingError::InvalidCommandBuffer),
            Some(s) => {
                let next = match s.compositing {
                    Some(c) => RecordingState {
                        compositing: Some(CompositingContext { subpass: c.subpass + 1, ..c }),
                        ..s
                    },
                    None => s,
                };
                self.put(handle, QueueRole::Graphics, next);
                Ok(s.command_buffer)
            },
        }
    }

    /// Ends the render pass of `handle` (graphics): it is no longer inside
    /// a compositing render pass. Returns the command buffer.
    pub fn end_render_pass(&mut self, handle: u64) -> (r: Result<u64, RecordingError>)
        ensures
            final(self).table(QueueRole::Compute) == old(self).table(QueueRole::Compute),
            !old(self).table(QueueRole::Graphics).contains_key(handle) ==> r == Err::<u64, RecordingError>(
                RecordingError::InvalidCommandBuffer,
            ) && final(self).table(QueueRole::Graphics) == old(self).table(QueueRole::Graphics),
            old(self).table(QueueRole::Graphics).contains_key(handle) ==> r == Ok::<u64, RecordingError>(
                old(self).table(QueueRole::Graphics)[handle].command_buffer,
            ) && final(self).table(QueueRole::Graphics) == old(self).table(QueueRole::Graphics).insert(
                handle,
                RecordingState { compositing: None, ..old(self).table(QueueRole::Graphics)[handle] },
            ),
    {
        match self.get(handle, QueueRole::Graphics) {
            None => Err(RecordingError::InvalidCommandBuffer),
            Some(s) => {
                self.put(handle, QueueRole::Graphics, RecordingState { compositing: None, ..s });
                Ok(s.command_buffer)
            },
        }
    }

    /// The compositing context of `handle` (graphics), which decides the
    /// render pass and subpass a pipeline bound now must be compatible
    /// with.
    pub fn compositing_context(&self, handle: u64) -> (r: Result<Option<CompositingContext>, RecordingError>)
        ensures
            r == (if self.table(QueueRole::Graphics).contains_key(handle) {
                Ok::<Option<CompositingContext>, RecordingError>(
                    self.table(QueueRole::Graphics)[handle].compositing,
                )
            } else {
                Err::<Option<CompositingContext>, RecordingError>(RecordingError::InvalidCommandBuffer)
            }),
    {
        match self.get(handle, QueueRole::Graphics) {
            None => Err(RecordingError::InvalidCommandBuffer),
            Some(s) => Ok(s.compositing),
        }
    }

    /// Keeps the pipeline bound on `handle` (graphics), so that it can be
    /// discarded with the command buffer.
    pub fn set_bound_pipeline(&mut self, handle: u64, pipeline: u64)
        ensures
            final(self).table(QueueRole::Compute) == old(self).table(QueueRole::Compute),
            final(self).table(QueueRole::Graphics) == (if old(self).table(QueueRole::Graphics).contains_key(
                handle,
            ) {
                old(self).table(QueueRole::Graphics).insert(
                    handle,
                    RecordingState {
                        bound_pipeline: Some(pipeline),
                        ..old(self).table(QueueRole::Graphics)[handle]
                    },
                )
            } else {
                old(self).table(QueueRole::Graphics)
            }),
    {
        if let Some(s) = self.get(handle, QueueRole::Graphics) {
            self.put(handle, QueueRole::Graphics, RecordingState { bound_pipeline: Some(pipeline), ..s });
        }
    }
}

/// The state after `n` moves to the next subpass.
pub open spec fn advanced_times(s: RecordingState, n: nat) -> RecordingState
    decreases n,
{
    if n == 0 {
        s
    } else {
        advanced(advanced_times(s, (n - 1) as nat))
    }
}

/// Inside a compositing render pass entered at subpass 0, the subpass index
/// counts the moves to the next subpass; everything else stays.
pub proof fn lemma_subpass_counts_moves(s: RecordingState, n: nat)
    requires
        s.compositing matches Some(c) && c.subpass == 0,
        n <= u32::MAX,
    ensures
        advanced_times(s, n).compositing == Some(
            CompositingContext { subpass: n as u32, ..s.compositing->0 },
        ),
        advanced_times(s, n).command_buffer == s.command_buffer,
        advanced_times(s, n).presentation == s.presentation,
        advanced_times(s, n).has_begun == s.has_begun,
    decreases n,
{
    if n > 0 {
        lemma_subpass_counts_moves(s, (n - 1) as nat);
    }
}

/// Beginning is idempotent: a second begin asks nothing of the driver and
/// changes nothing.
pub proof fn lemma_begin_twice(s: RecordingState)
    ensures
        (RecordingState { has_begun: true, ..(RecordingState { has_begun: true, ..s }) }) == (RecordingState {
            has_begun: true,
            ..s
        }),
        !(RecordingState { has_begun: true, ..s }).has_begun == false,
{
}

} // verus!
