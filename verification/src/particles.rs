//! GPU particle systems: double-buffered particle storage shared between
//! the compute queue, which simulates, and the graphics queue, which draws.
//!
//! Each of the two states holds the global particle buffer, the free list of
//! particle chunks and one page table per particle system. The "front" state
//! is read by the graphics queue, the "back" state is simulated on the
//! compute queue. Once per frame the back state is copied into the front one
//! and the roles swap. When the two queues belong to different families, the
//! buffers change owner with a release barrier on one queue and an acquire
//! barrier on the other:
//!
//! ```text
//!  compute -> |               | Acquire Front -> Copy back to front -> Release Back
//!             | timeline sync |
//!  render  -> |               | Release Front ->                    -> Acquire Back
//! ```
use crate::fnv::le_bytes_u32;
use vstd::prelude::*;

verus! {

/// Default interval between two emissions, in unscaled microseconds.
pub const DEFAULT_EMISSION_US: i64 = 166_000;

/// Default interval between two compactions, in unscaled microseconds.
pub const DEFAULT_COMPACTION_US: i64 = 5_000_000;

/// Initial capacity of a state's page table map.
pub const PAGE_TABLES_MAP_START_CAP: usize = 64;

/// Particles each shader thread handles.
pub const PARTICLES_PER_THREAD: u32 = 4;

/// `VK_WHOLE_SIZE`.
pub const WHOLE_SIZE: u64 = 0xffff_ffff_ffff_ffff;

/// `VK_QUEUE_FAMILY_IGNORED`.
pub const QUEUE_FAMILY_IGNORED: u32 = 0xffff_ffff;

/// `VK_PIPELINE_STAGE_2_NONE`.
pub const STAGE_NONE: u64 = 0;

/// `VK_PIPELINE_STAGE_2_DRAW_INDIRECT_BIT`.
pub const STAGE_DRAW_INDIRECT: u64 = 0x2;

/// `VK_PIPELINE_STAGE_2_VERTEX_SHADER_BIT`.
pub const STAGE_VERTEX_SHADER: u64 = 0x8;

/// `VK_PIPELINE_STAGE_2_FRAGMENT_SHADER_BIT`.
pub const STAGE_FRAGMENT_SHADER: u64 = 0x80;

/// `VK_PIPELINE_STAGE_2_COMPUTE_SHADER_BIT`.
pub const STAGE_COMPUTE_SHADER: u64 = 0x800;

/// `VK_PIPELINE_STAGE_2_TRANSFER_BIT`.
pub const STAGE_TRANSFER: u64 = 0x1000;

/// `VK_PIPELINE_STAGE_2_VERTEX_ATTRIBUTE_INPUT_BIT`.
pub const STAGE_VERTEX_ATTRIBUTE_INPUT: u64 = 0x20_0000_0000;

/// `VK_ACCESS_2_NONE`.
pub const ACCESS_NONE: u64 = 0;

/// `VK_ACCESS_2_INDIRECT_COMMAND_READ_BIT`.
pub const ACCESS_INDIRECT_COMMAND_READ: u64 = 0x1;

/// `VK_ACCESS_2_VERTEX_ATTRIBUTE_READ_BIT`.
pub const ACCESS_VERTEX_ATTRIBUTE_READ: u64 = 0x4;

/// `VK_ACCESS_2_SHADER_READ_BIT`.
pub const ACCESS_SHADER_READ: u64 = 0x20;

/// `VK_ACCESS_2_SHADER_WRITE_BIT`.
pub const ACCESS_SHADER_WRITE: u64 = 0x40;

/// `VK_ACCESS_2_TRANSFER_READ_BIT`.
pub const ACCESS_TRANSFER_READ: u64 = 0x800;

/// `VK_ACCESS_2_TRANSFER_WRITE_BIT`.
pub const ACCESS_TRANSFER_WRITE: u64 = 0x1000;

/// The queue a piece of work runs on.
#[derive(Clone, Copy, Debug, PartialEq, Eq, Structural)]
pub enum QueueRole {
    Graphics,
    Compute,
}

/// Intervals of the periodic particle passes, in unscaled microseconds.
#[derive(Clone, Copy, Debug, PartialEq, Eq, Structural)]
pub struct Settings {
    pub emission_us: i64,
    pub compaction_us: i64,
}

impl Settings {
    /// Emission every 166 ms, compaction every 5 s.
    pub fn new() -> (r: Self)
        ensures
            r.emission_us == DEFAULT_EMISSION_US,
            r.compaction_us == DEFAULT_COMPACTION_US,
    {
        Settings { emission_us: DEFAULT_EMISSION_US, compaction_us: DEFAULT_COMPACTION_US }
    }
}

/// A buffer, its allocation and its device address.
#[derive(Clone, Copy, Debug, PartialEq, Eq, Structural)]
pub struct BufferAlloc {
    pub buffer: u64,
    pub alloc: u64,
    pub address: u64,
}

/// One page table and the particle system it belongs to.
#[derive(Clone, Copy, Debug, PartialEq, Eq, Structural)]
pub struct PageTableEntry {
    pub id: u64,
    pub table: BufferAlloc,
}

/// Page tables by particle system id.
#[verifier::external_body]
pub struct PageTableMap {
    inner: dashmap::DashMap<u64, BufferAlloc>,
}

/// Contents of a [`PageTableMap`].
pub uninterp spec fn page_table_contents(m: PageTableMap) -> Map<u64, BufferAlloc>;

impl PageTableMap {
    /// `dashmap::DashMap::with_capacity`: an empty map.
    #[verifier::external_body]
    pub(crate) fn with_capacity(capacity: usize) -> (r: Self)
        ensures
            page_table_contents(r) =~= Map::empty(),
    {
        PageTableMap { inner: dashmap::DashMap::with_capacity(capacity) }
    }

    /// `dashmap::DashMap::insert`: stores `value` under `key`, returning the
    /// value it replaces.
    #[verifier::external_body]
    pub(crate) fn insert(&mut self, key: u64, value: BufferAlloc) -> (r: Option<BufferAlloc>)
        ensures
            page_table_contents(*final(self)) == page_table_contents(*old(self)).insert(key, value),
            r == (if page_table_contents(*old(self)).contains_key(key) {
                Some(page_table_contents(*old(self))[key])
            } else {
                None
            }),
    {
        self.inner.insert(key, value)
    }

    /// `dashmap::DashMap::remove`: takes out the value stored under `key`.
    #[verifier::external_body]
    pub(crate) fn remove(&mut self, key: u64) -> (r: Option<BufferAlloc>)
        ensures
            page_table_contents(*final(self)) == page_table_contents(*old(self)).remove(key),
            r == (if page_table_contents(*old(self)).contains_key(key) {
                Some(page_table_contents(*old(self))[key])
            } else {
                None
            }),
    {
        match self.inner.remove(&key) {
            Some((_, v)) => Some(v),
            None => None,
        }
    }

    /// `dashmap::DashMap::get`, copied out.
    #[verifier::external_body]
    pub(crate) fn get(&self, key: u64) -> (r: Option<BufferAlloc>)
        ensures
            r == (if page_table_contents(*self).contains_key(key) {
                Some(page_table_contents(*self)[key])
            } else {
                None
            }),
    {
        match self.inner.get(&key) {
            Some(e) => Some(*e.value()),
            None => None,
        }
    }

    /// `dashmap::DashMap::iter`, collected: every entry once, in the map's
    /// iteration order.
    #[verifier::external_body]
    pub(crate) fn entries(&self) -> (r: Vec<PageTableEntry>)
        ensures
            r@.len() == page_table_contents(*self).dom().len(),
            page_table_contents(*self).dom() == r@.map_values(|e: PageTableEntry| e.id).to_set(),
            forall|i: int|
                0 <= i < r@.len() ==> #[trigger] page_table_contents(*self).contains_key(r@[i].id)
                    && page_table_contents(*self)[r@[i].id] == r@[i].table,
            forall|i: int|
                #![trigger r@[i]]
                0 <= i < r@.len() ==> forall|j: int| #![trigger r@[j]] i < j < r@.len() ==> r@[i].id != r@[j].id,
    {
        self.inner.iter().map(|e| PageTableEntry { id: *e.key(), table: *e.value() }).collect()
    }
}

/// One of the two states: the global particle buffer, the chunk free list
/// and the page table of each particle system.
pub struct ParticleSystemState {
    pub buffer: BufferAlloc,
    pub free_list: BufferAlloc,
    pub page_tables: PageTableMap,
}

impl ParticleSystemState {
    /// Page tables by particle system id.
    pub closed spec fn tables(&self) -> Map<u64, BufferAlloc> {
        page_table_contents(self.page_tables)
    }

    /// A state around its two buffers, with no particle system yet.
    pub fn new(buffer: BufferAlloc, free_list: BufferAlloc) -> (r: Self)
        ensures
            r.buffer == buffer,
            r.free_list == free_list,
            r.tables() =~= Map::<u64, BufferAlloc>::empty(),
    {
        ParticleSystemState {
            buffer,
            free_list,
            page_tables: PageTableMap::with_capacity(PAGE_TABLES_MAP_START_CAP),
        }
    }
}

/// Sizes of the per-state buffers for a particle capacity.
#[derive(Clone, Copy, Debug, PartialEq, Eq, Structural)]
pub struct ParticleBufferLayout {
    pub num_chunks: u64,
    pub buffer_size: u64,
    pub free_list_size: u64,
}

/// Chunks for `max_particles`, the global buffer's size (`chunk_bytes` per
/// chunk), and the free list's size (a count, then one index per chunk, 4
/// bytes each).
pub fn particle_buffer_layout(max_particles: u64, chunk_size: u64, chunk_bytes: u64) -> (r:
    ParticleBufferLayout)
    requires
        chunk_size > 0,
        max_particles + chunk_size - 1 <= u64::MAX,
        chunk_bytes * div_ceil(max_particles as int, chunk_size as int) <= u64::MAX,
        div_ceil(max_particles as int, chunk_size as int) * 4 + 4 <= u64::MAX,
    ensures
        r.num_chunks == div_ceil(max_particles as int, chunk_size as int),
        r.num_chunks * chunk_size >= max_particles,
        r.buffer_size == chunk_bytes * r.num_chunks,
        r.free_list_size == r.num_chunks * 4 + 4,
{
    let num_chunks = (max_particles + (chunk_size - 1)) / chunk_size;
    assert(num_chunks * chunk_size >= max_particles) by (nonlinear_arith)
        requires
            num_chunks == div_ceil(max_particles as int, chunk_size as int),
            chunk_size > 0,
    ;
    ParticleBufferLayout {
        num_chunks,
        buffer_size: chunk_bytes * num_chunks,
        free_list_size: num_chunks * 4 + 4,
    }
}

/// Bytes of one page table: its header, then one 4-byte entry per chunk a
/// particle system can use.
pub fn page_table_bytes(header_size: u64, max_particles_per_system: u64, chunk_size: u64) -> (r: u64)
    requires
        chunk_size > 0,
        max_particles_per_system + chunk_size - 1 <= u64::MAX,
        header_size + 4 * div_ceil(max_particles_per_system as int, chunk_size as int) <= u64::MAX,
    ensures
        r == header_size + 4 * div_ceil(max_particles_per_system as int, chunk_size as int),
{
    header_size + 4 * ((max_particles_per_system + (chunk_size - 1)) / chunk_size)
}

/// Initial contents of a free list: the number of free chunks, then the
/// chunk indices from the last down to 0.
pub fn free_list_contents(num_chunks: u32) -> (r: Vec<u32>)
    requires
        num_chunks < u32::MAX,
    ensures
        r@.len() == num_chunks + 1,
        r@[0] == num_chunks,
        forall|i: int| 0 <= i < num_chunks ==> #[trigger] r@[i + 1] == num_chunks - 1 - i,
{
    let mut r: Vec<u32> = Vec::with_capacity(num_chunks as usize + 1);
    r.push(num_chunks);
    let mut i: u32 = 0;
    while i < num_chunks
        invariant
            0 <= i <= num_chunks,
            r@.len() == i + 1,
            r@[0] == num_chunks,
            forall|j: int| 0 <= j < i ==> #[trigger] r@[j + 1] == num_chunks - 1 - j,
        decreases num_chunks - i,
    {
        r.push(num_chunks - 1 - i);
        i = i + 1;
    }
    r
}

/// Work groups of a particle shader for `particles_count` particles, each
/// group handling `local_size_x` threads of 4 particles: rounded up.
pub fn particle_system_shaders_num_workgroups(local_size_x: u32, particles_count: u32) -> (r: u32)
    requires
        local_size_x > 0,
        local_size_x * PARTICLES_PER_THREAD <= u32::MAX,
        particles_count + local_size_x * PARTICLES_PER_THREAD - 1 <= u32::MAX,
    ensures
        r == div_ceil(particles_count as int, local_size_x * 4),
        r * (local_size_x * 4) >= particles_count,
{
    let particles_per_workgroup = local_size_x * PARTICLES_PER_THREAD;
    let r = (particles_count + (particles_per_workgroup - 1)) / particles_per_workgroup;
    assert(r * particles_per_workgroup >= particles_count) by (nonlinear_arith)
        requires
            r == div_ceil(particles_count as int, particles_per_workgroup as int),
            particles_per_workgroup > 0,
    ;
    r
}

/// Work groups of the emission shader: one per chunk the emitted particles
/// fill, rounded up.
pub fn emission_chunk_count(emit_count: u32, chunk_size: u32) -> (r: u32)
    requires
        chunk_size > 0,
    ensures
        r == div_ceil(emit_count as int, chunk_size as int),
{
    let q = emit_count / chunk_size;
    assert(emit_count % chunk_size != 0 ==> q < u32::MAX) by (nonlinear_arith)
        requires
            q == emit_count / chunk_size,
            chunk_size > 0,
    ;
    let r = if emit_count % chunk_size == 0 { q } else { q + 1 };
    assert(r == div_ceil(emit_count as int, chunk_size as int)) by (nonlinear_arith)
        requires
            q == emit_count / chunk_size,
            r == (if emit_count % chunk_size == 0 { q as int } else { q + 1 }),
            chunk_size > 0,
    ;
    r
}

/// `a / b` rounded up.
pub open spec fn div_ceil(a: int, b: int) -> int {
    (a + b - 1) / b
}

/// Stage and access masks and queue families of a set of buffer barriers.
#[derive(Clone, Copy, Debug, PartialEq, Eq, Structural)]
pub struct BarrierMasks {
    pub src_stage: u64,
    pub src_access: u64,
    pub dst_stage: u64,
    pub dst_access: u64,
    pub src_family: u32,
    pub dst_family: u32,
}

/// One `VkBufferMemoryBarrier2` over `[0, size)` of `buffer`.
#[derive(Clone, Copy, Debug, PartialEq, Eq, Structural)]
pub struct BufferBarrier {
    pub masks: BarrierMasks,
    pub buffer: u64,
    pub size: u64,
}

/// One `vkCmdCopyBuffer` region from offset 0 to offset 0.
#[derive(Clone, Copy, Debug, PartialEq, Eq, Structural)]
pub struct BufferCopy {
    pub src: u64,
    pub dst: u64,
    pub size: u64,
}

/// The work of the compute queue in the sync window.
pub struct CopyAndReleasePlan {
    pub pre_barriers: Vec<BufferBarrier>,
    pub copies: Vec<BufferCopy>,
    pub post_barriers: Vec<BufferBarrier>,
}

/// Some page table of `tables` lives in buffer `b`.
pub open spec fn is_table_buffer(tables: Map<u64, BufferAlloc>, b: u64) -> bool {
    exists|k: u64| tables.contains_key(k) && tables[k].buffer == b
}

/// Some barrier of `r` past the first two is on buffer `b`.
pub open spec fn has_table_barrier(r: Seq<BufferBarrier>, b: u64) -> bool {
    exists|i: int| 2 <= i < r.len() && r[i].buffer == b
}

/// `r` covers every buffer of a state with `m`: the global buffer over its
/// size, the free list over its size, then each page table whole, in some
/// order.
pub open spec fn covers_state(
    r: Seq<BufferBarrier>,
    buffer: BufferAlloc,
    free_list: BufferAlloc,
    tables: Map<u64, BufferAlloc>,
    buffer_size: u64,
    free_list_size: u64,
    m: BarrierMasks,
) -> bool {
    &&& r.len() == 2 + tables.dom().len()
    &&& r[0] == BufferBarrier { masks: m, buffer: buffer.buffer, size: buffer_size }
    &&& r[1] == BufferBarrier { masks: m, buffer: free_list.buffer, size: free_list_size }
    &&& forall|i: int|
        2 <= i < r.len() ==> #[trigger] r[i].masks == m && r[i].size == WHOLE_SIZE
            && is_table_buffer(tables, r[i].buffer)
    &&& forall|k: u64| #[trigger] tables.contains_key(k) ==> has_table_barrier(r, tables[k].buffer)
}

/// Masks with which the graphics queue releases the front state to the
/// compute family.
pub open spec fn release_front_masks(graphics_family: u32, compute_family: u32) -> BarrierMasks {
    BarrierMasks {
        src_stage: STAGE_VERTEX_ATTRIBUTE_INPUT | STAGE_VERTEX_SHADER | STAGE_FRAGMENT_SHADER
            | STAGE_DRAW_INDIRECT,
        src_access: ACCESS_VERTEX_ATTRIBUTE_READ | ACCESS_SHADER_READ | ACCESS_INDIRECT_COMMAND_READ,
        dst_stage: STAGE_NONE,
        dst_access: ACCESS_NONE,
        src_family: graphics_family,
        dst_family: compute_family,
    }
}

/// Masks of the front state before the copy: an acquire from the graphics
/// family, or, within one family, a wait for the graphics reads.
pub open spec fn pre_copy_front_masks(graphics_family: u32, compute_family: u32) -> BarrierMasks {
    if graphics_family != compute_family {
        BarrierMasks {
            src_stage: STAGE_NONE,
            src_access: ACCESS_NONE,
            dst_stage: STAGE_TRANSFER,
            dst_access: ACCESS_TRANSFER_WRITE,
            src_family: graphics_family,
            dst_family: compute_family,
        }
    } else {
        BarrierMasks {
            src_stage: STAGE_VERTEX_ATTRIBUTE_INPUT | STAGE_VERTEX_SHADER | STAGE_FRAGMENT_SHADER,
            src_access: ACCESS_VERTEX_ATTRIBUTE_READ | ACCESS_SHADER_READ,
            dst_stage: STAGE_TRANSFER,
            dst_access: ACCESS_TRANSFER_WRITE,
            src_family: QUEUE_FAMILY_IGNORED,
            dst_family: QUEUE_FAMILY_IGNORED,
        }
    }
}

/// Masks of the back state before the copy: the simulation's writes are
/// done before the copy reads.
pub open spec fn pre_copy_back_masks() -> BarrierMasks {
    BarrierMasks {
        src_stage: STAGE_COMPUTE_SHADER,
        src_access: ACCESS_SHADER_WRITE,
        dst_stage: STAGE_TRANSFER,
        dst_access: ACCESS_TRANSFER_READ,
        src_family: QUEUE_FAMILY_IGNORED,
        dst_family: QUEUE_FAMILY_IGNORED,
    }
}

/// Masks with which the compute queue releases the back state (the next
/// front) to the graphics family.
pub open spec fn release_back_masks(graphics_family: u32, compute_family: u32) -> BarrierMasks {
    BarrierMasks {
        src_stage: STAGE_TRANSFER,
        src_access: ACCESS_TRANSFER_READ,
        dst_stage: STAGE_NONE,
        dst_access: ACCESS_NONE,
        src_family: compute_family,
        dst_family: graphics_family,
    }
}

/// Masks of the front state (the next back) after the copy: the copy's
/// writes are done before the next simulation reads and writes.
pub open spec fn post_copy_front_masks() -> BarrierMasks {
    BarrierMasks {
        src_stage: STAGE_TRANSFER,
        src_access: ACCESS_TRANSFER_WRITE,
        dst_stage: STAGE_COMPUTE_SHADER,
        dst_access: ACCESS_SHADER_READ | ACCESS_SHADER_WRITE,
        src_family: QUEUE_FAMILY_IGNORED,
        dst_family: QUEUE_FAMILY_IGNORED,
    }
}

/// Masks with which the graphics queue takes the new front state: an
/// acquire from the compute family, or, within one family, a wait for the
/// copy's reads.
pub open spec fn acquire_front_masks(graphics_family: u32, compute_family: u32) -> BarrierMasks {
    if graphics_family != compute_family {
        BarrierMasks {
            src_stage: STAGE_NONE,
            src_access: ACCESS_NONE,
            dst_stage: STAGE_DRAW_INDIRECT,
            dst_access: ACCESS_INDIRECT_COMMAND_READ,
            src_family: compute_family,
            dst_family: graphics_family,
        }
    } else {
        BarrierMasks {
            src_stage: STAGE_TRANSFER,
            src_access: ACCESS_TRANSFER_READ,
            dst_stage: STAGE_DRAW_INDIRECT,
            dst_access: ACCESS_INDIRECT_COMMAND_READ,
            src_family: QUEUE_FAMILY_IGNORED,
            dst_family: QUEUE_FAMILY_IGNORED,
        }
    }
}

/// Every barrier of a sequence that covers a state carries the masks it was
/// built with.
pub proof fn lemma_covering_masks(
    r: Seq<BufferBarrier>,
    buffer: BufferAlloc,
    free_list: BufferAlloc,
    tables: Map<u64, BufferAlloc>,
    buffer_size: u64,
    free_list_size: u64,
    m: BarrierMasks,
)
    requires
        covers_state(r, buffer, free_list, tables, buffer_size, free_list_size, m),
    ensures
        forall|i: int| 0 <= i < r.len() ==> #[trigger] r[i].masks == m,
{
    assert forall|i: int| 0 <= i < r.len() implies #[trigger] r[i].masks == m by {
        if i >= 2 {
            assert(r[i].masks == m);
        }
    }
}

/// Across two queue families, the compute queue's release of the back state
/// and the graphics queue's acquire of the new front are the two halves of
/// one ownership transfer: every released barrier goes from the compute
/// family to the graphics family, and every acquired barrier names that same
/// pair, so each acquire matches a release.
pub proof fn lemma_release_pairs_with_acquire(
    released: Seq<BufferBarrier>,
    acquired: Seq<BufferBarrier>,
    buffer: BufferAlloc,
    free_list: BufferAlloc,
    tables: Map<u64, BufferAlloc>,
    buffer_size: u64,
    free_list_size: u64,
    graphics_family: u32,
    compute_family: u32,
)
    requires
        graphics_family != compute_family,
        covers_state(
            released,
            buffer,
            free_list,
            tables,
            buffer_size,
            free_list_size,
            release_back_masks(graphics_family, compute_family),
        ),
        covers_state(
            acquired,
            buffer,
            free_list,
            tables,
            buffer_size,
            free_list_size,
            acquire_front_masks(graphics_family, compute_family),
        ),
    ensures
        released.len() == acquired.len(),
        forall|i: int|
            0 <= i < released.len() ==> #[trigger] released[i].masks.src_family == compute_family
                && released[i].masks.dst_family == graphics_family,
        forall|j: int|
            0 <= j < acquired.len() ==> #[trigger] acquired[j].masks.src_family == compute_family
                && acquired[j].masks.dst_family == graphics_family,
        forall|i: int, j: int|
            0 <= i < released.len() && 0 <= j < acquired.len() ==> #[trigger] released[i].masks.src_family
                == #[trigger] acquired[j].masks.src_family && released[i].masks.dst_family
                == acquired[j].masks.dst_family,
{
    lemma_covering_masks(
        released,
        buffer,
        free_list,
        tables,
        buffer_size,
        free_list_size,
        release_back_masks(graphics_family, compute_family),
    );
    lemma_covering_masks(
        acquired,
        buffer,
        free_list,
        tables,
        buffer_size,
        free_list_size,
        acquire_front_masks(graphics_family, compute_family),
    );
}

/// Across two queue families, the graphics queue's release of the front
/// state and the compute queue's acquire of it before the copy are the two
/// halves of one ownership transfer: both go from the graphics family to the
/// compute family. Within one family neither queue transfers anything: the
/// compute queue's wait names no family.
pub proof fn lemma_front_release_pairs_with_acquire(
    released: Seq<BufferBarrier>,
    acquired: Seq<BufferBarrier>,
    buffer: BufferAlloc,
    free_list: BufferAlloc,
    tables: Map<u64, BufferAlloc>,
    buffer_size: u64,
    free_list_size: u64,
    graphics_family: u32,
    compute_family: u32,
)
    requires
        graphics_family != compute_family ==> covers_state(
            released,
            buffer,
            free_list,
            tables,
            buffer_size,
            free_list_size,
            release_front_masks(graphics_family, compute_family),
        ),
        covers_state(
            acquired,
            buffer,
            free_list,
            tables,
            buffer_size,
            free_list_size,
            pre_copy_front_masks(graphics_family, compute_family),
        ),
    ensures
        graphics_family != compute_family ==> {
            &&& released.len() == acquired.len()
            &&& forall|i: int|
                0 <= i < released.len() ==> #[trigger] released[i].masks.src_family == graphics_family
                    && released[i].masks.dst_family == compute_family
            &&& forall|j: int|
                0 <= j < acquired.len() ==> #[trigger] acquired[j].masks.src_family == graphics_family
                    && acquired[j].masks.dst_family == compute_family
        },
        graphics_family == compute_family ==> forall|j: int|
            0 <= j < acquired.len() ==> #[trigger] acquired[j].masks.src_family == QUEUE_FAMILY_IGNORED
                && acquired[j].masks.dst_family == QUEUE_FAMILY_IGNORED,
{
    if graphics_family != compute_family {
        lemma_covering_masks(
            released,
            buffer,
            free_list,
            tables,
            buffer_size,
            free_list_size,
            release_front_masks(graphics_family, compute_family),
        );
    }
    lemma_covering_masks(
        acquired,
        buffer,
        free_list,
        tables,
        buffer_size,
        free_list_size,
        pre_copy_front_masks(graphics_family, compute_family),
    );
}

/// Some copy of `c` past the first two goes from a back page table to the
/// front page table of the same particle system.
pub open spec fn is_table_copy(
    back: Map<u64, BufferAlloc>,
    front: Map<u64, BufferAlloc>,
    c: BufferCopy,
    page_table_size: u64,
) -> bool {
    exists|k: u64|
        back.contains_key(k) && front.contains_key(k) && c == (BufferCopy {
            src: back[k].buffer,
            dst: front[k].buffer,
            size: page_table_size,
        })
}

/// Some copy of `c` past the first two copies buffer `src` to `dst`.
pub open spec fn has_table_copy(c: Seq<BufferCopy>, src: u64, dst: u64, page_table_size: u64) -> bool {
    exists|i: int|
        2 <= i < c.len() && c[i] == (BufferCopy { src, dst, size: page_table_size })
}

/// The particle storage of a device.
pub struct ParticleSystemManager {
    state0: ParticleSystemState,
    state1: ParticleSystemState,
    front_index: usize,
    buffer_size: u64,
    free_list_size: u64,
    settings: Settings,
}

impl ParticleSystemManager {
    /// The front state is 0 or 1, and both states know the same particle
    /// systems.
    pub closed spec fn wf(&self) -> bool {
        &&& self.front_index < 2
        &&& self.state0.tables().dom() == self.state1.tables().dom()
    }

    /// Size of the global particle buffer.
    pub closed spec fn buffer_bytes(&self) -> u64 {
        self.buffer_size
    }

    /// Size of the free list buffer.
    pub closed spec fn free_list_bytes(&self) -> u64 {
        self.free_list_size
    }

    /// Intervals of the periodic passes.
    pub closed spec fn intervals(&self) -> Settings {
        self.settings
    }

    /// Index of the front state.
    pub closed spec fn front(&self) -> int {
        self.front_index as int
    }

    /// State `i` (0 or 1).
    pub closed spec fn state(&self, i: int) -> &ParticleSystemState {
        if i == 0 {
            &self.state0
        } else {
            &self.state1
        }
    }

    /// The particle systems, by id.
    pub open spec fn systems(&self) -> Set<u64> {
        self.state(0).tables().dom()
    }

    /// Index of the state a queue works on: the front one for graphics, the
    /// back one for compute.
    pub open spec fn role_index(&self, role: QueueRole) -> int {
        match role {
            QueueRole::Graphics => self.front(),
            QueueRole::Compute => 1 - self.front(),
        }
    }

    /// A manager over two states; state 0 starts as the front one, with the
    /// default settings.
    pub fn new(state0: ParticleSystemState, state1: ParticleSystemState, layout: ParticleBufferLayout) -> (r:
        Self)
        requires
            state0.tables().dom() == state1.tables().dom(),
        ensures
            r.wf(),
            r.front() == 0,
            r.state(0) == state0,
            r.state(1) == state1,
            r.buffer_bytes() == layout.buffer_size,
            r.free_list_bytes() == layout.free_list_size,
            r.intervals() == (Settings { emission_us: DEFAULT_EMISSION_US, compaction_us: DEFAULT_COMPACTION_US }),
    {
        ParticleSystemManager {
            state0,
            state1,
            front_index: 0,
            buffer_size: layout.buffer_size,
            free_list_size: layout.free_list_size,
            settings: Settings::new(),
        }
    }

    fn state_ref(&self, i: usize) -> (r: &ParticleSystemState)
        requires
            i < 2,
        ensures
            r == self.state(i as int),
    {
        if i == 0 {
            &self.state0
        } else {
            &self.state1
        }
    }

    /// Index of the front state.
    pub fn front_index(&self) -> (r: usize)
        ensures
            r == self.front(),
    {
        self.front_index
    }

    /// Size of the global particle buffer.
    pub fn buffer_size(&self) -> (r: u64)
        ensures
            r == self.buffer_bytes(),
    {
        self.buffer_size
    }

    /// Size of the free list buffer.
    pub fn free_list_size(&self) -> (r: u64)
        ensures
            r == self.free_list_bytes(),
    {
        self.free_list_size
    }

    /// Interval between two emissions.
    pub fn emission_us(&self) -> (r: i64)
        ensures
            r == self.intervals().emission_us,
    {
        self.settings.emission_us
    }

    /// Interval between two compactions.
    pub fn compaction_us(&self) -> (r: i64)
        ensures
            r == self.intervals().compaction_us,
    {
        self.settings.compaction_us
    }

    /// Swaps the roles of the two states.
    pub fn swap_buffers(&mut self)
        requires
            old(self).wf(),
        ensures
            final(self).wf(),
            final(self).front() == 1 - old(self).front(),
            final(self).state(0) == old(self).state(0),
            final(self).state(1) == old(self).state(1),
            final(self).buffer_bytes() == old(self).buffer_bytes(),
            final(self).free_list_bytes() == old(self).free_list_bytes(),
            final(self).intervals() == old(self).intervals(),
    {
        self.front_index = 1 - self.front_index;
    }

    /// Index of the state `role` works on.
    pub fn state_index(&self, role: QueueRole) -> (r: usize)
        requires
            self.wf(),
        ensures
            r == self.role_index(role),
    {
        match role {
            QueueRole::Graphics => self.front_index,
            QueueRole::Compute => 1 - self.front_index,
        }
    }

    /// Registers particle system `id` with its page table in each state.
    pub fn add_page_tables(&mut self, id: u64, pt_0: BufferAlloc, pt_1: BufferAlloc)
        requires
            old(self).wf(),
        ensures
            final(self).wf(),
            final(self).front() == old(self).front(),
            final(self).state(0).tables() == old(self).state(0).tables().insert(id, pt_0),
            final(self).state(1).tables() == old(self).state(1).tables().insert(id, pt_1),
            final(self).state(0).buffer == old(self).state(0).buffer,
            final(self).state(0).free_list == old(self).state(0).free_list,
            final(self).state(1).buffer == old(self).state(1).buffer,
            final(self).state(1).free_list == old(self).state(1).free_list,
            final(self).buffer_bytes() == old(self).buffer_bytes(),
            final(self).free_list_bytes() == old(self).free_list_bytes(),
            final(self).intervals() == old(self).intervals(),
    {
        let _ = self.state0.page_tables.insert(id, pt_0);
        let _ = self.state1.page_tables.insert(id, pt_1);
        assert(self.state0.tables().dom() =~= self.state1.tables().dom());
    }

    /// Unregisters particle system `id`: its page tables (state 0's, then
    /// state 1's) and the index of the front state, whose table the graphics
    /// queue used; `None` when `id` is unknown.
    pub fn remove_pages_tables(&mut self, id: u64) -> (r: Option<([BufferAlloc; 2], usize)>)
        requires
            old(self).wf(),
        ensures
            final(self).wf(),
            final(self).front() == old(self).front(),
            r is Some == old(self).systems().contains(id),
            r matches Some((pts, f)) ==> pts[0] == old(self).state(0).tables()[id] && pts[1] == old(
                self,
            ).state(1).tables()[id] && f == old(self).front(),
            final(self).state(0).tables() == old(self).state(0).tables().remove(id),
            final(self).state(1).tables() == old(self).state(1).tables().remove(id),
            final(self).state(0).buffer == old(self).state(0).buffer,
            final(self).state(0).free_list == old(self).state(0).free_list,
            final(self).state(1).buffer == old(self).state(1).buffer,
            final(self).state(1).free_list == old(self).state(1).free_list,
            final(self).buffer_bytes() == old(self).buffer_bytes(),
            final(self).free_list_bytes() == old(self).free_list_bytes(),
            final(self).intervals() == old(self).intervals(),
    {
        match self.state0.page_tables.remove(id) {
            Some(pt_0) => {
                assert(old(self).state1.tables().contains_key(id));
                match self.state1.page_tables.remove(id) {
                    Some(pt_1) => {
                        assert(self.state0.tables().dom() =~= self.state1.tables().dom());
                        Some(([pt_0, pt_1], self.front_index))
                    },
                    None => {
                        assert(false);
                        None
                    },
                }
            },
            None => {
                assert(!old(self).state1.tables().contains_key(id));
                assert(self.state1.tables() =~= old(self).state1.tables().remove(id));
                None
            },
        }
    }

    /// The device addresses of the global buffer, of `id`'s page table and
    /// of the free list, in the state `role` works on; `None` when `id` is
    /// unknown.
    pub fn get_addresses(&self, id: u64, role: QueueRole) -> (r: Option<(u64, u64, u64)>)
        requires
            self.wf(),
        ensures
            ({
                let st = self.state(self.role_index(role));
                r == (if st.tables().contains_key(id) {
                    Some((st.buffer.address, st.tables()[id].address, st.free_list.address))
                } else {
                    None
                })
            }),
    {
        let state = self.state_ref(self.state_index(role));
        match state.page_tables.get(id) {
            Some(pt) => Some((state.buffer.address, pt.address, state.free_list.address)),
            None => None,
        }
    }

    /// The device addresses of the global buffer and of `id`'s page table,
    /// and the page table's buffer, in the state `role` works on.
    pub fn get_addresses_and_buffer(&self, id: u64, role: QueueRole) -> (r: Option<(u64, u64, u64)>)
        requires
            self.wf(),
        ensures
            ({
                let st = self.state(self.role_index(role));
                r == (if st.tables().contains_key(id) {
                    Some((st.buffer.address, st.tables()[id].address, st.tables()[id].buffer))
                } else {
                    None
                })
            }),
    {
        let state = self.state_ref(self.state_index(role));
        match state.page_tables.get(id) {
            Some(pt) => Some((state.buffer.address, pt.address, pt.buffer)),
            None => None,
        }
    }

    /// Barriers with `m` over every buffer of state `which`, appended to
    /// `out`.
    fn push_state_barriers(&self, out: &mut Vec<BufferBarrier>, which: usize, m: BarrierMasks)
        requires
            which < 2,
        ensures
            ({
                let st = self.state(which as int);
                let added = final(out)@.subrange(old(out)@.len() as int, final(out)@.len() as int);
                &&& final(out)@.len() >= old(out)@.len()
                &&& final(out)@.subrange(0, old(out)@.len() as int) == old(out)@
                &&& covers_state(
                    added,
                    st.buffer,
                    st.free_list,
                    st.tables(),
                    self.buffer_bytes(),
                    self.free_list_bytes(),
                    m,
                )
            }),
    {
        let st = self.state_ref(which);
        let ghost start: int = out@.len() as int;
        let ghost before = out@;
        out.push(BufferBarrier { masks: m, buffer: st.buffer.buffer, size: self.buffer_size });
        out.push(BufferBarrier { masks: m, buffer: st.free_list.buffer, size: self.free_list_size });
        let entries = st.page_tables.entries();
        let mut i: usize = 0;
        while i < entries.len()
            invariant
                st == self.state(which as int),
                0 <= i <= entries@.len(),
                st.tables().dom() == entries@.map_values(|e: PageTableEntry| e.id).to_set(),
                entries@.len() == st.tables().dom().len(),
                forall|j: int|
                    0 <= j < entries@.len() ==> #[trigger] st.tables().contains_key(entries@[j].id)
                        && st.tables()[entries@[j].id] == entries@[j].table,
                start == before.len(),
                out@.len() == start + 2 + i,
                out@.subrange(0, start) == before,
                out@[start] == (BufferBarrier { masks: m, buffer: st.buffer.buffer, size: self.buffer_size }),
                out@[start + 1] == (BufferBarrier {
                    masks: m,
                    buffer: st.free_list.buffer,
                    size: self.free_list_size,
                }),
                forall|j: int|
                    0 <= j < i ==> #[trigger] out@[start + 2 + j] == (BufferBarrier {
                        masks: m,
                        buffer: entries@[j].table.buffer,
                        size: WHOLE_SIZE,
                    }),
            decreases entries@.len() - i,
        {
            out.push(BufferBarrier { masks: m, buffer: entries[i].table.buffer, size: WHOLE_SIZE });
            proof {
                assert(out@.subrange(0, start) =~= before);
            }
            i = i + 1;
        }
        proof {
            let added = out@.subrange(start, out@.len() as int);
            assert forall|j: int| 0 <= j < entries@.len() implies #[trigger] added[2 + j] == (BufferBarrier {
                masks: m,
                buffer: entries@[j].table.buffer,
                size: WHOLE_SIZE,
            }) by {
                assert(added[2 + j] == out@[start + 2 + j]);
            }
            assert(added[0] == out@[start]);
            assert(added[1] == out@[start + 1]);
            lemma_covers_state(added, entries@, st.tables(), st.buffer, st.free_list, self.buffer_size, self.free_list_size, m);
        }
    }

    /// Barriers with `m` over every buffer of state `which`: the global
    /// buffer, the free list, then the page tables.
    pub fn create_state_barriers(&self, which: usize, m: BarrierMasks) -> (r: Vec<BufferBarrier>)
        requires
            which < 2,
        ensures
            ({
                let st = self.state(which as int);
                covers_state(r@, st.buffer, st.free_list, st.tables(), self.buffer_bytes(), self.free_list_bytes(), m)
            }),
    {
        let mut r: Vec<BufferBarrier> = Vec::new();
        self.push_state_barriers(&mut r, which, m);
        assert(r@.subrange(0, r@.len() as int) =~= r@);
        r
    }

    /// Cross sync, step 1, on the graphics queue: releases the front state
    /// to the compute family. Nothing when both queues share a family.
    pub fn graphics_release_front_barriers(&self, graphics_family: u32, compute_family: u32) -> (r:
        Vec<BufferBarrier>)
        requires
            self.wf(),
        ensures
            graphics_family == compute_family ==> r@.len() == 0,
            graphics_family != compute_family ==> ({
                let st = self.state(self.front());
                covers_state(
                    r@,
                    st.buffer,
                    st.free_list,
                    st.tables(),
                    self.buffer_bytes(),
                    self.free_list_bytes(),
                    release_front_masks(graphics_family, compute_family),
                )
            }),
    {
        if graphics_family == compute_family {
            return Vec::new();
        }
        let m = BarrierMasks {
            src_stage: STAGE_VERTEX_ATTRIBUTE_INPUT | STAGE_VERTEX_SHADER | STAGE_FRAGMENT_SHADER
                | STAGE_DRAW_INDIRECT,
            src_access: ACCESS_VERTEX_ATTRIBUTE_READ | ACCESS_SHADER_READ | ACCESS_INDIRECT_COMMAND_READ,
            dst_stage: STAGE_NONE,
            dst_access: ACCESS_NONE,
            src_family: graphics_family,
            dst_family: compute_family,
        };
        self.create_state_barriers(self.front_index, m)
    }

    /// Cross sync, step 2, on the compute queue: takes the front state (an
    /// acquire from the graphics family, or a wait for the graphics reads
    /// within one family) and waits for the simulation's writes to the back
    /// state; copies the global buffer, the free list and each page table
    /// from back to front; then releases the back state (the next front) to
    /// the graphics family when the families differ, and makes the front
    /// state (the next back) ready for the next simulation.
    pub fn compute_copy_and_release_plan(
        &self,
        page_table_size: u64,
        graphics_family: u32,
        compute_family: u32,
    ) -> (r: CopyAndReleasePlan)
        requires
            self.wf(),
        ensures
            ({
                let f = self.state(self.front());
                let b = self.state(1 - self.front());
                let nf = 2 + f.tables().dom().len();
                let nb = 2 + b.tables().dom().len();
                let pre = r.pre_barriers@;
                let post = r.post_barriers@;
                let c = r.copies@;
                &&& pre.len() == nf + nb
                &&& covers_state(
                    pre.subrange(0, nf as int),
                    f.buffer,
                    f.free_list,
                    f.tables(),
                    self.buffer_bytes(),
                    self.free_list_bytes(),
                    pre_copy_front_masks(graphics_family, compute_family),
                )
                &&& covers_state(
                    pre.subrange(nf as int, pre.len() as int),
                    b.buffer,
                    b.free_list,
                    b.tables(),
                    self.buffer_bytes(),
                    self.free_list_bytes(),
                    pre_copy_back_masks(),
                )
                &&& c.len() == nb
                &&& c[0] == BufferCopy { src: b.buffer.buffer, dst: f.buffer.buffer, size: self.buffer_bytes() }
                &&& c[1] == BufferCopy {
                    src: b.free_list.buffer,
                    dst: f.free_list.buffer,
                    size: self.free_list_bytes(),
                }
                &&& forall|i: int|
                    2 <= i < c.len() ==> is_table_copy(b.tables(), f.tables(), #[trigger] c[i], page_table_size)
                &&& forall|k: u64|
                    #[trigger] b.tables().contains_key(k) ==> has_table_copy(
                        c,
                        b.tables()[k].buffer,
                        f.tables()[k].buffer,
                        page_table_size,
                    )
                &&& forall|i: int|
                    2 <= i < c.len() ==> is_table_buffer(b.tables(), #[trigger] c[i].src) && is_table_buffer(
                        f.tables(),
                        c[i].dst,
                    ) && c[i].size == page_table_size
                &&& if graphics_family != compute_family {
                    &&& post.len() == nb + nf
                    &&& covers_state(
                        post.subrange(0, nb as int),
                        b.buffer,
                        b.free_list,
                        b.tables(),
                        self.buffer_bytes(),
                        self.free_list_bytes(),
                        release_back_masks(graphics_family, compute_family),
                    )
                    &&& forall|i: int|
                        0 <= i < nb ==> #[trigger] post[i].masks.src_family == compute_family
                            && post[i].masks.dst_family == graphics_family
                    &&& covers_state(
                        post.subrange(nb as int, post.len() as int),
                        f.buffer,
                        f.free_list,
                        f.tables(),
                        self.buffer_bytes(),
                        self.free_list_bytes(),
                        post_copy_front_masks(),
                    )
                } else {
                    covers_state(
                        post,
                        f.buffer,
                        f.free_list,
                        f.tables(),
                        self.buffer_bytes(),
                        self.free_list_bytes(),
                        post_copy_front_masks(),
                    )
                }
            }),
    {
        let fi = self.front_index;
        let bi = 1 - self.front_index;
        let cross = graphics_family != compute_family;
        let front_masks = if cross {
            BarrierMasks {
                src_stage: STAGE_NONE,
                src_access: ACCESS_NONE,
                dst_stage: STAGE_TRANSFER,
                dst_access: ACCESS_TRANSFER_WRITE,
                src_family: graphics_family,
                dst_family: compute_family,
            }
        } else {
            BarrierMasks {
                src_stage: STAGE_VERTEX_ATTRIBUTE_INPUT | STAGE_VERTEX_SHADER | STAGE_FRAGMENT_SHADER,
                src_access: ACCESS_VERTEX_ATTRIBUTE_READ | ACCESS_SHADER_READ,
                dst_stage: STAGE_TRANSFER,
                dst_access: ACCESS_TRANSFER_WRITE,
                src_family: QUEUE_FAMILY_IGNORED,
                dst_family: QUEUE_FAMILY_IGNORED,
            }
        };
        let mut pre: Vec<BufferBarrier> = Vec::new();
        self.push_state_barriers(&mut pre, fi, front_masks);
        let ghost pre_front = pre@;
        self.push_state_barriers(
            &mut pre,
            bi,
            BarrierMasks {
                src_stage: STAGE_COMPUTE_SHADER,
                src_access: ACCESS_SHADER_WRITE,
                dst_stage: STAGE_TRANSFER,
                dst_access: ACCESS_TRANSFER_READ,
                src_family: QUEUE_FAMILY_IGNORED,
                dst_family: QUEUE_FAMILY_IGNORED,
            },
        );
        proof {
            assert(pre_front.subrange(0, pre_front.len() as int) =~= pre_front);
        }
        let copies = self.table_copies(page_table_size);
        proof {
            let b = self.state(1 - self.front());
            let f = self.state(self.front());
            assert forall|i: int| 2 <= i < copies@.len() implies is_table_buffer(
                b.tables(),
                #[trigger] copies@[i].src,
            ) && is_table_buffer(f.tables(), copies@[i].dst) && copies@[i].size == page_table_size by {
                assert(is_table_copy(b.tables(), f.tables(), copies@[i], page_table_size));
                let k = choose|k: u64|
                    b.tables().contains_key(k) && f.tables().contains_key(k) && copies@[i] == (BufferCopy {
                        src: b.tables()[k].buffer,
                        dst: f.tables()[k].buffer,
                        size: page_table_size,
                    });
                assert(b.tables().contains_key(k) && b.tables()[k].buffer == copies@[i].src);
                assert(f.tables().contains_key(k) && f.tables()[k].buffer == copies@[i].dst);
            }
        }
        let mut post: Vec<BufferBarrier> = Vec::new();
        if cross {
            self.push_state_barriers(
                &mut post,
                bi,
                BarrierMasks {
                    src_stage: STAGE_TRANSFER,
                    src_access: ACCESS_TRANSFER_READ,
                    dst_stage: STAGE_NONE,
                    dst_access: ACCESS_NONE,
                    src_family: compute_family,
                    dst_family: graphics_family,
                },
            );
        }
        let ghost post_first = post@;
        self.push_state_barriers(
            &mut post,
            fi,
            BarrierMasks {
                src_stage: STAGE_TRANSFER,
                src_access: ACCESS_TRANSFER_WRITE,
                dst_stage: STAGE_COMPUTE_SHADER,
                dst_access: ACCESS_SHADER_READ | ACCESS_SHADER_WRITE,
                src_family: QUEUE_FAMILY_IGNORED,
                dst_family: QUEUE_FAMILY_IGNORED,
            },
        );
        proof {
            assert(post_first.subrange(0, post_first.len() as int) =~= post_first);
            if !cross {
                assert(post@.subrange(0, post@.len() as int) =~= post@);
            } else {
                let b = self.state(1 - self.front());
                let nb = post_first.len() as int;
                assert(post@.subrange(0, nb) =~= post_first);
                lemma_covering_masks(
                    post_first,
                    b.buffer,
                    b.free_list,
                    b.tables(),
                    self.buffer_bytes(),
                    self.free_list_bytes(),
                    release_back_masks(graphics_family, compute_family),
                );
                assert forall|i: int| 0 <= i < nb implies #[trigger] post@[i].masks.src_family == compute_family
                    && post@[i].masks.dst_family == graphics_family by {
                    assert(post@[i] == post_first[i]);
                }
            }
        }
        CopyAndReleasePlan { pre_barriers: pre, copies, post_barriers: post }
    }

    /// The copies from the back state to the front one: global buffer, free
    /// list, then each page table of the back state to its front twin.
    fn table_copies(&self, page_table_size: u64) -> (c: Vec<BufferCopy>)
        requires
            self.wf(),
        ensures
            ({
                let f = self.state(self.front());
                let b = self.state(1 - self.front());
                &&& c@.len() == 2 + b.tables().dom().len()
                &&& c@[0] == BufferCopy { src: b.buffer.buffer, dst: f.buffer.buffer, size: self.buffer_bytes() }
                &&& c@[1] == BufferCopy {
                    src: b.free_list.buffer,
                    dst: f.free_list.buffer,
                    size: self.free_list_bytes(),
                }
                &&& forall|i: int|
                    2 <= i < c@.len() ==> is_table_copy(b.tables(), f.tables(), #[trigger] c@[i], page_table_size)
                &&& forall|k: u64|
                    #[trigger] b.tables().contains_key(k) ==> has_table_copy(
                        c@,
                        b.tables()[k].buffer,
                        f.tables()[k].buffer,
                        page_table_size,
                    )
            }),
    {
        let f = self.state_ref(self.front_index);
        let b = self.state_ref(1 - self.front_index);
        let mut c: Vec<BufferCopy> = Vec::new();
        c.push(BufferCopy { src: b.buffer.buffer, dst: f.buffer.buffer, size: self.buffer_size });
        c.push(BufferCopy { src: b.free_list.buffer, dst: f.free_list.buffer, size: self.free_list_size });
        let entries = b.page_tables.entries();
        let mut i: usize = 0;
        while i < entries.len()
            invariant
                f == self.state(self.front()),
                b == self.state(1 - self.front()),
                self.wf(),
                0 <= i <= entries@.len(),
                b.tables().dom() == entries@.map_values(|e: PageTableEntry| e.id).to_set(),
                entries@.len() == b.tables().dom().len(),
                forall|j: int|
                    0 <= j < entries@.len() ==> #[trigger] b.tables().contains_key(entries@[j].id)
                        && b.tables()[entries@[j].id] == entries@[j].table,
                c@.len() == 2 + i,
                c@[0] == (BufferCopy { src: b.buffer.buffer, dst: f.buffer.buffer, size: self.buffer_size }),
                c@[1] == (BufferCopy {
                    src: b.free_list.buffer,
                    dst: f.free_list.buffer,
                    size: self.free_list_size,
                }),
                forall|j: int|
                    0 <= j < i ==> #[trigger] c@[2 + j] == (BufferCopy {
                        src: entries@[j].table.buffer,
                        dst: f.tables()[entries@[j].id].buffer,
                        size: page_table_size,
                    }),
            decreases entries@.len() - i,
        {
            let e = entries[i];
            assert(b.tables().contains_key(e.id));
            assert(self.state(0).tables().dom() == self.state(1).tables().dom());
            assert(f.tables().contains_key(e.id));
            match f.page_tables.get(e.id) {
                Some(fp) => {
                    c.push(BufferCopy { src: e.table.buffer, dst: fp.buffer, size: page_table_size });
                },
                None => {
                    assert(false);
                },
            }
            i = i + 1;
        }
        proof {
            let bt = b.tables();
            let ft = f.tables();
            assert(self.state(0).tables().dom() == self.state(1).tables().dom());
            assert forall|x: int| 2 <= x < c@.len() implies is_table_copy(bt, ft, #[trigger] c@[x], page_table_size) by {
                let j = x - 2;
                assert(c@[2 + j] == c@[x]);
                let k = entries@[j].id;
                assert(bt.contains_key(k));
                assert(ft.contains_key(k));
            }
            assert forall|k: u64| #[trigger] bt.contains_key(k) implies has_table_copy(
                c@,
                bt[k].buffer,
                ft[k].buffer,
                page_table_size,
            ) by {
                lemma_entries_cover(entries@, bt, k);
                let j = choose|j: int| 0 <= j < entries@.len() && entries@[j].id == k;
                assert(c@[2 + j] == c@[j + 2]);
            }
        }
        c
    }

    /// Cross sync, step 3, on the graphics queue after the swap: takes the
    /// new front state, an acquire from the compute family or, within one
    /// family, a wait for the copy's reads.
    pub fn graphics_acquire_new_front_barriers(&self, graphics_family: u32, compute_family: u32) -> (r:
        Vec<BufferBarrier>)
        requires
            self.wf(),
        ensures
            ({
                let st = self.state(self.front());
                covers_state(
                    r@,
                    st.buffer,
                    st.free_list,
                    st.tables(),
                    self.buffer_bytes(),
                    self.free_list_bytes(),
                    acquire_front_masks(graphics_family, compute_family),
                )
            }),
    {
        let m = if graphics_family != compute_family {
            BarrierMasks {
                src_stage: STAGE_NONE,
                src_access: ACCESS_NONE,
                dst_stage: STAGE_DRAW_INDIRECT,
                dst_access: ACCESS_INDIRECT_COMMAND_READ,
                src_family: compute_family,
                dst_family: graphics_family,
            }
        } else {
            BarrierMasks {
                src_stage: STAGE_TRANSFER,
                src_access: ACCESS_TRANSFER_READ,
                dst_stage: STAGE_DRAW_INDIRECT,
                dst_access: ACCESS_INDIRECT_COMMAND_READ,
                src_family: QUEUE_FAMILY_IGNORED,
                dst_family: QUEUE_FAMILY_IGNORED,
            }
        };
        self.create_state_barriers(self.front_index, m)
    }

    /// Whether an emission is due at `now` after one at `last`, and the
    /// time of the last emission afterwards: due when more than the
    /// emission interval has passed.
    pub fn emission_step(&self, last_emission_us: i64, now_us: i64) -> (r: (bool, i64))
        requires
            i64::MIN <= now_us - last_emission_us <= i64::MAX,
        ensures
            r.0 == (now_us - last_emission_us > self.intervals().emission_us),
            r.1 == (if r.0 { now_us } else { last_emission_us }),
    {
        if now_us - last_emission_us <= self.settings.emission_us {
            (false, last_emission_us)
        } else {
            (true, now_us)
        }
    }

    /// Whether a compaction is due at `now` after one at `last`, and the
    /// time of the last compaction afterwards. The elapsed time is taken as
    /// `last - now`: due when that exceeds the compaction interval. Unlike
    /// [`Self::emission_step`], which measures `now - last`, this is due
    /// only when `last` lies more than the interval after `now`, so with a
    /// clock that moves forward no compaction ever becomes due.
    pub fn compaction_step(&self, last_compaction_us: i64, now_us: i64) -> (r: (bool, i64))
        requires
            i64::MIN <= last_compaction_us - now_us <= i64::MAX,
        ensures
            r.0 == (last_compaction_us - now_us > self.intervals().compaction_us),
            r.1 == (if r.0 { now_us } else { last_compaction_us }),
    {
        if last_compaction_us - now_us <= self.settings.compaction_us {
            (false, last_compaction_us)
        } else {
            (true, now_us)
        }
    }

    /// Unregisters particle system `id` and hands out its page tables: the
    /// graphics one (of the front state) and the compute one (of the back
    /// state), each to be discarded on its queue's timeline; `None` when `id`
    /// is unknown.
    pub fn discard_particle_system(&mut self, id: u64) -> (r: Option<(BufferAlloc, BufferAlloc)>)
        requires
            old(self).wf(),
        ensures
            final(self).wf(),
            final(self).front() == old(self).front(),
            r == (if old(self).systems().contains(id) {
                Some(
                    (
                        old(self).state(old(self).front()).tables()[id],
                        old(self).state(1 - old(self).front()).tables()[id],
                    ),
                )
            } else {
                None
            }),
            final(self).state(0).tables() == old(self).state(0).tables().remove(id),
            final(self).state(1).tables() == old(self).state(1).tables().remove(id),
    {
        match self.remove_pages_tables(id) {
            Some((pts, gfx)) => {
                if gfx == 0 {
                    Some((pts[0], pts[1]))
                } else {
                    Some((pts[1], pts[0]))
                }
            },
            None => None,
        }
    }
}

/// One particle system's part of a reset of every particle system: the
/// push constants (its page table and the free list) and the work groups.
#[derive(Clone, Copy, Debug, PartialEq, Eq, Structural)]
pub struct ResetDispatch {
    pub id: u64,
    pub page_table: u64,
    pub free_list: u64,
    pub groups_x: u32,
}

/// Bytes of the header at the start of a page table.
pub const PAGE_TABLE_HEADER_BYTES: usize = 32;

/// The header a new page table starts with, as eight words: no particle,
/// one instance, first vertex and instance 0, no active chunk, then
/// padding.
pub open spec fn page_table_header() -> Seq<u32> {
    seq![0u32, 1u32, 0u32, 0u32, 0u32, 0u32, 0u32, 0u32]
}

/// The contents of a new page table of `size` bytes: the header in little
/// endian, then every byte 0xFF (every chunk slot empty).
pub open spec fn spec_initial_page_table(size: int) -> Seq<u8> {
    Seq::new(
        size as nat,
        |i: int|
            if i < PAGE_TABLE_HEADER_BYTES {
                if i == 4 {
                    1u8
                } else {
                    0u8
                }
            } else {
                0xFFu8
            },
    )
}

/// See [`spec_initial_page_table`].
pub fn initial_page_table(size: usize) -> (r: Vec<u8>)
    requires
        size >= PAGE_TABLE_HEADER_BYTES,
    ensures
        r@ == spec_initial_page_table(size as int),
{
    let mut r: Vec<u8> = Vec::with_capacity(size);
    let mut i: usize = 0;
    while i < size
        invariant
            i <= size,
            r@ == spec_initial_page_table(size as int).take(i as int),
        decreases size - i,
    {
        let b: u8 = if i < PAGE_TABLE_HEADER_BYTES {
            if i == 4 {
                1
            } else {
                0
            }
        } else {
            0xFF
        };
        r.push(b);
        i = i + 1;
        assert(r@ =~= spec_initial_page_table(size as int).take(i as int));
    }
    assert(r@ =~= spec_initial_page_table(size as int));
    r
}

/// The global buffer and the free list of one state.
#[derive(Clone, Copy, Debug, PartialEq, Eq, Structural)]
pub struct StateBuffers {
    pub buffer: BufferAlloc,
    pub free_list: BufferAlloc,
}

impl ParticleSystemManager {
    /// The global buffer and the free list of state `which`.
    pub fn state_buffers(&self, which: usize) -> (r: StateBuffers)
        requires
            which < 2,
        ensures
            r.buffer == self.state(which as int).buffer,
            r.free_list == self.state(which as int).free_list,
    {
        let st = self.state_ref(which);
        StateBuffers { buffer: st.buffer, free_list: st.free_list }
    }

    /// The ids of the page tables of state `which`, in the map's iteration
    /// order.
    pub fn table_ids(&self, which: usize) -> (r: Vec<u64>)
        requires
            which < 2,
        ensures
            r@.no_duplicates(),
            r@.to_set() == self.state(which as int).tables().dom(),
    {
        let st = self.state_ref(which);
        let entries = st.page_tables.entries();
        let mut r: Vec<u64> = Vec::new();
        let mut i: usize = 0;
        while i < entries.len()
            invariant
                i <= entries@.len(),
                r@ == entries@.map_values(|e: PageTableEntry| e.id).take(i as int),
                forall|a: int|
                    #![trigger entries@[a]]
                    0 <= a < entries@.len() ==> forall|b: int|
                        #![trigger entries@[b]]
                        a < b < entries@.len() ==> entries@[a].id != entries@[b].id,
            decreases entries@.len() - i,
        {
            r.push(entries[i].id);
            i = i + 1;
            assert(r@ =~= entries@.map_values(|e: PageTableEntry| e.id).take(i as int));
        }
        let ghost keys = entries@.map_values(|e: PageTableEntry| e.id);
        assert(keys.take(entries@.len() as int) =~= keys);
        assert forall|a: int, b: int| 0 <= a < keys.len() && 0 <= b < keys.len() && a != b implies keys[a]
            != keys[b] by {
            if a < b {
                assert(entries@[a].id != entries@[b].id);
            } else {
                assert(entries@[b].id != entries@[a].id);
            }
        }
        r
    }

    /// A reset of every particle system, as the compute queue's state holds
    /// them: one dispatch per page table, each with the free list and
    /// enough work groups for `particle_count` particles.
    pub fn reset_dispatches(&self, local_size_x: u32, particle_count: u32) -> (r: Vec<ResetDispatch>)
        requires
            self.wf(),
            local_size_x > 0,
            local_size_x * PARTICLES_PER_THREAD <= u32::MAX,
            particle_count + local_size_x * PARTICLES_PER_THREAD - 1 <= u32::MAX,
        ensures
            ({
                let st = self.state(self.role_index(QueueRole::Compute));
                &&& r@.map_values(|d: ResetDispatch| d.id).no_duplicates()
                &&& r@.map_values(|d: ResetDispatch| d.id).to_set() == st.tables().dom()
                &&& forall|i: int|
                    0 <= i < r@.len() ==> #[trigger] r@[i] == (ResetDispatch {
                        id: r@[i].id,
                        page_table: st.tables()[r@[i].id].address,
                        free_list: st.free_list.address,
                        groups_x: div_ceil(particle_count as int, local_size_x * 4) as u32,
                    })
            }),
    {
        let which = self.state_index(QueueRole::Compute);
        let st = self.state_ref(which);
        let groups_x = particle_system_shaders_num_workgroups(local_size_x, particle_count);
        let entries = st.page_tables.entries();
        let mut r: Vec<ResetDispatch> = Vec::new();
        let mut i: usize = 0;
        while i < entries.len()
            invariant
                st == self.state(which as int),
                i <= entries@.len(),
                r@.len() == i,
                groups_x == div_ceil(particle_count as int, local_size_x * 4),
                forall|j: int|
                    0 <= j < entries@.len() ==> #[trigger] st.tables().contains_key(entries@[j].id)
                        && st.tables()[entries@[j].id] == entries@[j].table,
                forall|j: int|
                    0 <= j < i ==> #[trigger] r@[j] == (ResetDispatch {
                        id: entries@[j].id,
                        page_table: entries@[j].table.address,
                        free_list: st.free_list.address,
                        groups_x,
                    }),
            decreases entries@.len() - i,
        {
            let e = entries[i];
            r.push(
                ResetDispatch {
                    id: e.id,
                    page_table: e.table.address,
                    free_list: st.free_list.address,
                    groups_x,
                },
            );
            i = i + 1;
        }
        proof {
            let ids = r@.map_values(|d: ResetDispatch| d.id);
            let keys = entries@.map_values(|e: PageTableEntry| e.id);
            assert(ids =~= keys);
            assert forall|a: int, b: int| 0 <= a < keys.len() && 0 <= b < keys.len() && a != b implies keys[a]
                != keys[b] by {
                if a < b {
                    assert(entries@[a].id != entries@[b].id);
                } else {
                    assert(entries@[b].id != entries@[a].id);
                }
            }
            assert forall|j: int| 0 <= j < r@.len() implies #[trigger] r@[j] == (ResetDispatch {
                id: r@[j].id,
                page_table: st.tables()[r@[j].id].address,
                free_list: st.free_list.address,
                groups_x: div_ceil(particle_count as int, local_size_x * 4) as u32,
            }) by {
                assert(st.tables().contains_key(entries@[j].id));
            }
        }
        r
    }
}

/// `VK_PIPELINE_STAGE_2_HOST_BIT`.
pub const STAGE_HOST: u64 = 0x4000;

/// `VK_ACCESS_2_HOST_WRITE_BIT`.
pub const ACCESS_HOST_WRITE: u64 = 0x4000;

/// `VK_ACCESS_2_SHADER_STORAGE_READ_BIT`.
pub const ACCESS_SHADER_STORAGE_READ: u64 = 0x2_0000_0000;

/// Bytes of a force emitter as the shaders read it: position and strength,
/// the kind, and padding to 16-byte alignment.
pub const EMITTER_BYTES: u64 = 32;

/// Appends the little-endian bytes of `v` to `out`.
fn push_le_u32(out: &mut Vec<u8>, v: u32)
    ensures
        final(out)@ == old(out)@ + le_bytes_u32(v),
{
    out.push((v & 0xff) as u8);
    out.push(((v >> 8u32) & 0xff) as u8);
    out.push(((v >> 16u32) & 0xff) as u8);
    out.push(((v >> 24u32) & 0xff) as u8);
    assert(final(out)@ =~= old(out)@ + le_bytes_u32(v));
}

/// The bytes of a force emitter: the position (or direction) and the
/// strength as four little-endian floats given by their bits, the kind
/// (0 for a point, 1 for a direction), then twelve bytes of padding.
pub open spec fn spec_emitter_bytes(x_bits: u32, y_bits: u32, z_bits: u32, mu_bits: u32, kind: u32) -> Seq<u8> {
    le_bytes_u32(x_bits) + le_bytes_u32(y_bits) + le_bytes_u32(z_bits) + le_bytes_u32(mu_bits) + le_bytes_u32(kind)
        + Seq::new(12, |i: int| 0u8)
}

/// See [`spec_emitter_bytes`].
pub fn emitter_bytes(x_bits: u32, y_bits: u32, z_bits: u32, mu_bits: u32, kind: u32) -> (r: Vec<u8>)
    ensures
        r@ == spec_emitter_bytes(x_bits, y_bits, z_bits, mu_bits, kind),
        r@.len() == EMITTER_BYTES,
{
    let mut r: Vec<u8> = Vec::with_capacity(32);
    push_le_u32(&mut r, x_bits);
    push_le_u32(&mut r, y_bits);
    push_le_u32(&mut r, z_bits);
    push_le_u32(&mut r, mu_bits);
    push_le_u32(&mut r, kind);
    let ghost head = r@;
    let mut i: usize = 0;
    while i < 12
        invariant
            i <= 12,
            r@ == head + Seq::new(i as nat, |j: int| 0u8),
        decreases 12 - i,
    {
        r.push(0u8);
        i = i + 1;
        assert(r@ =~= head + Seq::new(i as nat, |j: int| 0u8));
    }
    r
}

/// How a force emitter reaches the GPU buffer the compute shaders read.
pub struct EmitterUpload {
    /// The first barrier: host writes before the compute read, or before
    /// the transfer read of the staging buffer.
    pub host_barrier: BufferBarrier,
    /// The copy from the staging buffer, when there is one.
    pub copy: Option<BufferCopy>,
    /// The barrier from the copy to the compute read, when there is one.
    pub transfer_barrier: Option<BufferBarrier>,
    /// The buffers to discard at the given timeline value, in order.
    pub discards: Vec<u64>,
}

/// Barrier masks over a buffer with no queue transfer.
pub open spec fn local_masks(src_stage: u64, src_access: u64, dst_stage: u64, dst_access: u64) -> BarrierMasks {
    BarrierMasks {
        src_stage,
        src_access,
        dst_stage,
        dst_access,
        src_family: QUEUE_FAMILY_IGNORED,
        dst_family: QUEUE_FAMILY_IGNORED,
    }
}

/// The upload of a force emitter into `gpu_buffer`: written in place when
/// the buffer is host visible (`staging` is `None`); otherwise written to
/// the staging buffer and copied. Both buffers are discarded once the GPU
/// is done, the staging one first.
pub fn emitter_upload_plan(gpu_buffer: u64, staging: Option<u64>) -> (r: EmitterUpload)
    ensures
        match staging {
            None => {
                &&& r.host_barrier == (BufferBarrier {
                    masks: local_masks(STAGE_HOST, ACCESS_HOST_WRITE, STAGE_COMPUTE_SHADER, ACCESS_SHADER_STORAGE_READ),
                    buffer: gpu_buffer,
                    size: WHOLE_SIZE,
                })
                &&& r.copy is None
                &&& r.transfer_barrier is None
                &&& r.discards@ == seq![gpu_buffer]
            },
            Some(s) => {
                &&& r.host_barrier == (BufferBarrier {
                    masks: local_masks(STAGE_HOST, ACCESS_HOST_WRITE, STAGE_TRANSFER, ACCESS_TRANSFER_READ),
                    buffer: s,
                    size: WHOLE_SIZE,
                })
                &&& r.copy == Some(BufferCopy { src: 0, dst: 0, size: EMITTER_BYTES })
                &&& r.transfer_barrier == Some(
                    BufferBarrier {
                        masks: local_masks(STAGE_TRANSFER, ACCESS_TRANSFER_WRITE, STAGE_COMPUTE_SHADER, ACCESS_SHADER_STORAGE_READ),
                        buffer: gpu_buffer,
                        size: WHOLE_SIZE,
                    },
                )
                &&& r.discards@ == seq![s, gpu_buffer]
            },
        },
{
    match staging {
        None => {
            let masks = BarrierMasks {
                src_stage: STAGE_HOST,
                src_access: ACCESS_HOST_WRITE,
                dst_stage: STAGE_COMPUTE_SHADER,
                dst_access: ACCESS_SHADER_STORAGE_READ,
                src_family: QUEUE_FAMILY_IGNORED,
                dst_family: QUEUE_FAMILY_IGNORED,
            };
            let discards = vec![gpu_buffer];
            assert(discards@ =~= seq![gpu_buffer]);
            EmitterUpload {
                host_barrier: BufferBarrier { masks, buffer: gpu_buffer, size: WHOLE_SIZE },
                copy: None,
                transfer_barrier: None,
                discards,
            }
        },
        Some(s) => {
            let host = BarrierMasks {
                src_stage: STAGE_HOST,
                src_access: ACCESS_HOST_WRITE,
                dst_stage: STAGE_TRANSFER,
                dst_access: ACCESS_TRANSFER_READ,
                src_family: QUEUE_FAMILY_IGNORED,
                dst_family: QUEUE_FAMILY_IGNORED,
            };
            let transfer = BarrierMasks {
                src_stage: STAGE_TRANSFER,
                src_access: ACCESS_TRANSFER_WRITE,
                dst_stage: STAGE_COMPUTE_SHADER,
                dst_access: ACCESS_SHADER_STORAGE_READ,
                src_family: QUEUE_FAMILY_IGNORED,
                dst_family: QUEUE_FAMILY_IGNORED,
            };
            let discards = vec![s, gpu_buffer];
            assert(discards@ =~= seq![s, gpu_buffer]);
            EmitterUpload {
                host_barrier: BufferBarrier { masks: host, buffer: s, size: WHOLE_SIZE },
                copy: Some(BufferCopy { src: 0, dst: 0, size: EMITTER_BYTES }),
                transfer_barrier: Some(BufferBarrier { masks: transfer, buffer: gpu_buffer, size: WHOLE_SIZE }),
                discards,
            }
        },
    }
}

/// Swapping exchanges the queues' states: after a swap the graphics queue
/// reads the state the compute queue simulated, and the compute queue works
/// on the state the graphics queue read; a second swap restores the roles.
pub proof fn lemma_swap_exchanges_roles(before: ParticleSystemManager, after: ParticleSystemManager)
    requires
        before.wf(),
        after.wf(),
        after.front() == 1 - before.front(),
    ensures
        after.role_index(QueueRole::Graphics) == before.role_index(QueueRole::Compute),
        after.role_index(QueueRole::Compute) == before.role_index(QueueRole::Graphics),
        1 - after.front() == before.front(),
{
}

/// A consistent manager's front state is 0 or 1, so each queue works on one
/// of the two states, and both states know the same particle systems.
pub proof fn lemma_manager_roles(m: ParticleSystemManager)
    requires
        m.wf(),
    ensures
        0 <= m.front() < 2,
        0 <= m.role_index(QueueRole::Graphics) < 2,
        0 <= m.role_index(QueueRole::Compute) < 2,
        m.role_index(QueueRole::Graphics) != m.role_index(QueueRole::Compute),
        m.state(0).tables().dom() == m.state(1).tables().dom(),
{
}

/// After a swap that keeps both states, the compute queue works on the
/// state the graphics queue read, and the graphics queue on the one the
/// compute queue simulated: what either asked for before, the other gets.
pub proof fn lemma_swap_exchanges_states(before: ParticleSystemManager, after: ParticleSystemManager)
    requires
        before.wf(),
        after.wf(),
        after.front() == 1 - before.front(),
        after.state(0) == before.state(0),
        after.state(1) == before.state(1),
    ensures
        after.state(after.role_index(QueueRole::Compute)) == before.state(before.role_index(QueueRole::Graphics)),
        after.state(after.role_index(QueueRole::Graphics)) == before.state(before.role_index(QueueRole::Compute)),
{
}

/// Once a particle system is removed from both states, neither queue finds
/// it, whichever state is the front one.
pub proof fn lemma_removed_system_is_gone(m: ParticleSystemManager, id: u64)
    requires
        m.wf(),
        !m.systems().contains(id),
    ensures
        !m.state(m.role_index(QueueRole::Graphics)).tables().contains_key(id),
        !m.state(m.role_index(QueueRole::Compute)).tables().contains_key(id),
{
}

proof fn lemma_covers_state(
    added: Seq<BufferBarrier>,
    entries: Seq<PageTableEntry>,
    tables: Map<u64, BufferAlloc>,
    buffer: BufferAlloc,
    free_list: BufferAlloc,
    buffer_size: u64,
    free_list_size: u64,
    m: BarrierMasks,
)
    requires
        added.len() == 2 + entries.len(),
        entries.len() == tables.dom().len(),
        tables.dom() == entries.map_values(|e: PageTableEntry| e.id).to_set(),
        forall|j: int|
            0 <= j < entries.len() ==> #[trigger] tables.contains_key(entries[j].id)
                && tables[entries[j].id] == entries[j].table,
        added[0] == (BufferBarrier { masks: m, buffer: buffer.buffer, size: buffer_size }),
        added[1] == (BufferBarrier { masks: m, buffer: free_list.buffer, size: free_list_size }),
        forall|j: int|
            0 <= j < entries.len() ==> #[trigger] added[2 + j] == (BufferBarrier {
                masks: m,
                buffer: entries[j].table.buffer,
                size: WHOLE_SIZE,
            }),
    ensures
        covers_state(added, buffer, free_list, tables, buffer_size, free_list_size, m),
{
    assert forall|x: int| 2 <= x < added.len() implies #[trigger] added[x].masks == m && added[x].size
        == WHOLE_SIZE && is_table_buffer(tables, added[x].buffer) by {
        let j = x - 2;
        assert(added[2 + j] == added[x]);
        assert(tables.contains_key(entries[j].id));
    }
    assert forall|k: u64| #[trigger] tables.contains_key(k) implies has_table_barrier(
        added,
        tables[k].buffer,
    ) by {
        lemma_entries_cover(entries, tables, k);
        let j = choose|j: int| 0 <= j < entries.len() && entries[j].id == k;
        assert(added[2 + j] == added[j + 2]);
    }
}

proof fn lemma_entries_cover(entries: Seq<PageTableEntry>, tables: Map<u64, BufferAlloc>, k: u64)
    requires
        tables.dom() == entries.map_values(|e: PageTableEntry| e.id).to_set(),
        tables.contains_key(k),
    ensures
        exists|j: int| 0 <= j < entries.len() && entries[j].id == k,
{
    let keys = entries.map_values(|e: PageTableEntry| e.id);
    assert(keys.to_set().contains(k));
    assert(keys.contains(k));
    let j = choose|j: int| 0 <= j < keys.len() && keys[j] == k;
    assert(entries[j].id == k);
}

} // verus!
