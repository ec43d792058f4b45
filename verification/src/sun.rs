//! The decisions of the sun volume update.
//!
//! The sun is a 3D storage image filled by a compute shader. The first
//! update of an entity creates the image, its descriptors and the compute
//! pipeline and dispatches once on a transient command buffer; every later
//! update dispatches again on the frame's command buffer. Each dispatch is
//! fenced by two image barriers: into `GENERAL` for the shader's writes, and
//! back to `SHADER_READ_ONLY_OPTIMAL` for the fragment shader's reads.
use crate::pipelines::{ComputeInfo, SpecializationMapEntry};
use crate::resources::{ResourceState, ResourceTable};
use crate::fnv::le_bytes_u32;
use vstd::prelude::*;

verus! {

/// `VK_IMAGE_LAYOUT_UNDEFINED`.
pub const IMAGE_LAYOUT_UNDEFINED: i32 = 0;

/// `VK_IMAGE_LAYOUT_GENERAL`.
pub const IMAGE_LAYOUT_GENERAL: i32 = 1;

/// `VK_IMAGE_LAYOUT_SHADER_READ_ONLY_OPTIMAL`.
pub const IMAGE_LAYOUT_SHADER_READ_ONLY_OPTIMAL: i32 = 5;

/// `VK_PIPELINE_STAGE_2_NONE`.
pub const STAGE_NONE: u64 = 0;

/// `VK_PIPELINE_STAGE_2_FRAGMENT_SHADER_BIT`.
pub const STAGE_FRAGMENT_SHADER: u64 = 0x80;

/// `VK_PIPELINE_STAGE_2_COMPUTE_SHADER_BIT`.
pub const STAGE_COMPUTE_SHADER: u64 = 0x800;

/// `VK_ACCESS_2_NONE`.
pub const ACCESS_NONE: u64 = 0;

/// `VK_ACCESS_2_SHADER_READ_BIT`.
pub const ACCESS_SHADER_READ: u64 = 0x20;

/// `VK_ACCESS_2_SHADER_STORAGE_WRITE_BIT`.
pub const ACCESS_SHADER_STORAGE_WRITE: u64 = 0x4_0000_0000;

/// Specialization constant id of the sun shader's debug switch.
pub const SUN_DEBUG_CONSTANT_ID: u32 = 10;

/// Local work group size of the sun shader along each axis.
pub const SUN_LOCAL_SIZE: u32 = 8;

/// Size of the sun volume in texels.
#[derive(Clone, Copy, Debug, PartialEq, Eq, Structural)]
pub struct Resolution {
    pub x: u32,
    pub y: u32,
    pub z: u32,
}

/// The sun volume of one entity: its image and the objects of the compute
/// pass that fills it, as raw Vulkan handles.
#[derive(Clone, Copy, Debug, PartialEq, Eq, Structural)]
pub struct SunResource {
    pub resolution: Resolution,
    pub image: u64,
    pub image_view: u64,
    pub image_allocation: u64,
    pub descriptor_set: u64,
    pub is_generated: bool,
    pub params_buffer: u64,
    pub params_alloc: u64,
    pub compute_descriptor_pool: u64,
    pub compute_descriptor_set_layout: u64,
    pub compute_descriptor_set: u64,
    pub compute_pipeline: u64,
    pub compute_pipeline_layout: u64,
    pub last_timeline: u64,
}

/// What an update records.
#[derive(Clone, Copy, Debug, PartialEq, Eq, Structural)]
pub enum SunOperation {
    /// Create the volume and its compute pass, then dispatch.
    InitAndDispatch,
    /// Dispatch again with the existing objects.
    DispatchOnly {
        image: u64,
        compute_pipeline: u64,
        compute_pipeline_layout: u64,
        compute_descriptor_set: u64,
        params_buffer: u64,
        params_alloc: u64,
        is_generated: bool,
    },
}

/// What the recorded work produced.
#[derive(Clone, Copy, Debug, PartialEq, Eq, Structural)]
pub enum SunOutcome {
    /// A volume was created.
    Created(SunResource),
    /// The existing volume was dispatched again at this timeline value.
    Updated(u64),
}

/// One `VkImageMemoryBarrier2` on the sun image (whole image, color aspect,
/// no queue family transfer).
#[derive(Clone, Copy, Debug, PartialEq, Eq, Structural)]
pub struct ImageBarrier {
    pub src_stage: u64,
    pub src_access: u64,
    pub dst_stage: u64,
    pub dst_access: u64,
    pub old_layout: i32,
    pub new_layout: i32,
}

/// The update an entity's sun needs, given the resource table.
pub open spec fn spec_sun_operation(m: Map<u64, ResourceState<SunResource>>, entity: u64) -> SunOperation {
    if m.contains_key(entity) && m[entity] is Ready {
        let s = m[entity]->Ready_0;
        SunOperation::DispatchOnly {
            image: s.image,
            compute_pipeline: s.compute_pipeline,
            compute_pipeline_layout: s.compute_pipeline_layout,
            compute_descriptor_set: s.compute_descriptor_set,
            params_buffer: s.params_buffer,
            params_alloc: s.params_alloc,
            is_generated: s.is_generated,
        }
    } else {
        SunOperation::InitAndDispatch
    }
}

/// A ready volume is dispatched again with its own objects; otherwise the
/// volume is created.
pub fn plan_sun_operation(table: &ResourceTable<SunResource>, entity: u64) -> (r: SunOperation)
    requires
        table.wf(),
    ensures
        r == spec_sun_operation(table@, entity),
{
    match table.state_of(entity) {
        Some(ResourceState::Ready(s)) => SunOperation::DispatchOnly {
            image: s.image,
            compute_pipeline: s.compute_pipeline,
            compute_pipeline_layout: s.compute_pipeline_layout,
            compute_descriptor_set: s.compute_descriptor_set,
            params_buffer: s.params_buffer,
            params_alloc: s.params_alloc,
            is_generated: s.is_generated,
        },
        _ => SunOperation::InitAndDispatch,
    }
}

/// Work groups along each axis: the resolution divided by the local size,
/// rounded up.
pub fn dispatch_group_counts(resolution: Resolution) -> (r: (u32, u32, u32))
    requires
        resolution.x + 7 <= u32::MAX,
        resolution.y + 7 <= u32::MAX,
        resolution.z + 7 <= u32::MAX,
    ensures
        r.0 == (resolution.x + 7) / 8,
        r.1 == (resolution.y + 7) / 8,
        r.2 == (resolution.z + 7) / 8,
        r.0 * 8 >= resolution.x && (r.0 as int - 1) * 8 < resolution.x,
        r.1 * 8 >= resolution.y && (r.1 as int - 1) * 8 < resolution.y,
        r.2 * 8 >= resolution.z && (r.2 as int - 1) * 8 < resolution.z,
{
    ((resolution.x + 7) / SUN_LOCAL_SIZE, (resolution.y + 7) / SUN_LOCAL_SIZE, (resolution.z + 7)
        / SUN_LOCAL_SIZE)
}

/// The two barriers around a dispatch. Before: from the fragment shader's
/// reads (or from nothing, on the first dispatch, when the image holds no
/// data yet) to the compute shader's writes, into `GENERAL`. After: from the
/// compute shader's writes to the fragment shader's reads, into
/// `SHADER_READ_ONLY_OPTIMAL`.
pub fn sun_dispatch_barriers(is_generated: bool) -> (r: (ImageBarrier, ImageBarrier))
    ensures
        r.0 == (ImageBarrier {
            src_stage: if is_generated { STAGE_FRAGMENT_SHADER } else { STAGE_NONE },
            src_access: if is_generated { ACCESS_SHADER_READ } else { ACCESS_NONE },
            dst_stage: STAGE_COMPUTE_SHADER,
            dst_access: ACCESS_SHADER_STORAGE_WRITE,
            old_layout: if is_generated {
                IMAGE_LAYOUT_SHADER_READ_ONLY_OPTIMAL
            } else {
                IMAGE_LAYOUT_UNDEFINED
            },
            new_layout: IMAGE_LAYOUT_GENERAL,
        }),
        r.1 == (ImageBarrier {
            src_stage: STAGE_COMPUTE_SHADER,
            src_access: ACCESS_SHADER_STORAGE_WRITE,
            dst_stage: STAGE_FRAGMENT_SHADER,
            dst_access: ACCESS_SHADER_READ,
            old_layout: IMAGE_LAYOUT_GENERAL,
            new_layout: IMAGE_LAYOUT_SHADER_READ_ONLY_OPTIMAL,
        }),
        r.0.new_layout == r.1.old_layout,
{
    let before = ImageBarrier {
        src_stage: if is_generated { STAGE_FRAGMENT_SHADER } else { STAGE_NONE },
        src_access: if is_generated { ACCESS_SHADER_READ } else { ACCESS_NONE },
        dst_stage: STAGE_COMPUTE_SHADER,
        dst_access: ACCESS_SHADER_STORAGE_WRITE,
        old_layout: if is_generated {
            IMAGE_LAYOUT_SHADER_READ_ONLY_OPTIMAL
        } else {
            IMAGE_LAYOUT_UNDEFINED
        },
        new_layout: IMAGE_LAYOUT_GENERAL,
    };
    let after = ImageBarrier {
        src_stage: STAGE_COMPUTE_SHADER,
        src_access: ACCESS_SHADER_STORAGE_WRITE,
        dst_stage: STAGE_FRAGMENT_SHADER,
        dst_access: ACCESS_SHADER_READ,
        old_layout: IMAGE_LAYOUT_GENERAL,
        new_layout: IMAGE_LAYOUT_SHADER_READ_ONLY_OPTIMAL,
    };
    (before, after)
}

/// The compute pipeline of the sun: its module and layout, and one
/// specialization constant (id 10, 4 bytes) that switches the shader's debug
/// output on when the device was asked for debug shaders in a debug build.
pub fn sun_compute_info(shader_module: u64, pipeline_layout: u64, debug_shaders: bool) -> (r:
    ComputeInfo)
    ensures
        r.shader_module == shader_module,
        r.pipeline_layout == pipeline_layout,
        r.specialization_constants@ == seq![
            SpecializationMapEntry { constant_id: SUN_DEBUG_CONSTANT_ID, offset: 0, size: 4 },
        ],
        r.specialization_constants_values@ == le_bytes_u32(if debug_shaders { 1 } else { 0 }),
{
    let mut info = ComputeInfo::new();
    info.shader_module = shader_module;
    info.pipeline_layout = pipeline_layout;
    info.add_specialization_constant_u32(
        SpecializationMapEntry { constant_id: SUN_DEBUG_CONSTANT_ID, offset: 0, size: 4 },
        if debug_shaders { 1 } else { 0 },
    );
    assert(info.specialization_constants_values@ =~= le_bytes_u32(if debug_shaders { 1 } else { 0 }));
    info
}

/// Timeline value after which the transient commands of a creation can be
/// released: two past the next submission.
pub fn transient_release_timeline(cached_timeline: u64) -> (r: u64)
    requires
        cached_timeline + 3 <= u64::MAX,
    ensures
        r == cached_timeline + 3,
{
    let next = cached_timeline + 1;
    next + 2
}

/// Records what an update produced: a created volume is stored as
/// generated (its first dispatch has run); a repeated dispatch stamps the
/// ready volume with its timeline value. Returns a volume that a creation
/// replaced, for the caller to discard.
pub fn commit_sun(table: &mut ResourceTable<SunResource>, entity: u64, outcome: SunOutcome) -> (r:
    Option<SunResource>)
    requires
        old(table).wf(),
    ensures
        final(table).wf(),
        match outcome {
            SunOutcome::Created(s) => {
                &&& final(table)@ == old(table)@.insert(
                    entity,
                    ResourceState::Ready(SunResource { is_generated: true, ..s }),
                )
                &&& r == (if old(table)@.contains_key(entity) && old(table)@[entity] is Ready {
                    Some(old(table)@[entity]->Ready_0)
                } else {
                    None
                })
            },
            SunOutcome::Updated(t) => {
                &&& r is None
                &&& final(table)@ == (if old(table)@.contains_key(entity)
                    && old(table)@[entity] is Ready {
                    old(table)@.insert(
                        entity,
                        ResourceState::Ready(
                            SunResource { last_timeline: t, ..old(table)@[entity]->Ready_0 },
                        ),
                    )
                } else {
                    old(table)@
                })
            },
        },
{
    match outcome {
        SunOutcome::Created(s) => {
            let mut s = s;
            s.is_generated = true;
            table.commit_ready(entity, s)
        },
        SunOutcome::Updated(t) => {
            let stamp = |v: SunResource| -> (n: SunResource)
                ensures
                    n == (SunResource { last_timeline: t, ..v }),
                {
                    let mut v = v;
                    v.last_timeline = t;
                    v
                };
            let _ = table.update_ready(entity, stamp);
            None
        },
    }
}

} // verus!
