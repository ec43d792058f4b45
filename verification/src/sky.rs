//! The decisions of the one-time sky generation: a 2048×2048 storage image
//! filled by a compute shader, then handed to the fragment shaders.
use crate::fnv::le_bytes_u32;
use crate::pipelines::{ComputeInfo, SpecializationMapEntry};
use crate::sun::{
    ImageBarrier, ACCESS_NONE, ACCESS_SHADER_STORAGE_WRITE, IMAGE_LAYOUT_GENERAL,
    IMAGE_LAYOUT_SHADER_READ_ONLY_OPTIMAL, IMAGE_LAYOUT_UNDEFINED, STAGE_COMPUTE_SHADER, STAGE_NONE,
};
use vstd::prelude::*;

verus! {

/// Width and height of the sky image.
pub const SKY_SIZE: u32 = 2048;

/// Local work group size of the sky shader along x and y.
pub const SKY_LOCAL_SIZE: u32 = 16;

/// `VK_PIPELINE_STAGE_2_ALL_COMMANDS_BIT`.
pub const STAGE_ALL_COMMANDS: u64 = 0x1_0000;

/// `VK_ACCESS_2_MEMORY_READ_BIT`.
pub const ACCESS_MEMORY_READ: u64 = 0x8000;

/// Whether the sky must be generated: only when no sky image exists.
pub fn needs_sky(has_sky_image: bool) -> (r: bool)
    ensures
        r == !has_sky_image,
{
    !has_sky_image
}

/// The sky's compute pipeline: its module and layout, the work group size
/// (constants 0 and 1, 16 each) and the debug switch (constant 10), each 4
/// bytes.
pub fn sky_compute_info(shader_module: u64, pipeline_layout: u64, debug_shaders: bool) -> (r:
    ComputeInfo)
    ensures
        r.shader_module == shader_module,
        r.pipeline_layout == pipeline_layout,
        r.specialization_constants@ == seq![
            SpecializationMapEntry { constant_id: 0, offset: 0, size: 4 },
            SpecializationMapEntry { constant_id: 1, offset: 4, size: 4 },
            SpecializationMapEntry { constant_id: 10, offset: 8, size: 4 },
        ],
        r.specialization_constants_values@ == le_bytes_u32(16) + le_bytes_u32(16) + le_bytes_u32(
            if debug_shaders { 1 } else { 0 },
        ),
{
    let mut info = ComputeInfo::new();
    info.shader_module = shader_module;
    info.pipeline_layout = pipeline_layout;
    info.add_specialization_constant_u32(SpecializationMapEntry { constant_id: 0, offset: 0, size: 4 }, SKY_LOCAL_SIZE);
    info.add_specialization_constant_u32(SpecializationMapEntry { constant_id: 1, offset: 4, size: 4 }, SKY_LOCAL_SIZE);
    info.add_specialization_constant_u32(
        SpecializationMapEntry { constant_id: 10, offset: 8, size: 4 },
        if debug_shaders { 1 } else { 0 },
    );
    assert(info.specialization_constants@ =~= seq![
        SpecializationMapEntry { constant_id: 0, offset: 0, size: 4 },
        SpecializationMapEntry { constant_id: 1, offset: 4, size: 4 },
        SpecializationMapEntry { constant_id: 10, offset: 8, size: 4 },
    ]);
    assert(info.specialization_constants_values@ =~= le_bytes_u32(16) + le_bytes_u32(16) + le_bytes_u32(
        if debug_shaders { 1 } else { 0 },
    ));
    info
}

/// Work groups of the sky dispatch: the image covered by 16×16 groups.
pub fn sky_dispatch() -> (r: (u32, u32, u32))
    ensures
        r == (128u32, 128u32, 1u32),
        r.0 * SKY_LOCAL_SIZE == SKY_SIZE && r.1 * SKY_LOCAL_SIZE == SKY_SIZE,
{
    (SKY_SIZE / SKY_LOCAL_SIZE, SKY_SIZE / SKY_LOCAL_SIZE, 1)
}

/// The barriers around the sky dispatch: from nothing into `GENERAL` for
/// the compute writes, then to `SHADER_READ_ONLY_OPTIMAL` for every later
/// read.
pub fn sky_barriers() -> (r: (ImageBarrier, ImageBarrier))
    ensures
        r.0 == (ImageBarrier {
            src_stage: STAGE_NONE,
            src_access: ACCESS_NONE,
            dst_stage: STAGE_COMPUTE_SHADER,
            dst_access: ACCESS_SHADER_STORAGE_WRITE,
            old_layout: IMAGE_LAYOUT_UNDEFINED,
            new_layout: IMAGE_LAYOUT_GENERAL,
        }),
        r.1 == (ImageBarrier {
            src_stage: STAGE_COMPUTE_SHADER,
            src_access: ACCESS_SHADER_STORAGE_WRITE,
            dst_stage: STAGE_ALL_COMMANDS,
            dst_access: ACCESS_MEMORY_READ,
            old_layout: IMAGE_LAYOUT_GENERAL,
            new_layout: IMAGE_LAYOUT_SHADER_READ_ONLY_OPTIMAL,
        }),
{
    (
        ImageBarrier {
            src_stage: STAGE_NONE,
            src_access: ACCESS_NONE,
            dst_stage: STAGE_COMPUTE_SHADER,
            dst_access: ACCESS_SHADER_STORAGE_WRITE,
            old_layout: IMAGE_LAYOUT_UNDEFINED,
            new_layout: IMAGE_LAYOUT_GENERAL,
        },
        ImageBarrier {
            src_stage: STAGE_COMPUTE_SHADER,
            src_access: ACCESS_SHADER_STORAGE_WRITE,
            dst_stage: STAGE_ALL_COMMANDS,
            dst_access: ACCESS_MEMORY_READ,
            old_layout: IMAGE_LAYOUT_GENERAL,
            new_layout: IMAGE_LAYOUT_SHADER_READ_ONLY_OPTIMAL,
        },
    )
}

/// Timeline value after which the generation's transient objects are
/// released: two past the cached value.
pub fn sky_cleanup_timeline(cached_timeline: u64) -> (r: u64)
    requires
        cached_timeline + 2 <= u64::MAX,
    ensures
        r == cached_timeline + 2,
{
    cached_timeline + 2
}

} // verus!
