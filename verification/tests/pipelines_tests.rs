use aethervk_device::fnv::{FnvState, FNV_OFFSET_BASIS};
use aethervk_device::pipelines::{
    ComputeInfo, CullMode, DynamicState, FragmentShader, FrontFace, GraphicsInfo, PipelineFlags,
    PipelineKey, PipelinePool, PreRasterization, SpecializationMapEntry, StencilCompareOp,
    StencilLogicOp, VertexIn, SHADER_STAGE_VERTEX, TOPOLOGY_TRIANGLE_STRIP,
};
use aethervk_device::renderpasses::SHADER_STAGE_FRAGMENT;
use std::cell::{Cell, RefCell};

#[test]
fn fnv_of_nothing_is_the_offset_basis() {
    let st = FnvState::new();
    assert_eq!(st.h, FNV_OFFSET_BASIS);
    assert_eq!(st.h, 0xcbf29ce484222325);
}

#[test]
fn fnv_of_one_byte() {
    let mut st = FnvState::new();
    st.write_u8(b'a');
    assert_eq!(st.h, 0xaf63dc4c8601ec8c);
}

#[test]
fn fnv_writes_integers_little_endian() {
    let mut a = FnvState::new();
    a.write_u32(0x0403_0201);
    let mut b = FnvState::new();
    b.write_u8(1);
    b.write_u8(2);
    b.write_u8(3);
    b.write_u8(4);
    assert_eq!(a.h, b.h);
    let mut c = FnvState::new();
    c.write_u64(0x0807_0605_0403_0201);
    let mut d = FnvState::new();
    d.write_bytes(&[1, 2, 3, 4, 5, 6, 7, 8]);
    assert_eq!(c.h, d.h);
}

#[test]
fn stencil_codes_follow_declaration_order() {
    assert_eq!(StencilCompareOp::Off.code(), 0);
    assert_eq!(StencilCompareOp::Equal.code(), 1);
    assert_eq!(StencilCompareOp::NotEqual.code(), 2);
    assert_eq!(StencilCompareOp::Always.code(), 3);
    assert_eq!(StencilLogicOp::Off.code(), 0);
    assert_eq!(StencilLogicOp::Replace.code(), 1);
    assert_eq!(StencilLogicOp::CountDepthPass.code(), 2);
    assert_eq!(StencilLogicOp::CountDepthFail.code(), 3);
    assert_eq!(StencilCompareOp::default(), StencilCompareOp::Off);
    assert_eq!(StencilLogicOp::default(), StencilLogicOp::Off);
}

#[test]
fn pipeline_flags_union_and_contains() {
    let a = PipelineFlags(PipelineFlags::NO_DEPTH_TEST);
    let b = PipelineFlags(PipelineFlags::NO_DEPTH_WRITE);
    let u = a.union(b);
    assert_eq!(u.0, 80);
    assert!(u.contains(a));
    assert!(u.contains(b));
    assert!(!a.contains(b));
    assert_eq!(PipelineFlags::empty().0, 0);
}

#[test]
fn graphics_key_is_deterministic_and_sensitive() {
    let a = GraphicsInfo::default();
    let b = GraphicsInfo::default();
    assert_eq!(a.pipeline_key(), b.pipeline_key());
    let c = GraphicsInfo::default().with_pipeline_flags(PipelineFlags(PipelineFlags::NO_DEPTH_TEST));
    assert_ne!(a.pipeline_key(), c.pipeline_key());
    let d = GraphicsInfo::default().with_stencil_reference(255);
    assert_ne!(a.pipeline_key(), d.pipeline_key());
}

#[test]
fn compute_key_hashes_specialization_values() {
    let mut a = ComputeInfo::new();
    a.add_specialization_constant_u32(SpecializationMapEntry { constant_id: 10, offset: 0, size: 4 }, 0);
    let mut b = ComputeInfo::new();
    b.add_specialization_constant_u32(SpecializationMapEntry { constant_id: 10, offset: 0, size: 4 }, 1);
    assert_ne!(a.pipeline_key(), b.pipeline_key());
    assert!(a.same_as(&b));
    assert!(a.has_specialization());
    assert!(!ComputeInfo::new().has_specialization());
}

#[test]
fn specialization_offsets_follow_the_value_bytes() {
    let mut a = ComputeInfo::new();
    a.add_specialization_constant_u32(SpecializationMapEntry { constant_id: 0, offset: 99, size: 4 }, 16);
    a.add_specialization_constant_u32(SpecializationMapEntry { constant_id: 1, offset: 99, size: 4 }, 0x0102_0304);
    assert_eq!(a.specialization_constants[0].offset, 0);
    assert_eq!(a.specialization_constants[1].offset, 4);
    assert_eq!(a.specialization_constants_values, vec![16, 0, 0, 0, 4, 3, 2, 1]);
}

#[test]
fn presentation_defaults_fill_the_target() {
    let g = GraphicsInfo::default()
        .with_pipeline_flags(PipelineFlags(PipelineFlags::STENCIL_ENABLE))
        .apply_presentation_defaults(44, 129, 7, 9);
    assert_eq!(g.fragment_shader.viewports.len(), 1);
    assert_eq!(g.fragment_shader.scissors.len(), 1);
    assert_eq!(g.fragment_out.color_attachment_formats, vec![44]);
    assert_eq!(g.fragment_out.depth_attachment_format, Some(129));
    assert_eq!(g.fragment_out.stencil_attachment_format, Some(129));
    assert_eq!(g.pipeline_layout, 7);
    assert_eq!(g.render_pass, 9);
    assert_eq!(g.subpass, 0);
}

#[test]
fn pipeline_state_follows_flags() {
    let g = GraphicsInfo::default()
        .with_vertex_in(VertexIn::default().with_topology(TOPOLOGY_TRIANGLE_STRIP))
        .with_pipeline_flags(PipelineFlags(
            PipelineFlags::CULL_BACK | PipelineFlags::INVERT_FRONT_FACE | PipelineFlags::NO_DEPTH_WRITE,
        ));
    let s = g.pipeline_state();
    assert_eq!(s.cull_mode, CullMode::Back);
    assert_eq!(s.front_face, FrontFace::Clockwise);
    assert!(s.primitive_restart);
    assert!(s.depth_test_enable);
    assert!(!s.depth_write_enable);
    assert_eq!(s.color_blend_attachment_count, 1);
    assert!(s.stencil.is_none());
    assert_eq!(s.dynamic_states[0], DynamicState::Viewport);
}

#[test]
fn pipeline_state_lists_vertex_then_fragment_stage() {
    let g = GraphicsInfo::default()
        .with_pre_rasterization(PreRasterization::default().with_vertex_module(7))
        .with_fragment_shader(FragmentShader::default().with_fragment_module(9));
    let s = g.pipeline_state();
    assert_eq!(s.shader_stages.len(), 2);
    assert_eq!((s.shader_stages[0].stage, s.shader_stages[0].module), (SHADER_STAGE_VERTEX, 7));
    assert_eq!((s.shader_stages[1].stage, s.shader_stages[1].module), (SHADER_STAGE_FRAGMENT, 9));
    assert_eq!(s.shader_stages[0].entry_point, "main");
    assert_eq!(s.shader_stages[1].entry_point, "main");
    assert_eq!(
        s.dynamic_states,
        vec![DynamicState::Viewport, DynamicState::Scissor, DynamicState::LineWidth]
    );
    assert_eq!(s.cull_mode, CullMode::Off);
    assert_eq!(s.front_face, FrontFace::CounterClockwise);
    assert!(s.depth_test_enable && s.depth_write_enable);
}

#[test]
fn pool_creates_each_pipeline_once() {
    let calls = Cell::new(0u32);
    let mut pool = PipelinePool::new(55);
    let info = GraphicsInfo::default();
    let make = |cache: u64| -> Result<u64, i32> {
        assert_eq!(cache, 55);
        calls.set(calls.get() + 1);
        Ok(1000 + calls.get() as u64)
    };
    assert_eq!(pool.get_or_create_graphics_pipeline(make, &info), Ok(1001));
    let make2 = |_cache: u64| -> Result<u64, i32> {
        calls.set(calls.get() + 1);
        Ok(2000)
    };
    assert_eq!(pool.get_or_create_graphics_pipeline(make2, &info), Ok(1001));
    assert_eq!(calls.get(), 1);
    assert_eq!(pool.get_graphics_pipeline(info.pipeline_key()), Some(1001));
    assert_eq!(pool.get_compute_pipeline(info.pipeline_key()), None);
}

#[test]
fn failed_creation_is_not_cached() {
    let mut pool = PipelinePool::new(1);
    let info = ComputeInfo::new();
    assert_eq!(pool.get_or_create_compute_pipeline(|_c: u64| Err(-3), &info), Err(-3));
    assert_eq!(pool.get_compute_pipeline(info.pipeline_key()), None);
    assert_eq!(pool.get_or_create_compute_pipeline(|_c: u64| Ok(9), &info), Ok(9));
}

#[test]
fn discard_hands_out_the_pipeline_once() {
    let discarded = RefCell::new(Vec::new());
    let mut pool = PipelinePool::new(1);
    let info = GraphicsInfo::default();
    let _ = pool.get_or_create_graphics_pipeline(|_c: u64| Ok(77), &info);
    let key = info.pipeline_key();
    assert!(pool.discard_graphics_pipeline_if_present(key, |p: u64, t: u64| discarded.borrow_mut().push((p, t)), 12));
    assert!(!pool.discard_graphics_pipeline_if_present(key, |p: u64, t: u64| discarded.borrow_mut().push((p, t)), 13));
    assert_eq!(*discarded.borrow(), vec![(77, 12)]);
    assert!(!pool.discard_compute_pipeline_if_present(PipelineKey(5), |_p: u64, _t: u64| {}, 1));
}

#[test]
fn cleanup_returns_every_pipeline_and_the_cache() {
    let mut pool = PipelinePool::new(3);
    let g = GraphicsInfo::default();
    let c = ComputeInfo::new();
    let _ = pool.get_or_create_graphics_pipeline(|_c: u64| Ok(10), &g);
    let _ = pool.get_or_create_compute_pipeline(|_c: u64| Ok(20), &c);
    let (mut all, cache) = pool.cleanup();
    all.sort();
    assert_eq!(all, vec![10, 20]);
    assert_eq!(cache, 3);
    assert_eq!(pool.get_graphics_pipeline(g.pipeline_key()), None);
}

#[test]
fn duplicate_keeps_the_key() {
    let g = GraphicsInfo::default().with_stencil_write_mask(3).apply_presentation_defaults(1, 2, 3, 4);
    assert_eq!(g.duplicate().pipeline_key(), g.pipeline_key());
}
