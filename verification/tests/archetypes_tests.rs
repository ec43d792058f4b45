use aethervk_device::archetypes::{
    archetype_graphics_info, archetype_init_order, mesh_outline_graphics_info, ArchetypeError,
    ArchetypeId, ArchetypeRecord, ArchetypeShaders, Archetypes, CompiledArchetypeData,
    OutlineShaders, PreparedArchetypeUpdate, validate_shaders, LoadedShader, ShaderError,
    ValidatedShaders,
};
use aethervk_device::pipelines::{
    GraphicsInfo, PipelineKey, PipelinePool, StencilCompareOp, StencilLogicOp, POLYGON_MODE_LINE,
    TOPOLOGY_TRIANGLE_STRIP,
};
use std::cell::Cell;

fn record_for(format: i32) -> ArchetypeRecord {
    let g = archetype_graphics_info(ArchetypeId::Sun, 1, 2, format, 129, 3, 4);
    ArchetypeRecord { pipeline_key: g.pipeline_key(), graphics_info: g, outline: None }
}

#[test]
fn sun_description() {
    let g = archetype_graphics_info(ArchetypeId::Sun, 11, 12, 44, 129, 5, 6);
    assert_eq!(g.vertex_in.topology, TOPOLOGY_TRIANGLE_STRIP);
    assert_eq!(g.pipeline_flags.0, 8 | 16);
    assert_eq!(g.pre_rasterization.vertex_module, 11);
    assert_eq!(g.fragment_shader.fragment_module, 12);
    assert_eq!(g.fragment_out.color_attachment_formats, vec![44]);
    assert_eq!(g.fragment_out.depth_attachment_format, Some(129));
    assert_eq!(g.fragment_out.stencil_attachment_format, None);
    assert_eq!(g.pipeline_layout, 5);
    assert_eq!(g.render_pass, 6);
    assert_eq!(g.fragment_shader.viewports.len(), 1);
    assert_eq!(g.stencil_compare_op, StencilCompareOp::Off);
}

#[test]
fn overlay_archetypes_mark_the_stencil() {
    let g = archetype_graphics_info(ArchetypeId::Trajectory, 1, 2, 44, 129, 5, 6);
    assert_eq!(g.stencil_logic_op, StencilLogicOp::Replace);
    assert_eq!(g.stencil_reference, 255);
    assert_eq!(g.stencil_compare_mask, 0);
    assert_eq!(g.stencil_write_mask, u32::MAX);
    let s = archetype_graphics_info(ArchetypeId::SphereGizmo, 1, 2, 44, 129, 5, 6);
    assert_eq!(s.rasterization_polygon_mode, POLYGON_MODE_LINE);
    assert_eq!(s.pipeline_flags.0, 0);
}

#[test]
fn outline_is_drawn_outside_the_mesh_stencil() {
    let main = archetype_graphics_info(ArchetypeId::Mesh, 1, 2, 44, 129, 5, 6);
    let o = mesh_outline_graphics_info(&main, 21, 22);
    assert_eq!(o.pre_rasterization.vertex_module, 21);
    assert_eq!(o.fragment_shader.fragment_module, 22);
    assert_eq!(o.pipeline_flags.0, 32 | 64 | 16 | 8);
    assert_eq!(o.stencil_compare_op, StencilCompareOp::NotEqual);
    assert_eq!(o.stencil_reference, 255);
    assert_eq!(o.stencil_compare_mask, 255);
    assert_eq!(o.stencil_write_mask, 0);
    assert_eq!(o.render_pass, 6);
    assert_ne!(o.pipeline_key(), main.pipeline_key());
}

#[test]
fn same_format_needs_no_update() {
    let r = record_for(44);
    let lookups = Cell::new(0);
    let lookup = |_c: i32, _d: i32| -> Result<u64, i32> {
        lookups.set(lookups.get() + 1);
        Ok(99)
    };
    assert!(matches!(r.prepare_update(44, &lookup), Ok(None)));
    assert_eq!(lookups.get(), 0);
}

#[test]
fn new_format_retargets_the_description() {
    let r = record_for(44);
    let lookup = |c: i32, d: i32| -> Result<u64, i32> {
        assert_eq!((c, d), (50, 129));
        Ok(99)
    };
    let u: PreparedArchetypeUpdate = r.prepare_update(50, &lookup).unwrap().unwrap();
    assert_eq!(u.main_graphics_info.fragment_out.color_attachment_formats, vec![50]);
    assert_eq!(u.main_graphics_info.render_pass, 99);
    assert_eq!(u.main_graphics_info.pipeline_flags, r.graphics_info.pipeline_flags);
    assert!(u.outline_graphics_info.is_none());
}

#[test]
fn failed_lookup_is_returned() {
    let r = record_for(44);
    let lookup = |_c: i32, _d: i32| -> Result<u64, i32> { Err(-4) };
    assert!(matches!(r.prepare_update(50, &lookup), Err(-4)));
}

#[test]
fn commit_takes_the_compiled_description() {
    let mut r = record_for(44);
    let g = archetype_graphics_info(ArchetypeId::Sun, 1, 2, 50, 129, 3, 8);
    let key = g.pipeline_key();
    r.commit_update(CompiledArchetypeData { pipeline_key: key, graphics_info: g, outline_data: None });
    assert_eq!(r.pipeline_key, key);
    assert_eq!(r.graphics_info.render_pass, 8);
}

#[test]
fn registry_refuses_duplicates_and_reports_missing() {
    let mut a = Archetypes::new();
    assert!(!a.has_discardables());
    assert_eq!(a.register(ArchetypeId::Sun, record_for(44)), Ok(()));
    assert_eq!(a.register(ArchetypeId::Sun, record_for(44)), Err(ArchetypeError::AlreadyRegistered));
    assert!(a.has_discardables());
    assert!(a.contains(ArchetypeId::Sun));
    let missing = a.missing_in_init_order();
    assert_eq!(missing.len(), 14);
    assert_eq!(missing[0], ArchetypeId::Mesh);
    assert_eq!(missing[1], ArchetypeId::Sky);
    assert_eq!(archetype_init_order().len(), 15);
    assert_eq!(a.pipeline_key(ArchetypeId::Sun, false), Some(record_for(44).pipeline_key));
    assert_eq!(a.pipeline_key(ArchetypeId::Sun, true), None);
    assert_eq!(a.pipeline_key(ArchetypeId::Sky, false), None);
    let gone = a.discard();
    assert_eq!(gone.len(), 1);
    assert!(!a.has_discardables());
}

#[test]
fn create_archetype_builds_caches_and_registers() {
    let mut a = Archetypes::new();
    let mut pool = PipelinePool::new(7);
    let made = Cell::new(0u64);
    let make = |_cache: u64, _g: &GraphicsInfo| -> Result<u64, i32> {
        made.set(made.get() + 1);
        Ok(500 + made.get())
    };
    let shaders = ArchetypeShaders { vertex_module: 1, fragment_module: 2, outline: None };
    let r = a.create_archetype(&mut pool, ArchetypeId::Grid, shaders, 44, 129, 3, |_c: i32, _d: i32| Ok(6), &make);
    assert_eq!(r, Ok(()));
    assert_eq!(made.get(), 1);
    let key = a.pipeline_key(ArchetypeId::Grid, false).unwrap();
    assert_eq!(pool.get_graphics_pipeline(key), Some(501));
    let again = a.create_archetype(&mut pool, ArchetypeId::Grid, shaders, 44, 129, 3, |_c: i32, _d: i32| Ok(6), &make);
    assert_eq!(again, Err(ArchetypeError::AlreadyRegistered));
    assert_eq!(made.get(), 1);
}

#[test]
fn mesh_archetype_gets_an_outline_pipeline() {
    let mut a = Archetypes::new();
    let mut pool = PipelinePool::new(7);
    let made = Cell::new(0u64);
    let make = |_cache: u64, _g: &GraphicsInfo| -> Result<u64, i32> {
        made.set(made.get() + 1);
        Ok(made.get())
    };
    let shaders = ArchetypeShaders {
        vertex_module: 1,
        fragment_module: 2,
        outline: Some(OutlineShaders { vertex_module: 3, fragment_module: 4 }),
    };
    let r = a.create_archetype(&mut pool, ArchetypeId::Mesh, shaders, 44, 129, 3, |_c: i32, _d: i32| Ok(6), &make);
    assert_eq!(r, Ok(()));
    assert_eq!(made.get(), 2);
    let outline = a.pipeline_key(ArchetypeId::Mesh, true).unwrap();
    assert!(pool.get_graphics_pipeline(outline).is_some());
    let _ = PipelineKey(0);
}

#[test]
fn failures_leave_the_registry_unchanged() {
    let mut a = Archetypes::new();
    let mut pool = PipelinePool::new(7);
    let shaders = ArchetypeShaders { vertex_module: 1, fragment_module: 2, outline: None };
    let make_ok = |_cache: u64, _g: &GraphicsInfo| -> Result<u64, i32> { Ok(1) };
    let r = a.create_archetype(&mut pool, ArchetypeId::Ui, shaders, 44, 129, 3, |_c: i32, _d: i32| Err(-2), &make_ok);
    assert_eq!(r, Err(ArchetypeError::RenderPass(-2)));
    let make_err = |_cache: u64, _g: &GraphicsInfo| -> Result<u64, i32> { Err(-7) };
    let r2 = a.create_archetype(&mut pool, ArchetypeId::Ui, shaders, 44, 129, 3, |_c: i32, _d: i32| Ok(5), &make_err);
    assert_eq!(r2, Err(ArchetypeError::Pipeline(-7)));
    assert!(!a.contains(ArchetypeId::Ui));
}

fn two_archetypes(pool: &mut PipelinePool) -> Archetypes {
    let mut a = Archetypes::new();
    let make = |_cache: u64, _g: &GraphicsInfo| -> Result<u64, i32> { Ok(1) };
    let plain = ArchetypeShaders { vertex_module: 1, fragment_module: 2, outline: None };
    let mesh = ArchetypeShaders {
        vertex_module: 1,
        fragment_module: 2,
        outline: Some(OutlineShaders { vertex_module: 3, fragment_module: 4 }),
    };
    assert_eq!(a.create_archetype(pool, ArchetypeId::Mesh, mesh, 44, 129, 3, |_c: i32, _d: i32| Ok(6), &make), Ok(()));
    assert_eq!(a.create_archetype(pool, ArchetypeId::Grid, plain, 44, 129, 3, |_c: i32, _d: i32| Ok(6), &make), Ok(()));
    a
}

#[test]
fn resize_retargets_every_archetype_and_compiles_its_pipelines() {
    let mut pool = PipelinePool::new(7);
    let mut a = two_archetypes(&mut pool);
    let made = Cell::new(0u64);
    let make = |_cache: u64, _g: &GraphicsInfo| -> Result<u64, i32> {
        made.set(made.get() + 1);
        Ok(900 + made.get())
    };
    let r = a.retarget_all(&mut pool, 50, &|c: i32, _d: i32| if c == 50 { Ok(8) } else { Err(-1) }, &make);
    assert_eq!(r, Ok(()));
    assert_eq!(made.get(), 3);
    let mesh = a.get(ArchetypeId::Mesh).unwrap();
    assert_eq!(mesh.graphics_info.fragment_out.color_attachment_formats, vec![50]);
    assert_eq!(mesh.graphics_info.render_pass, 8);
    let outline = mesh.outline.as_ref().unwrap();
    assert_eq!(outline.1.fragment_out.color_attachment_formats, vec![50]);
    assert!(pool.get_graphics_pipeline(outline.0).is_some());
    let grid_key = a.pipeline_key(ArchetypeId::Grid, false).unwrap();
    assert!(pool.get_graphics_pipeline(grid_key).is_some());
    let again = a.retarget_all(&mut pool, 50, &|_c: i32, _d: i32| Err(-1), &make);
    assert_eq!(again, Ok(()));
    assert_eq!(made.get(), 3);
}

#[test]
fn failed_resize_changes_no_archetype() {
    let mut pool = PipelinePool::new(7);
    let mut a = two_archetypes(&mut pool);
    let before = a.pipeline_key(ArchetypeId::Mesh, false).unwrap();
    let make_err = |_cache: u64, _g: &GraphicsInfo| -> Result<u64, i32> { Err(-9) };
    let r = a.retarget_all(&mut pool, 50, &|_c: i32, _d: i32| Ok(8), &make_err);
    assert_eq!(r, Err(ArchetypeError::Pipeline(-9)));
    assert_eq!(a.pipeline_key(ArchetypeId::Mesh, false).unwrap(), before);
    let make_ok = |_cache: u64, _g: &GraphicsInfo| -> Result<u64, i32> { Ok(1) };
    let r2 = a.retarget_all(&mut pool, 50, &|_c: i32, _d: i32| Err(-4), &make_ok);
    assert_eq!(r2, Err(ArchetypeError::RenderPass(-4)));
    let g = &a.get(ArchetypeId::Grid).unwrap().graphics_info;
    assert_eq!(g.fragment_out.color_attachment_formats, vec![44]);
}

#[test]
fn shaders_are_checked_for_their_stages() {
    let vs = LoadedShader { module: 3, stage: 0x1 };
    let fs = LoadedShader { module: 4, stage: 0x10 };
    assert_eq!(
        validate_shaders(Some(vs), Some(fs)),
        Ok(ValidatedShaders { vertex_module: 3, fragment_module: 4 })
    );
    assert_eq!(validate_shaders(Some(fs), Some(fs)), Err(ShaderError::InvalidShader));
    assert_eq!(validate_shaders(Some(vs), Some(vs)), Err(ShaderError::InvalidShader));
    assert_eq!(validate_shaders(None, Some(fs)), Err(ShaderError::InvalidShader));
    assert_eq!(validate_shaders(Some(vs), None), Err(ShaderError::InvalidShader));
}

#[test]
fn failed_pipeline_creation_reports_the_driver_error() {
    let mut archetypes = Archetypes::new();
    let mut pool = PipelinePool::new(1);
    let shaders = ArchetypeShaders { vertex_module: 1, fragment_module: 2, outline: None };
    let make = |_c: u64, _g: &GraphicsInfo| -> Result<u64, i32> { Err(-3) };
    let r = archetypes.create_archetype(
        &mut pool,
        ArchetypeId::Grid,
        shaders,
        44,
        130,
        9,
        |_c: i32, _d: i32| -> Result<u64, i32> { Ok(77) },
        &make,
    );
    assert_eq!(r, Err(ArchetypeError::Pipeline(-3)));
    assert!(!archetypes.contains(ArchetypeId::Grid));
}
