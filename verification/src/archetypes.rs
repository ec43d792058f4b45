//! Render archetypes: the graphics pipelines each kind of drawable is
//! rendered with, per presentation engine.
//!
//! Each archetype owns a main pipeline (and, for meshes, an outline
//! pipeline drawn with a stencil test). When the presentation target's color
//! format changes, an archetype prepares new descriptions aimed at the new
//! format and render pass; once their pipelines are compiled it commits them.
use crate::fnv::fnv1a;
use crate::pipelines::{
    spec_stencil_faces, CompareOp,
    SHADER_STAGE_VERTEX, graphics_info_bytes, FragmentShader, GraphicsInfo, PipelineFlags, PipelineKey, PipelinePool,
    PreRasterization, Rect2D, StencilCompareOp, StencilLogicOp, VertexIn, Viewport,
    POLYGON_MODE_FILL, POLYGON_MODE_LINE, TOPOLOGY_LINE_LIST, TOPOLOGY_POINT_LIST,
    TOPOLOGY_TRIANGLE_LIST, TOPOLOGY_TRIANGLE_STRIP,
};
use crate::renderpasses::SHADER_STAGE_FRAGMENT;
use vstd::prelude::*;

verus! {

/// A loaded shader: its module and the stage it was compiled for.
#[derive(Clone, Copy, Debug, PartialEq, Eq, Structural)]
pub struct LoadedShader {
    pub module: u64,
    pub stage: u32,
}

/// The modules of a vertex and a fragment shader checked for their stages.
#[derive(Clone, Copy, Debug, PartialEq, Eq, Structural)]
pub struct ValidatedShaders {
    pub vertex_module: u64,
    pub fragment_module: u64,
}

/// Why an archetype's shaders were refused.
#[derive(Clone, Copy, Debug, PartialEq, Eq, Structural)]
pub enum ShaderError {
    /// A shader is not loaded, or not of the stage it is used for.
    InvalidShader,
}

/// Checks the shaders an archetype is built from, given what looking up
/// each of its keys found: both must be loaded, the first a vertex shader
/// and the second a fragment shader.
pub fn validate_shaders(vertex: Option<LoadedShader>, fragment: Option<LoadedShader>) -> (r: Result<ValidatedShaders, ShaderError>)
    ensures
        r == (match (vertex, fragment) {
            (Some(v), Some(f)) => if v.stage == SHADER_STAGE_VERTEX && f.stage == SHADER_STAGE_FRAGMENT {
                Ok(ValidatedShaders { vertex_module: v.module, fragment_module: f.module })
            } else {
                Err(ShaderError::InvalidShader)
            },
            _ => Err(ShaderError::InvalidShader),
        }),
{
    let v = match vertex {
        Some(v) => v,
        None => {
            return Err(ShaderError::InvalidShader);
        },
    };
    if v.stage != SHADER_STAGE_VERTEX {
        return Err(ShaderError::InvalidShader);
    }
    let f = match fragment {
        Some(f) => f,
        None => {
            return Err(ShaderError::InvalidShader);
        },
    };
    if f.stage != SHADER_STAGE_FRAGMENT {
        return Err(ShaderError::InvalidShader);
    }
    Ok(ValidatedShaders { vertex_module: v.module, fragment_module: f.module })
}

/// Raw `VK_FORMAT_UNDEFINED`.
pub const FORMAT_UNDEFINED: i32 = 0;

/// Which archetype.
#[derive(Clone, Copy, Debug, PartialEq, Eq, Structural)]
pub enum ArchetypeId {
    Mesh,
    Sun,
    Sky,
    Background,
    Grid,
    Measurement,
    Marker,
    Billboard,
    Trajectory,
    Ui,
    Cursor,
    Text,
    SphereGizmo,
    Gizmo,
    Particles,
}

/// New descriptions for an archetype whose target changed.
pub struct PreparedArchetypeUpdate {
    pub main_graphics_info: GraphicsInfo,
    pub outline_graphics_info: Option<GraphicsInfo>,
}

/// Descriptions whose pipelines are compiled, with their keys.
pub struct CompiledArchetypeData {
    pub pipeline_key: PipelineKey,
    pub graphics_info: GraphicsInfo,
    pub outline_data: Option<(PipelineKey, GraphicsInfo)>,
}

/// The pipelines of one archetype: the main one, and the outline one for
/// archetypes that have it.
pub struct ArchetypeRecord {
    pub pipeline_key: PipelineKey,
    pub graphics_info: GraphicsInfo,
    pub outline: Option<(PipelineKey, GraphicsInfo)>,
}

/// Stencil settings of an archetype that writes the stencil buffer.
#[derive(Clone, Copy, Debug, PartialEq, Eq, Structural)]
pub struct StencilSettings {
    pub compare_op: StencilCompareOp,
    pub logic_op: StencilLogicOp,
    pub reference: u32,
    pub compare_mask: u32,
    pub write_mask: u32,
}

/// Fixed-function choices of an archetype's main pipeline.
#[derive(Clone, Copy, Debug, PartialEq, Eq, Structural)]
pub struct ArchetypeStyle {
    pub topology: i32,
    pub flags: u32,
    pub polygon_mode: i32,
    pub stencil: Option<StencilSettings>,
}

/// Overlay archetypes mark their pixels in the stencil buffer: always pass,
/// replace with 255.
pub open spec fn overlay_stencil() -> StencilSettings {
    StencilSettings {
        compare_op: StencilCompareOp::Off,
        logic_op: StencilLogicOp::Replace,
        reference: 255,
        compare_mask: 0,
        write_mask: u32::MAX,
    }
}

/// The fixed-function choices of each archetype.
pub open spec fn spec_archetype_style(id: ArchetypeId) -> ArchetypeStyle {
    match id {
        ArchetypeId::Mesh => ArchetypeStyle {
            topology: TOPOLOGY_POINT_LIST,
            flags: 0,
            polygon_mode: POLYGON_MODE_FILL,
            stencil: None,
        },
        ArchetypeId::Sun => ArchetypeStyle {
            topology: TOPOLOGY_TRIANGLE_STRIP,
            flags: PipelineFlags::INVERT_FRONT_FACE | PipelineFlags::NO_DEPTH_WRITE,
            polygon_mode: POLYGON_MODE_FILL,
            stencil: None,
        },
        ArchetypeId::Sky => ArchetypeStyle {
            topology: TOPOLOGY_TRIANGLE_STRIP,
            flags: PipelineFlags::NO_DEPTH_WRITE | PipelineFlags::NO_DEPTH_TEST,
            polygon_mode: POLYGON_MODE_FILL,
            stencil: None,
        },
        ArchetypeId::Background => ArchetypeStyle {
            topology: TOPOLOGY_TRIANGLE_LIST,
            flags: PipelineFlags::NO_DEPTH_WRITE | PipelineFlags::NO_DEPTH_TEST,
            polygon_mode: POLYGON_MODE_FILL,
            stencil: None,
        },
        ArchetypeId::Grid => ArchetypeStyle {
            topology: TOPOLOGY_TRIANGLE_LIST,
            flags: 0,
            polygon_mode: POLYGON_MODE_FILL,
            stencil: None,
        },
        ArchetypeId::Measurement => ArchetypeStyle {
            topology: TOPOLOGY_LINE_LIST,
            flags: PipelineFlags::NO_DEPTH_TEST | PipelineFlags::NO_DEPTH_WRITE,
            polygon_mode: POLYGON_MODE_FILL,
            stencil: Some(overlay_stencil()),
        },
        ArchetypeId::Marker => ArchetypeStyle {
            topology: TOPOLOGY_TRIANGLE_STRIP,
            flags: 0,
            polygon_mode: POLYGON_MODE_FILL,
            stencil: Some(overlay_stencil()),
        },
        ArchetypeId::Billboard => ArchetypeStyle {
            topology: TOPOLOGY_TRIANGLE_STRIP,
            flags: PipelineFlags::NO_DEPTH_TEST,
            polygon_mode: POLYGON_MODE_FILL,
            stencil: Some(overlay_stencil()),
        },
        ArchetypeId::Trajectory => ArchetypeStyle {
            topology: TOPOLOGY_TRIANGLE_STRIP,
            flags: PipelineFlags::NO_DEPTH_WRITE,
            polygon_mode: POLYGON_MODE_FILL,
            stencil: Some(overlay_stencil()),
        },
        ArchetypeId::Ui => ArchetypeStyle {
            topology: TOPOLOGY_TRIANGLE_LIST,
            flags: PipelineFlags::NO_DEPTH_WRITE | PipelineFlags::NO_DEPTH_TEST,
            polygon_mode: POLYGON_MODE_FILL,
            stencil: Some(overlay_stencil()),
        },
        ArchetypeId::Cursor => ArchetypeStyle {
            topology: TOPOLOGY_TRIANGLE_STRIP,
            flags: PipelineFlags::NO_DEPTH_TEST,
            polygon_mode: POLYGON_MODE_FILL,
            stencil: Some(overlay_stencil()),
        },
        ArchetypeId::Text => ArchetypeStyle {
            topology: TOPOLOGY_POINT_LIST,
            flags: 0,
            polygon_mode: POLYGON_MODE_FILL,
            stencil: None,
        },
        ArchetypeId::SphereGizmo => ArchetypeStyle {
            topology: TOPOLOGY_LINE_LIST,
            flags: 0,
            polygon_mode: POLYGON_MODE_LINE,
            stencil: None,
        },
        ArchetypeId::Gizmo => ArchetypeStyle {
            topology: TOPOLOGY_LINE_LIST,
            flags: PipelineFlags::NO_DEPTH_TEST | PipelineFlags::NO_DEPTH_WRITE
                | PipelineFlags::INVERT_FRONT_FACE,
            polygon_mode: POLYGON_MODE_LINE,
            stencil: None,
        },
        ArchetypeId::Particles => ArchetypeStyle {
            topology: TOPOLOGY_POINT_LIST,
            flags: PipelineFlags::NO_DEPTH_WRITE,
            polygon_mode: POLYGON_MODE_FILL,
            stencil: None,
        },
    }
}

/// See [`spec_archetype_style`].
pub fn archetype_style(id: ArchetypeId) -> (r: ArchetypeStyle)
    ensures
        r == spec_archetype_style(id),
{
    let overlay = StencilSettings {
        compare_op: StencilCompareOp::Off,
        logic_op: StencilLogicOp::Replace,
        reference: 255,
        compare_mask: 0,
        write_mask: u32::MAX,
    };
    match id {
        ArchetypeId::Mesh => ArchetypeStyle {
            topology: TOPOLOGY_POINT_LIST,
            flags: 0,
            polygon_mode: POLYGON_MODE_FILL,
            stencil: None,
        },
        ArchetypeId::Sun => ArchetypeStyle {
            topology: TOPOLOGY_TRIANGLE_STRIP,
            flags: PipelineFlags::INVERT_FRONT_FACE | PipelineFlags::NO_DEPTH_WRITE,
            polygon_mode: POLYGON_MODE_FILL,
            stencil: None,
        },
        ArchetypeId::Sky => ArchetypeStyle {
            topology: TOPOLOGY_TRIANGLE_STRIP,
            flags: PipelineFlags::NO_DEPTH_WRITE | PipelineFlags::NO_DEPTH_TEST,
            polygon_mode: POLYGON_MODE_FILL,
            stencil: None,
        },
        ArchetypeId::Background => ArchetypeStyle {
            topology: TOPOLOGY_TRIANGLE_LIST,
            flags: PipelineFlags::NO_DEPTH_WRITE | PipelineFlags::NO_DEPTH_TEST,
            polygon_mode: POLYGON_MODE_FILL,
            stencil: None,
        },
        ArchetypeId::Grid => ArchetypeStyle {
            topology: TOPOLOGY_TRIANGLE_LIST,
            flags: 0,
            polygon_mode: POLYGON_MODE_FILL,
            stencil: None,
        },
        ArchetypeId::Measurement => ArchetypeStyle {
            topology: TOPOLOGY_LINE_LIST,
            flags: PipelineFlags::NO_DEPTH_TEST | PipelineFlags::NO_DEPTH_WRITE,
            polygon_mode: POLYGON_MODE_FILL,
            stencil: Some(overlay),
        },
        ArchetypeId::Marker => ArchetypeStyle {
            topology: TOPOLOGY_TRIANGLE_STRIP,
            flags: 0,
            polygon_mode: POLYGON_MODE_FILL,
            stencil: Some(overlay),
        },
        ArchetypeId::Billboard => ArchetypeStyle {
            topology: TOPOLOGY_TRIANGLE_STRIP,
            flags: PipelineFlags::NO_DEPTH_TEST,
            polygon_mode: POLYGON_MODE_FILL,
            stencil: Some(overlay),
        },
        ArchetypeId::Trajectory => ArchetypeStyle {
            topology: TOPOLOGY_TRIANGLE_STRIP,
            flags: PipelineFlags::NO_DEPTH_WRITE,
            polygon_mode: POLYGON_MODE_FILL,
            stencil: Some(overlay),
        },
        ArchetypeId::Ui => ArchetypeStyle {
            topology: TOPOLOGY_TRIANGLE_LIST,
            flags: PipelineFlags::NO_DEPTH_WRITE | PipelineFlags::NO_DEPTH_TEST,
            polygon_mode: POLYGON_MODE_FILL,
            stencil: Some(overlay),
        },
        ArchetypeId::Cursor => ArchetypeStyle {
            topology: TOPOLOGY_TRIANGLE_STRIP,
            flags: PipelineFlags::NO_DEPTH_TEST,
            polygon_mode: POLYGON_MODE_FILL,
            stencil: Some(overlay),
        },
        ArchetypeId::Text => ArchetypeStyle {
            topology: TOPOLOGY_POINT_LIST,
            flags: 0,
            polygon_mode: POLYGON_MODE_FILL,
            stencil: None,
        },
        ArchetypeId::SphereGizmo => ArchetypeStyle {
            topology: TOPOLOGY_LINE_LIST,
            flags: 0,
            polygon_mode: POLYGON_MODE_LINE,
            stencil: None,
        },
        ArchetypeId::Gizmo => ArchetypeStyle {
            topology: TOPOLOGY_LINE_LIST,
            flags: PipelineFlags::NO_DEPTH_TEST | PipelineFlags::NO_DEPTH_WRITE
                | PipelineFlags::INVERT_FRONT_FACE,
            polygon_mode: POLYGON_MODE_LINE,
            stencil: None,
        },
        ArchetypeId::Particles => ArchetypeStyle {
            topology: TOPOLOGY_POINT_LIST,
            flags: PipelineFlags::NO_DEPTH_WRITE,
            polygon_mode: POLYGON_MODE_FILL,
            stencil: None,
        },
    }
}

/// The all-zero viewport and scissor that dynamic state overrides.
pub open spec fn ignored_viewport() -> Viewport {
    Viewport { x_bits: 0, y_bits: 0, width_bits: 0, height_bits: 0, min_depth_bits: 0, max_depth_bits: 0 }
}

/// See [`ignored_viewport`].
pub open spec fn ignored_scissor() -> Rect2D {
    Rect2D { x: 0, y: 0, width: 0, height: 0 }
}

/// `g` is the main description of archetype `id`: its shaders, its style,
/// one ignored viewport and scissor, the presentation target's color format
/// as only color attachment, the depth-stencil format as depth attachment,
/// the layout, the render pass and subpass 0; nothing else set.
pub open spec fn is_archetype_info(
    g: GraphicsInfo,
    id: ArchetypeId,
    vertex_module: u64,
    fragment_module: u64,
    color_format: i32,
    depth_format: i32,
    layout: u64,
    render_pass: u64,
) -> bool {
    let style = spec_archetype_style(id);
    &&& g.specialization_constants@.len() == 0
    &&& g.specialization_constants_values@.len() == 0
    &&& g.vertex_in.topology == style.topology
    &&& g.vertex_in.attributes@.len() == 0
    &&& g.vertex_in.bindings@.len() == 0
    &&& g.pre_rasterization.vertex_module == vertex_module
    &&& g.fragment_shader.fragment_module == fragment_module
    &&& g.fragment_shader.viewports@ == seq![ignored_viewport()]
    &&& g.fragment_shader.scissors@ == seq![ignored_scissor()]
    &&& g.fragment_out.color_attachment_formats@ == seq![color_format]
    &&& g.fragment_out.depth_attachment_format == Some(depth_format)
    &&& g.fragment_out.stencil_attachment_format is None
    &&& g.pipeline_layout == layout
    &&& g.pipeline_flags.0 == style.flags
    &&& g.render_pass == render_pass
    &&& g.subpass == 0
    &&& g.rasterization_polygon_mode == style.polygon_mode
    &&& match style.stencil {
        Some(st) => {
            &&& g.stencil_compare_op == st.compare_op
            &&& g.stencil_logic_op == st.logic_op
            &&& g.stencil_reference == st.reference
            &&& g.stencil_compare_mask == st.compare_mask
            &&& g.stencil_write_mask == st.write_mask
        },
        None => {
            &&& g.stencil_compare_op == StencilCompareOp::Off
            &&& g.stencil_logic_op == StencilLogicOp::Off
            &&& g.stencil_reference == 0
            &&& g.stencil_compare_mask == 0
            &&& g.stencil_write_mask == 0
        },
    }
}

/// The pipeline flags of each archetype's main description: the sky, the
/// background, the UI, measurements and gizmos draw with neither depth test
/// nor depth write; billboards and the cursor skip only the depth test; the
/// sun, trajectories and particles skip only the depth write; meshes, the
/// grid, markers, text and sphere gizmos keep both. The sun and gizmos also
/// invert the front face.
pub proof fn lemma_archetype_depth_flags(
    g: GraphicsInfo,
    id: ArchetypeId,
    vertex_module: u64,
    fragment_module: u64,
    color_format: i32,
    depth_format: i32,
    layout: u64,
    render_pass: u64,
)
    requires
        is_archetype_info(g, id, vertex_module, fragment_module, color_format, depth_format, layout, render_pass),
    ensures
        g.pipeline_flags.0 == match id {
            ArchetypeId::Mesh => 0u32,
            ArchetypeId::Sun => 24u32,
            ArchetypeId::Sky => 80u32,
            ArchetypeId::Background => 80u32,
            ArchetypeId::Grid => 0u32,
            ArchetypeId::Measurement => 80u32,
            ArchetypeId::Marker => 0u32,
            ArchetypeId::Billboard => 64u32,
            ArchetypeId::Trajectory => 16u32,
            ArchetypeId::Ui => 80u32,
            ArchetypeId::Cursor => 64u32,
            ArchetypeId::Text => 0u32,
            ArchetypeId::SphereGizmo => 0u32,
            ArchetypeId::Gizmo => 88u32,
            ArchetypeId::Particles => 16u32,
        },
        g.pipeline_flags.spec_contains(PipelineFlags::NO_DEPTH_TEST) <==> (id is Sky || id is Background
            || id is Measurement || id is Billboard || id is Ui || id is Cursor || id is Gizmo),
        g.pipeline_flags.spec_contains(PipelineFlags::NO_DEPTH_WRITE) <==> (id is Sun || id is Sky
            || id is Background || id is Measurement || id is Trajectory || id is Ui || id is Gizmo
            || id is Particles),
{
    assert({
        &&& 0u32 & 64u32 != 64u32 && 0u32 & 16u32 != 16u32
        &&& 16u32 & 64u32 != 64u32 && 16u32 & 16u32 == 16u32
        &&& 24u32 & 64u32 != 64u32 && 24u32 & 16u32 == 16u32
        &&& 64u32 & 64u32 == 64u32 && 64u32 & 16u32 != 16u32
        &&& 80u32 & 64u32 == 64u32 && 80u32 & 16u32 == 16u32
        &&& 88u32 & 64u32 == 64u32 && 88u32 & 16u32 == 16u32
    }) by (bit_vector);
    assert(8u32 | 16u32 == 24u32 && 16u32 | 64u32 == 80u32 && 64u32 | 16u32 == 80u32 && (64u32 | 16u32)
        | 8u32 == 88u32) by (bit_vector);
}

/// The geometry and stencil use of each archetype's main description: meshes,
/// text and particles draw points; measurements and both gizmos draw lines,
/// the gizmos as wireframe; the background, the grid and the UI draw
/// triangle lists; the rest draw triangle strips. Overlay archetypes
/// (measurements, markers, billboards, trajectories, the UI and the cursor)
/// mark their pixels with 255 in the stencil buffer, always passing; the
/// others leave the stencil settings off.
pub proof fn lemma_archetype_geometry(
    g: GraphicsInfo,
    id: ArchetypeId,
    vertex_module: u64,
    fragment_module: u64,
    color_format: i32,
    depth_format: i32,
    layout: u64,
    render_pass: u64,
)
    requires
        is_archetype_info(g, id, vertex_module, fragment_module, color_format, depth_format, layout, render_pass),
    ensures
        g.vertex_in.topology == match id {
            ArchetypeId::Mesh => 0i32,
            ArchetypeId::Sun => 4i32,
            ArchetypeId::Sky => 4i32,
            ArchetypeId::Background => 3i32,
            ArchetypeId::Grid => 3i32,
            ArchetypeId::Measurement => 1i32,
            ArchetypeId::Marker => 4i32,
            ArchetypeId::Billboard => 4i32,
            ArchetypeId::Trajectory => 4i32,
            ArchetypeId::Ui => 3i32,
            ArchetypeId::Cursor => 4i32,
            ArchetypeId::Text => 0i32,
            ArchetypeId::SphereGizmo => 1i32,
            ArchetypeId::Gizmo => 1i32,
            ArchetypeId::Particles => 0i32,
        },
        g.rasterization_polygon_mode == (if id is SphereGizmo || id is Gizmo {
            1i32
        } else {
            0i32
        }),
        (id is Measurement || id is Marker || id is Billboard || id is Trajectory || id is Ui || id is Cursor)
            ==> {
            &&& g.stencil_compare_op == StencilCompareOp::Off
            &&& g.stencil_logic_op == StencilLogicOp::Replace
            &&& g.stencil_reference == 255
            &&& g.stencil_compare_mask == 0
            &&& g.stencil_write_mask == u32::MAX
        },
        !(id is Measurement || id is Marker || id is Billboard || id is Trajectory || id is Ui || id is Cursor)
            ==> {
            &&& g.stencil_compare_op == StencilCompareOp::Off
            &&& g.stencil_logic_op == StencilLogicOp::Off
            &&& g.stencil_reference == 0
            &&& g.stencil_compare_mask == 0
            &&& g.stencil_write_mask == 0
        },
{
}

/// The main description of archetype `id` for a target with the given
/// formats, layout and render pass.
pub fn archetype_graphics_info(
    id: ArchetypeId,
    vertex_module: u64,
    fragment_module: u64,
    color_format: i32,
    depth_format: i32,
    layout: u64,
    render_pass: u64,
) -> (r: GraphicsInfo)
    ensures
        is_archetype_info(
            r,
            id,
            vertex_module,
            fragment_module,
            color_format,
            depth_format,
            layout,
            render_pass,
        ),
{
    let style = archetype_style(id);
    let fragment = FragmentShader::default().with_fragment_module(fragment_module).add_viewport(
        Viewport::zero(),
    ).add_scissors(Rect2D::zero());
    let mut g = GraphicsInfo::default().with_pre_rasterization(
        PreRasterization::default().with_vertex_module(vertex_module),
    ).with_fragment_shader(fragment).with_rasterization_polygon_mode(style.polygon_mode).with_vertex_in(
        VertexIn::default().with_topology(style.topology),
    ).with_pipeline_flags(PipelineFlags(style.flags));
    match style.stencil {
        Some(st) => {
            g =
            g.with_stencil_compare_op(st.compare_op).with_stencil_logic_op(
                st.logic_op,
            ).with_stencil_reference(st.reference).with_stencil_compare_mask(
                st.compare_mask,
            ).with_stencil_write_mask(st.write_mask);
        },
        None => {},
    }
    proof {
        assert(!g.pipeline_flags.spec_contains(PipelineFlags::STENCIL_ENABLE)) by {
            let f = style.flags;
            assert(f == 0u32 || f == 8u32 | 16u32 || f == 16u32 | 64u32 || f == 64u32 | 16u32 || f
                == 64u32 || f == 16u32 || f == 64u32 | 16u32 | 8u32);
            assert(0u32 & 32u32 == 0u32) by (bit_vector);
            assert((8u32 | 16u32) & 32u32 == 0u32) by (bit_vector);
            assert((16u32 | 64u32) & 32u32 == 0u32) by (bit_vector);
            assert((64u32 | 16u32) & 32u32 == 0u32) by (bit_vector);
            assert(64u32 & 32u32 == 0u32) by (bit_vector);
            assert(16u32 & 32u32 == 0u32) by (bit_vector);
            assert((64u32 | 16u32 | 8u32) & 32u32 == 0u32) by (bit_vector);
        }
    }
    let r = g.apply_presentation_defaults(color_format, depth_format, layout, render_pass);
    assert(r.fragment_out.color_attachment_formats@ =~= seq![color_format]);
    r
}

/// The outline description of a mesh: the main description with the
/// outline shaders, drawn where the stencil is not 255 (the mesh's own
/// pixels), without depth test or depth writes and with the front face
/// inverted.
pub open spec fn is_outline_info(
    o: GraphicsInfo,
    main: GraphicsInfo,
    vertex_module: u64,
    fragment_module: u64,
) -> bool {
    &&& o.specialization_constants@ == main.specialization_constants@
    &&& o.specialization_constants_values@ == main.specialization_constants_values@
    &&& o.vertex_in.topology == main.vertex_in.topology
    &&& o.vertex_in.attributes@ == main.vertex_in.attributes@
    &&& o.vertex_in.bindings@ == main.vertex_in.bindings@
    &&& o.pre_rasterization.vertex_module == vertex_module
    &&& o.fragment_shader.fragment_module == fragment_module
    &&& o.fragment_shader.viewports@ == seq![ignored_viewport()]
    &&& o.fragment_shader.scissors@ == seq![ignored_scissor()]
    &&& o.fragment_out.color_attachment_formats@ == main.fragment_out.color_attachment_formats@
    &&& o.fragment_out.depth_attachment_format == main.fragment_out.depth_attachment_format
    &&& o.fragment_out.stencil_attachment_format == main.fragment_out.stencil_attachment_format
    &&& o.pipeline_layout == main.pipeline_layout
    &&& o.pipeline_flags.0 == PipelineFlags::STENCIL_ENABLE | PipelineFlags::NO_DEPTH_TEST
        | PipelineFlags::NO_DEPTH_WRITE | PipelineFlags::INVERT_FRONT_FACE
    &&& o.render_pass == main.render_pass
    &&& o.subpass == main.subpass
    &&& o.rasterization_polygon_mode == POLYGON_MODE_FILL
    &&& o.stencil_compare_op == StencilCompareOp::NotEqual
    &&& o.stencil_logic_op == StencilLogicOp::Off
    &&& o.stencil_reference == 255
    &&& o.stencil_compare_mask == 255
    &&& o.stencil_write_mask == 0
}

/// The outline of a mesh is drawn only outside the mesh's own pixels: its
/// pipeline tests the stencil on both faces for "not equal to 255" through
/// a full compare mask, writes no stencil bits, and skips the depth test and
/// depth write, so it shows around the mesh and not over it.
pub proof fn lemma_outline_draws_outside_the_mesh(
    o: GraphicsInfo,
    main: GraphicsInfo,
    vertex_module: u64,
    fragment_module: u64,
)
    requires
        is_outline_info(o, main, vertex_module, fragment_module),
    ensures
        o.pipeline_flags.0 == 120u32,
        o.pipeline_flags.spec_contains(PipelineFlags::STENCIL_ENABLE),
        o.pipeline_flags.spec_contains(PipelineFlags::NO_DEPTH_TEST),
        o.pipeline_flags.spec_contains(PipelineFlags::NO_DEPTH_WRITE),
        ({
            let (front, back) = spec_stencil_faces(o);
            &&& front.compare_op == CompareOp::NotEqual && back.compare_op == CompareOp::NotEqual
            &&& front.reference == 255 && back.reference == 255
            &&& front.compare_mask == 255 && back.compare_mask == 255
            &&& front.write_mask == 0 && back.write_mask == 0
        }),
{
    assert(((32u32 | 64u32) | 16u32) | 8u32 == 120u32) by (bit_vector);
    assert({
        &&& 120u32 & 32u32 == 32u32
        &&& 120u32 & 64u32 == 64u32
        &&& 120u32 & 16u32 == 16u32
    }) by (bit_vector);
}

/// See [`is_outline_info`].
pub fn mesh_outline_graphics_info(main: &GraphicsInfo, vertex_module: u64, fragment_module: u64) -> (r:
    GraphicsInfo)
    ensures
        is_outline_info(r, *main, vertex_module, fragment_module),
{
    let fragment = FragmentShader::default().with_fragment_module(fragment_module).add_viewport(
        Viewport::zero(),
    ).add_scissors(Rect2D::zero());
    let r = main.duplicate().with_pre_rasterization(
        PreRasterization::default().with_vertex_module(vertex_module),
    ).with_fragment_shader(fragment).with_pipeline_flags(
        PipelineFlags(
            PipelineFlags::STENCIL_ENABLE | PipelineFlags::NO_DEPTH_TEST
                | PipelineFlags::NO_DEPTH_WRITE | PipelineFlags::INVERT_FRONT_FACE,
        ),
    ).with_rasterization_polygon_mode(POLYGON_MODE_FILL).with_stencil_compare_op(
        StencilCompareOp::NotEqual,
    ).with_stencil_logic_op(StencilLogicOp::Off).with_stencil_reference(255).with_stencil_compare_mask(
        255,
    ).with_stencil_write_mask(0);
    r
}

/// The description renders first to `format`.
pub open spec fn targets_format(g: GraphicsInfo, format: i32) -> bool {
    g.fragment_out.color_attachment_formats@.len() > 0 && g.fragment_out.color_attachment_formats@[0]
        == format
}

/// The description's depth format, `UNDEFINED` when it has none.
pub open spec fn depth_or_undefined(g: GraphicsInfo) -> i32 {
    match g.fragment_out.depth_attachment_format {
        Some(d) => d,
        None => FORMAT_UNDEFINED,
    }
}

/// `n` is `g` aimed at `format` only, through `render_pass`.
pub open spec fn is_retargeted(n: GraphicsInfo, g: GraphicsInfo, format: i32, render_pass: u64) -> bool {
    &&& n.same_except_target(&g)
    &&& n.fragment_out.color_attachment_formats@ == seq![format]
    &&& n.render_pass == render_pass
}

/// What one description becomes for a target format, given the render
/// pass lookup `lookup`: itself when it already targets the format, the
/// retargeted description when the lookup succeeds.
pub open spec fn is_prepared<F: FnOnce(i32, i32) -> Result<u64, i32>>(
    n: GraphicsInfo,
    g: GraphicsInfo,
    format: i32,
    lookup: F,
) -> bool {
    if targets_format(g, format) {
        n.same_contents(&g)
    } else {
        exists|rp: u64|
            #[trigger] call_ensures(lookup, (format, depth_or_undefined(g)), Ok::<u64, i32>(rp))
                && is_retargeted(n, g, format, rp)
    }
}

/// Whether the description renders first to `format`.
pub fn renders_to(g: &GraphicsInfo, format: i32) -> (r: bool)
    ensures
        r == targets_format(*g, format),
{
    g.fragment_out.color_attachment_formats.len() > 0 && g.fragment_out.color_attachment_formats[0]
        == format
}

/// The description's depth format, `UNDEFINED` when it has none.
pub fn depth_format_of(g: &GraphicsInfo) -> (r: i32)
    ensures
        r == depth_or_undefined(*g),
{
    match g.fragment_out.depth_attachment_format {
        Some(d) => d,
        None => FORMAT_UNDEFINED,
    }
}

/// A copy of `g` whose only color attachment is `format`, through
/// `render_pass`.
pub fn retarget(g: &GraphicsInfo, format: i32, render_pass: u64) -> (r: GraphicsInfo)
    ensures
        is_retargeted(r, *g, format, render_pass),
{
    let mut n = g.duplicate();
    n.fragment_out.color_attachment_formats.clear();
    n.fragment_out.color_attachment_formats.push(format);
    n.render_pass = render_pass;
    assert(n.fragment_out.color_attachment_formats@ =~= seq![format]);
    n
}

/// One description prepared for `format`: `Ok(None)` when it targets the
/// format already, else the retargeted copy or the lookup's error.
fn prepare_one<F: Fn(i32, i32) -> Result<u64, i32>>(
    g: &GraphicsInfo,
    format: i32,
    render_pass_for: &F,
) -> (r: Result<Option<GraphicsInfo>, i32>)
    requires
        forall|c: i32, d: i32| call_requires(*render_pass_for, (c, d)),
    ensures
        targets_format(*g, format) ==> r == Ok::<Option<GraphicsInfo>, i32>(None),
        !targets_format(*g, format) ==> match r {
            Ok(Some(n)) => is_prepared(n, *g, format, *render_pass_for),
            Ok(None) => false,
            Err(e) => call_ensures(
                *render_pass_for,
                (format, depth_or_undefined(*g)),
                Err::<u64, i32>(e),
            ),
        },
{
    if renders_to(g, format) {
        return Ok(None);
    }
    let depth = depth_format_of(g);
    let looked_up = render_pass_for(format, depth);
    match looked_up {
        Ok(rp) => {
            let n = retarget(g, format, rp);
            assert(call_ensures(*render_pass_for, (format, depth), Ok::<u64, i32>(rp)));
            Ok(Some(n))
        },
        Err(e) => Err(e),
    }
}

impl ArchetypeRecord {
    /// Prepares new descriptions when the target's color format is no longer
    /// the one the archetype renders to: `Ok(None)` when the main (and the
    /// outline) description target `format` already; otherwise both
    /// descriptions, each retargeted to `format` through the render pass
    /// that `render_pass_for(format, depth format)` gives, or left as it is
    /// when it targets `format` already. A failed lookup is returned.
    pub fn prepare_update<F: Fn(i32, i32) -> Result<u64, i32>>(
        &self,
        format: i32,
        render_pass_for: &F,
    ) -> (r: Result<Option<PreparedArchetypeUpdate>, i32>)
        requires
            forall|c: i32, d: i32| call_requires(*render_pass_for, (c, d)),
        ensures
            ({
                let main_ok = targets_format(self.graphics_info, format);
                let outline_ok = match self.outline {
                    Some(o) => targets_format(o.1, format),
                    None => true,
                };
                match r {
                    Ok(None) => main_ok && outline_ok,
                    Ok(Some(u)) => {
                        &&& !(main_ok && outline_ok)
                        &&& is_prepared(u.main_graphics_info, self.graphics_info, format, *render_pass_for)
                        &&& match self.outline {
                            Some(o) => match u.outline_graphics_info {
                                Some(n) => is_prepared(n, o.1, format, *render_pass_for),
                                None => false,
                            },
                            None => u.outline_graphics_info is None,
                        }
                    },
                    Err(e) => {
                        ||| (!main_ok && call_ensures(
                            *render_pass_for,
                            (format, depth_or_undefined(self.graphics_info)),
                            Err::<u64, i32>(e),
                        ))
                        ||| (match self.outline {
                            Some(o) => !targets_format(o.1, format) && call_ensures(
                                *render_pass_for,
                                (format, depth_or_undefined(o.1)),
                                Err::<u64, i32>(e),
                            ),
                            None => false,
                        })
                    },
                }
            }),
    {
        let main = prepare_one(&self.graphics_info, format, render_pass_for);
        let main_info = match main {
            Err(e) => {
                return Err(e);
            },
            Ok(m) => m,
        };
        match &self.outline {
            None => match main_info {
                None => Ok(None),
                Some(n) => Ok(Some(PreparedArchetypeUpdate { main_graphics_info: n, outline_graphics_info: None })),
            },
            Some(o) => {
                let outline = prepare_one(&o.1, format, render_pass_for);
                let outline_info = match outline {
                    Err(e) => {
                        return Err(e);
                    },
                    Ok(x) => x,
                };
                if main_info.is_none() && outline_info.is_none() {
                    return Ok(None);
                }
                let m = match main_info {
                    Some(n) => n,
                    None => self.graphics_info.duplicate(),
                };
                let l = match outline_info {
                    Some(n) => n,
                    None => o.1.duplicate(),
                };
                Ok(Some(PreparedArchetypeUpdate { main_graphics_info: m, outline_graphics_info: Some(l) }))
            },
        }
    }

    /// Takes compiled descriptions: the main key and description always; the
    /// outline ones when the archetype has an outline and data for it came.
    pub fn commit_update(&mut self, data: CompiledArchetypeData)
        ensures
            final(self).pipeline_key == data.pipeline_key,
            final(self).graphics_info == data.graphics_info,
            final(self).outline == (match (old(self).outline, data.outline_data) {
                (Some(_), Some(d)) => Some(d),
                (o, _) => o,
            }),
    {
        self.pipeline_key = data.pipeline_key;
        self.graphics_info = data.graphics_info;
        if self.outline.is_some() {
            match data.outline_data {
                Some(d) => {
                    self.outline = Some(d);
                },
                None => {},
            }
        }
    }
}

/// Why an archetype could not be created.
#[derive(Clone, Copy, Debug, PartialEq, Eq, Structural)]
pub enum ArchetypeError {
    /// The presentation engine has this archetype already.
    AlreadyRegistered,
    /// The render pass lookup failed with this `VkResult`.
    RenderPass(i32),
    /// Creating a pipeline failed with this `VkResult`.
    Pipeline(i32),
}

/// Shader modules of a mesh's outline pipeline.
#[derive(Clone, Copy, Debug, PartialEq, Eq, Structural)]
pub struct OutlineShaders {
    pub vertex_module: u64,
    pub fragment_module: u64,
}

/// Shader modules of an archetype; meshes also have outline shaders.
#[derive(Clone, Copy, Debug, PartialEq, Eq, Structural)]
pub struct ArchetypeShaders {
    pub vertex_module: u64,
    pub fragment_module: u64,
    pub outline: Option<OutlineShaders>,
}

/// One registered archetype.
pub struct ArchetypeEntry {
    id: ArchetypeId,
    record: ArchetypeRecord,
}

/// The archetypes of a presentation engine.
pub struct Archetypes {
    entries: Vec<ArchetypeEntry>,
}

/// The order in which a presentation engine's archetypes are initialized.
pub open spec fn init_order() -> Seq<ArchetypeId> {
    seq![
        ArchetypeId::Mesh,
        ArchetypeId::Sun,
        ArchetypeId::Sky,
        ArchetypeId::Background,
        ArchetypeId::Grid,
        ArchetypeId::Measurement,
        ArchetypeId::Marker,
        ArchetypeId::Billboard,
        ArchetypeId::Trajectory,
        ArchetypeId::Ui,
        ArchetypeId::Cursor,
        ArchetypeId::Text,
        ArchetypeId::SphereGizmo,
        ArchetypeId::Gizmo,
        ArchetypeId::Particles,
    ]
}

/// See [`init_order`].
pub fn archetype_init_order() -> (r: Vec<ArchetypeId>)
    ensures
        r@ == init_order(),
{
    let r = vec![
        ArchetypeId::Mesh,
        ArchetypeId::Sun,
        ArchetypeId::Sky,
        ArchetypeId::Background,
        ArchetypeId::Grid,
        ArchetypeId::Measurement,
        ArchetypeId::Marker,
        ArchetypeId::Billboard,
        ArchetypeId::Trajectory,
        ArchetypeId::Ui,
        ArchetypeId::Cursor,
        ArchetypeId::Text,
        ArchetypeId::SphereGizmo,
        ArchetypeId::Gizmo,
        ArchetypeId::Particles,
    ];
    assert(r@ =~= init_order());
    r
}

/// The records of a registry, in registration order.
pub closed spec fn entry_records(s: Seq<ArchetypeEntry>) -> Seq<ArchetypeRecord> {
    s.map_values(|e: ArchetypeEntry| e.record)
}

/// The ids of a registry, in registration order.
pub closed spec fn entry_ids(s: Seq<ArchetypeEntry>) -> Seq<ArchetypeId> {
    s.map_values(|e: ArchetypeEntry| e.id)
}

/// The record of the main pipeline created for archetype `id` with a
/// target's formats, layout and the render pass `rp`, and its key; for a
/// mesh also the outline.
pub open spec fn is_created_record(
    rec: ArchetypeRecord,
    id: ArchetypeId,
    shaders: ArchetypeShaders,
    color_format: i32,
    depth_format: i32,
    layout: u64,
    rp: u64,
) -> bool {
    &&& is_archetype_info(
        rec.graphics_info,
        id,
        shaders.vertex_module,
        shaders.fragment_module,
        color_format,
        depth_format,
        layout,
        rp,
    )
    &&& rec.pipeline_key.0 == fnv1a(graphics_info_bytes(rec.graphics_info))
    &&& match shaders.outline {
        Some(os) => match rec.outline {
            Some((k, o)) => is_outline_info(o, rec.graphics_info, os.vertex_module, os.fragment_module) && k.0 == fnv1a(
                graphics_info_bytes(o),
            ),
            None => false,
        },
        None => rec.outline is None,
    }
}

/// The cache key of a description.
pub open spec fn key_of(g: GraphicsInfo) -> u64 {
    fnv1a(graphics_info_bytes(g))
}

/// `u` is what preparing record `o` for `format` gives, with the render
/// pass lookup `lookup`: nothing when the record targets `format` already,
/// otherwise its descriptions prepared for `format`.
pub open spec fn is_update_for<F: FnOnce(i32, i32) -> Result<u64, i32>>(
    u: Option<PreparedArchetypeUpdate>,
    o: ArchetypeRecord,
    format: i32,
    lookup: F,
) -> bool {
    let main_ok = targets_format(o.graphics_info, format);
    let outline_ok = match o.outline {
        Some(x) => targets_format(x.1, format),
        None => true,
    };
    match u {
        None => main_ok && outline_ok,
        Some(u) => {
            &&& !(main_ok && outline_ok)
            &&& is_prepared(u.main_graphics_info, o.graphics_info, format, lookup)
            &&& match o.outline {
                Some(x) => match u.outline_graphics_info {
                    Some(n) => is_prepared(n, x.1, format, lookup),
                    None => false,
                },
                None => u.outline_graphics_info is None,
            }
        },
    }
}

/// Whether the pipelines of update `u` are in the pipeline map `graphics`.
pub open spec fn update_compiled(u: Option<PreparedArchetypeUpdate>, graphics: Map<u64, u64>) -> bool {
    match u {
        None => true,
        Some(u) => {
            &&& graphics.contains_key(key_of(u.main_graphics_info))
            &&& match u.outline_graphics_info {
                Some(n) => graphics.contains_key(key_of(n)),
                None => true,
            }
        },
    }
}

/// Record `o` once update `u` is committed.
pub open spec fn applied(o: ArchetypeRecord, u: Option<PreparedArchetypeUpdate>) -> ArchetypeRecord {
    match u {
        None => o,
        Some(u) => ArchetypeRecord {
            pipeline_key: PipelineKey(key_of(u.main_graphics_info)),
            graphics_info: u.main_graphics_info,
            outline: match (o.outline, u.outline_graphics_info) {
                (Some(_), Some(n)) => Some((PipelineKey(key_of(n)), n)),
                (x, _) => x,
            },
        },
    }
}

/// The render pass lookup `lookup` can fail with `e` for `format`.
pub open spec fn lookup_fails<F: FnOnce(i32, i32) -> Result<u64, i32>>(lookup: F, format: i32, e: i32) -> bool {
    exists|d: i32| #[trigger] call_ensures(lookup, (format, d), Err::<u64, i32>(e))
}

/// The pipeline creation `make` can fail with `e`.
pub open spec fn creation_fails<M: Fn(u64, &GraphicsInfo) -> Result<u64, i32>>(make: M, e: i32) -> bool {
    exists|c: u64, g: &GraphicsInfo| #[trigger] call_ensures(make, (c, g), Err::<u64, i32>(e))
}

/// Record `n` is record `o` aimed at `format`: the update that preparing
/// `o` gives, with its pipelines in `graphics`, committed.
pub open spec fn is_retargeted_record<F: FnOnce(i32, i32) -> Result<u64, i32>>(
    n: ArchetypeRecord,
    o: ArchetypeRecord,
    format: i32,
    lookup: F,
    graphics: Map<u64, u64>,
) -> bool {
    exists|u: Option<PreparedArchetypeUpdate>|
        #[trigger] is_update_for(u, o, format, lookup) && update_compiled(u, graphics) && n == applied(o, u)
}

/// Once an archetype is aimed at a format, aiming it at the same format
/// again prepares nothing, whatever the render pass lookup: a second resize
/// to the same format compiles no pipeline.
pub proof fn lemma_retarget_settles<F: FnOnce(i32, i32) -> Result<u64, i32>, G: FnOnce(i32, i32) -> Result<u64, i32>>(
    n: ArchetypeRecord,
    o: ArchetypeRecord,
    format: i32,
    lookup: F,
    graphics: Map<u64, u64>,
    again: G,
)
    requires
        is_retargeted_record(n, o, format, lookup, graphics),
    ensures
        is_update_for(None, n, format, again),
{
    let u = choose|u: Option<PreparedArchetypeUpdate>|
        #[trigger] is_update_for(u, o, format, lookup) && update_compiled(u, graphics) && n == applied(o, u);
    match u {
        None => {},
        Some(p) => {
            if targets_format(o.graphics_info, format) {
                assert(p.main_graphics_info.fragment_out.color_attachment_formats@ == o.graphics_info.fragment_out.color_attachment_formats@);
            } else {
                let rp = choose|rp: u64|
                    #[trigger] call_ensures(lookup, (format, depth_or_undefined(o.graphics_info)), Ok::<u64, i32>(rp))
                        && is_retargeted(p.main_graphics_info, o.graphics_info, format, rp);
                assert(p.main_graphics_info.fragment_out.color_attachment_formats@[0] == format);
            }
            match o.outline {
                Some(x) => {
                    let m = p.outline_graphics_info->0;
                    if targets_format(x.1, format) {
                        assert(m.fragment_out.color_attachment_formats@ == x.1.fragment_out.color_attachment_formats@);
                    } else {
                        let rp = choose|rp: u64|
                            #[trigger] call_ensures(lookup, (format, depth_or_undefined(x.1)), Ok::<u64, i32>(rp))
                                && is_retargeted(m, x.1, format, rp);
                        assert(m.fragment_out.color_attachment_formats@[0] == format);
                    }
                },
                None => {},
            }
        },
    }
}

/// Takes the pipeline of `info` from `pool`, or creates it there with
/// `make_pipeline`.
fn compile_into<M: Fn(u64, &GraphicsInfo) -> Result<u64, i32>>(
    pool: &mut PipelinePool,
    info: &GraphicsInfo,
    make_pipeline: &M,
) -> (r: Result<(), i32>)
    requires
        forall|c: u64, g: &GraphicsInfo| call_requires(*make_pipeline, (c, g)),
    ensures
        final(pool).cache() == old(pool).cache(),
        final(pool).computes() == old(pool).computes(),
        forall|k: u64| old(pool).graphics().contains_key(k) ==> #[trigger] final(pool).graphics().contains_key(k),
        r is Ok ==> final(pool).graphics().contains_key(key_of(*info)),
        r matches Err(e) ==> call_ensures(*make_pipeline, (old(pool).cache(), info), Err::<u64, i32>(e)),
{
    let create = |cache: u64| -> (res: Result<u64, i32>)
        requires
            call_requires(*make_pipeline, (cache, info)),
        ensures
            call_ensures(*make_pipeline, (cache, info), res),
        { make_pipeline(cache, info) };
    match pool.get_or_create_graphics_pipeline(create, info) {
        Ok(_) => Ok(()),
        Err(e) => {
            proof {
                let c = old(pool).cache();
                assert(call_ensures(create, (c,), Err::<u64, i32>(e)));
                assert(call_ensures(*make_pipeline, (c, info), Err::<u64, i32>(e)));
            }
            Err(e)
        },
    }
}

/// The compiled form of a prepared update: each description with its key.
fn compiled_data(u: PreparedArchetypeUpdate) -> (r: CompiledArchetypeData)
    ensures
        r.pipeline_key.0 == key_of(u.main_graphics_info),
        r.graphics_info == u.main_graphics_info,
        r.outline_data == (match u.outline_graphics_info {
            Some(n) => Some((PipelineKey(key_of(n)), n)),
            None => None,
        }),
{
    let pipeline_key = u.main_graphics_info.pipeline_key();
    let outline_data = match u.outline_graphics_info {
        Some(n) => {
            let k = n.pipeline_key();
            Some((k, n))
        },
        None => None,
    };
    CompiledArchetypeData { pipeline_key, graphics_info: u.main_graphics_info, outline_data }
}

impl Archetypes {
    /// Registered ids, in registration order.
    pub closed spec fn ids(&self) -> Seq<ArchetypeId> {
        entry_ids(self.entries@)
    }

    /// Registered records, in registration order.
    pub closed spec fn records(&self) -> Seq<ArchetypeRecord> {
        entry_records(self.entries@)
    }

    /// No archetype is registered twice.
    pub closed spec fn wf(&self) -> bool {
        self.ids().no_duplicates()
    }

    /// No archetypes.
    pub fn new() -> (r: Self)
        ensures
            r.wf(),
            r.ids() == Seq::<ArchetypeId>::empty(),
            r.records() == Seq::<ArchetypeRecord>::empty(),
    {
        let r = Archetypes { entries: Vec::new() };
        assert(r.ids() =~= Seq::<ArchetypeId>::empty());
        assert(r.records() =~= Seq::<ArchetypeRecord>::empty());
        r
    }

    /// Whether any archetype holds pipelines to discard.
    pub fn has_discardables(&self) -> (r: bool)
        ensures
            r == (self.ids().len() > 0),
    {
        self.entries.len() > 0
    }

    fn index_of(&self, id: ArchetypeId) -> (r: Option<usize>)
        ensures
            r is None ==> !self.ids().contains(id),
            r matches Some(i) ==> i < self.ids().len() && self.ids()[i as int] == id,
    {
        let mut i: usize = 0;
        while i < self.entries.len()
            invariant
                0 <= i <= self.entries@.len(),
                forall|j: int| 0 <= j < i ==> self.ids()[j] != id,
            decreases self.entries@.len() - i,
        {
            if self.entries[i].id == id {
                return Some(i);
            }
            i = i + 1;
        }
        None
    }

    /// Whether `id` is registered.
    pub fn contains(&self, id: ArchetypeId) -> (r: bool)
        ensures
            r == self.ids().contains(id),
    {
        self.index_of(id).is_some()
    }

    /// The record of `id`, if registered.
    pub fn get(&self, id: ArchetypeId) -> (r: Option<&ArchetypeRecord>)
        requires
            self.wf(),
        ensures
            r is Some == self.ids().contains(id),
            r matches Some(x) ==> *x == self.records()[self.ids().index_of(id)],
    {
        match self.index_of(id) {
            Some(i) => {
                assert(self.ids().index_of(id) == i) by {
                    let j = self.ids().index_of(id);
                    assert(self.ids()[j] == id);
                }
                Some(&self.entries[i].record)
            },
            None => None,
        }
    }

    /// The main pipeline key of `id`, or its outline key when `outline` is
    /// asked; `None` when `id` is not registered or has no outline.
    pub fn pipeline_key(&self, id: ArchetypeId, outline: bool) -> (r: Option<PipelineKey>)
        requires
            self.wf(),
        ensures
            !self.ids().contains(id) ==> r is None,
            self.ids().contains(id) ==> ({
                let rec = self.records()[self.ids().index_of(id)];
                r == (if outline {
                    match rec.outline {
                        Some(o) => Some(o.0),
                        None => None,
                    }
                } else {
                    Some(rec.pipeline_key)
                })
            }),
    {
        match self.get(id) {
            Some(rec) => {
                if outline {
                    match &rec.outline {
                        Some(o) => Some(o.0),
                        None => None,
                    }
                } else {
                    Some(rec.pipeline_key)
                }
            },
            None => None,
        }
    }

    /// The archetypes not registered yet, in initialization order.
    pub fn missing_in_init_order(&self) -> (r: Vec<ArchetypeId>)
        ensures
            r@ == init_order().filter(|id: ArchetypeId| !self.ids().contains(id)),
    {
        let order = archetype_init_order();
        let mut out: Vec<ArchetypeId> = Vec::new();
        let mut i: usize = 0;
        while i < order.len()
            invariant
                order@ == init_order(),
                0 <= i <= order@.len(),
                out@ == order@.subrange(0, i as int).filter(
                    |id: ArchetypeId| !self.ids().contains(id),
                ),
            decreases order@.len() - i,
        {
            let id = order[i];
            proof {
                let pred = |id: ArchetypeId| !self.ids().contains(id);
                assert(order@.subrange(0, i + 1) =~= order@.subrange(0, i as int).push(id));
                order@.subrange(0, i as int).lemma_filter_push(id, pred);
            }
            if !self.contains(id) {
                out.push(id);
            }
            i = i + 1;
        }
        assert(order@.subrange(0, order@.len() as int) =~= order@);
        out
    }

    /// Registers `record` under `id`; refused when `id` is registered.
    pub fn register(&mut self, id: ArchetypeId, record: ArchetypeRecord) -> (r: Result<(), ArchetypeError>)
        requires
            old(self).wf(),
        ensures
            final(self).wf(),
            r is Err == old(self).ids().contains(id),
            r is Err ==> r == Err::<(), ArchetypeError>(ArchetypeError::AlreadyRegistered)
                && final(self).ids() == old(self).ids() && final(self).records() == old(self).records(),
            r is Ok ==> final(self).ids() == old(self).ids().push(id) && final(self).records()
                == old(self).records().push(record),
    {
        if self.contains(id) {
            return Err(ArchetypeError::AlreadyRegistered);
        }
        let ghost before = self.entries@;
        self.entries.push(ArchetypeEntry { id, record });
        proof {
            assert(self.ids() =~= old(self).ids().push(id));
            assert(self.records() =~= old(self).records().push(record));
            assert forall|a: int, b: int|
                0 <= a < self.ids().len() && 0 <= b < self.ids().len() && a != b implies self.ids()[a]
                != self.ids()[b] by {
                if a < before.len() && b < before.len() {
                    assert(old(self).ids()[a] != old(self).ids()[b]);
                } else if a < before.len() {
                    assert(old(self).ids().contains(old(self).ids()[a]));
                } else if b < before.len() {
                    assert(old(self).ids().contains(old(self).ids()[b]));
                }
            }
        }
        Ok(())
    }

    /// Takes out every archetype for its pipelines to be discarded; the
    /// registry is empty afterwards.
    pub fn discard(&mut self) -> (r: Vec<ArchetypeRecord>)
        ensures
            final(self).wf(),
            final(self).ids() == Seq::<ArchetypeId>::empty(),
            r@ == old(self).records(),
    {
        let mut out: Vec<ArchetypeRecord> = Vec::new();
        let ghost orig = self.entries@;
        while self.entries.len() > 0
            invariant
                out@ + entry_records(self.entries@) == entry_records(orig),
            decreases self.entries@.len(),
        {
            let ghost cur = self.entries@;
            let e = self.entries.remove(0);
            proof {
                assert(entry_records(cur) =~= seq![e.record] + entry_records(self.entries@));
                assert(out@.push(e.record) + entry_records(self.entries@) =~= out@ + entry_records(cur));
            }
            out.push(e.record);
        }
        assert(entry_records(self.entries@) =~= Seq::<ArchetypeRecord>::empty());
        assert(out@ =~= entry_records(orig));
        assert(self.ids() =~= Seq::<ArchetypeId>::empty());
        out
    }

    /// Creates archetype `id` for a presentation target: refused when `id`
    /// is registered; otherwise the render pass for the target's formats is
    /// looked up, the archetype's description built, its pipeline taken from
    /// (or created into) `pool` with `make_pipeline`, and for a mesh the
    /// outline pipeline likewise; then the archetype is registered. Any
    /// failure is returned and leaves the registry unchanged.
    pub fn create_archetype<F: FnOnce(i32, i32) -> Result<u64, i32>, M: Fn(u64, &GraphicsInfo) -> Result<u64, i32>>(
        &mut self,
        pool: &mut PipelinePool,
        id: ArchetypeId,
        shaders: ArchetypeShaders,
        color_format: i32,
        depth_format: i32,
        layout: u64,
        render_pass_for: F,
        make_pipeline: &M,
    ) -> (r: Result<(), ArchetypeError>)
        requires
            old(self).wf(),
            call_requires(render_pass_for, (color_format, depth_format)),
            forall|c: u64, g: &GraphicsInfo| call_requires(*make_pipeline, (c, g)),
            shaders.outline is Some <==> id == ArchetypeId::Mesh,
        ensures
            final(self).wf(),
            final(pool).cache() == old(pool).cache(),
            final(pool).computes() == old(pool).computes(),
            (r == Err::<(), ArchetypeError>(ArchetypeError::AlreadyRegistered)) == old(self).ids().contains(id),
            r matches Err(ArchetypeError::RenderPass(e)) ==> call_ensures(
                render_pass_for,
                (color_format, depth_format),
                Err::<u64, i32>(e),
            ),
            r matches Err(ArchetypeError::Pipeline(e)) ==> creation_fails(*make_pipeline, e),
            r is Err ==> final(self).ids() == old(self).ids() && final(self).records() == old(self).records(),
            r is Ok ==> {
                &&& final(self).ids() == old(self).ids().push(id)
                &&& final(self).records().len() == old(self).records().len() + 1
                &&& final(self).records().drop_last() == old(self).records()
                &&& exists|rp: u64|
                    #[trigger] call_ensures(render_pass_for, (color_format, depth_format), Ok::<u64, i32>(rp))
                        && is_created_record(
                        final(self).records().last(),
                        id,
                        shaders,
                        color_format,
                        depth_format,
                        layout,
                        rp,
                    )
                &&& final(pool).graphics().contains_key(final(self).records().last().pipeline_key.0)
                &&& match final(self).records().last().outline {
                    Some(o) => final(pool).graphics().contains_key(o.0.0),
                    None => true,
                }
            },
    {
        if self.contains(id) {
            return Err(ArchetypeError::AlreadyRegistered);
        }
        let looked_up = render_pass_for(color_format, depth_format);
        let rp = match looked_up {
            Ok(rp) => rp,
            Err(e) => {
                return Err(ArchetypeError::RenderPass(e));
            },
        };
        let main = archetype_graphics_info(
            id,
            shaders.vertex_module,
            shaders.fragment_module,
            color_format,
            depth_format,
            layout,
            rp,
        );
        let main_key = main.pipeline_key();
        {
            let info_ref = &main;
            let create = |cache: u64| -> (res: Result<u64, i32>)
                requires
                    call_requires(*make_pipeline, (cache, info_ref)),
                ensures
                    call_ensures(*make_pipeline, (cache, info_ref), res),
                { make_pipeline(cache, info_ref) };
            let ghost c0 = pool.cache();
            match pool.get_or_create_graphics_pipeline(create, info_ref) {
                Ok(_) => {},
                Err(e) => {
                    assert(creation_fails(*make_pipeline, e)) by {
                        assert(call_ensures(*make_pipeline, (c0, info_ref), Err::<u64, i32>(e)));
                    }
                    return Err(ArchetypeError::Pipeline(e));
                },
            }
        }
        let ghost pool_after_main = pool.graphics();
        let outline = match shaders.outline {
            Some(os) => {
                let o = mesh_outline_graphics_info(&main, os.vertex_module, os.fragment_module);
                let o_key = o.pipeline_key();
                {
                    let info_ref = &o;
                    let create = |cache: u64| -> (res: Result<u64, i32>)
                        requires
                            call_requires(*make_pipeline, (cache, info_ref)),
                        ensures
                            call_ensures(*make_pipeline, (cache, info_ref), res),
                        { make_pipeline(cache, info_ref) };
                    let ghost c1 = pool.cache();
                    match pool.get_or_create_graphics_pipeline(create, info_ref) {
                        Ok(_) => {},
                        Err(e) => {
                            assert(creation_fails(*make_pipeline, e)) by {
                                assert(call_ensures(*make_pipeline, (c1, info_ref), Err::<u64, i32>(e)));
                            }
                            return Err(ArchetypeError::Pipeline(e));
                        },
                    }
                }
                Some((o_key, o))
            },
            None => None,
        };
        let record = ArchetypeRecord { pipeline_key: main_key, graphics_info: main, outline };
        proof {
            assert(call_ensures(render_pass_for, (color_format, depth_format), Ok::<u64, i32>(rp)));
        }
        let res = self.register(id, record);
        proof {
            assert(self.records().last() == record);
            assert(self.records().drop_last() =~= old(self).records());
        }
        res
    }

    /// Every archetype's update for `format`, in registration order; the
    /// first failed render pass lookup is returned.
    fn prepare_all<F: Fn(i32, i32) -> Result<u64, i32>>(&self, format: i32, render_pass_for: &F) -> (r: Result<
        Vec<Option<PreparedArchetypeUpdate>>,
        i32,
    >)
        requires
            forall|c: i32, d: i32| call_requires(*render_pass_for, (c, d)),
        ensures
            r matches Ok(u) ==> u@.len() == self.records().len() && forall|j: int|
                0 <= j < u@.len() ==> is_update_for(#[trigger] u@[j], self.records()[j], format, *render_pass_for),
            r matches Err(e) ==> lookup_fails(*render_pass_for, format, e),
    {
        let ghost recs = self.records();
        let mut updates: Vec<Option<PreparedArchetypeUpdate>> = Vec::new();
        let mut i: usize = 0;
        while i < self.entries.len()
            invariant
                recs == entry_records(self.entries@),
                i <= self.entries@.len(),
                updates@.len() == i,
                forall|c: i32, d: i32| call_requires(*render_pass_for, (c, d)),
                forall|j: int| 0 <= j < i ==> is_update_for(#[trigger] updates@[j], recs[j], format, *render_pass_for),
            decreases self.entries@.len() - i,
        {
            let prepared = self.entries[i].record.prepare_update(format, render_pass_for);
            let ghost o = self.entries@[i as int].record;
            assert(recs[i as int] == o);
            match prepared {
                Err(e) => {
                    proof {
                        if !targets_format(o.graphics_info, format) && call_ensures(
                            *render_pass_for,
                            (format, depth_or_undefined(o.graphics_info)),
                            Err::<u64, i32>(e),
                        ) {
                        } else {
                            let x = o.outline->0;
                            assert(call_ensures(*render_pass_for, (format, depth_or_undefined(x.1)), Err::<u64, i32>(e)));
                        }
                        assert(lookup_fails(*render_pass_for, format, e));
                    }
                    return Err(e);
                },
                Ok(u) => {
                    updates.push(u);
                },
            }
            i = i + 1;
        }
        Ok(updates)
    }

    /// Commits `updates` in registration order.
    #[verifier::spinoff_prover]
    #[verifier::rlimit(50)]
    fn commit_all(&mut self, updates: Vec<Option<PreparedArchetypeUpdate>>)
        requires
            updates@.len() == old(self).records().len(),
        ensures
            final(self).ids() == old(self).ids(),
            final(self).records().len() == old(self).records().len(),
            forall|j: int|
                0 <= j < updates@.len() ==> #[trigger] final(self).records()[j] == applied(old(self).records()[j], updates@[j]),
    {
        let ghost e0 = self.entries@;
        let ghost u0 = updates@;
        let mut rest: Vec<ArchetypeEntry> = Vec::new();
        std::mem::swap(&mut rest, &mut self.entries);
        let n = rest.len();
        let mut ups = updates;
        let mut m: usize = 0;
        while rest.len() > 0
            invariant
                m + rest@.len() == e0.len(),
                u0.len() == e0.len(),
                e0.len() == n,
                rest@ == e0.skip(m as int),
                ups@ == u0.skip(m as int),
                self.entries@.len() == m,
                forall|j: int| 0 <= j < m ==> #[trigger] self.entries@[j].id == e0[j].id,
                forall|j: int| 0 <= j < m ==> #[trigger] self.entries@[j].record == applied(e0[j].record, u0[j]),
            decreases rest@.len(),
        {
            let mut e = rest.remove(0);
            let u = ups.remove(0);
            proof {
                assert(e == e0[m as int]);
                assert(u == u0[m as int]);
                assert(rest@ =~= e0.skip(m + 1 as int));
                assert(ups@ =~= u0.skip(m + 1 as int));
            }
            match u {
                None => {},
                Some(u) => {
                    let data = compiled_data(u);
                    e.record.commit_update(data);
                },
            }
            self.entries.push(e);
            m = m + 1;
        }
        assert(entry_ids(self.entries@) =~= entry_ids(e0));
    }

    /// Aims every archetype at a new presentation format, as a swapchain
    /// resize asks: each archetype prepares its update (a failed render
    /// pass lookup is returned), then the pipelines of every update are
    /// taken from or created into `pool` (a failed creation is returned),
    /// and only then are all updates committed. On any failure no record
    /// changes.
    #[verifier::spinoff_prover]
    #[verifier::rlimit(50)]
    pub fn retarget_all<F: Fn(i32, i32) -> Result<u64, i32>, M: Fn(u64, &GraphicsInfo) -> Result<u64, i32>>(
        &mut self,
        pool: &mut PipelinePool,
        format: i32,
        render_pass_for: &F,
        make_pipeline: &M,
    ) -> (r: Result<(), ArchetypeError>)
        requires
            old(self).wf(),
            forall|c: i32, d: i32| call_requires(*render_pass_for, (c, d)),
            forall|c: u64, g: &GraphicsInfo| call_requires(*make_pipeline, (c, g)),
        ensures
            final(self).wf(),
            final(self).ids() == old(self).ids(),
            final(pool).cache() == old(pool).cache(),
            final(pool).computes() == old(pool).computes(),
            r is Err ==> final(self).records() == old(self).records(),
            r matches Err(ArchetypeError::RenderPass(e)) ==> lookup_fails(*render_pass_for, format, e),
            r matches Err(ArchetypeError::Pipeline(e)) ==> creation_fails(*make_pipeline, e),
            !(r matches Err(ArchetypeError::AlreadyRegistered)),
            r is Ok ==> final(self).records().len() == old(self).records().len(),
            r is Ok ==> forall|i: int|
                0 <= i < old(self).records().len() ==> is_retargeted_record(
                    #[trigger] final(self).records()[i],
                    old(self).records()[i],
                    format,
                    *render_pass_for,
                    final(pool).graphics(),
                ),
    {
        let updates = match self.prepare_all(format, render_pass_for) {
            Err(e) => {
                return Err(ArchetypeError::RenderPass(e));
            },
            Ok(u) => u,
        };
        let ghost u0 = updates@;
        let mut k: usize = 0;
        while k < updates.len()
            invariant
                updates@ == u0,
                k <= u0.len(),
                self.entries@ == old(self).entries@,
                old(self).wf(),
                pool.cache() == old(pool).cache(),
                pool.computes() == old(pool).computes(),
                forall|c: u64, g: &GraphicsInfo| call_requires(*make_pipeline, (c, g)),
                forall|j: int| 0 <= j < k ==> update_compiled(#[trigger] u0[j], pool.graphics()),
            decreases u0.len() - k,
        {
            match &updates[k] {
                None => {},
                Some(u) => {
                    let ghost before = pool.graphics();
                    let ghost c = pool.cache();
                    match compile_into(pool, &u.main_graphics_info, make_pipeline) {
                        Ok(()) => {},
                        Err(e) => {
                            assert(creation_fails(*make_pipeline, e)) by {
                                assert(call_ensures(*make_pipeline, (c, &u.main_graphics_info), Err::<u64, i32>(e)));
                            }
                            return Err(ArchetypeError::Pipeline(e));
                        },
                    }
                    match &u.outline_graphics_info {
                        None => {},
                        Some(n) => match compile_into(pool, n, make_pipeline) {
                            Ok(()) => {},
                            Err(e) => {
                                assert(creation_fails(*make_pipeline, e)) by {
                                    assert(call_ensures(*make_pipeline, (c, n), Err::<u64, i32>(e)));
                                }
                                return Err(ArchetypeError::Pipeline(e));
                            },
                        },
                    }
                    proof {
                        assert forall|j: int| 0 <= j < k implies update_compiled(#[trigger] u0[j], pool.graphics()) by {
                            assert(update_compiled(u0[j], before));
                        }
                    }
                },
            }
            k = k + 1;
        }
        let ghost recs = self.records();
        let ghost g1 = pool.graphics();
        self.commit_all(updates);
        proof {
            assert forall|i: int| 0 <= i < recs.len() implies is_retargeted_record(
                #[trigger] self.records()[i],
                recs[i],
                format,
                *render_pass_for,
                g1,
            ) by {
                assert(is_update_for(u0[i], recs[i], format, *render_pass_for));
                assert(update_compiled(u0[i], g1));
            }
        }
        Ok(())
    }
}

} // verus!
