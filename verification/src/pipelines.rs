//! Descriptions of compute and graphics pipelines, their cache keys, the
//! fixed-function state a graphics description implies, and the pipeline
//! cache.
//!
//! Vulkan handles are raw `u64` values and Vulkan enums their raw `i32`
//! values; floating-point viewport fields are carried as their IEEE-754 bits.
use crate::fnv::{
    fnv1a, fnv_bytes, le_bytes_i32, le_bytes_u32, le_bytes_u64, le_bytes_usize, lemma_fnv_append,
    lemma_fnv_empty, lemma_le_bytes_i32_injective, lemma_le_bytes_u32_injective,
    lemma_le_bytes_u64_injective, FnvState, FNV_OFFSET_BASIS,
};
use crate::renderpasses::SHADER_STAGE_FRAGMENT;
use vstd::prelude::*;

verus! {

/// Raw `VkPrimitiveTopology` values.
pub const TOPOLOGY_POINT_LIST: i32 = 0;
pub const TOPOLOGY_LINE_LIST: i32 = 1;
pub const TOPOLOGY_LINE_STRIP: i32 = 2;
pub const TOPOLOGY_TRIANGLE_LIST: i32 = 3;
pub const TOPOLOGY_TRIANGLE_STRIP: i32 = 4;
pub const TOPOLOGY_LINE_LIST_WITH_ADJACENCY: i32 = 6;
pub const TOPOLOGY_LINE_STRIP_WITH_ADJACENCY: i32 = 7;
pub const TOPOLOGY_TRIANGLE_STRIP_WITH_ADJACENCY: i32 = 9;

/// Raw `VkPolygonMode::LINE`.
pub const POLYGON_MODE_LINE: i32 = 1;

/// Raw `VkPolygonMode::FILL`.
pub const POLYGON_MODE_FILL: i32 = 0;

/// Cache key of a pipeline description.
#[derive(Clone, Copy, Debug, PartialEq, Eq, Structural)]
pub struct PipelineKey(pub u64);

/// Fixed-function switches of a graphics pipeline.
#[derive(Clone, Copy, Debug, PartialEq, Eq, Structural)]
pub struct PipelineFlags(pub u32);

impl PipelineFlags {
    pub const DEPTH_BIAS: u32 = 1u32;
    pub const CULL_FRONT: u32 = 2u32;
    pub const CULL_BACK: u32 = 4u32;
    pub const CULL_ALL: u32 = 6u32;
    pub const INVERT_FRONT_FACE: u32 = 8u32;
    pub const NO_DEPTH_WRITE: u32 = 16u32;
    pub const STENCIL_ENABLE: u32 = 32u32;
    pub const NO_DEPTH_TEST: u32 = 64u32;
    pub const NO_LINE_DYNAMIC_STATE: u32 = 128u32;

    /// No switch set.
    pub fn empty() -> (r: Self)
        ensures
            r.0 == 0,
    {
        PipelineFlags(0)
    }

    /// Every bit of `bits` is set.
    pub open spec fn spec_contains(self, bits: u32) -> bool {
        self.0 & bits == bits
    }

    /// Every bit of `other` is set in `self`.
    pub fn contains(&self, other: PipelineFlags) -> (r: bool)
        ensures
            r == self.spec_contains(other.0),
    {
        self.0 & other.0 == other.0
    }

    /// Bits set in either.
    pub fn union(self, other: PipelineFlags) -> (r: PipelineFlags)
        ensures
            r.0 == self.0 | other.0,
    {
        PipelineFlags(self.0 | other.0)
    }
}

/// How the stencil value is compared.
#[derive(Clone, Copy, Debug, PartialEq, Eq, Structural)]
pub enum StencilCompareOp {
    Off,
    Equal,
    NotEqual,
    Always,
}

impl StencilCompareOp {
    /// The discriminant, as `repr(u32)` gives it.
    pub open spec fn spec_code(self) -> u32 {
        match self {
            StencilCompareOp::Off => 0,
            StencilCompareOp::Equal => 1,
            StencilCompareOp::NotEqual => 2,
            StencilCompareOp::Always => 3,
        }
    }

    /// The discriminant.
    pub fn code(&self) -> (r: u32)
        ensures
            r == self.spec_code(),
    {
        match self {
            StencilCompareOp::Off => 0,
            StencilCompareOp::Equal => 1,
            StencilCompareOp::NotEqual => 2,
            StencilCompareOp::Always => 3,
        }
    }
}

impl Default for StencilCompareOp {
    fn default() -> (r: Self)
        ensures
            r == StencilCompareOp::Off,
    {
        StencilCompareOp::Off
    }
}

/// What a passing or failing stencil test writes.
#[derive(Clone, Copy, Debug, PartialEq, Eq, Structural)]
pub enum StencilLogicOp {
    /// Keep, on both faces.
    Off,
    /// Replace on pass (visibility masks, object identification).
    Replace,
    /// Depth-pass shadow volume counting: decrement on front, increment on back.
    CountDepthPass,
    /// Depth-fail (Carmack's reverse) counting: increment on front, decrement on back.
    CountDepthFail,
}

impl StencilLogicOp {
    /// The discriminant, as `repr(u32)` gives it.
    pub open spec fn spec_code(self) -> u32 {
        match self {
            StencilLogicOp::Off => 0,
            StencilLogicOp::Replace => 1,
            StencilLogicOp::CountDepthPass => 2,
            StencilLogicOp::CountDepthFail => 3,
        }
    }

    /// The discriminant.
    pub fn code(&self) -> (r: u32)
        ensures
            r == self.spec_code(),
    {
        match self {
            StencilLogicOp::Off => 0,
            StencilLogicOp::Replace => 1,
            StencilLogicOp::CountDepthPass => 2,
            StencilLogicOp::CountDepthFail => 3,
        }
    }
}

impl Default for StencilLogicOp {
    fn default() -> (r: Self)
        ensures
            r == StencilLogicOp::Off,
    {
        StencilLogicOp::Off
    }
}

/// `VkSpecializationMapEntry`.
#[derive(Clone, Copy, Debug, PartialEq, Eq, Structural)]
pub struct SpecializationMapEntry {
    pub constant_id: u32,
    pub offset: u32,
    pub size: usize,
}

/// `VkVertexInputAttributeDescription`.
#[derive(Clone, Copy, Debug, PartialEq, Eq, Structural)]
pub struct VertexInputAttributeDescription {
    pub location: u32,
    pub binding: u32,
    pub format: i32,
    pub offset: u32,
}

/// `VkVertexInputBindingDescription`.
#[derive(Clone, Copy, Debug, PartialEq, Eq, Structural)]
pub struct VertexInputBindingDescription {
    pub binding: u32,
    pub stride: u32,
    pub input_rate: i32,
}

/// `VkViewport`, each float carried as its bits.
#[derive(Clone, Copy, Debug, PartialEq, Eq, Structural)]
pub struct Viewport {
    pub x_bits: u32,
    pub y_bits: u32,
    pub width_bits: u32,
    pub height_bits: u32,
    pub min_depth_bits: u32,
    pub max_depth_bits: u32,
}

impl Viewport {
    /// The all-zero viewport (`VkViewport::default()`).
    pub fn zero() -> (r: Self)
        ensures
            r == (Viewport {
                x_bits: 0,
                y_bits: 0,
                width_bits: 0,
                height_bits: 0,
                min_depth_bits: 0,
                max_depth_bits: 0,
            }),
    {
        Viewport {
            x_bits: 0,
            y_bits: 0,
            width_bits: 0,
            height_bits: 0,
            min_depth_bits: 0,
            max_depth_bits: 0,
        }
    }
}

/// `VkRect2D`.
#[derive(Clone, Copy, Debug, PartialEq, Eq, Structural)]
pub struct Rect2D {
    pub x: i32,
    pub y: i32,
    pub width: u32,
    pub height: u32,
}

impl Rect2D {
    /// The all-zero rectangle (`VkRect2D::default()`).
    pub fn zero() -> (r: Self)
        ensures
            r == (Rect2D { x: 0, y: 0, width: 0, height: 0 }),
    {
        Rect2D { x: 0, y: 0, width: 0, height: 0 }
    }
}

/// Two specialization entries describe the same constant slot.
pub open spec fn spec_entry_eq(a: SpecializationMapEntry, b: SpecializationMapEntry) -> bool {
    a.size == b.size && a.offset == b.offset && a.constant_id == b.constant_id
}

/// Description of a compute pipeline.
pub struct ComputeInfo {
    pub shader_module: u64,
    pub pipeline_layout: u64,
    pub specialization_constants: Vec<SpecializationMapEntry>,
    pub specialization_constants_values: Vec<u8>,
}

impl ComputeInfo {
    /// No module, no layout, no specialization constants.
    pub fn new() -> (r: Self)
        ensures
            r.shader_module == 0,
            r.pipeline_layout == 0,
            r.specialization_constants@ == Seq::<SpecializationMapEntry>::empty(),
            r.specialization_constants_values@ == Seq::<u8>::empty(),
    {
        ComputeInfo {
            shader_module: 0,
            pipeline_layout: 0,
            specialization_constants: Vec::with_capacity(8),
            specialization_constants_values: Vec::with_capacity(64),
        }
    }

    /// Sets the shader module.
    pub fn with_shader_module(&mut self, shader_module: u64) -> (r: &mut Self)
        ensures
            r.shader_module == shader_module,
            r.pipeline_layout == old(self).pipeline_layout,
            r.specialization_constants == old(self).specialization_constants,
            r.specialization_constants_values == old(self).specialization_constants_values,
            *final(self) == *final(r),
    {
        self.shader_module = shader_module;
        self
    }

    /// Sets the pipeline layout.
    pub fn with_pipeline_layout(&mut self, pipeline_layout: u64) -> (r: &mut Self)
        ensures
            r.pipeline_layout == pipeline_layout,
            r.shader_module == old(self).shader_module,
            r.specialization_constants == old(self).specialization_constants,
            r.specialization_constants_values == old(self).specialization_constants_values,
            *final(self) == *final(r),
    {
        self.pipeline_layout = pipeline_layout;
        self
    }

    /// Appends a 4-byte specialization constant: the entry's offset becomes
    /// the current length of the value bytes (as `u32`), and `value` is
    /// appended in little-endian order.
    pub fn add_specialization_constant_u32(
        &mut self,
        constant: SpecializationMapEntry,
        value: u32,
    ) -> (r: &mut Self)
        requires
            old(self).specialization_constants_values@.len() + 4 <= usize::MAX,
        ensures
            r.shader_module == old(self).shader_module,
            r.pipeline_layout == old(self).pipeline_layout,
            r.specialization_constants@ == old(self).specialization_constants@.push(
                SpecializationMapEntry {
                    offset: old(self).specialization_constants_values@.len() as u32,
                    ..constant
                },
            ),
            r.specialization_constants_values@ == old(self).specialization_constants_values@ + le_bytes_u32(value),
            *final(self) == *final(r),
    {
        let mut constant = constant;
        constant.offset = self.specialization_constants_values.len() as u32;
        self.specialization_constants.push(constant);
        self.specialization_constants_values.push((value & 0xff) as u8);
        self.specialization_constants_values.push(((value >> 8u32) & 0xff) as u8);
        self.specialization_constants_values.push(((value >> 16u32) & 0xff) as u8);
        self.specialization_constants_values.push(((value >> 24u32) & 0xff) as u8);
        proof {
            let old_vals = old(self).specialization_constants_values@;
            assert(self.specialization_constants_values@ =~= old_vals + le_bytes_u32(value));
        }
        self
    }

    /// Equality used by the cache: same module, same layout, same number of
    /// specialization entries and the same entries. The value bytes are not
    /// compared.
    pub open spec fn spec_eq(&self, other: &Self) -> bool {
        &&& self.shader_module == other.shader_module
        &&& self.pipeline_layout == other.pipeline_layout
        &&& self.specialization_constants@.len() == other.specialization_constants@.len()
        &&& forall|i: int|
            0 <= i < self.specialization_constants@.len() ==> spec_entry_eq(
                #[trigger] self.specialization_constants@[i],
                other.specialization_constants@[i],
            )
    }

    /// See [`ComputeInfo::spec_eq`].
    pub fn same_as(&self, other: &Self) -> (r: bool)
        ensures
            r == self.spec_eq(other),
    {
        if !(self.shader_module == other.shader_module && self.pipeline_layout
            == other.pipeline_layout && self.specialization_constants.len()
            == other.specialization_constants.len()) {
            return false;
        }
        let n = self.specialization_constants.len();
        let mut i: usize = 0;
        while i < n
            invariant
                n == self.specialization_constants@.len(),
                n == other.specialization_constants@.len(),
                0 <= i <= n,
                forall|j: int|
                    0 <= j < i ==> spec_entry_eq(
                        #[trigger] self.specialization_constants@[j],
                        other.specialization_constants@[j],
                    ),
            decreases n - i,
        {
            let a = self.specialization_constants[i];
            let b = other.specialization_constants[i];
            if !(a.size == b.size && a.offset == b.offset && a.constant_id == b.constant_id) {
                return false;
            }
            i = i + 1;
        }
        true
    }
}

impl Default for ComputeInfo {
    fn default() -> (r: Self)
        ensures
            r.shader_module == 0,
            r.pipeline_layout == 0,
            r.specialization_constants@ == Seq::<SpecializationMapEntry>::empty(),
            r.specialization_constants_values@ == Seq::<u8>::empty(),
    {
        ComputeInfo::new()
    }
}

/// Vertex input: topology, attributes and bindings.
#[derive(Clone)]
pub struct VertexIn {
    pub topology: i32,
    pub attributes: Vec<VertexInputAttributeDescription>,
    pub bindings: Vec<VertexInputBindingDescription>,
}

impl Default for VertexIn {
    fn default() -> (r: Self)
        ensures
            r.topology == 0,
            r.attributes@ == Seq::<VertexInputAttributeDescription>::empty(),
            r.bindings@ == Seq::<VertexInputBindingDescription>::empty(),
    {
        VertexIn { topology: 0, attributes: Vec::with_capacity(8), bindings: Vec::with_capacity(8) }
    }
}

impl VertexIn {
    /// Sets the primitive topology.
    pub fn with_topology(self, topology: i32) -> (r: Self)
        ensures
            r.topology == topology,
            r.attributes == self.attributes,
            r.bindings == self.bindings,
    {
        let mut s = self;
        s.topology = topology;
        s
    }

    /// Appends an attribute description.
    pub fn add_attribute(self, binding: u32, location: u32, format: i32, offset: u32) -> (r: Self)
        ensures
            r.topology == self.topology,
            r.attributes@ == self.attributes@.push(
                VertexInputAttributeDescription { location, binding, format, offset },
            ),
            r.bindings == self.bindings,
    {
        let mut s = self;
        s.attributes.push(VertexInputAttributeDescription { location, binding, format, offset });
        s
    }

    /// Appends a binding description.
    pub fn add_binding(self, binding: u32, stride: u32, input_rate: i32) -> (r: Self)
        ensures
            r.topology == self.topology,
            r.attributes == self.attributes,
            r.bindings@ == self.bindings@.push(
                VertexInputBindingDescription { binding, stride, input_rate },
            ),
    {
        let mut s = self;
        s.bindings.push(VertexInputBindingDescription { binding, stride, input_rate });
        s
    }

    /// Same topology, and attributes and bindings equal pairwise over the
    /// shorter of the two lists (lengths are not compared).
    pub open spec fn spec_eq(&self, other: &Self) -> bool {
        &&& self.topology == other.topology
        &&& forall|i: int|
            0 <= i < self.attributes@.len() && i < other.attributes@.len() ==> #[trigger] self.attributes@[i]
                == other.attributes@[i]
        &&& forall|i: int|
            0 <= i < self.bindings@.len() && i < other.bindings@.len() ==> #[trigger] self.bindings@[i]
                == other.bindings@[i]
    }

    /// See [`VertexIn::spec_eq`].
    pub fn same_as(&self, other: &Self) -> (r: bool)
        ensures
            r == self.spec_eq(other),
    {
        if self.topology != other.topology {
            return false;
        }
        let na = if self.attributes.len() < other.attributes.len() {
            self.attributes.len()
        } else {
            other.attributes.len()
        };
        let mut i: usize = 0;
        while i < na
            invariant
                na <= self.attributes@.len(),
                na <= other.attributes@.len(),
                na == self.attributes@.len() || na == other.attributes@.len(),
                0 <= i <= na,
                forall|j: int| 0 <= j < i ==> #[trigger] self.attributes@[j] == other.attributes@[j],
            decreases na - i,
        {
            if self.attributes[i] != other.attributes[i] {
                return false;
            }
            i = i + 1;
        }
        let nb = if self.bindings.len() < other.bindings.len() {
            self.bindings.len()
        } else {
            other.bindings.len()
        };
        let mut j: usize = 0;
        while j < nb
            invariant
                nb <= self.bindings@.len(),
                nb <= other.bindings@.len(),
                nb == self.bindings@.len() || nb == other.bindings@.len(),
                0 <= j <= nb,
                forall|k: int| 0 <= k < j ==> #[trigger] self.bindings@[k] == other.bindings@[k],
            decreases nb - j,
        {
            if self.bindings[j] != other.bindings[j] {
                return false;
            }
            j = j + 1;
        }
        true
    }
}

/// Pre-rasterization stages: the vertex shader module.
#[derive(Clone, Copy, Debug, PartialEq, Eq, Structural)]
pub struct PreRasterization {
    pub vertex_module: u64,
}

impl Default for PreRasterization {
    fn default() -> (r: Self)
        ensures
            r.vertex_module == 0,
    {
        PreRasterization { vertex_module: 0 }
    }
}

impl PreRasterization {
    /// Sets the vertex shader module.
    pub fn with_vertex_module(self, vertex_module: u64) -> (r: Self)
        ensures
            r.vertex_module == vertex_module,
    {
        PreRasterization { vertex_module }
    }
}

/// Fragment stage: module, viewports and scissors.
#[derive(Clone)]
pub struct FragmentShader {
    pub fragment_module: u64,
    pub viewports: Vec<Viewport>,
    pub scissors: Vec<Rect2D>,
}

impl Default for FragmentShader {
    fn default() -> (r: Self)
        ensures
            r.fragment_module == 0,
            r.viewports@ == Seq::<Viewport>::empty(),
            r.scissors@ == Seq::<Rect2D>::empty(),
    {
        FragmentShader {
            fragment_module: 0,
            viewports: Vec::with_capacity(8),
            scissors: Vec::with_capacity(8),
        }
    }
}

impl FragmentShader {
    /// Sets the fragment shader module.
    pub fn with_fragment_module(self, fragment_module: u64) -> (r: Self)
        ensures
            r.fragment_module == fragment_module,
            r.viewports == self.viewports,
            r.scissors == self.scissors,
    {
        let mut s = self;
        s.fragment_module = fragment_module;
        s
    }

    /// Appends a viewport.
    pub fn add_viewport(self, viewport: Viewport) -> (r: Self)
        ensures
            r.fragment_module == self.fragment_module,
            r.viewports@ == self.viewports@.push(viewport),
            r.scissors == self.scissors,
    {
        let mut s = self;
        s.viewports.push(viewport);
        s
    }

    /// Appends a scissor rectangle.
    pub fn add_scissors(self, scissors: Rect2D) -> (r: Self)
        ensures
            r.fragment_module == self.fragment_module,
            r.viewports == self.viewports,
            r.scissors@ == self.scissors@.push(scissors),
    {
        let mut s = self;
        s.scissors.push(scissors);
        s
    }

    /// Same module and the same numbers of viewports and scissors.
    pub open spec fn spec_eq(&self, other: &Self) -> bool {
        &&& self.fragment_module == other.fragment_module
        &&& self.viewports@.len() == other.viewports@.len()
        &&& self.scissors@.len() == other.scissors@.len()
    }

    /// See [`FragmentShader::spec_eq`].
    pub fn same_as(&self, other: &Self) -> (r: bool)
        ensures
            r == self.spec_eq(other),
    {
        self.fragment_module == other.fragment_module && self.viewports.len()
            == other.viewports.len() && self.scissors.len() == other.scissors.len()
    }
}

/// Output attachments: color formats, optional depth and stencil formats.
#[derive(Clone)]
pub struct FragmentOut {
    pub color_attachment_formats: Vec<i32>,
    pub depth_attachment_format: Option<i32>,
    pub stencil_attachment_format: Option<i32>,
}

impl Default for FragmentOut {
    fn default() -> (r: Self)
        ensures
            r.color_attachment_formats@ == Seq::<i32>::empty(),
            r.depth_attachment_format is None,
            r.stencil_attachment_format is None,
    {
        FragmentOut {
            color_attachment_formats: Vec::new(),
            depth_attachment_format: None,
            stencil_attachment_format: None,
        }
    }
}

impl FragmentOut {
    /// Appends a color attachment format.
    pub fn add_color_attachment_format(self, format: i32) -> (r: Self)
        ensures
            r.color_attachment_formats@ == self.color_attachment_formats@.push(format),
            r.depth_attachment_format == self.depth_attachment_format,
            r.stencil_attachment_format == self.stencil_attachment_format,
    {
        let mut s = self;
        s.color_attachment_formats.push(format);
        s
    }

    /// Sets the depth attachment format.
    pub fn with_depth_attachment_format(self, format: i32) -> (r: Self)
        ensures
            r.color_attachment_formats == self.color_attachment_formats,
            r.depth_attachment_format == Some(format),
            r.stencil_attachment_format == self.stencil_attachment_format,
    {
        let mut s = self;
        s.depth_attachment_format = Some(format);
        s
    }

    /// Sets the stencil attachment format.
    pub fn with_stencil_attachment_format(self, format: i32) -> (r: Self)
        ensures
            r.color_attachment_formats == self.color_attachment_formats,
            r.depth_attachment_format == self.depth_attachment_format,
            r.stencil_attachment_format == Some(format),
    {
        let mut s = self;
        s.stencil_attachment_format = Some(format);
        s
    }

    /// Field-by-field equality.
    pub open spec fn spec_eq(&self, other: &Self) -> bool {
        &&& self.color_attachment_formats@ == other.color_attachment_formats@
        &&& self.depth_attachment_format == other.depth_attachment_format
        &&& self.stencil_attachment_format == other.stencil_attachment_format
    }

    /// See [`FragmentOut::spec_eq`].
    pub fn same_as(&self, other: &Self) -> (r: bool)
        ensures
            r == self.spec_eq(other),
    {
        if self.color_attachment_formats.len() != other.color_attachment_formats.len() {
            return false;
        }
        let n = self.color_attachment_formats.len();
        let mut i: usize = 0;
        while i < n
            invariant
                n == self.color_attachment_formats@.len(),
                n == other.color_attachment_formats@.len(),
                0 <= i <= n,
                forall|j: int|
                    0 <= j < i ==> #[trigger] self.color_attachment_formats@[j]
                        == other.color_attachment_formats@[j],
            decreases n - i,
        {
            if self.color_attachment_formats[i] != other.color_attachment_formats[i] {
                return false;
            }
            i = i + 1;
        }
        assert(self.color_attachment_formats@ =~= other.color_attachment_formats@);
        let depth_eq = match (self.depth_attachment_format, other.depth_attachment_format) {
            (Some(a), Some(b)) => a == b,
            (None, None) => true,
            _ => false,
        };
        let stencil_eq = match (self.stencil_attachment_format, other.stencil_attachment_format) {
            (Some(a), Some(b)) => a == b,
            (None, None) => true,
            _ => false,
        };
        depth_eq && stencil_eq
    }
}

/// Description of a graphics pipeline.
#[derive(Clone)]
pub struct GraphicsInfo {
    pub specialization_constants: Vec<SpecializationMapEntry>,
    pub specialization_constants_values: Vec<u8>,
    pub vertex_in: VertexIn,
    pub pre_rasterization: PreRasterization,
    pub fragment_shader: FragmentShader,
    pub fragment_out: FragmentOut,
    pub pipeline_layout: u64,
    pub pipeline_flags: PipelineFlags,
    pub render_pass: u64,
    pub subpass: u32,
    pub rasterization_polygon_mode: i32,
    pub stencil_compare_op: StencilCompareOp,
    pub stencil_logic_op: StencilLogicOp,
    pub stencil_reference: u32,
    pub stencil_compare_mask: u32,
    pub stencil_write_mask: u32,
}

impl Default for GraphicsInfo {
    fn default() -> (r: Self)
        ensures
            r.specialization_constants@ == Seq::<SpecializationMapEntry>::empty(),
            r.specialization_constants_values@ == Seq::<u8>::empty(),
            r.vertex_in.topology == 0,
            r.vertex_in.attributes@ == Seq::<VertexInputAttributeDescription>::empty(),
            r.vertex_in.bindings@ == Seq::<VertexInputBindingDescription>::empty(),
            r.pre_rasterization.vertex_module == 0,
            r.fragment_shader.fragment_module == 0,
            r.fragment_shader.viewports@ == Seq::<Viewport>::empty(),
            r.fragment_shader.scissors@ == Seq::<Rect2D>::empty(),
            r.fragment_out.color_attachment_formats@ == Seq::<i32>::empty(),
            r.fragment_out.depth_attachment_format is None,
            r.fragment_out.stencil_attachment_format is None,
            r.pipeline_layout == 0,
            r.pipeline_flags.0 == 0,
            r.render_pass == 0,
            r.subpass == 0,
            r.rasterization_polygon_mode == 0,
            r.stencil_compare_op == StencilCompareOp::Off,
            r.stencil_logic_op == StencilLogicOp::Off,
            r.stencil_reference == 0,
            r.stencil_compare_mask == 0,
            r.stencil_write_mask == 0,
    {
        GraphicsInfo {
            specialization_constants: Vec::new(),
            specialization_constants_values: Vec::new(),
            vertex_in: VertexIn::default(),
            pre_rasterization: PreRasterization::default(),
            fragment_shader: FragmentShader::default(),
            fragment_out: FragmentOut::default(),
            pipeline_layout: 0,
            pipeline_flags: PipelineFlags::empty(),
            render_pass: 0,
            subpass: 0,
            rasterization_polygon_mode: 0,
            stencil_compare_op: StencilCompareOp::default(),
            stencil_logic_op: StencilLogicOp::default(),
            stencil_reference: 0,
            stencil_compare_mask: 0,
            stencil_write_mask: 0,
        }
    }
}

impl GraphicsInfo {
    /// Completes a description for a presentation target: a default
    /// viewport and scissor when there are none, `color_format` appended to
    /// the color formats, `depth_format` as depth format (and as stencil
    /// format when stencil is enabled), the given layout and render pass,
    /// subpass 0.
    pub fn apply_presentation_defaults(
        self,
        color_format: i32,
        depth_format: i32,
        layout: u64,
        render_pass: u64,
    ) -> (r: Self)
        ensures
            r.fragment_shader.viewports@ == (if self.fragment_shader.viewports@.len() == 0 {
                seq![Viewport {
                    x_bits: 0,
                    y_bits: 0,
                    width_bits: 0,
                    height_bits: 0,
                    min_depth_bits: 0,
                    max_depth_bits: 0,
                }]
            } else {
                self.fragment_shader.viewports@
            }),
            r.fragment_shader.scissors@ == (if self.fragment_shader.scissors@.len() == 0 {
                seq![Rect2D { x: 0, y: 0, width: 0, height: 0 }]
            } else {
                self.fragment_shader.scissors@
            }),
            r.fragment_shader.fragment_module == self.fragment_shader.fragment_module,
            r.fragment_out.color_attachment_formats@ == self.fragment_out.color_attachment_formats@.push(
                color_format,
            ),
            r.fragment_out.depth_attachment_format == Some(depth_format),
            r.fragment_out.stencil_attachment_format == (if self.pipeline_flags.spec_contains(
                PipelineFlags::STENCIL_ENABLE,
            ) {
                Some(depth_format)
            } else {
                self.fragment_out.stencil_attachment_format
            }),
            r.pipeline_layout == layout,
            r.render_pass == render_pass,
            r.subpass == 0,
            r.specialization_constants == self.specialization_constants,
            r.specialization_constants_values == self.specialization_constants_values,
            r.vertex_in == self.vertex_in,
            r.pre_rasterization == self.pre_rasterization,
            r.pipeline_flags == self.pipeline_flags,
            r.rasterization_polygon_mode == self.rasterization_polygon_mode,
            r.stencil_compare_op == self.stencil_compare_op,
            r.stencil_logic_op == self.stencil_logic_op,
            r.stencil_reference == self.stencil_reference,
            r.stencil_compare_mask == self.stencil_compare_mask,
            r.stencil_write_mask == self.stencil_write_mask,
    {
        let mut s = self;
        if s.fragment_shader.viewports.len() == 0 {
            s.fragment_shader.viewports.push(Viewport::zero());
        }
        if s.fragment_shader.scissors.len() == 0 {
            s.fragment_shader.scissors.push(Rect2D::zero());
        }
        s.fragment_out.color_attachment_formats.push(color_format);
        s.fragment_out.depth_attachment_format = Some(depth_format);
        if s.pipeline_flags.contains(PipelineFlags(PipelineFlags::STENCIL_ENABLE)) {
            s.fragment_out.stencil_attachment_format = Some(depth_format);
        }
        s.pipeline_layout = layout;
        s.render_pass = render_pass;
        s.subpass = 0;
        proof {
            if self.fragment_shader.viewports@.len() == 0 {
                assert(s.fragment_shader.viewports@ =~= seq![Viewport {
                    x_bits: 0,
                    y_bits: 0,
                    width_bits: 0,
                    height_bits: 0,
                    min_depth_bits: 0,
                    max_depth_bits: 0,
                }]);
            }
            if self.fragment_shader.scissors@.len() == 0 {
                assert(s.fragment_shader.scissors@ =~= seq![Rect2D { x: 0, y: 0, width: 0, height: 0 }]);
            }
        }
        s
    }

    /// Appends a 4-byte specialization constant, as
    /// [`ComputeInfo::add_specialization_constant_u32`] does.
    pub fn add_specialization_constant_u32(self, constant: SpecializationMapEntry, value: u32) -> (r:
        Self)
        requires
            self.specialization_constants_values@.len() + 4 <= usize::MAX,
        ensures
            r.specialization_constants@ == self.specialization_constants@.push(
                SpecializationMapEntry {
                    offset: self.specialization_constants_values@.len() as u32,
                    ..constant
                },
            ),
            r.specialization_constants_values@ == self.specialization_constants_values@ + le_bytes_u32(value),
            r.vertex_in == self.vertex_in,
            r.pre_rasterization == self.pre_rasterization,
            r.fragment_shader == self.fragment_shader,
            r.fragment_out == self.fragment_out,
            r.pipeline_layout == self.pipeline_layout,
            r.pipeline_flags == self.pipeline_flags,
            r.render_pass == self.render_pass,
            r.subpass == self.subpass,
            r.rasterization_polygon_mode == self.rasterization_polygon_mode,
            r.stencil_compare_op == self.stencil_compare_op,
            r.stencil_logic_op == self.stencil_logic_op,
            r.stencil_reference == self.stencil_reference,
            r.stencil_compare_mask == self.stencil_compare_mask,
            r.stencil_write_mask == self.stencil_write_mask,
    {
        let mut s = self;
        let mut constant = constant;
        constant.offset = s.specialization_constants_values.len() as u32;
        s.specialization_constants.push(constant);
        s.specialization_constants_values.push((value & 0xff) as u8);
        s.specialization_constants_values.push(((value >> 8u32) & 0xff) as u8);
        s.specialization_constants_values.push(((value >> 16u32) & 0xff) as u8);
        s.specialization_constants_values.push(((value >> 24u32) & 0xff) as u8);
        assert(s.specialization_constants_values@ =~= self.specialization_constants_values@
            + le_bytes_u32(value));
        s
    }

    /// Replaces the vertex input.
    pub fn with_vertex_in(self, vertex_in: VertexIn) -> (r: Self)
        ensures
            r == (GraphicsInfo { vertex_in, ..self }),
    {
        let mut s = self;
        s.vertex_in = vertex_in;
        s
    }

    /// Replaces the pre-rasterization stages.
    pub fn with_pre_rasterization(self, pre_rasterization: PreRasterization) -> (r: Self)
        ensures
            r == (GraphicsInfo { pre_rasterization, ..self }),
    {
        let mut s = self;
        s.pre_rasterization = pre_rasterization;
        s
    }

    /// Replaces the fragment stage.
    pub fn with_fragment_shader(self, fragment_shader: FragmentShader) -> (r: Self)
        ensures
            r == (GraphicsInfo { fragment_shader, ..self }),
    {
        let mut s = self;
        s.fragment_shader = fragment_shader;
        s
    }

    /// Replaces the output attachments.
    pub fn with_fragment_out(self, fragment_out: FragmentOut) -> (r: Self)
        ensures
            r == (GraphicsInfo { fragment_out, ..self }),
    {
        let mut s = self;
        s.fragment_out = fragment_out;
        s
    }

    /// Sets the pipeline layout.
    pub fn with_pipeline_layout(self, pipeline_layout: u64) -> (r: Self)
        ensures
            r == (GraphicsInfo { pipeline_layout, ..self }),
    {
        let mut s = self;
        s.pipeline_layout = pipeline_layout;
        s
    }

    /// Sets the fixed-function switches.
    pub fn with_pipeline_flags(self, pipeline_flags: PipelineFlags) -> (r: Self)
        ensures
            r == (GraphicsInfo { pipeline_flags, ..self }),
    {
        let mut s = self;
        s.pipeline_flags = pipeline_flags;
        s
    }

    /// Sets the render pass.
    pub fn with_render_pass(self, render_pass: u64) -> (r: Self)
        ensures
            r == (GraphicsInfo { render_pass, ..self }),
    {
        let mut s = self;
        s.render_pass = render_pass;
        s
    }

    /// Sets the subpass index.
    pub fn with_subpass(self, subpass: u32) -> (r: Self)
        ensures
            r == (GraphicsInfo { subpass, ..self }),
    {
        let mut s = self;
        s.subpass = subpass;
        s
    }

    /// Sets the polygon mode.
    pub fn with_rasterization_polygon_mode(self, rasterization_polygon_mode: i32) -> (r: Self)
        ensures
            r == (GraphicsInfo { rasterization_polygon_mode, ..self }),
    {
        let mut s = self;
        s.rasterization_polygon_mode = rasterization_polygon_mode;
        s
    }

    /// Sets the stencil comparison.
    pub fn with_stencil_compare_op(self, stencil_compare_op: StencilCompareOp) -> (r: Self)
        ensures
            r == (GraphicsInfo { stencil_compare_op, ..self }),
    {
        let mut s = self;
        s.stencil_compare_op = stencil_compare_op;
        s
    }

    /// Sets the stencil write behavior.
    pub fn with_stencil_logic_op(self, stencil_logic_op: StencilLogicOp) -> (r: Self)
        ensures
            r == (GraphicsInfo { stencil_logic_op, ..self }),
    {
        let mut s = self;
        s.stencil_logic_op = stencil_logic_op;
        s
    }

    /// Sets the stencil reference value.
    pub fn with_stencil_reference(self, stencil_reference: u32) -> (r: Self)
        ensures
            r == (GraphicsInfo { stencil_reference, ..self }),
    {
        let mut s = self;
        s.stencil_reference = stencil_reference;
        s
    }

    /// Sets the stencil compare mask.
    pub fn with_stencil_compare_mask(self, stencil_compare_mask: u32) -> (r: Self)
        ensures
            r == (GraphicsInfo { stencil_compare_mask, ..self }),
    {
        let mut s = self;
        s.stencil_compare_mask = stencil_compare_mask;
        s
    }

    /// Sets the stencil write mask.
    pub fn with_stencil_write_mask(self, stencil_write_mask: u32) -> (r: Self)
        ensures
            r == (GraphicsInfo { stencil_write_mask, ..self }),
    {
        let mut s = self;
        s.stencil_write_mask = stencil_write_mask;
        s
    }

    /// Equality used by the cache: the first `self`-many specialization
    /// entries agree, and every other part is equal under its own equality.
    /// The specialization value bytes are not compared.
    pub open spec fn spec_eq(&self, other: &Self) -> bool {
        &&& forall|i: int|
            0 <= i < self.specialization_constants@.len() ==> spec_entry_eq(
                #[trigger] self.specialization_constants@[i],
                other.specialization_constants@[i],
            )
        &&& self.vertex_in.spec_eq(&other.vertex_in)
        &&& self.pre_rasterization == other.pre_rasterization
        &&& self.fragment_shader.spec_eq(&other.fragment_shader)
        &&& self.fragment_out.spec_eq(&other.fragment_out)
        &&& self.pipeline_layout == other.pipeline_layout
        &&& self.pipeline_flags == other.pipeline_flags
        &&& self.render_pass == other.render_pass
        &&& self.subpass == other.subpass
        &&& self.rasterization_polygon_mode == other.rasterization_polygon_mode
        &&& self.stencil_compare_op == other.stencil_compare_op
        &&& self.stencil_logic_op == other.stencil_logic_op
        &&& self.stencil_reference == other.stencil_reference
        &&& self.stencil_compare_mask == other.stencil_compare_mask
        &&& self.stencil_write_mask == other.stencil_write_mask
    }

    /// See [`GraphicsInfo::spec_eq`]. `other` must have at least as many
    /// specialization entries as `self`.
    pub fn same_as(&self, other: &Self) -> (r: bool)
        requires
            self.specialization_constants@.len() <= other.specialization_constants@.len(),
        ensures
            r == self.spec_eq(other),
    {
        let n = self.specialization_constants.len();
        let mut i: usize = 0;
        while i < n
            invariant
                n == self.specialization_constants@.len(),
                n <= other.specialization_constants@.len(),
                0 <= i <= n,
                forall|j: int|
                    0 <= j < i ==> spec_entry_eq(
                        #[trigger] self.specialization_constants@[j],
                        other.specialization_constants@[j],
                    ),
            decreases n - i,
        {
            let a = self.specialization_constants[i];
            let b = other.specialization_constants[i];
            if !(a.size == b.size && a.offset == b.offset && a.constant_id == b.constant_id) {
                return false;
            }
            i = i + 1;
        }
        self.vertex_in.same_as(&other.vertex_in) && self.pre_rasterization
            == other.pre_rasterization && self.fragment_shader.same_as(&other.fragment_shader)
            && self.fragment_out.same_as(&other.fragment_out) && self.pipeline_layout
            == other.pipeline_layout && self.pipeline_flags == other.pipeline_flags
            && self.render_pass == other.render_pass && self.subpass == other.subpass
            && self.rasterization_polygon_mode == other.rasterization_polygon_mode
            && self.stencil_compare_op == other.stencil_compare_op && self.stencil_logic_op
            == other.stencil_logic_op && self.stencil_reference == other.stencil_reference
            && self.stencil_compare_mask == other.stencil_compare_mask && self.stencil_write_mask
            == other.stencil_write_mask
    }
}

/// Bytes `Hash` feeds for one specialization entry: id, offset, size.
pub open spec fn entry_bytes(e: SpecializationMapEntry) -> Seq<u8> {
    le_bytes_u32(e.constant_id) + le_bytes_u32(e.offset) + le_bytes_usize(e.size)
}

/// Bytes fed for a list of specialization entries, in order.
pub open spec fn entries_bytes(s: Seq<SpecializationMapEntry>) -> Seq<u8>
    decreases s.len(),
{
    if s.len() == 0 {
        Seq::empty()
    } else {
        entries_bytes(s.drop_last()) + entry_bytes(s.last())
    }
}

/// Bytes fed for a byte vector: its length, then its bytes.
pub open spec fn byte_vec_bytes(v: Seq<u8>) -> Seq<u8> {
    le_bytes_usize(v.len() as usize) + v
}

/// Bytes fed for one vertex attribute: binding, format, location, offset.
pub open spec fn attribute_bytes(a: VertexInputAttributeDescription) -> Seq<u8> {
    le_bytes_u32(a.binding) + le_bytes_i32(a.format) + le_bytes_u32(a.location) + le_bytes_u32(a.offset)
}

/// Bytes fed for the vertex attributes, in order, without a length.
pub open spec fn attributes_bytes(s: Seq<VertexInputAttributeDescription>) -> Seq<u8>
    decreases s.len(),
{
    if s.len() == 0 {
        Seq::empty()
    } else {
        attributes_bytes(s.drop_last()) + attribute_bytes(s.last())
    }
}

/// Bytes fed for one vertex binding: binding, input rate, stride.
pub open spec fn binding_bytes(b: VertexInputBindingDescription) -> Seq<u8> {
    le_bytes_u32(b.binding) + le_bytes_i32(b.input_rate) + le_bytes_u32(b.stride)
}

/// Bytes fed for the vertex bindings, in order, without a length.
pub open spec fn bindings_bytes(s: Seq<VertexInputBindingDescription>) -> Seq<u8>
    decreases s.len(),
{
    if s.len() == 0 {
        Seq::empty()
    } else {
        bindings_bytes(s.drop_last()) + binding_bytes(s.last())
    }
}

/// Bytes fed for the color formats: length, then each format.
pub open spec fn formats_items_bytes(s: Seq<i32>) -> Seq<u8>
    decreases s.len(),
{
    if s.len() == 0 {
        Seq::empty()
    } else {
        formats_items_bytes(s.drop_last()) + le_bytes_i32(s.last())
    }
}

/// Bytes fed for an optional format: discriminant as 8 bytes, then the value.
pub open spec fn option_format_bytes(o: Option<i32>) -> Seq<u8> {
    match o {
        None => le_bytes_u64(0),
        Some(v) => le_bytes_u64(1) + le_bytes_i32(v),
    }
}

/// The byte stream hashed for a compute description.
pub open spec fn compute_info_bytes(c: ComputeInfo) -> Seq<u8> {
    le_bytes_u64(c.shader_module) + le_bytes_u64(c.pipeline_layout) + entries_bytes(
        c.specialization_constants@,
    ) + byte_vec_bytes(c.specialization_constants_values@)
}

/// Compute descriptions feed the same bytes to the cache key only if they
/// share their shader module and pipeline layout: two compute pipelines
/// that differ in either are cached apart.
pub proof fn lemma_compute_fields_reach_the_key(c1: ComputeInfo, c2: ComputeInfo)
    ensures
        compute_info_bytes(c1) == compute_info_bytes(c2) ==> c1.shader_module == c2.shader_module
            && c1.pipeline_layout == c2.pipeline_layout,
{
    let b1 = compute_info_bytes(c1);
    let b2 = compute_info_bytes(c2);
    if b1 == b2 {
        assert(b1.subrange(0, 8) =~= le_bytes_u64(c1.shader_module));
        assert(b2.subrange(0, 8) =~= le_bytes_u64(c2.shader_module));
        assert(b1.subrange(8, 16) =~= le_bytes_u64(c1.pipeline_layout));
        assert(b2.subrange(8, 16) =~= le_bytes_u64(c2.pipeline_layout));
        lemma_le_bytes_u64_injective(c1.shader_module, c2.shader_module);
        lemma_le_bytes_u64_injective(c1.pipeline_layout, c2.pipeline_layout);
    }
}

/// Bytes fed for the vertex input: topology, attributes, bindings.
pub open spec fn vertex_in_bytes(v: VertexIn) -> Seq<u8> {
    le_bytes_i32(v.topology) + attributes_bytes(v.attributes@) + bindings_bytes(v.bindings@)
}

/// Bytes fed for the fragment stage and outputs: module, viewport and
/// scissor counts, then the color formats with their length and the two
/// optional formats.
pub open spec fn fragment_bytes(f: FragmentShader, o: FragmentOut) -> Seq<u8> {
    le_bytes_u64(f.fragment_module) + le_bytes_usize(f.viewports@.len() as usize) + le_bytes_usize(
        f.scissors@.len() as usize,
    ) + le_bytes_usize(o.color_attachment_formats@.len() as usize) + formats_items_bytes(
        o.color_attachment_formats@,
    ) + option_format_bytes(o.depth_attachment_format) + option_format_bytes(
        o.stencil_attachment_format,
    )
}

/// Bytes fed for the fixed-function scalars, in field order.
pub open spec fn state_bytes(g: GraphicsInfo) -> Seq<u8> {
    le_bytes_u64(g.pipeline_layout) + le_bytes_u32(g.pipeline_flags.0) + le_bytes_u64(g.render_pass)
        + le_bytes_u32(g.subpass) + le_bytes_i32(g.rasterization_polygon_mode) + le_bytes_u32(
        g.stencil_compare_op.spec_code(),
    ) + le_bytes_u32(g.stencil_logic_op.spec_code()) + le_bytes_u32(g.stencil_reference)
        + le_bytes_u32(g.stencil_compare_mask) + le_bytes_u32(g.stencil_write_mask)
}

/// The byte stream hashed for a graphics description.
pub open spec fn graphics_info_bytes(g: GraphicsInfo) -> Seq<u8> {
    entries_bytes(g.specialization_constants@) + byte_vec_bytes(g.specialization_constants_values@)
        + vertex_in_bytes(g.vertex_in) + le_bytes_u64(g.pre_rasterization.vertex_module)
        + fragment_bytes(g.fragment_shader, g.fragment_out) + state_bytes(g)
}

/// Where each fixed-function field stands in the state bytes.
proof fn lemma_state_bytes_layout(g: GraphicsInfo)
    ensures
        state_bytes(g).len() == 48,
        state_bytes(g).subrange(0, 8) == le_bytes_u64(g.pipeline_layout),
        state_bytes(g).subrange(8, 12) == le_bytes_u32(g.pipeline_flags.0),
        state_bytes(g).subrange(12, 20) == le_bytes_u64(g.render_pass),
        state_bytes(g).subrange(20, 24) == le_bytes_u32(g.subpass),
        state_bytes(g).subrange(24, 28) == le_bytes_i32(g.rasterization_polygon_mode),
        state_bytes(g).subrange(28, 32) == le_bytes_u32(g.stencil_compare_op.spec_code()),
        state_bytes(g).subrange(32, 36) == le_bytes_u32(g.stencil_logic_op.spec_code()),
        state_bytes(g).subrange(36, 40) == le_bytes_u32(g.stencil_reference),
        state_bytes(g).subrange(40, 44) == le_bytes_u32(g.stencil_compare_mask),
        state_bytes(g).subrange(44, 48) == le_bytes_u32(g.stencil_write_mask),
{
    let s = state_bytes(g);
    assert(s.subrange(0, 8) =~= le_bytes_u64(g.pipeline_layout));
    assert(s.subrange(8, 12) =~= le_bytes_u32(g.pipeline_flags.0));
    assert(s.subrange(12, 20) =~= le_bytes_u64(g.render_pass));
    assert(s.subrange(20, 24) =~= le_bytes_u32(g.subpass));
    assert(s.subrange(24, 28) =~= le_bytes_i32(g.rasterization_polygon_mode));
    assert(s.subrange(28, 32) =~= le_bytes_u32(g.stencil_compare_op.spec_code()));
    assert(s.subrange(32, 36) =~= le_bytes_u32(g.stencil_logic_op.spec_code()));
    assert(s.subrange(36, 40) =~= le_bytes_u32(g.stencil_reference));
    assert(s.subrange(40, 44) =~= le_bytes_u32(g.stencil_compare_mask));
    assert(s.subrange(44, 48) =~= le_bytes_u32(g.stencil_write_mask));
}

/// Equal state bytes come only from equal fixed-function fields.
proof fn lemma_state_bytes_injective(g1: GraphicsInfo, g2: GraphicsInfo)
    requires
        state_bytes(g1) == state_bytes(g2),
    ensures
        g1.pipeline_layout == g2.pipeline_layout,
        g1.pipeline_flags == g2.pipeline_flags,
        g1.render_pass == g2.render_pass,
        g1.subpass == g2.subpass,
        g1.rasterization_polygon_mode == g2.rasterization_polygon_mode,
        g1.stencil_compare_op == g2.stencil_compare_op,
        g1.stencil_logic_op == g2.stencil_logic_op,
        g1.stencil_reference == g2.stencil_reference,
        g1.stencil_compare_mask == g2.stencil_compare_mask,
        g1.stencil_write_mask == g2.stencil_write_mask,
{
    lemma_state_bytes_layout(g1);
    lemma_state_bytes_layout(g2);
    lemma_le_bytes_u64_injective(g1.pipeline_layout, g2.pipeline_layout);
    lemma_le_bytes_u32_injective(g1.pipeline_flags.0, g2.pipeline_flags.0);
    lemma_le_bytes_u64_injective(g1.render_pass, g2.render_pass);
    lemma_le_bytes_u32_injective(g1.subpass, g2.subpass);
    lemma_le_bytes_i32_injective(g1.rasterization_polygon_mode, g2.rasterization_polygon_mode);
    lemma_le_bytes_u32_injective(g1.stencil_compare_op.spec_code(), g2.stencil_compare_op.spec_code());
    lemma_le_bytes_u32_injective(g1.stencil_logic_op.spec_code(), g2.stencil_logic_op.spec_code());
    lemma_le_bytes_u32_injective(g1.stencil_reference, g2.stencil_reference);
    lemma_le_bytes_u32_injective(g1.stencil_compare_mask, g2.stencil_compare_mask);
    lemma_le_bytes_u32_injective(g1.stencil_write_mask, g2.stencil_write_mask);
}

/// Between prefixes of one length, equal concatenations hold equal pieces
/// of one length.
proof fn lemma_same_frame(x1: Seq<u8>, y1: Seq<u8>, z1: Seq<u8>, x2: Seq<u8>, y2: Seq<u8>, z2: Seq<u8>)
    requires
        x1.len() == x2.len(),
        y1.len() == y2.len(),
        x1 + y1 + z1 == x2 + y2 + z2,
    ensures
        y1 == y2,
{
    let n = x1.len() as int;
    let k = (x1.len() + y1.len()) as int;
    assert((x1 + y1 + z1).subrange(n, k) =~= y1);
    assert((x2 + y2 + z2).subrange(n, k) =~= y2);
}

/// The graphics byte stream regrouped around its topology, vertex module
/// and fragment module.
proof fn lemma_regroup(
    e: Seq<u8>,
    t: Seq<u8>,
    a: Seq<u8>,
    bn: Seq<u8>,
    m: Seq<u8>,
    f: Seq<u8>,
    r: Seq<u8>,
    s: Seq<u8>,
)
    ensures
        e + (t + a + bn) + m + (f + r) + s == e + t + (a + bn + m + (f + r) + s),
        e + (t + a + bn) + m + (f + r) + s == (e + t + a + bn) + m + (f + r + s),
        e + (t + a + bn) + m + (f + r) + s == (e + t + a + bn + m) + f + (r + s),
{
    assert(e + (t + a + bn) + m + (f + r) + s =~= e + t + (a + bn + m + (f + r) + s));
    assert(e + (t + a + bn) + m + (f + r) + s =~= (e + t + a + bn) + m + (f + r + s));
    assert(e + (t + a + bn) + m + (f + r) + s =~= (e + t + a + bn + m) + f + (r + s));
}

/// The fragment bytes open with the fragment module.
proof fn lemma_fragment_bytes_head(f: FragmentShader, o: FragmentOut)
    ensures
        fragment_bytes(f, o) == le_bytes_u64(f.fragment_module) + fragment_bytes(f, o).subrange(
            8,
            fragment_bytes(f, o).len() as int,
        ),
{
    let b = fragment_bytes(f, o);
    assert(b =~= le_bytes_u64(f.fragment_module) + b.subrange(8, b.len() as int));
}

/// Two graphics descriptions with the same specialization, vertex
/// attributes and bindings, viewports, scissors and outputs feed the same
/// bytes to the cache key only if they also share their topology, vertex
/// module and fragment module.
pub proof fn lemma_shader_fields_reach_the_key(g1: GraphicsInfo, g2: GraphicsInfo)
    requires
        g1.specialization_constants@ == g2.specialization_constants@,
        g1.specialization_constants_values@ == g2.specialization_constants_values@,
        g1.vertex_in.attributes@ == g2.vertex_in.attributes@,
        g1.vertex_in.bindings@ == g2.vertex_in.bindings@,
        g1.fragment_shader.viewports@ == g2.fragment_shader.viewports@,
        g1.fragment_shader.scissors@ == g2.fragment_shader.scissors@,
        g1.fragment_out.color_attachment_formats@ == g2.fragment_out.color_attachment_formats@,
        g1.fragment_out.depth_attachment_format == g2.fragment_out.depth_attachment_format,
        g1.fragment_out.stencil_attachment_format == g2.fragment_out.stencil_attachment_format,
    ensures
        graphics_info_bytes(g1) == graphics_info_bytes(g2) ==> {
            &&& g1.vertex_in.topology == g2.vertex_in.topology
            &&& g1.pre_rasterization.vertex_module == g2.pre_rasterization.vertex_module
            &&& g1.fragment_shader.fragment_module == g2.fragment_shader.fragment_module
        },
{
    let e = entries_bytes(g1.specialization_constants@) + byte_vec_bytes(g1.specialization_constants_values@);
    let a = attributes_bytes(g1.vertex_in.attributes@);
    let bn = bindings_bytes(g1.vertex_in.bindings@);
    let t1 = le_bytes_i32(g1.vertex_in.topology);
    let t2 = le_bytes_i32(g2.vertex_in.topology);
    let m1 = le_bytes_u64(g1.pre_rasterization.vertex_module);
    let m2 = le_bytes_u64(g2.pre_rasterization.vertex_module);
    let f1 = le_bytes_u64(g1.fragment_shader.fragment_module);
    let f2 = le_bytes_u64(g2.fragment_shader.fragment_module);
    let fb1 = fragment_bytes(g1.fragment_shader, g1.fragment_out);
    let fb2 = fragment_bytes(g2.fragment_shader, g2.fragment_out);
    let r1 = fb1.subrange(8, fb1.len() as int);
    let r2 = fb2.subrange(8, fb2.len() as int);
    let s1 = state_bytes(g1);
    let s2 = state_bytes(g2);
    lemma_fragment_bytes_head(g1.fragment_shader, g1.fragment_out);
    lemma_fragment_bytes_head(g2.fragment_shader, g2.fragment_out);
    assert(fb1.len() == fb2.len());
    assert(graphics_info_bytes(g1) == e + (t1 + a + bn) + m1 + (f1 + r1) + s1);
    assert(graphics_info_bytes(g2) == e + (t2 + a + bn) + m2 + (f2 + r2) + s2);
    lemma_regroup(e, t1, a, bn, m1, f1, r1, s1);
    lemma_regroup(e, t2, a, bn, m2, f2, r2, s2);
    if graphics_info_bytes(g1) == graphics_info_bytes(g2) {
        lemma_same_frame(e, t1, a + bn + m1 + (f1 + r1) + s1, e, t2, a + bn + m2 + (f2 + r2) + s2);
        lemma_le_bytes_i32_injective(g1.vertex_in.topology, g2.vertex_in.topology);
        lemma_same_frame(e + t1 + a + bn, m1, f1 + r1 + s1, e + t2 + a + bn, m2, f2 + r2 + s2);
        lemma_le_bytes_u64_injective(g1.pre_rasterization.vertex_module, g2.pre_rasterization.vertex_module);
        lemma_same_frame(e + t1 + a + bn + m1, f1, r1 + s1, e + t2 + a + bn + m2, f2, r2 + s2);
        lemma_le_bytes_u64_injective(g1.fragment_shader.fragment_module, g2.fragment_shader.fragment_module);
    }
}

/// Two graphics descriptions with the same specialization, vertex input,
/// shaders and outputs feed the same bytes to the cache key only if they
/// also agree on every fixed-function field: layout, flags, render pass,
/// subpass, polygon mode, stencil ops, reference and masks. In particular,
/// descriptions that differ only in their render pass feed different bytes.
pub proof fn lemma_state_fields_reach_the_key(g1: GraphicsInfo, g2: GraphicsInfo)
    requires
        g1.specialization_constants@ == g2.specialization_constants@,
        g1.specialization_constants_values@ == g2.specialization_constants_values@,
        g1.vertex_in.topology == g2.vertex_in.topology,
        g1.vertex_in.attributes@ == g2.vertex_in.attributes@,
        g1.vertex_in.bindings@ == g2.vertex_in.bindings@,
        g1.pre_rasterization.vertex_module == g2.pre_rasterization.vertex_module,
        g1.fragment_shader.fragment_module == g2.fragment_shader.fragment_module,
        g1.fragment_shader.viewports@ == g2.fragment_shader.viewports@,
        g1.fragment_shader.scissors@ == g2.fragment_shader.scissors@,
        g1.fragment_out.color_attachment_formats@ == g2.fragment_out.color_attachment_formats@,
        g1.fragment_out.depth_attachment_format == g2.fragment_out.depth_attachment_format,
        g1.fragment_out.stencil_attachment_format == g2.fragment_out.stencil_attachment_format,
    ensures
        graphics_info_bytes(g1) == graphics_info_bytes(g2) ==> {
            &&& g1.pipeline_layout == g2.pipeline_layout
            &&& g1.pipeline_flags == g2.pipeline_flags
            &&& g1.render_pass == g2.render_pass
            &&& g1.subpass == g2.subpass
            &&& g1.rasterization_polygon_mode == g2.rasterization_polygon_mode
            &&& g1.stencil_compare_op == g2.stencil_compare_op
            &&& g1.stencil_logic_op == g2.stencil_logic_op
            &&& g1.stencil_reference == g2.stencil_reference
            &&& g1.stencil_compare_mask == g2.stencil_compare_mask
            &&& g1.stencil_write_mask == g2.stencil_write_mask
        },
        g1.render_pass != g2.render_pass ==> graphics_info_bytes(g1) != graphics_info_bytes(g2),
{
    let p1 = entries_bytes(g1.specialization_constants@) + byte_vec_bytes(g1.specialization_constants_values@)
        + vertex_in_bytes(g1.vertex_in) + le_bytes_u64(g1.pre_rasterization.vertex_module)
        + fragment_bytes(g1.fragment_shader, g1.fragment_out);
    let p2 = entries_bytes(g2.specialization_constants@) + byte_vec_bytes(g2.specialization_constants_values@)
        + vertex_in_bytes(g2.vertex_in) + le_bytes_u64(g2.pre_rasterization.vertex_module)
        + fragment_bytes(g2.fragment_shader, g2.fragment_out);
    assert(vertex_in_bytes(g1.vertex_in) == vertex_in_bytes(g2.vertex_in));
    assert(fragment_bytes(g1.fragment_shader, g1.fragment_out) == fragment_bytes(
        g2.fragment_shader,
        g2.fragment_out,
    ));
    assert(p1 == p2);
    let b1 = graphics_info_bytes(g1);
    let b2 = graphics_info_bytes(g2);
    if b1 == b2 {
        let s1 = state_bytes(g1);
        let s2 = state_bytes(g2);
        let n = p1.len() as int;
        assert(b1 == p1 + s1);
        assert(b2 == p2 + s2);
        assert(s1 =~= b1.subrange(n, b1.len() as int));
        assert(s2 =~= b2.subrange(n, b2.len() as int));
        lemma_state_bytes_injective(g1, g2);
    }
}

/// Feeds `bytes` after `acc`: the state follows the concatenation.
proof fn lemma_feed(h0: u64, acc: Seq<u8>, bytes: Seq<u8>, h1: u64)
    requires
        h1 == fnv_bytes(fnv_bytes(h0, acc), bytes),
    ensures
        h1 == fnv_bytes(h0, acc + bytes),
{
    lemma_fnv_append(h0, acc, bytes);
}

fn write_entries(st: &mut FnvState, s: &Vec<SpecializationMapEntry>)
    ensures
        final(st).h == fnv_bytes(old(st).h, entries_bytes(s@)),
{
    let ghost h0 = st.h;
    proof {
        lemma_fnv_empty(h0);
        assert(s@.take(0) =~= Seq::empty());
    }
    let mut i: usize = 0;
    while i < s.len()
        invariant
            0 <= i <= s@.len(),
            st.h == fnv_bytes(h0, entries_bytes(s@.take(i as int))),
        decreases s@.len() - i,
    {
        let ghost acc = entries_bytes(s@.take(i as int));
        let e = s[i];
        st.write_u32(e.constant_id);
        proof { lemma_feed(h0, acc, le_bytes_u32(e.constant_id), st.h); }
        st.write_u32(e.offset);
        proof { lemma_feed(h0, acc + le_bytes_u32(e.constant_id), le_bytes_u32(e.offset), st.h); }
        st.write_usize(e.size);
        proof {
            lemma_feed(h0, acc + le_bytes_u32(e.constant_id) + le_bytes_u32(e.offset), le_bytes_usize(e.size), st.h);
            assert(s@.take(i + 1).drop_last() =~= s@.take(i as int));
            assert(acc + le_bytes_u32(e.constant_id) + le_bytes_u32(e.offset) + le_bytes_usize(e.size)
                =~= acc + entry_bytes(e));
        }
        i = i + 1;
    }
    assert(s@.take(s@.len() as int) =~= s@);
}

fn write_attributes(st: &mut FnvState, s: &Vec<VertexInputAttributeDescription>)
    ensures
        final(st).h == fnv_bytes(old(st).h, attributes_bytes(s@)),
{
    let ghost h0 = st.h;
    proof {
        lemma_fnv_empty(h0);
        assert(s@.take(0) =~= Seq::empty());
    }
    let mut i: usize = 0;
    while i < s.len()
        invariant
            0 <= i <= s@.len(),
            st.h == fnv_bytes(h0, attributes_bytes(s@.take(i as int))),
        decreases s@.len() - i,
    {
        let ghost acc = attributes_bytes(s@.take(i as int));
        let a = s[i];
        st.write_u32(a.binding);
        proof { lemma_feed(h0, acc, le_bytes_u32(a.binding), st.h); }
        let ghost acc1 = acc + le_bytes_u32(a.binding);
        st.write_i32(a.format);
        proof { lemma_feed(h0, acc1, le_bytes_i32(a.format), st.h); }
        let ghost acc2 = acc1 + le_bytes_i32(a.format);
        st.write_u32(a.location);
        proof { lemma_feed(h0, acc2, le_bytes_u32(a.location), st.h); }
        let ghost acc3 = acc2 + le_bytes_u32(a.location);
        st.write_u32(a.offset);
        proof {
            lemma_feed(h0, acc3, le_bytes_u32(a.offset), st.h);
            assert(s@.take(i + 1).drop_last() =~= s@.take(i as int));
            assert(acc3 + le_bytes_u32(a.offset) =~= acc + attribute_bytes(a));
        }
        i = i + 1;
    }
    assert(s@.take(s@.len() as int) =~= s@);
}

fn write_bindings(st: &mut FnvState, s: &Vec<VertexInputBindingDescription>)
    ensures
        final(st).h == fnv_bytes(old(st).h, bindings_bytes(s@)),
{
    let ghost h0 = st.h;
    proof {
        lemma_fnv_empty(h0);
        assert(s@.take(0) =~= Seq::empty());
    }
    let mut i: usize = 0;
    while i < s.len()
        invariant
            0 <= i <= s@.len(),
            st.h == fnv_bytes(h0, bindings_bytes(s@.take(i as int))),
        decreases s@.len() - i,
    {
        let ghost acc = bindings_bytes(s@.take(i as int));
        let b = s[i];
        st.write_u32(b.binding);
        proof { lemma_feed(h0, acc, le_bytes_u32(b.binding), st.h); }
        let ghost acc1 = acc + le_bytes_u32(b.binding);
        st.write_i32(b.input_rate);
        proof { lemma_feed(h0, acc1, le_bytes_i32(b.input_rate), st.h); }
        let ghost acc2 = acc1 + le_bytes_i32(b.input_rate);
        st.write_u32(b.stride);
        proof {
            lemma_feed(h0, acc2, le_bytes_u32(b.stride), st.h);
            assert(s@.take(i + 1).drop_last() =~= s@.take(i as int));
            assert(acc2 + le_bytes_u32(b.stride) =~= acc + binding_bytes(b));
        }
        i = i + 1;
    }
    assert(s@.take(s@.len() as int) =~= s@);
}

fn write_format_items(st: &mut FnvState, s: &Vec<i32>)
    ensures
        final(st).h == fnv_bytes(old(st).h, formats_items_bytes(s@)),
{
    let ghost h0 = st.h;
    proof {
        lemma_fnv_empty(h0);
        assert(s@.take(0) =~= Seq::empty());
    }
    let mut i: usize = 0;
    while i < s.len()
        invariant
            0 <= i <= s@.len(),
            st.h == fnv_bytes(h0, formats_items_bytes(s@.take(i as int))),
        decreases s@.len() - i,
    {
        let ghost acc = formats_items_bytes(s@.take(i as int));
        st.write_i32(s[i]);
        proof {
            lemma_feed(h0, acc, le_bytes_i32(s@[i as int]), st.h);
            assert(s@.take(i + 1).drop_last() =~= s@.take(i as int));
        }
        i = i + 1;
    }
    assert(s@.take(s@.len() as int) =~= s@);
}

fn write_option_format(st: &mut FnvState, o: Option<i32>)
    ensures
        final(st).h == fnv_bytes(old(st).h, option_format_bytes(o)),
{
    let ghost h0 = st.h;
    match o {
        None => {
            st.write_u64(0);
        },
        Some(v) => {
            st.write_u64(1);
            st.write_i32(v);
            proof {
                lemma_fnv_append(h0, le_bytes_u64(1), le_bytes_i32(v));
            }
        },
    }
}

impl ComputeInfo {
    /// Cache key: FNV-1a of the module, the layout, every entry's id, offset
    /// and size, then the value bytes with their length.
    pub fn pipeline_key(&self) -> (r: PipelineKey)
        ensures
            r.0 == fnv1a(compute_info_bytes(*self)),
    {
        let mut st = FnvState::new();
        let ghost h0 = st.h;
        st.write_u64(self.shader_module);
        let ghost acc = le_bytes_u64(self.shader_module);
        st.write_u64(self.pipeline_layout);
        proof { lemma_feed(h0, acc, le_bytes_u64(self.pipeline_layout), st.h); }
        let ghost acc = acc + le_bytes_u64(self.pipeline_layout);
        write_entries(&mut st, &self.specialization_constants);
        proof { lemma_feed(h0, acc, entries_bytes(self.specialization_constants@), st.h); }
        let ghost acc = acc + entries_bytes(self.specialization_constants@);
        st.write_usize(self.specialization_constants_values.len());
        proof {
            lemma_feed(h0, acc, le_bytes_usize(self.specialization_constants_values@.len() as usize), st.h);
        }
        let ghost acc = acc + le_bytes_usize(self.specialization_constants_values@.len() as usize);
        st.write_bytes(self.specialization_constants_values.as_slice());
        proof {
            lemma_feed(h0, acc, self.specialization_constants_values@, st.h);
            assert(acc + self.specialization_constants_values@ =~= compute_info_bytes(*self));
        }
        PipelineKey(st.h)
    }
}

fn write_vertex_in(st: &mut FnvState, v: &VertexIn)
    ensures
        final(st).h == fnv_bytes(old(st).h, vertex_in_bytes(*v)),
{
    let ghost h0 = st.h;
    st.write_i32(v.topology);
    let ghost acc = le_bytes_i32(v.topology);
    write_attributes(st, &v.attributes);
    proof { lemma_feed(h0, acc, attributes_bytes(v.attributes@), st.h); }
    let ghost acc = acc + attributes_bytes(v.attributes@);
    write_bindings(st, &v.bindings);
    proof { lemma_feed(h0, acc, bindings_bytes(v.bindings@), st.h); }
}

fn write_fragment(st: &mut FnvState, f: &FragmentShader, o: &FragmentOut)
    ensures
        final(st).h == fnv_bytes(old(st).h, fragment_bytes(*f, *o)),
{
    let ghost h0 = st.h;
    st.write_u64(f.fragment_module);
    let ghost acc = le_bytes_u64(f.fragment_module);
    st.write_usize(f.viewports.len());
    let ghost b = le_bytes_usize(f.viewports@.len() as usize);
    proof { lemma_feed(h0, acc, b, st.h); }
    let ghost acc = acc + b;
    st.write_usize(f.scissors.len());
    let ghost b = le_bytes_usize(f.scissors@.len() as usize);
    proof { lemma_feed(h0, acc, b, st.h); }
    let ghost acc = acc + b;
    st.write_usize(o.color_attachment_formats.len());
    let ghost b = le_bytes_usize(o.color_attachment_formats@.len() as usize);
    proof { lemma_feed(h0, acc, b, st.h); }
    let ghost acc = acc + b;
    write_format_items(st, &o.color_attachment_formats);
    let ghost b = formats_items_bytes(o.color_attachment_formats@);
    proof { lemma_feed(h0, acc, b, st.h); }
    let ghost acc = acc + b;
    write_option_format(st, o.depth_attachment_format);
    let ghost b = option_format_bytes(o.depth_attachment_format);
    proof { lemma_feed(h0, acc, b, st.h); }
    let ghost acc = acc + b;
    write_option_format(st, o.stencil_attachment_format);
    let ghost b = option_format_bytes(o.stencil_attachment_format);
    proof { lemma_feed(h0, acc, b, st.h); }
}

fn write_state(st: &mut FnvState, g: &GraphicsInfo)
    ensures
        final(st).h == fnv_bytes(old(st).h, state_bytes(*g)),
{
    let ghost h0 = st.h;
    st.write_u64(g.pipeline_layout);
    let ghost acc = le_bytes_u64(g.pipeline_layout);
    st.write_u32(g.pipeline_flags.0);
    proof { lemma_feed(h0, acc, le_bytes_u32(g.pipeline_flags.0), st.h); }
    let ghost acc = acc + le_bytes_u32(g.pipeline_flags.0);
    st.write_u64(g.render_pass);
    proof { lemma_feed(h0, acc, le_bytes_u64(g.render_pass), st.h); }
    let ghost acc = acc + le_bytes_u64(g.render_pass);
    st.write_u32(g.subpass);
    proof { lemma_feed(h0, acc, le_bytes_u32(g.subpass), st.h); }
    let ghost acc = acc + le_bytes_u32(g.subpass);
    st.write_i32(g.rasterization_polygon_mode);
    proof { lemma_feed(h0, acc, le_bytes_i32(g.rasterization_polygon_mode), st.h); }
    let ghost acc = acc + le_bytes_i32(g.rasterization_polygon_mode);
    st.write_u32(g.stencil_compare_op.code());
    proof { lemma_feed(h0, acc, le_bytes_u32(g.stencil_compare_op.spec_code()), st.h); }
    let ghost acc = acc + le_bytes_u32(g.stencil_compare_op.spec_code());
    st.write_u32(g.stencil_logic_op.code());
    proof { lemma_feed(h0, acc, le_bytes_u32(g.stencil_logic_op.spec_code()), st.h); }
    let ghost acc = acc + le_bytes_u32(g.stencil_logic_op.spec_code());
    st.write_u32(g.stencil_reference);
    proof { lemma_feed(h0, acc, le_bytes_u32(g.stencil_reference), st.h); }
    let ghost acc = acc + le_bytes_u32(g.stencil_reference);
    st.write_u32(g.stencil_compare_mask);
    proof { lemma_feed(h0, acc, le_bytes_u32(g.stencil_compare_mask), st.h); }
    let ghost acc = acc + le_bytes_u32(g.stencil_compare_mask);
    st.write_u32(g.stencil_write_mask);
    proof { lemma_feed(h0, acc, le_bytes_u32(g.stencil_write_mask), st.h); }
}

impl GraphicsInfo {
    /// Cache key: FNV-1a of [`graphics_info_bytes`].
    pub fn pipeline_key(&self) -> (r: PipelineKey)
        ensures
            r.0 == fnv1a(graphics_info_bytes(*self)),
    {
        let mut st = FnvState::new();
        let ghost h0 = st.h;
        write_entries(&mut st, &self.specialization_constants);
        let ghost acc = entries_bytes(self.specialization_constants@);
        st.write_usize(self.specialization_constants_values.len());
        let ghost b = le_bytes_usize(self.specialization_constants_values@.len() as usize);
        proof { lemma_feed(h0, acc, b, st.h); }
        let ghost acc = acc + b;
        st.write_bytes(self.specialization_constants_values.as_slice());
        proof {
            lemma_feed(h0, acc, self.specialization_constants_values@, st.h);
            assert(acc + self.specialization_constants_values@ =~= entries_bytes(
                self.specialization_constants@,
            ) + byte_vec_bytes(self.specialization_constants_values@));
        }
        let ghost acc = entries_bytes(self.specialization_constants@) + byte_vec_bytes(
            self.specialization_constants_values@,
        );
        write_vertex_in(&mut st, &self.vertex_in);
        proof { lemma_feed(h0, acc, vertex_in_bytes(self.vertex_in), st.h); }
        let ghost acc = acc + vertex_in_bytes(self.vertex_in);
        st.write_u64(self.pre_rasterization.vertex_module);
        proof { lemma_feed(h0, acc, le_bytes_u64(self.pre_rasterization.vertex_module), st.h); }
        let ghost acc = acc + le_bytes_u64(self.pre_rasterization.vertex_module);
        write_fragment(&mut st, &self.fragment_shader, &self.fragment_out);
        proof { lemma_feed(h0, acc, fragment_bytes(self.fragment_shader, self.fragment_out), st.h); }
        let ghost acc = acc + fragment_bytes(self.fragment_shader, self.fragment_out);
        write_state(&mut st, self);
        proof { lemma_feed(h0, acc, state_bytes(*self), st.h); }
        PipelineKey(st.h)
    }
}

/// Pipeline state that is set at draw time.
#[derive(Clone, Copy, Debug, PartialEq, Eq, Structural)]
pub enum DynamicState {
    Viewport,
    Scissor,
    LineWidth,
}

/// Faces culled by the rasterizer.
#[derive(Clone, Copy, Debug, PartialEq, Eq, Structural)]
pub enum CullMode {
    Off,
    Front,
    Back,
    FrontAndBack,
}

/// Winding of front-facing triangles.
#[derive(Clone, Copy, Debug, PartialEq, Eq, Structural)]
pub enum FrontFace {
    CounterClockwise,
    Clockwise,
}

/// Comparison operators the pipelines use.
#[derive(Clone, Copy, Debug, PartialEq, Eq, Structural)]
pub enum CompareOp {
    Equal,
    NotEqual,
    LessOrEqual,
    Always,
}

/// Stencil buffer updates the pipelines use.
#[derive(Clone, Copy, Debug, PartialEq, Eq, Structural)]
pub enum StencilOp {
    Keep,
    Replace,
    IncrementAndWrap,
    DecrementAndWrap,
}

/// Stencil behavior of one face.
#[derive(Clone, Copy, Debug, PartialEq, Eq, Structural)]
pub struct StencilFaceState {
    pub fail_op: StencilOp,
    pub pass_op: StencilOp,
    pub depth_fail_op: StencilOp,
    pub compare_op: CompareOp,
    pub compare_mask: u32,
    pub write_mask: u32,
    pub reference: u32,
}

/// Fixed-function state a graphics description implies.
pub struct GraphicsPipelineState {
    /// The vertex stage, then the fragment stage, each entered at `main`.
    pub shader_stages: Vec<ShaderStage>,
    /// One alpha-blended ("over") attachment per color format, at least one.
    pub color_blend_attachment_count: usize,
    pub dynamic_states: Vec<DynamicState>,
    pub primitive_restart: bool,
    pub cull_mode: CullMode,
    pub front_face: FrontFace,
    pub depth_bias_enable: bool,
    pub depth_test_enable: bool,
    pub depth_write_enable: bool,
    /// Depth comparison, always less-or-equal.
    pub depth_compare_op: CompareOp,
    /// Front and back stencil states, present when stencil is enabled.
    pub stencil: Option<(StencilFaceState, StencilFaceState)>,
}

/// `VK_SHADER_STAGE_VERTEX_BIT`.
pub const SHADER_STAGE_VERTEX: u32 = 0x1;

/// One shader stage of a pipeline: the stage bit, its module and the name
/// of its entry point.
#[derive(Clone, Copy, Debug, PartialEq, Eq)]
pub struct ShaderStage {
    pub stage: u32,
    pub module: u64,
    pub entry_point: &'static str,
}

/// A line topology or line polygon mode, or line width not opted out of.
pub open spec fn spec_wants_line_width(g: GraphicsInfo) -> bool {
    let t = g.vertex_in.topology;
    t == TOPOLOGY_LINE_LIST || t == TOPOLOGY_LINE_STRIP || t == TOPOLOGY_LINE_LIST_WITH_ADJACENCY
        || t == TOPOLOGY_LINE_STRIP_WITH_ADJACENCY || g.rasterization_polygon_mode == POLYGON_MODE_LINE
        || !g.pipeline_flags.spec_contains(PipelineFlags::NO_LINE_DYNAMIC_STATE)
}

/// Strip topologies restart primitives.
pub open spec fn spec_is_strip(topology: i32) -> bool {
    topology == TOPOLOGY_LINE_STRIP || topology == TOPOLOGY_LINE_STRIP_WITH_ADJACENCY || topology
        == TOPOLOGY_TRIANGLE_STRIP || topology == TOPOLOGY_TRIANGLE_STRIP_WITH_ADJACENCY
}

/// Culling chosen by the flags: both bits cull both faces.
pub open spec fn spec_cull_mode(f: PipelineFlags) -> CullMode {
    if f.spec_contains(PipelineFlags::CULL_ALL) {
        CullMode::FrontAndBack
    } else if f.spec_contains(PipelineFlags::CULL_BACK) {
        CullMode::Back
    } else if f.spec_contains(PipelineFlags::CULL_FRONT) {
        CullMode::Front
    } else {
        CullMode::Off
    }
}

/// The rasterization choices a description's topology, polygon mode and
/// flags make: strip topologies (line strips and triangle strips, with or
/// without adjacency) restart primitives and no list does; the line width
/// is dynamic for any line topology, for wireframe, and whenever the flags
/// do not opt out; the back-cull bit culls back faces and the front-cull bit
/// front faces, each independently of the other.
pub proof fn lemma_rasterization_choices(g: GraphicsInfo)
    ensures
        spec_is_strip(g.vertex_in.topology) <==> (g.vertex_in.topology == 2 || g.vertex_in.topology == 4
            || g.vertex_in.topology == 7 || g.vertex_in.topology == 9),
        spec_wants_line_width(g) <==> (g.vertex_in.topology == 1 || g.vertex_in.topology == 2
            || g.vertex_in.topology == 6 || g.vertex_in.topology == 7 || g.rasterization_polygon_mode == 1
            || g.pipeline_flags.0 & 128u32 == 0),
        (spec_cull_mode(g.pipeline_flags) == CullMode::Back || spec_cull_mode(g.pipeline_flags)
            == CullMode::FrontAndBack) <==> g.pipeline_flags.0 & 4u32 == 4u32,
        (spec_cull_mode(g.pipeline_flags) == CullMode::Front || spec_cull_mode(g.pipeline_flags)
            == CullMode::FrontAndBack) <==> g.pipeline_flags.0 & 2u32 == 2u32,
{
    let f = g.pipeline_flags.0;
    assert((f & 128u32 == 128u32) <==> !(f & 128u32 == 0)) by (bit_vector);
    assert((f & 6u32 == 6u32) <==> (f & 4u32 == 4u32 && f & 2u32 == 2u32)) by (bit_vector);
}

/// Both stencil faces compare as the description says: not-equal draws
/// only outside the pixels marked with the reference, equal only over them,
/// and off or always pass everywhere; both faces test against the
/// description's reference through its compare mask and write its write
/// mask.
pub proof fn lemma_stencil_compare_follows_description(g: GraphicsInfo)
    ensures
        ({
            let (front, back) = spec_stencil_faces(g);
            &&& front.compare_op == back.compare_op
            &&& (g.stencil_compare_op == StencilCompareOp::NotEqual) <==> front.compare_op == CompareOp::NotEqual
            &&& (g.stencil_compare_op == StencilCompareOp::Equal) <==> front.compare_op == CompareOp::Equal
            &&& (g.stencil_compare_op == StencilCompareOp::Off || g.stencil_compare_op == StencilCompareOp::Always)
                <==> front.compare_op == CompareOp::Always
            &&& front.reference == g.stencil_reference && back.reference == g.stencil_reference
            &&& front.compare_mask == g.stencil_compare_mask && back.compare_mask == g.stencil_compare_mask
            &&& front.write_mask == g.stencil_write_mask && back.write_mask == g.stencil_write_mask
        }),
{
}

/// What each stencil logic setting does to the stencil buffer: off keeps it;
/// replace writes the reference where a fragment passes, on both faces;
/// counting depth passes decrements on front faces and increments on back
/// faces where the depth test passes; counting depth failures increments on
/// front faces and decrements on back faces where it fails. Every other
/// outcome keeps the stencil value.
pub proof fn lemma_stencil_ops_follow_description(g: GraphicsInfo)
    ensures
        ({
            let (front, back) = spec_stencil_faces(g);
            &&& front.fail_op == StencilOp::Keep && back.fail_op == StencilOp::Keep
            &&& match g.stencil_logic_op {
                StencilLogicOp::Off => {
                    &&& front.pass_op == StencilOp::Keep && back.pass_op == StencilOp::Keep
                    &&& front.depth_fail_op == StencilOp::Keep && back.depth_fail_op == StencilOp::Keep
                },
                StencilLogicOp::Replace => {
                    &&& front.pass_op == StencilOp::Replace && back.pass_op == StencilOp::Replace
                    &&& front.depth_fail_op == StencilOp::Keep && back.depth_fail_op == StencilOp::Keep
                },
                StencilLogicOp::CountDepthPass => {
                    &&& front.pass_op == StencilOp::DecrementAndWrap
                    &&& back.pass_op == StencilOp::IncrementAndWrap
                    &&& front.depth_fail_op == StencilOp::Keep && back.depth_fail_op == StencilOp::Keep
                },
                StencilLogicOp::CountDepthFail => {
                    &&& front.pass_op == StencilOp::Keep && back.pass_op == StencilOp::Keep
                    &&& front.depth_fail_op == StencilOp::IncrementAndWrap
                    &&& back.depth_fail_op == StencilOp::DecrementAndWrap
                },
            }
        }),
{
}

/// Stencil comparison for a compare setting: off means always pass.
pub open spec fn spec_stencil_compare(op: StencilCompareOp) -> CompareOp {
    match op {
        StencilCompareOp::Off => CompareOp::Always,
        StencilCompareOp::Always => CompareOp::Always,
        StencilCompareOp::Equal => CompareOp::Equal,
        StencilCompareOp::NotEqual => CompareOp::NotEqual,
    }
}

/// Front and back stencil states for a description with stencil enabled.
pub open spec fn spec_stencil_faces(g: GraphicsInfo) -> (StencilFaceState, StencilFaceState) {
    let base = StencilFaceState {
        fail_op: StencilOp::Keep,
        pass_op: StencilOp::Keep,
        depth_fail_op: StencilOp::Keep,
        compare_op: spec_stencil_compare(g.stencil_compare_op),
        compare_mask: g.stencil_compare_mask,
        write_mask: g.stencil_write_mask,
        reference: g.stencil_reference,
    };
    match g.stencil_logic_op {
        StencilLogicOp::Off => (base, base),
        StencilLogicOp::Replace => {
            let f = StencilFaceState { pass_op: StencilOp::Replace, ..base };
            (f, f)
        },
        StencilLogicOp::CountDepthPass => (
            StencilFaceState { pass_op: StencilOp::DecrementAndWrap, ..base },
            StencilFaceState { pass_op: StencilOp::IncrementAndWrap, ..base },
        ),
        StencilLogicOp::CountDepthFail => (
            StencilFaceState { depth_fail_op: StencilOp::IncrementAndWrap, ..base },
            StencilFaceState { depth_fail_op: StencilOp::DecrementAndWrap, ..base },
        ),
    }
}

impl GraphicsInfo {
    /// Fixed-function state of this description: blend attachments, dynamic
    /// states, primitive restart, culling, winding, depth and stencil.
    pub fn pipeline_state(&self) -> (r: GraphicsPipelineState)
        ensures
            r.shader_stages@.len() == 2,
            r.shader_stages@[0].stage == SHADER_STAGE_VERTEX,
            r.shader_stages@[0].module == self.pre_rasterization.vertex_module,
            r.shader_stages@[0].entry_point@ == "main"@,
            r.shader_stages@[1].stage == SHADER_STAGE_FRAGMENT,
            r.shader_stages@[1].module == self.fragment_shader.fragment_module,
            r.shader_stages@[1].entry_point@ == "main"@,
            r.color_blend_attachment_count == (if self.fragment_out.color_attachment_formats@.len()
                == 0 {
                1
            } else {
                self.fragment_out.color_attachment_formats@.len()
            }),
            r.dynamic_states@ == (if spec_wants_line_width(*self) {
                seq![DynamicState::Viewport, DynamicState::Scissor, DynamicState::LineWidth]
            } else {
                seq![DynamicState::Viewport, DynamicState::Scissor]
            }),
            r.primitive_restart == spec_is_strip(self.vertex_in.topology),
            r.cull_mode == spec_cull_mode(self.pipeline_flags),
            r.front_face == (if self.pipeline_flags.spec_contains(PipelineFlags::INVERT_FRONT_FACE) {
                FrontFace::Clockwise
            } else {
                FrontFace::CounterClockwise
            }),
            r.depth_bias_enable == self.pipeline_flags.spec_contains(PipelineFlags::DEPTH_BIAS),
            r.depth_test_enable == !self.pipeline_flags.spec_contains(PipelineFlags::NO_DEPTH_TEST),
            r.depth_write_enable == !self.pipeline_flags.spec_contains(PipelineFlags::NO_DEPTH_WRITE),
            r.depth_compare_op == CompareOp::LessOrEqual,
            r.stencil == (if self.pipeline_flags.spec_contains(PipelineFlags::STENCIL_ENABLE) {
                Some(spec_stencil_faces(*self))
            } else {
                None
            }),
            r.stencil matches Some((front, back)) ==> {
                &&& front.compare_op == back.compare_op
                &&& front.compare_op == match self.stencil_compare_op {
                    StencilCompareOp::NotEqual => CompareOp::NotEqual,
                    StencilCompareOp::Equal => CompareOp::Equal,
                    _ => CompareOp::Always,
                }
            },
    {
        proof {
            lemma_stencil_compare_follows_description(*self);
        }
        let flags = self.pipeline_flags;
        let n = self.fragment_out.color_attachment_formats.len();
        let color_blend_attachment_count = if n == 0 {
            1
        } else {
            n
        };
        let mut dynamic_states: Vec<DynamicState> = Vec::with_capacity(3);
        dynamic_states.push(DynamicState::Viewport);
        dynamic_states.push(DynamicState::Scissor);
        let t = self.vertex_in.topology;
        if t == TOPOLOGY_LINE_LIST || t == TOPOLOGY_LINE_STRIP || t
            == TOPOLOGY_LINE_LIST_WITH_ADJACENCY || t == TOPOLOGY_LINE_STRIP_WITH_ADJACENCY
            || self.rasterization_polygon_mode == POLYGON_MODE_LINE || !flags.contains(
            PipelineFlags(PipelineFlags::NO_LINE_DYNAMIC_STATE),
        ) {
            dynamic_states.push(DynamicState::LineWidth);
        }
        let primitive_restart = t == TOPOLOGY_LINE_STRIP || t == TOPOLOGY_LINE_STRIP_WITH_ADJACENCY
            || t == TOPOLOGY_TRIANGLE_STRIP || t == TOPOLOGY_TRIANGLE_STRIP_WITH_ADJACENCY;
        let cull_mode = if flags.contains(PipelineFlags(PipelineFlags::CULL_ALL)) {
            CullMode::FrontAndBack
        } else if flags.contains(PipelineFlags(PipelineFlags::CULL_BACK)) {
            CullMode::Back
        } else if flags.contains(PipelineFlags(PipelineFlags::CULL_FRONT)) {
            CullMode::Front
        } else {
            CullMode::Off
        };
        let front_face = if flags.contains(PipelineFlags(PipelineFlags::INVERT_FRONT_FACE)) {
            FrontFace::Clockwise
        } else {
            FrontFace::CounterClockwise
        };
        let stencil = if flags.contains(PipelineFlags(PipelineFlags::STENCIL_ENABLE)) {
            let compare_op = match self.stencil_compare_op {
                StencilCompareOp::Off => CompareOp::Always,
                StencilCompareOp::Always => CompareOp::Always,
                StencilCompareOp::Equal => CompareOp::Equal,
                StencilCompareOp::NotEqual => CompareOp::NotEqual,
            };
            let base = StencilFaceState {
                fail_op: StencilOp::Keep,
                pass_op: StencilOp::Keep,
                depth_fail_op: StencilOp::Keep,
                compare_op,
                compare_mask: self.stencil_compare_mask,
                write_mask: self.stencil_write_mask,
                reference: self.stencil_reference,
            };
            let faces = match self.stencil_logic_op {
                StencilLogicOp::Off => (base, base),
                StencilLogicOp::Replace => {
                    let f = StencilFaceState { pass_op: StencilOp::Replace, ..base };
                    (f, f)
                },
                StencilLogicOp::CountDepthPass => (
                    StencilFaceState { pass_op: StencilOp::DecrementAndWrap, ..base },
                    StencilFaceState { pass_op: StencilOp::IncrementAndWrap, ..base },
                ),
                StencilLogicOp::CountDepthFail => (
                    StencilFaceState { depth_fail_op: StencilOp::IncrementAndWrap, ..base },
                    StencilFaceState { depth_fail_op: StencilOp::DecrementAndWrap, ..base },
                ),
            };
            Some(faces)
        } else {
            None
        };
        let mut shader_stages: Vec<ShaderStage> = Vec::with_capacity(2);
        shader_stages.push(
            ShaderStage { stage: SHADER_STAGE_VERTEX, module: self.pre_rasterization.vertex_module, entry_point: "main" },
        );
        shader_stages.push(
            ShaderStage {
                stage: SHADER_STAGE_FRAGMENT,
                module: self.fragment_shader.fragment_module,
                entry_point: "main",
            },
        );
        let r = GraphicsPipelineState {
            shader_stages,
            color_blend_attachment_count,
            dynamic_states,
            primitive_restart,
            cull_mode,
            front_face,
            depth_bias_enable: flags.contains(PipelineFlags(PipelineFlags::DEPTH_BIAS)),
            depth_test_enable: !flags.contains(PipelineFlags(PipelineFlags::NO_DEPTH_TEST)),
            depth_write_enable: !flags.contains(PipelineFlags(PipelineFlags::NO_DEPTH_WRITE)),
            depth_compare_op: CompareOp::LessOrEqual,
            stencil,
        };
        proof {
            if spec_wants_line_width(*self) {
                assert(r.dynamic_states@ =~= seq![
                    DynamicState::Viewport,
                    DynamicState::Scissor,
                    DynamicState::LineWidth,
                ]);
            } else {
                assert(r.dynamic_states@ =~= seq![DynamicState::Viewport, DynamicState::Scissor]);
            }
        }
        r
    }
}

impl ComputeInfo {
    /// A compute pipeline carries specialization data exactly when it has
    /// specialization entries.
    pub fn has_specialization(&self) -> (r: bool)
        ensures
            r == (self.specialization_constants@.len() > 0),
    {
        self.specialization_constants.len() > 0
    }
}

/// Pipelines by cache key.
#[verifier::external_body]
pub struct PipelineTable {
    inner: hashbrown::HashMap<u64, u64>,
}

/// Contents of a [`PipelineTable`]: cache key to raw `VkPipeline`.
pub uninterp spec fn pipeline_table_contents(t: PipelineTable) -> Map<u64, u64>;

impl PipelineTable {
    /// `hashbrown::HashMap::with_capacity`: an empty map.
    #[verifier::external_body]
    pub(crate) fn with_capacity(capacity: usize) -> (table: Self)
        ensures
            pipeline_table_contents(table) =~= Map::empty(),
    {
        PipelineTable { inner: hashbrown::HashMap::with_capacity(capacity) }
    }

    /// `hashbrown::HashMap::get`: the value stored under `key`, if any.
    #[verifier::external_body]
    pub(crate) fn get(&self, key: u64) -> (r: Option<u64>)
        ensures
            r == (if pipeline_table_contents(*self).contains_key(key) {
                Some(pipeline_table_contents(*self)[key])
            } else {
                None
            }),
    {
        self.inner.get(&key).copied()
    }

    /// `hashbrown::HashMap::insert`: stores `value` under `key`, returning the
    /// value it replaces.
    #[verifier::external_body]
    pub(crate) fn insert(&mut self, key: u64, value: u64) -> (r: Option<u64>)
        ensures
            r == (if pipeline_table_contents(*old(self)).contains_key(key) {
                Some(pipeline_table_contents(*old(self))[key])
            } else {
                None
            }),
            pipeline_table_contents(*final(self)) == pipeline_table_contents(*old(self)).insert(
                key,
                value,
            ),
    {
        self.inner.insert(key, value)
    }

    /// `hashbrown::HashMap::remove`: takes out the value stored under `key`.
    #[verifier::external_body]
    pub(crate) fn remove(&mut self, key: u64) -> (r: Option<u64>)
        ensures
            r == (if pipeline_table_contents(*old(self)).contains_key(key) {
                Some(pipeline_table_contents(*old(self))[key])
            } else {
                None
            }),
            pipeline_table_contents(*final(self)) == pipeline_table_contents(*old(self)).remove(key),
    {
        self.inner.remove(&key)
    }

    /// `hashbrown::HashMap::drain`, collected: empties the map and returns
    /// its values, one per key, in the map's iteration order.
    #[verifier::external_body]
    pub(crate) fn drain_values(&mut self) -> (r: Vec<u64>)
        ensures
            pipeline_table_contents(*final(self)) =~= Map::empty(),
            r@.len() == pipeline_table_contents(*old(self)).dom().len(),
            forall|v: u64|
                r@.contains(v) <==> exists|k: u64|
                    #[trigger] pipeline_table_contents(*old(self)).contains_key(k)
                        && pipeline_table_contents(*old(self))[k] == v,
    {
        self.inner.drain().map(|(_, v)| v).collect()
    }
}

/// Graphics and compute pipelines created so far, by cache key, and the
/// driver's pipeline cache object.
pub struct PipelinePool {
    graphics_pipelines: PipelineTable,
    compute_pipelines: PipelineTable,
    vk_pipeline_cache: u64,
}

impl PipelinePool {
    /// Cached graphics pipelines.
    pub closed spec fn graphics(&self) -> Map<u64, u64> {
        pipeline_table_contents(self.graphics_pipelines)
    }

    /// Cached compute pipelines.
    pub closed spec fn computes(&self) -> Map<u64, u64> {
        pipeline_table_contents(self.compute_pipelines)
    }

    /// The driver cache handle.
    pub closed spec fn cache(&self) -> u64 {
        self.vk_pipeline_cache
    }

    /// An empty pool around a newly created driver cache.
    pub fn new(vk_pipeline_cache: u64) -> (r: Self)
        ensures
            r.graphics() =~= Map::<u64, u64>::empty(),
            r.computes() =~= Map::<u64, u64>::empty(),
            r.cache() == vk_pipeline_cache,
    {
        PipelinePool {
            graphics_pipelines: PipelineTable::with_capacity(16),
            compute_pipelines: PipelineTable::with_capacity(16),
            vk_pipeline_cache,
        }
    }

    /// The driver cache handle.
    pub fn pipeline_cache(&self) -> (r: u64)
        ensures
            r == self.cache(),
    {
        self.vk_pipeline_cache
    }

    /// The graphics pipeline cached under `key`, if any.
    pub fn get_graphics_pipeline(&self, key: PipelineKey) -> (r: Option<u64>)
        ensures
            r == (if self.graphics().contains_key(key.0) {
                Some(self.graphics()[key.0])
            } else {
                None
            }),
    {
        self.graphics_pipelines.get(key.0)
    }

    /// The compute pipeline cached under `key`, if any.
    pub fn get_compute_pipeline(&self, key: PipelineKey) -> (r: Option<u64>)
        ensures
            r == (if self.computes().contains_key(key.0) {
                Some(self.computes()[key.0])
            } else {
                None
            }),
    {
        self.compute_pipelines.get(key.0)
    }

    /// Removes the graphics pipeline cached under `key` and hands it to
    /// `discard` with `timeline`; false when there was none.
    pub fn discard_graphics_pipeline_if_present<D: FnOnce(u64, u64)>(
        &mut self,
        key: PipelineKey,
        discard: D,
        timeline: u64,
    ) -> (r: bool)
        requires
            forall|p: u64, t: u64| call_requires(discard, (p, t)),
        ensures
            r == old(self).graphics().contains_key(key.0),
            final(self).graphics() == old(self).graphics().remove(key.0),
            final(self).computes() == old(self).computes(),
            final(self).cache() == old(self).cache(),
            r ==> call_ensures(discard, (old(self).graphics()[key.0], timeline), ()),
    {
        match self.graphics_pipelines.remove(key.0) {
            Some(pipeline) => {
                discard(pipeline, timeline);
                true
            },
            None => false,
        }
    }

    /// Removes the compute pipeline cached under `key` and hands it to
    /// `discard` with `timeline`; false when there was none.
    pub fn discard_compute_pipeline_if_present<D: FnOnce(u64, u64)>(
        &mut self,
        key: PipelineKey,
        discard: D,
        timeline: u64,
    ) -> (r: bool)
        requires
            forall|p: u64, t: u64| call_requires(discard, (p, t)),
        ensures
            r == old(self).computes().contains_key(key.0),
            final(self).computes() == old(self).computes().remove(key.0),
            final(self).graphics() == old(self).graphics(),
            final(self).cache() == old(self).cache(),
            r ==> call_ensures(discard, (old(self).computes()[key.0], timeline), ()),
    {
        match self.compute_pipelines.remove(key.0) {
            Some(pipeline) => {
                discard(pipeline, timeline);
                true
            },
            None => false,
        }
    }

    /// The compute pipeline for `info`: the cached one when its key is
    /// present, otherwise one created by `create` from the driver cache and
    /// then cached.
    pub fn get_or_create_compute_pipeline<F: FnOnce(u64) -> Result<u64, i32>>(
        &mut self,
        create: F,
        info: &ComputeInfo,
    ) -> (r: Result<u64, i32>)
        requires
            forall|c: u64| call_requires(create, (c,)),
        ensures
            final(self).graphics() == old(self).graphics(),
            final(self).cache() == old(self).cache(),
            ({
                let key = fnv1a(compute_info_bytes(*info));
                if old(self).computes().contains_key(key) {
                    r == Ok::<u64, i32>(old(self).computes()[key]) && final(self).computes()
                        == old(self).computes()
                } else {
                    exists|o: Result<u64, i32>|
                        #[trigger] call_ensures(create, (old(self).cache(),), o) && r == o && match o {
                            Ok(p) => final(self).computes() == old(self).computes().insert(key, p),
                            Err(_) => final(self).computes() == old(self).computes(),
                        }
                }
            }),
    {
        let key = info.pipeline_key();
        assert(key.0 == fnv1a(compute_info_bytes(*info)));
        match self.compute_pipelines.get(key.0) {
            Some(pipeline) => {
                Ok(pipeline)
            },
            None => {
                let cache = self.vk_pipeline_cache;
                let res = create(cache);
                assert(call_ensures(create, (cache,), res));
                assert(cache == old(self).cache());
                match res {
                    Ok(pipeline) => {
                        let _ = self.compute_pipelines.insert(key.0, pipeline);
                        assert(final(self).computes() == old(self).computes().insert(key.0, pipeline));
                    },
                    Err(_) => {
                        assert(final(self).computes() == old(self).computes());
                    },
                }
                res
            },
        }
    }

    /// The graphics pipeline for `info`: the cached one when its key is
    /// present, otherwise one created by `create` from the driver cache and
    /// then cached.
    pub fn get_or_create_graphics_pipeline<F: FnOnce(u64) -> Result<u64, i32>>(
        &mut self,
        create: F,
        info: &GraphicsInfo,
    ) -> (r: Result<u64, i32>)
        requires
            forall|c: u64| call_requires(create, (c,)),
        ensures
            final(self).computes() == old(self).computes(),
            final(self).cache() == old(self).cache(),
            ({
                let key = fnv1a(graphics_info_bytes(*info));
                if old(self).graphics().contains_key(key) {
                    r == Ok::<u64, i32>(old(self).graphics()[key]) && final(self).graphics()
                        == old(self).graphics()
                } else {
                    exists|o: Result<u64, i32>|
                        #[trigger] call_ensures(create, (old(self).cache(),), o) && r == o && match o {
                            Ok(p) => final(self).graphics() == old(self).graphics().insert(key, p),
                            Err(_) => final(self).graphics() == old(self).graphics(),
                        }
                }
            }),
    {
        let key = info.pipeline_key();
        match self.graphics_pipelines.get(key.0) {
            Some(pipeline) => Ok(pipeline),
            None => {
                let cache = self.vk_pipeline_cache;
                let res = create(cache);
                assert(call_ensures(create, (cache,), res));
                assert(cache == old(self).cache());
                match res {
                    Ok(pipeline) => {
                        let _ = self.graphics_pipelines.insert(key.0, pipeline);
                        assert(final(self).graphics() == old(self).graphics().insert(key.0, pipeline));
                    },
                    Err(_) => {
                        assert(final(self).graphics() == old(self).graphics());
                    },
                }
                res
            },
        }
    }

    /// Empties both caches and returns every pipeline to destroy, graphics
    /// first; the driver cache handle is returned alongside.
    pub fn cleanup(&mut self) -> (r: (Vec<u64>, u64))
        ensures
            final(self).graphics() =~= Map::<u64, u64>::empty(),
            final(self).computes() =~= Map::<u64, u64>::empty(),
            r.1 == old(self).cache(),
            forall|p: u64|
                r.0@.contains(p) <==> (exists|k: u64|
                    #[trigger] old(self).graphics().contains_key(k) && old(self).graphics()[k] == p)
                    || (exists|k: u64|
                    #[trigger] old(self).computes().contains_key(k) && old(self).computes()[k] == p),
    {
        let ghost og = self.graphics();
        let ghost oc = self.computes();
        let mut out = self.graphics_pipelines.drain_values();
        let mut rest = self.compute_pipelines.drain_values();
        let ghost g = out@;
        let ghost c = rest@;
        assert forall|p: u64| g.contains(p) <==> exists|k: u64| #[trigger] og.contains_key(k) && og[k] == p by {}
        assert forall|p: u64| c.contains(p) <==> exists|k: u64| #[trigger] oc.contains_key(k) && oc[k] == p by {}
        out.append(&mut rest);
        proof {
            assert(out@ == g + c);
            assert forall|p: u64| out@.contains(p) <==> (g.contains(p) || c.contains(p)) by {
                if out@.contains(p) {
                    let i = choose|i: int| 0 <= i < out@.len() && out@[i] == p;
                    if i < g.len() {
                        assert(g[i] == p);
                    } else {
                        assert(c[i - g.len()] == p);
                    }
                }
                if g.contains(p) {
                    let i = choose|i: int| 0 <= i < g.len() && g[i] == p;
                    assert(out@[i] == p);
                }
                if c.contains(p) {
                    let i = choose|i: int| 0 <= i < c.len() && c[i] == p;
                    assert(out@[i + g.len()] == p);
                }
            }
            assert forall|p: u64|
                out@.contains(p) <==> (exists|k: u64|
                    #[trigger] og.contains_key(k) && og[k] == p) || (exists|k: u64|
                    #[trigger] oc.contains_key(k) && oc[k] == p) by {
                assert(out@.contains(p) <==> (g.contains(p) || c.contains(p)));
                assert(g.contains(p) <==> exists|k: u64| #[trigger] og.contains_key(k) && og[k] == p);
                assert(c.contains(p) <==> exists|k: u64| #[trigger] oc.contains_key(k) && oc[k] == p);
            }
        }
        (out, self.vk_pipeline_cache)
    }
}

/// Asking twice for the pipeline of the same description gives the
/// pipeline the first request cached, without creating another: after a
/// request that cached `p` under the description's key, the key maps to `p`.
pub proof fn lemma_second_request_hits_cache(pool_computes: Map<u64, u64>, info: ComputeInfo, p: u64)
    ensures
        ({
            let key = fnv1a(compute_info_bytes(info));
            let after = pool_computes.insert(key, p);
            after.contains_key(key) && after[key] == p
        }),
{
}

/// A copy of `v`.
fn copy_vec<T: Copy>(v: &Vec<T>) -> (r: Vec<T>)
    ensures
        r@ == v@,
{
    let mut out: Vec<T> = Vec::with_capacity(v.len());
    let mut i: usize = 0;
    while i < v.len()
        invariant
            0 <= i <= v@.len(),
            out@ == v@.subrange(0, i as int),
        decreases v@.len() - i,
    {
        out.push(v[i]);
        i = i + 1;
        assert(out@ =~= v@.subrange(0, i as int));
    }
    assert(out@ =~= v@);
    out
}

impl GraphicsInfo {
    /// Every part equal except the color attachment formats and the render
    /// pass, the two that follow the presentation target.
    pub open spec fn same_except_target(&self, other: &Self) -> bool {
        &&& self.specialization_constants@ == other.specialization_constants@
        &&& self.specialization_constants_values@ == other.specialization_constants_values@
        &&& self.vertex_in.topology == other.vertex_in.topology
        &&& self.vertex_in.attributes@ == other.vertex_in.attributes@
        &&& self.vertex_in.bindings@ == other.vertex_in.bindings@
        &&& self.pre_rasterization == other.pre_rasterization
        &&& self.fragment_shader.fragment_module == other.fragment_shader.fragment_module
        &&& self.fragment_shader.viewports@ == other.fragment_shader.viewports@
        &&& self.fragment_shader.scissors@ == other.fragment_shader.scissors@
        &&& self.fragment_out.depth_attachment_format == other.fragment_out.depth_attachment_format
        &&& self.fragment_out.stencil_attachment_format
            == other.fragment_out.stencil_attachment_format
        &&& self.pipeline_layout == other.pipeline_layout
        &&& self.pipeline_flags == other.pipeline_flags
        &&& self.subpass == other.subpass
        &&& self.rasterization_polygon_mode == other.rasterization_polygon_mode
        &&& self.stencil_compare_op == other.stencil_compare_op
        &&& self.stencil_logic_op == other.stencil_logic_op
        &&& self.stencil_reference == other.stencil_reference
        &&& self.stencil_compare_mask == other.stencil_compare_mask
        &&& self.stencil_write_mask == other.stencil_write_mask
    }

    /// Every part equal.
    pub open spec fn same_contents(&self, other: &Self) -> bool {
        &&& self.same_except_target(other)
        &&& self.fragment_out.color_attachment_formats@ == other.fragment_out.color_attachment_formats@
        &&& self.render_pass == other.render_pass
    }

    /// A copy of the description.
    pub fn duplicate(&self) -> (r: Self)
        ensures
            r.same_contents(self),
    {
        GraphicsInfo {
            specialization_constants: copy_vec(&self.specialization_constants),
            specialization_constants_values: copy_vec(&self.specialization_constants_values),
            vertex_in: VertexIn {
                topology: self.vertex_in.topology,
                attributes: copy_vec(&self.vertex_in.attributes),
                bindings: copy_vec(&self.vertex_in.bindings),
            },
            pre_rasterization: self.pre_rasterization,
            fragment_shader: FragmentShader {
                fragment_module: self.fragment_shader.fragment_module,
                viewports: copy_vec(&self.fragment_shader.viewports),
                scissors: copy_vec(&self.fragment_shader.scissors),
            },
            fragment_out: FragmentOut {
                color_attachment_formats: copy_vec(&self.fragment_out.color_attachment_formats),
                depth_attachment_format: self.fragment_out.depth_attachment_format,
                stencil_attachment_format: self.fragment_out.stencil_attachment_format,
            },
            pipeline_layout: self.pipeline_layout,
            pipeline_flags: self.pipeline_flags,
            render_pass: self.render_pass,
            subpass: self.subpass,
            rasterization_polygon_mode: self.rasterization_polygon_mode,
            stencil_compare_op: self.stencil_compare_op,
            stencil_logic_op: self.stencil_logic_op,
            stencil_reference: self.stencil_reference,
            stencil_compare_mask: self.stencil_compare_mask,
            stencil_write_mask: self.stencil_write_mask,
        }
    }
}

} // verus!
