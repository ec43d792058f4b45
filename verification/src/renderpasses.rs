//! Render passes of the presentation engines and of pipeline creation.
//!
//! A presentation engine renders either in one subpass (color and depth)
//! or in three: a "macro" and a "micro" subpass each draw to their own
//! transient color and depth images, and a composite subpass reads the four
//! of them as input attachments and writes the swapchain color and depth:
//!
//! ```text
//! Attachments:
//!   [0] swapchainColor  — final output
//!   [1] swapchainDepth
//!   [2] macroColor      — RGBA8, transient
//!   [3] macroDepth      — transient
//!   [4] microColor      — RGBA8, transient
//!   [5] microDepth      — transient
//!
//! Subpass 0 (macro):     color=[2], depth=[3]
//! Subpass 1 (micro):     color=[4], depth=[5]
//! Subpass 2 (composite): color=[0], depth=[1], input=[2,3,4,5]
//! ```
//!
//! The descriptions here are plain data; the caller turns them into
//! `VkRenderPassCreateInfo2` and friends.
use crate::pipelines::{
    pipeline_table_contents, GraphicsInfo, PipelineFlags, PipelineTable, Rect2D, Viewport,
    TOPOLOGY_TRIANGLE_LIST,
};
use vstd::prelude::*;

verus! {

/// `VK_SUBPASS_EXTERNAL`.
pub const SUBPASS_EXTERNAL: u32 = 0xFFFF_FFFF;

/// Attachments of a render pass, at most.
pub const MAX_ATTACHMENTS: usize = 8;

/// `VK_IMAGE_LAYOUT_UNDEFINED`.
pub const LAYOUT_UNDEFINED: i32 = 0;
/// `VK_IMAGE_LAYOUT_COLOR_ATTACHMENT_OPTIMAL`.
pub const LAYOUT_COLOR_ATTACHMENT_OPTIMAL: i32 = 2;
/// `VK_IMAGE_LAYOUT_DEPTH_STENCIL_ATTACHMENT_OPTIMAL`.
pub const LAYOUT_DEPTH_STENCIL_ATTACHMENT_OPTIMAL: i32 = 3;
/// `VK_IMAGE_LAYOUT_DEPTH_STENCIL_READ_ONLY_OPTIMAL`.
pub const LAYOUT_DEPTH_STENCIL_READ_ONLY_OPTIMAL: i32 = 4;
/// `VK_IMAGE_LAYOUT_SHADER_READ_ONLY_OPTIMAL`.
pub const LAYOUT_SHADER_READ_ONLY_OPTIMAL: i32 = 5;
/// `VK_IMAGE_LAYOUT_TRANSFER_SRC_OPTIMAL`.
pub const LAYOUT_TRANSFER_SRC_OPTIMAL: i32 = 6;
/// `VK_IMAGE_LAYOUT_PRESENT_SRC_KHR`.
pub const LAYOUT_PRESENT_SRC: i32 = 1_000_001_002;

/// `VK_FORMAT_R8G8B8A8_UNORM`, the transient color format.
pub const FORMAT_R8G8B8A8_UNORM: i32 = 37;

/// `VK_ATTACHMENT_LOAD_OP_CLEAR`.
pub const LOAD_OP_CLEAR: i32 = 1;
/// `VK_ATTACHMENT_LOAD_OP_DONT_CARE`.
pub const LOAD_OP_DONT_CARE: i32 = 2;
/// `VK_ATTACHMENT_STORE_OP_STORE`.
pub const STORE_OP_STORE: i32 = 0;
/// `VK_ATTACHMENT_STORE_OP_DONT_CARE`.
pub const STORE_OP_DONT_CARE: i32 = 1;

/// `VK_IMAGE_ASPECT_COLOR_BIT`.
pub const ASPECT_COLOR: u32 = 1;
/// `VK_IMAGE_ASPECT_DEPTH_BIT`.
pub const ASPECT_DEPTH: u32 = 2;
/// `VK_IMAGE_ASPECT_DEPTH_BIT | VK_IMAGE_ASPECT_STENCIL_BIT`.
pub const ASPECT_DEPTH_STENCIL: u32 = 6;

/// `VK_IMAGE_USAGE_TRANSFER_SRC_BIT`.
pub const USAGE_TRANSFER_SRC: u32 = 0x1;
/// `VK_IMAGE_USAGE_SAMPLED_BIT`.
pub const USAGE_SAMPLED: u32 = 0x4;
/// `VK_IMAGE_USAGE_COLOR_ATTACHMENT_BIT`.
pub const USAGE_COLOR_ATTACHMENT: u32 = 0x10;
/// `VK_IMAGE_USAGE_DEPTH_STENCIL_ATTACHMENT_BIT`.
pub const USAGE_DEPTH_STENCIL_ATTACHMENT: u32 = 0x20;
/// `VK_IMAGE_USAGE_INPUT_ATTACHMENT_BIT`.
pub const USAGE_INPUT_ATTACHMENT: u32 = 0x80;

/// `VK_PIPELINE_STAGE_FRAGMENT_SHADER_BIT`.
pub const STAGE_FRAGMENT_SHADER: u64 = 0x80;
/// Color output and both fragment tests: where attachments are written.
pub const STAGE_ATTACHMENT_WRITES: u64 = 0x700;
/// `VK_PIPELINE_STAGE_TRANSFER_BIT`.
pub const STAGE_TRANSFER: u64 = 0x1000;
/// `VK_PIPELINE_STAGE_BOTTOM_OF_PIPE_BIT`.
pub const STAGE_BOTTOM_OF_PIPE: u64 = 0x2000;

/// `VK_ACCESS_INPUT_ATTACHMENT_READ_BIT`.
pub const ACCESS_INPUT_ATTACHMENT_READ: u64 = 0x10;
/// Color and depth-stencil attachment writes.
pub const ACCESS_ATTACHMENT_WRITES: u64 = 0x500;
/// Color and depth-stencil attachment reads and writes.
pub const ACCESS_ATTACHMENT_READ_WRITE: u64 = 0x780;
/// `VK_ACCESS_TRANSFER_READ_BIT`.
pub const ACCESS_TRANSFER_READ: u64 = 0x800;

/// One `VkAttachmentDescription2`, single-sampled.
#[derive(Clone, Copy, Debug, PartialEq, Eq, Structural)]
pub struct AttachmentDescription {
    pub format: i32,
    pub load_op: i32,
    pub store_op: i32,
    pub stencil_load_op: i32,
    pub stencil_store_op: i32,
    pub initial_layout: i32,
    pub final_layout: i32,
}

/// One `VkAttachmentReference2`.
#[derive(Clone, Copy, Debug, PartialEq, Eq, Structural)]
pub struct AttachmentReference {
    pub attachment: u32,
    pub layout: i32,
    pub aspect_mask: u32,
}

/// One graphics `VkSubpassDescription2`.
pub struct SubpassDescription {
    pub color_attachments: Vec<AttachmentReference>,
    pub depth_stencil_attachment: Option<AttachmentReference>,
    pub input_attachments: Vec<AttachmentReference>,
}

/// One `VkSubpassDependency2` (by region) and its chained
/// `VkMemoryBarrier2`. `legacy` tells whether the dependency's own stage
/// and access masks are set (to the same values) or left empty.
#[derive(Clone, Copy, Debug, PartialEq, Eq, Structural)]
pub struct SubpassDependency {
    pub src_subpass: u32,
    pub dst_subpass: u32,
    pub src_stage: u64,
    pub dst_stage: u64,
    pub src_access: u64,
    pub dst_access: u64,
    pub legacy: bool,
}

/// A `VkRenderPassCreateInfo2`.
pub struct RenderPassDescription {
    pub attachments: Vec<AttachmentDescription>,
    pub subpasses: Vec<SubpassDescription>,
    pub dependencies: Vec<SubpassDependency>,
}

/// The swapchain color attachment: cleared, stored, ending in
/// `final_layout`.
pub open spec fn swapchain_color(format: i32, final_layout: i32) -> AttachmentDescription {
    AttachmentDescription {
        format,
        load_op: LOAD_OP_CLEAR,
        store_op: STORE_OP_STORE,
        stencil_load_op: LOAD_OP_DONT_CARE,
        stencil_store_op: STORE_OP_DONT_CARE,
        initial_layout: LAYOUT_UNDEFINED,
        final_layout,
    }
}

/// A depth-stencil attachment: depth and stencil cleared, stored only when
/// `store` is asked (to read it back), ending as a depth-stencil attachment.
pub open spec fn depth_attachment(format: i32, store: bool) -> AttachmentDescription {
    AttachmentDescription {
        format,
        load_op: LOAD_OP_CLEAR,
        store_op: if store { STORE_OP_STORE } else { STORE_OP_DONT_CARE },
        stencil_load_op: LOAD_OP_CLEAR,
        stencil_store_op: if store { STORE_OP_STORE } else { STORE_OP_DONT_CARE },
        initial_layout: LAYOUT_UNDEFINED,
        final_layout: LAYOUT_DEPTH_STENCIL_ATTACHMENT_OPTIMAL,
    }
}

/// A transient color attachment: cleared, never stored.
pub open spec fn transient_color() -> AttachmentDescription {
    AttachmentDescription {
        format: FORMAT_R8G8B8A8_UNORM,
        load_op: LOAD_OP_CLEAR,
        store_op: STORE_OP_DONT_CARE,
        stencil_load_op: LOAD_OP_DONT_CARE,
        stencil_store_op: STORE_OP_DONT_CARE,
        initial_layout: LAYOUT_UNDEFINED,
        final_layout: LAYOUT_COLOR_ATTACHMENT_OPTIMAL,
    }
}

/// A reference to a color attachment written by a subpass.
pub open spec fn color_ref(attachment: u32) -> AttachmentReference {
    AttachmentReference { attachment, layout: LAYOUT_COLOR_ATTACHMENT_OPTIMAL, aspect_mask: ASPECT_COLOR }
}

/// A reference to a depth-stencil attachment written by a subpass.
pub open spec fn depth_ref(attachment: u32) -> AttachmentReference {
    AttachmentReference {
        attachment,
        layout: LAYOUT_DEPTH_STENCIL_ATTACHMENT_OPTIMAL,
        aspect_mask: ASPECT_DEPTH_STENCIL,
    }
}

/// Stage and access of the last dependency: the end of the pipe, or also
/// transfer reads when the color image is read back.
pub open spec fn final_dst(final_layout: i32, read_back: bool) -> (u64, u64) {
    if final_layout == LAYOUT_TRANSFER_SRC_OPTIMAL || read_back {
        (STAGE_TRANSFER | STAGE_BOTTOM_OF_PIPE, ACCESS_TRANSFER_READ)
    } else {
        (STAGE_BOTTOM_OF_PIPE, 0)
    }
}

/// See [`final_dst`].
pub fn final_dst_masks(final_layout: i32, read_back: bool) -> (r: (u64, u64))
    ensures
        r == final_dst(final_layout, read_back),
{
    if final_layout == LAYOUT_TRANSFER_SRC_OPTIMAL || read_back {
        (STAGE_TRANSFER | STAGE_BOTTOM_OF_PIPE, ACCESS_TRANSFER_READ)
    } else {
        (STAGE_BOTTOM_OF_PIPE, 0)
    }
}

/// The dependency from before the render pass to its first attachment
/// writes.
pub open spec fn entry_dependency(dst_subpass: u32, legacy: bool) -> SubpassDependency {
    SubpassDependency {
        src_subpass: SUBPASS_EXTERNAL,
        dst_subpass,
        src_stage: STAGE_BOTTOM_OF_PIPE,
        dst_stage: STAGE_ATTACHMENT_WRITES,
        src_access: 0,
        dst_access: ACCESS_ATTACHMENT_READ_WRITE,
        legacy,
    }
}

/// The dependency from the last attachment writes to what follows the
/// render pass.
pub open spec fn exit_dependency(src_subpass: u32, final_layout: i32, read_back: bool, legacy: bool) -> SubpassDependency {
    SubpassDependency {
        src_subpass,
        dst_subpass: SUBPASS_EXTERNAL,
        src_stage: STAGE_ATTACHMENT_WRITES,
        dst_stage: final_dst(final_layout, read_back).0,
        src_access: ACCESS_ATTACHMENT_READ_WRITE,
        dst_access: final_dst(final_layout, read_back).1,
        legacy,
    }
}

/// The dependency from a producing subpass's attachment writes to the
/// composite subpass's input attachment reads.
pub open spec fn input_dependency(src_subpass: u32) -> SubpassDependency {
    SubpassDependency {
        src_subpass,
        dst_subpass: 2,
        src_stage: STAGE_ATTACHMENT_WRITES,
        dst_stage: STAGE_FRAGMENT_SHADER,
        src_access: ACCESS_ATTACHMENT_WRITES,
        dst_access: ACCESS_INPUT_ATTACHMENT_READ,
        legacy: true,
    }
}

/// `d` describes one subpass writing `color` and `depth`, reading
/// `inputs`.
pub open spec fn is_subpass(
    d: SubpassDescription,
    color: AttachmentReference,
    depth: AttachmentReference,
    inputs: Seq<AttachmentReference>,
) -> bool {
    &&& d.color_attachments@ == seq![color]
    &&& d.depth_stencil_attachment == Some(depth)
    &&& d.input_attachments@ == inputs
}

fn subpass(color: AttachmentReference, depth: AttachmentReference, inputs: Vec<AttachmentReference>) -> (r:
    SubpassDescription)
    ensures
        is_subpass(r, color, depth, inputs@),
{
    let r = SubpassDescription {
        color_attachments: vec![color],
        depth_stencil_attachment: Some(depth),
        input_attachments: inputs,
    };
    assert(r.color_attachments@ =~= seq![color]);
    r
}

/// The single-subpass render pass: swapchain color and depth, one subpass
/// writing both, and the entry and exit dependencies (with empty legacy
/// masks). `read_back` keeps depth and stencil in memory and adds transfer
/// reads to the exit, for tests that read the images back.
pub fn single_render_pass_description(
    color_format: i32,
    depth_stencil_format: i32,
    final_color_layout: i32,
    read_back: bool,
) -> (r: RenderPassDescription)
    ensures
        r.attachments@ == seq![
            swapchain_color(color_format, final_color_layout),
            depth_attachment(depth_stencil_format, read_back),
        ],
        r.subpasses@.len() == 1,
        is_subpass(r.subpasses@[0], color_ref(0), depth_ref(1), Seq::empty()),
        r.dependencies@ == seq![
            entry_dependency(0, false),
            exit_dependency(0, final_color_layout, read_back, false),
        ],
{
    let store = if read_back { STORE_OP_STORE } else { STORE_OP_DONT_CARE };
    let attachments = vec![
        AttachmentDescription {
            format: color_format,
            load_op: LOAD_OP_CLEAR,
            store_op: STORE_OP_STORE,
            stencil_load_op: LOAD_OP_DONT_CARE,
            stencil_store_op: STORE_OP_DONT_CARE,
            initial_layout: LAYOUT_UNDEFINED,
            final_layout: final_color_layout,
        },
        AttachmentDescription {
            format: depth_stencil_format,
            load_op: LOAD_OP_CLEAR,
            store_op: store,
            stencil_load_op: LOAD_OP_CLEAR,
            stencil_store_op: store,
            initial_layout: LAYOUT_UNDEFINED,
            final_layout: LAYOUT_DEPTH_STENCIL_ATTACHMENT_OPTIMAL,
        },
    ];
    let sp = subpass(
        AttachmentReference { attachment: 0, layout: LAYOUT_COLOR_ATTACHMENT_OPTIMAL, aspect_mask: ASPECT_COLOR },
        AttachmentReference {
            attachment: 1,
            layout: LAYOUT_DEPTH_STENCIL_ATTACHMENT_OPTIMAL,
            aspect_mask: ASPECT_DEPTH_STENCIL,
        },
        Vec::new(),
    );
    let subpasses = vec![sp];
    let (dst_stage, dst_access) = final_dst_masks(final_color_layout, read_back);
    let dependencies = vec![
        SubpassDependency {
            src_subpass: SUBPASS_EXTERNAL,
            dst_subpass: 0,
            src_stage: STAGE_BOTTOM_OF_PIPE,
            dst_stage: STAGE_ATTACHMENT_WRITES,
            src_access: 0,
            dst_access: ACCESS_ATTACHMENT_READ_WRITE,
            legacy: false,
        },
        SubpassDependency {
            src_subpass: 0,
            dst_subpass: SUBPASS_EXTERNAL,
            src_stage: STAGE_ATTACHMENT_WRITES,
            dst_stage,
            src_access: ACCESS_ATTACHMENT_READ_WRITE,
            dst_access,
            legacy: false,
        },
    ];
    let r = RenderPassDescription { attachments, subpasses, dependencies };
    assert(r.attachments@ =~= seq![
        swapchain_color(color_format, final_color_layout),
        depth_attachment(depth_stencil_format, read_back),
    ]);
    assert(r.dependencies@ =~= seq![
        entry_dependency(0, false),
        exit_dependency(0, final_color_layout, read_back, false),
    ]);
    r
}

/// The compositing render pass of the module documentation: the swapchain
/// color and depth, two transient color and depth pairs (never stored),
/// the macro, micro and composite subpasses, and the dependencies entry →
/// macro, macro → composite, micro → composite and composite → exit (with
/// legacy masks). The composite subpass reads colors with their color
/// aspect and depths with their depth aspect only.
pub fn compositing_render_pass_description(
    color_format: i32,
    depth_stencil_format: i32,
    final_color_layout: i32,
    read_back: bool,
) -> (r: RenderPassDescription)
    ensures
        r.attachments@ == seq![
            swapchain_color(color_format, final_color_layout),
            depth_attachment(depth_stencil_format, read_back),
            transient_color(),
            depth_attachment(depth_stencil_format, false),
            transient_color(),
            depth_attachment(depth_stencil_format, false),
        ],
        r.subpasses@.len() == 3,
        is_subpass(r.subpasses@[0], color_ref(2), depth_ref(3), Seq::empty()),
        is_subpass(r.subpasses@[1], color_ref(4), depth_ref(5), Seq::empty()),
        is_subpass(
            r.subpasses@[2],
            color_ref(0),
            depth_ref(1),
            seq![
                AttachmentReference { attachment: 2, layout: LAYOUT_SHADER_READ_ONLY_OPTIMAL, aspect_mask: ASPECT_COLOR },
                AttachmentReference { attachment: 3, layout: LAYOUT_DEPTH_STENCIL_READ_ONLY_OPTIMAL, aspect_mask: ASPECT_DEPTH },
                AttachmentReference { attachment: 4, layout: LAYOUT_SHADER_READ_ONLY_OPTIMAL, aspect_mask: ASPECT_COLOR },
                AttachmentReference { attachment: 5, layout: LAYOUT_DEPTH_STENCIL_READ_ONLY_OPTIMAL, aspect_mask: ASPECT_DEPTH },
            ],
        ),
        r.dependencies@ == seq![
            entry_dependency(0, true),
            input_dependency(0),
            input_dependency(1),
            exit_dependency(2, final_color_layout, read_back, true),
        ],
{
    let store = if read_back { STORE_OP_STORE } else { STORE_OP_DONT_CARE };
    let depth_transient = AttachmentDescription {
        format: depth_stencil_format,
        load_op: LOAD_OP_CLEAR,
        store_op: STORE_OP_DONT_CARE,
        stencil_load_op: LOAD_OP_CLEAR,
        stencil_store_op: STORE_OP_DONT_CARE,
        initial_layout: LAYOUT_UNDEFINED,
        final_layout: LAYOUT_DEPTH_STENCIL_ATTACHMENT_OPTIMAL,
    };
    let color_transient = AttachmentDescription {
        format: FORMAT_R8G8B8A8_UNORM,
        load_op: LOAD_OP_CLEAR,
        store_op: STORE_OP_DONT_CARE,
        stencil_load_op: LOAD_OP_DONT_CARE,
        stencil_store_op: STORE_OP_DONT_CARE,
        initial_layout: LAYOUT_UNDEFINED,
        final_layout: LAYOUT_COLOR_ATTACHMENT_OPTIMAL,
    };
    let attachments = vec![
        AttachmentDescription {
            format: color_format,
            load_op: LOAD_OP_CLEAR,
            store_op: STORE_OP_STORE,
            stencil_load_op: LOAD_OP_DONT_CARE,
            stencil_store_op: STORE_OP_DONT_CARE,
            initial_layout: LAYOUT_UNDEFINED,
            final_layout: final_color_layout,
        },
        AttachmentDescription {
            format: depth_stencil_format,
            load_op: LOAD_OP_CLEAR,
            store_op: store,
            stencil_load_op: LOAD_OP_CLEAR,
            stencil_store_op: store,
            initial_layout: LAYOUT_UNDEFINED,
            final_layout: LAYOUT_DEPTH_STENCIL_ATTACHMENT_OPTIMAL,
        },
        color_transient,
        depth_transient,
        color_transient,
        depth_transient,
    ];
    let sp0 = subpass(
        AttachmentReference { attachment: 2, layout: LAYOUT_COLOR_ATTACHMENT_OPTIMAL, aspect_mask: ASPECT_COLOR },
        AttachmentReference {
            attachment: 3,
            layout: LAYOUT_DEPTH_STENCIL_ATTACHMENT_OPTIMAL,
            aspect_mask: ASPECT_DEPTH_STENCIL,
        },
        Vec::new(),
    );
    let sp1 = subpass(
        AttachmentReference { attachment: 4, layout: LAYOUT_COLOR_ATTACHMENT_OPTIMAL, aspect_mask: ASPECT_COLOR },
        AttachmentReference {
            attachment: 5,
            layout: LAYOUT_DEPTH_STENCIL_ATTACHMENT_OPTIMAL,
            aspect_mask: ASPECT_DEPTH_STENCIL,
        },
        Vec::new(),
    );
    let inputs = vec![
        AttachmentReference { attachment: 2, layout: LAYOUT_SHADER_READ_ONLY_OPTIMAL, aspect_mask: ASPECT_COLOR },
        AttachmentReference { attachment: 3, layout: LAYOUT_DEPTH_STENCIL_READ_ONLY_OPTIMAL, aspect_mask: ASPECT_DEPTH },
        AttachmentReference { attachment: 4, layout: LAYOUT_SHADER_READ_ONLY_OPTIMAL, aspect_mask: ASPECT_COLOR },
        AttachmentReference { attachment: 5, layout: LAYOUT_DEPTH_STENCIL_READ_ONLY_OPTIMAL, aspect_mask: ASPECT_DEPTH },
    ];
    let ghost input_seq = inputs@;
    let sp2 = subpass(
        AttachmentReference { attachment: 0, layout: LAYOUT_COLOR_ATTACHMENT_OPTIMAL, aspect_mask: ASPECT_COLOR },
        AttachmentReference {
            attachment: 1,
            layout: LAYOUT_DEPTH_STENCIL_ATTACHMENT_OPTIMAL,
            aspect_mask: ASPECT_DEPTH_STENCIL,
        },
        inputs,
    );
    let subpasses = vec![sp0, sp1, sp2];
    let (dst_stage, dst_access) = final_dst_masks(final_color_layout, read_back);
    let dependencies = vec![
        SubpassDependency {
            src_subpass: SUBPASS_EXTERNAL,
            dst_subpass: 0,
            src_stage: STAGE_BOTTOM_OF_PIPE,
            dst_stage: STAGE_ATTACHMENT_WRITES,
            src_access: 0,
            dst_access: ACCESS_ATTACHMENT_READ_WRITE,
            legacy: true,
        },
        SubpassDependency {
            src_subpass: 0,
            dst_subpass: 2,
            src_stage: STAGE_ATTACHMENT_WRITES,
            dst_stage: STAGE_FRAGMENT_SHADER,
            src_access: ACCESS_ATTACHMENT_WRITES,
            dst_access: ACCESS_INPUT_ATTACHMENT_READ,
            legacy: true,
        },
        SubpassDependency {
            src_subpass: 1,
            dst_subpass: 2,
            src_stage: STAGE_ATTACHMENT_WRITES,
            dst_stage: STAGE_FRAGMENT_SHADER,
            src_access: ACCESS_ATTACHMENT_WRITES,
            dst_access: ACCESS_INPUT_ATTACHMENT_READ,
            legacy: true,
        },
        SubpassDependency {
            src_subpass: 2,
            dst_subpass: SUBPASS_EXTERNAL,
            src_stage: STAGE_ATTACHMENT_WRITES,
            dst_stage,
            src_access: ACCESS_ATTACHMENT_READ_WRITE,
            dst_access,
            legacy: true,
        },
    ];
    let r = RenderPassDescription { attachments, subpasses, dependencies };
    assert(r.attachments@ =~= seq![
        swapchain_color(color_format, final_color_layout),
        depth_attachment(depth_stencil_format, read_back),
        transient_color(),
        depth_attachment(depth_stencil_format, false),
        transient_color(),
        depth_attachment(depth_stencil_format, false),
    ]);
    assert(input_seq =~= seq![
        AttachmentReference { attachment: 2, layout: LAYOUT_SHADER_READ_ONLY_OPTIMAL, aspect_mask: ASPECT_COLOR },
        AttachmentReference { attachment: 3, layout: LAYOUT_DEPTH_STENCIL_READ_ONLY_OPTIMAL, aspect_mask: ASPECT_DEPTH },
        AttachmentReference { attachment: 4, layout: LAYOUT_SHADER_READ_ONLY_OPTIMAL, aspect_mask: ASPECT_COLOR },
        AttachmentReference { attachment: 5, layout: LAYOUT_DEPTH_STENCIL_READ_ONLY_OPTIMAL, aspect_mask: ASPECT_DEPTH },
    ]);
    assert(r.dependencies@ =~= seq![
        entry_dependency(0, true),
        input_dependency(0),
        input_dependency(1),
        exit_dependency(2, final_color_layout, read_back, true),
    ]);
    r
}

/// How many subpasses a presentation engine renders with.
#[derive(Clone, Copy, Debug, PartialEq, Eq, Structural)]
pub enum RenderPassKind {
    /// One subpass writing the swapchain color and depth.
    SingleSubpass,
    /// Macro, micro and composite subpasses.
    Compositing,
}

/// Width and height of a render area.
#[derive(Clone, Copy, Debug, PartialEq, Eq, Structural)]
pub struct Extent2D {
    pub width: u32,
    pub height: u32,
}

/// What a presentation engine's render pass is made for.
pub struct RenderPassSpecification {
    pub kind: RenderPassKind,
    pub color_format: i32,
    pub depth_stencil_format: i32,
    pub final_layout: i32,
    pub extent: Extent2D,
    pub swapchain_generation: u64,
    pub image_views: Vec<u64>,
}

/// The layout the swapchain color ends in: presentable for a window,
/// a color attachment for an offscreen target.
pub open spec fn final_layout_for(windowed: bool) -> i32 {
    if windowed {
        LAYOUT_PRESENT_SRC
    } else {
        LAYOUT_COLOR_ATTACHMENT_OPTIMAL
    }
}

impl RenderPassSpecification {
    /// The specification of a presentation engine's render pass: its color
    /// format, extent, swapchain generation and image views, the depth
    /// format `depth`, and the final layout its kind of target needs.
    pub fn for_engine(
        kind: RenderPassKind,
        windowed: bool,
        color_format: i32,
        extent: Extent2D,
        swapchain_generation: u64,
        image_views: Vec<u64>,
        depth: i32,
    ) -> (r: Self)
        ensures
            r.kind == kind,
            r.color_format == color_format,
            r.depth_stencil_format == depth,
            r.final_layout == final_layout_for(windowed),
            r.extent == extent,
            r.swapchain_generation == swapchain_generation,
            r.image_views@ == image_views@,
    {
        let final_layout = if windowed { LAYOUT_PRESENT_SRC } else { LAYOUT_COLOR_ATTACHMENT_OPTIMAL };
        RenderPassSpecification {
            kind,
            color_format,
            depth_stencil_format: depth,
            final_layout,
            extent,
            swapchain_generation,
            image_views,
        }
    }

    /// The render area.
    pub fn extent(&self) -> (r: Extent2D)
        ensures
            r == self.extent,
    {
        self.extent
    }

    /// Attachments (and clear values) of the render pass: 2 for one
    /// subpass, 6 for compositing.
    pub fn num_attachments(&self) -> (r: usize)
        ensures
            r == (match self.kind {
                RenderPassKind::SingleSubpass => 2usize,
                RenderPassKind::Compositing => 6usize,
            }),
    {
        match self.kind {
            RenderPassKind::SingleSubpass => 2,
            RenderPassKind::Compositing => 6,
        }
    }

    /// The render pass description of this specification.
    pub fn description(&self, read_back: bool) -> (r: RenderPassDescription)
        ensures
            self.kind == RenderPassKind::SingleSubpass ==> r.attachments@.len() == 2 && r.subpasses@.len() == 1,
            self.kind == RenderPassKind::Compositing ==> r.attachments@.len() == 6 && r.subpasses@.len() == 3,
            r.attachments@[0] == swapchain_color(self.color_format, self.final_layout),
            r.attachments@[1] == depth_attachment(self.depth_stencil_format, read_back),
    {
        match self.kind {
            RenderPassKind::SingleSubpass => single_render_pass_description(
                self.color_format,
                self.depth_stencil_format,
                self.final_layout,
                read_back,
            ),
            RenderPassKind::Compositing => compositing_render_pass_description(
                self.color_format,
                self.depth_stencil_format,
                self.final_layout,
                read_back,
            ),
        }
    }
}

/// An image the render pass bundle creates, with the aspect of its view.
#[derive(Clone, Copy, Debug, PartialEq, Eq, Structural)]
pub struct TransientImage {
    pub format: i32,
    pub usage: u32,
    pub view_aspect: u32,
}

/// Usage of the swapchain depth image: a depth-stencil attachment, also
/// copied from and sampled when images are read back.
pub open spec fn swapchain_depth_usage(read_back: bool) -> u32 {
    if read_back {
        USAGE_DEPTH_STENCIL_ATTACHMENT | USAGE_TRANSFER_SRC | USAGE_SAMPLED
    } else {
        USAGE_DEPTH_STENCIL_ATTACHMENT
    }
}

/// The images a bundle creates besides the swapchain's: the swapchain
/// depth; for compositing also the macro color and depth and the micro
/// color and depth, in attachment order.
pub open spec fn spec_bundle_images(kind: RenderPassKind, depth_format: i32, read_back: bool) -> Seq<TransientImage> {
    let depth = TransientImage {
        format: depth_format,
        usage: swapchain_depth_usage(read_back),
        view_aspect: ASPECT_DEPTH_STENCIL,
    };
    let color_t = TransientImage {
        format: FORMAT_R8G8B8A8_UNORM,
        usage: USAGE_COLOR_ATTACHMENT | USAGE_INPUT_ATTACHMENT,
        view_aspect: ASPECT_COLOR,
    };
    let depth_t = TransientImage {
        format: depth_format,
        usage: USAGE_DEPTH_STENCIL_ATTACHMENT | USAGE_INPUT_ATTACHMENT,
        view_aspect: ASPECT_DEPTH_STENCIL,
    };
    match kind {
        RenderPassKind::SingleSubpass => seq![depth],
        RenderPassKind::Compositing => seq![depth, color_t, depth_t, color_t, depth_t],
    }
}

/// See [`spec_bundle_images`].
pub fn bundle_images(kind: RenderPassKind, depth_format: i32, read_back: bool) -> (r: Vec<TransientImage>)
    ensures
        r@ == spec_bundle_images(kind, depth_format, read_back),
{
    let depth = TransientImage {
        format: depth_format,
        usage: if read_back {
            USAGE_DEPTH_STENCIL_ATTACHMENT | USAGE_TRANSFER_SRC | USAGE_SAMPLED
        } else {
            USAGE_DEPTH_STENCIL_ATTACHMENT
        },
        view_aspect: ASPECT_DEPTH_STENCIL,
    };
    let color_t = TransientImage {
        format: FORMAT_R8G8B8A8_UNORM,
        usage: USAGE_COLOR_ATTACHMENT | USAGE_INPUT_ATTACHMENT,
        view_aspect: ASPECT_COLOR,
    };
    let depth_t = TransientImage {
        format: depth_format,
        usage: USAGE_DEPTH_STENCIL_ATTACHMENT | USAGE_INPUT_ATTACHMENT,
        view_aspect: ASPECT_DEPTH_STENCIL,
    };
    let r = match kind {
        RenderPassKind::SingleSubpass => vec![depth],
        RenderPassKind::Compositing => vec![depth, color_t, depth_t, color_t, depth_t],
    };
    assert(r@ =~= spec_bundle_images(kind, depth_format, read_back));
    r
}

/// Which of the bundle's images also get a depth-only view, for the
/// composite subpass's input attachment descriptors: the macro and micro
/// depths when compositing, none otherwise.
pub fn depth_only_view_images(kind: RenderPassKind) -> (r: Vec<usize>)
    ensures
        r@ == (match kind {
            RenderPassKind::SingleSubpass => Seq::<usize>::empty(),
            RenderPassKind::Compositing => seq![2usize, 4usize],
        }),
{
    let r = match kind {
        RenderPassKind::SingleSubpass => Vec::new(),
        RenderPassKind::Compositing => vec![2usize, 4usize],
    };
    proof {
        match kind {
            RenderPassKind::SingleSubpass => assert(r@ =~= Seq::<usize>::empty()),
            RenderPassKind::Compositing => assert(r@ =~= seq![2usize, 4usize]),
        }
    }
    r
}

/// The attachments of the framebuffer of one swapchain image: its view,
/// then the views of the bundle's images in order.
pub fn framebuffer_attachments(swapchain_view: u64, image_views: &Vec<u64>) -> (r: Vec<u64>)
    ensures
        r@ == seq![swapchain_view] + image_views@,
{
    let mut r: Vec<u64> = Vec::new();
    r.push(swapchain_view);
    let mut i: usize = 0;
    while i < image_views.len()
        invariant
            0 <= i <= image_views@.len(),
            r@ == seq![swapchain_view] + image_views@.subrange(0, i as int),
        decreases image_views@.len() - i,
    {
        r.push(image_views[i]);
        i = i + 1;
        assert(r@ =~= seq![swapchain_view] + image_views@.subrange(0, i as int));
    }
    assert(image_views@.subrange(0, image_views@.len() as int) =~= image_views@);
    r
}

/// A `VkClearValue`, its floats carried as their bits.
#[derive(Clone, Copy, Debug, PartialEq, Eq, Structural)]
pub enum ClearValue {
    Color { r_bits: u32, g_bits: u32, b_bits: u32, a_bits: u32 },
    DepthStencil { depth_bits: u32, stencil: u32 },
}

/// Bits of `1.0f32`.
pub const ONE_F32_BITS: u32 = 0x3f80_0000;

/// Black with the given alpha bits.
pub open spec fn black(a_bits: u32) -> ClearValue {
    ClearValue::Color { r_bits: 0, g_bits: 0, b_bits: 0, a_bits }
}

/// Depth 0 (reverse-Z far plane) and stencil 0.
pub open spec fn depth_clear() -> ClearValue {
    ClearValue::DepthStencil { depth_bits: 0, stencil: 0 }
}

/// The clear values of a bundle, one per attachment: transparent black
/// and depth for one subpass; for compositing opaque black for the
/// swapchain and macro colors, transparent black for the micro color, and
/// depth for every depth attachment.
pub open spec fn spec_clear_values(kind: RenderPassKind) -> Seq<ClearValue> {
    match kind {
        RenderPassKind::SingleSubpass => seq![black(0), depth_clear()],
        RenderPassKind::Compositing => seq![
            black(ONE_F32_BITS),
            depth_clear(),
            black(ONE_F32_BITS),
            depth_clear(),
            black(0),
            depth_clear(),
        ],
    }
}

/// See [`spec_clear_values`].
pub fn bundle_clear_values(kind: RenderPassKind) -> (r: Vec<ClearValue>)
    ensures
        r@ == spec_clear_values(kind),
{
    let transparent = ClearValue::Color { r_bits: 0, g_bits: 0, b_bits: 0, a_bits: 0 };
    let opaque = ClearValue::Color { r_bits: 0, g_bits: 0, b_bits: 0, a_bits: ONE_F32_BITS };
    let depth = ClearValue::DepthStencil { depth_bits: 0, stencil: 0 };
    let r = match kind {
        RenderPassKind::SingleSubpass => vec![transparent, depth],
        RenderPassKind::Compositing => vec![opaque, depth, opaque, depth, transparent, depth],
    };
    assert(r@ =~= spec_clear_values(kind));
    r
}

/// A presentation engine's render pass and the framebuffer of each of its
/// swapchain images, with what they were made for.
pub struct BundleState {
    pub render_pass: u64,
    pub framebuffers: Vec<u64>,
    pub swapchain_generation: u64,
    pub extent: Extent2D,
    pub clear_values: Vec<ClearValue>,
    /// The render pass's attachments, in attachment order.
    pub attachments: Vec<BundleAttachment>,
    /// Depth-only views of the macro and micro depths (compositing only).
    pub depth_only_views: Vec<u64>,
    /// The composite subpass's objects, once it was set up.
    pub composite: Option<CompositeResources>,
}

/// A newly made bundle: the render pass, one framebuffer per swapchain
/// image, the attachments and depth-only views it created, the extent and
/// swapchain generation it was made for, the clear values of its kind, and
/// no composite subpass set up yet.
pub fn new_bundle(
    render_pass: u64,
    framebuffers: Vec<u64>,
    attachments: Vec<BundleAttachment>,
    depth_only_views: Vec<u64>,
    extent: Extent2D,
    swapchain_generation: u64,
    kind: RenderPassKind,
) -> (r: BundleState)
    ensures
        r.render_pass == render_pass,
        r.framebuffers@ == framebuffers@,
        r.attachments@ == attachments@,
        r.depth_only_views@ == depth_only_views@,
        r.extent == extent,
        r.swapchain_generation == swapchain_generation,
        r.clear_values@ == spec_clear_values(kind),
        r.composite is None,
{
    BundleState {
        render_pass,
        framebuffers,
        swapchain_generation,
        extent,
        clear_values: bundle_clear_values(kind),
        attachments,
        depth_only_views,
        composite: None,
    }
}

/// The bundle a compositing render pass is made with: one framebuffer per
/// swapchain image view; as attachments the swapchain color, then depth,
/// color, depth, color, depth images made for it; the depth-only views of
/// the macro and micro depths.
pub fn compositing_bundle(
    render_pass: u64,
    framebuffers: Vec<u64>,
    images: Vec<(u64, u64)>,
    depth_only_views: Vec<u64>,
    extent: Extent2D,
    swapchain_generation: u64,
) -> (r: BundleState)
    requires
        images@.len() == 5,
        depth_only_views@.len() == 2,
    ensures
        r.render_pass == render_pass,
        r.framebuffers@ == framebuffers@,
        r.attachments@ == seq![
            BundleAttachment::SwapchainColor,
            BundleAttachment::DepthStencil { image: images@[0].0, view: images@[0].1 },
            BundleAttachment::Color { image: images@[1].0, view: images@[1].1 },
            BundleAttachment::DepthStencil { image: images@[2].0, view: images@[2].1 },
            BundleAttachment::Color { image: images@[3].0, view: images@[3].1 },
            BundleAttachment::DepthStencil { image: images@[4].0, view: images@[4].1 },
        ],
        r.depth_only_views@ == depth_only_views@,
        r.extent == extent,
        r.swapchain_generation == swapchain_generation,
        r.clear_values@ == spec_clear_values(RenderPassKind::Compositing),
        r.composite is None,
{
    let attachments = vec![
        BundleAttachment::SwapchainColor,
        BundleAttachment::DepthStencil { image: images[0].0, view: images[0].1 },
        BundleAttachment::Color { image: images[1].0, view: images[1].1 },
        BundleAttachment::DepthStencil { image: images[2].0, view: images[2].1 },
        BundleAttachment::Color { image: images[3].0, view: images[3].1 },
        BundleAttachment::DepthStencil { image: images[4].0, view: images[4].1 },
    ];
    new_bundle(render_pass, framebuffers, attachments, depth_only_views, extent, swapchain_generation, RenderPassKind::Compositing)
}

/// The bundle a single-subpass render pass is made with: one framebuffer
/// per swapchain image view, and as attachments the swapchain color and
/// the depth image made for it.
pub fn single_subpass_bundle(
    render_pass: u64,
    framebuffers: Vec<u64>,
    depth_image: u64,
    depth_view: u64,
    extent: Extent2D,
    swapchain_generation: u64,
) -> (r: BundleState)
    ensures
        r.render_pass == render_pass,
        r.framebuffers@ == framebuffers@,
        r.attachments@ == seq![
            BundleAttachment::SwapchainColor,
            BundleAttachment::DepthStencil { image: depth_image, view: depth_view },
        ],
        r.depth_only_views@.len() == 0,
        r.extent == extent,
        r.swapchain_generation == swapchain_generation,
        r.clear_values@ == spec_clear_values(RenderPassKind::SingleSubpass),
        r.composite is None,
{
    let attachments = vec![
        BundleAttachment::SwapchainColor,
        BundleAttachment::DepthStencil { image: depth_image, view: depth_view },
    ];
    new_bundle(render_pass, framebuffers, attachments, Vec::new(), extent, swapchain_generation, RenderPassKind::SingleSubpass)
}

/// The bundle was made for the specification's swapchain and size.
pub open spec fn spec_bundle_matches(bundle: BundleState, spec: RenderPassSpecification) -> bool {
    bundle.swapchain_generation == spec.swapchain_generation && bundle.extent == spec.extent
}

/// A bundle is reused only for the swapchain and size it was made for: once
/// the swapchain is recreated (a new generation) or resized, the old render
/// pass and framebuffers no longer fit, whatever else stays the same.
pub proof fn lemma_reuse_only_for_same_swapchain(bundle: BundleState, spec: RenderPassSpecification)
    ensures
        spec_bundle_matches(bundle, spec) <==> bundle.swapchain_generation == spec.swapchain_generation
            && bundle.extent.width == spec.extent.width && bundle.extent.height == spec.extent.height,
        bundle.swapchain_generation != spec.swapchain_generation ==> !spec_bundle_matches(bundle, spec),
{
}

/// The render pass and framebuffer of swapchain image `image_index` when
/// the bundle still fits the specification; `None` when it must be made
/// again.
pub fn cached_render_pass(bundle: &BundleState, spec: &RenderPassSpecification, image_index: u32) -> (r:
    Option<(u64, u64)>)
    requires
        image_index < bundle.framebuffers@.len(),
    ensures
        r == (if spec_bundle_matches(*bundle, *spec) {
            Some((bundle.render_pass, bundle.framebuffers@[image_index as int]))
        } else {
            None
        }),
        r is Some <==> bundle.swapchain_generation == spec.swapchain_generation && bundle.extent.width
            == spec.extent.width && bundle.extent.height == spec.extent.height,
{
    if bundle.swapchain_generation == spec.swapchain_generation && bundle.extent.width
        == spec.extent.width && bundle.extent.height == spec.extent.height {
        Some((bundle.render_pass, bundle.framebuffers[image_index as usize]))
    } else {
        None
    }
}

/// The first clear values of the bundle, as many as fit in `room`.
pub fn clear_values_for(bundle: &BundleState, room: usize) -> (r: Vec<ClearValue>)
    ensures
        r@.len() == if room < bundle.clear_values@.len() {
            room as int
        } else {
            bundle.clear_values@.len() as int
        },
        r@ == bundle.clear_values@.subrange(0, r@.len() as int),
{
    let count = if room < bundle.clear_values.len() { room } else { bundle.clear_values.len() };
    let mut r: Vec<ClearValue> = Vec::new();
    let mut i: usize = 0;
    while i < count
        invariant
            count <= bundle.clear_values@.len(),
            0 <= i <= count,
            r@ == bundle.clear_values@.subrange(0, i as int),
        decreases count - i,
    {
        r.push(bundle.clear_values[i]);
        i = i + 1;
        assert(r@ =~= bundle.clear_values@.subrange(0, i as int));
    }
    r
}

/// Cache key of the pipeline render pass for a pair of formats: the color
/// format's bits above the depth format's.
pub open spec fn spec_render_pass_key(color_format: i32, depth_format: i32) -> u64 {
    ((color_format as u32 as u64) << 32u64) | (depth_format as u32 as u64)
}

/// See [`spec_render_pass_key`].
pub fn render_pass_key(color_format: i32, depth_format: i32) -> (r: u64)
    ensures
        r == spec_render_pass_key(color_format, depth_format),
{
    ((color_format as u32 as u64) << 32u64) | (depth_format as u32 as u64)
}

/// Different format pairs have different keys.
pub proof fn lemma_render_pass_key_injective(c1: i32, d1: i32, c2: i32, d2: i32)
    requires
        spec_render_pass_key(c1, d1) == spec_render_pass_key(c2, d2),
    ensures
        c1 == c2 && d1 == d2,
{
    let a1 = c1 as u32;
    let b1 = d1 as u32;
    let a2 = c2 as u32;
    let b2 = d2 as u32;
    assert(((a1 as u64) << 32u64) | (b1 as u64) == ((a2 as u64) << 32u64) | (b2 as u64) ==> a1 == a2
        && b1 == b2) by (bit_vector);
    assert(c1 as u32 == c2 as u32 ==> c1 == c2) by (bit_vector);
    assert(d1 as u32 == d2 as u32 ==> d1 == d2) by (bit_vector);
}

/// Single-subpass render passes used to create pipelines, by format pair.
pub struct PipelineRenderPasses {
    table: PipelineTable,
}

impl PipelineRenderPasses {
    /// Render passes by key (see [`spec_render_pass_key`]).
    pub closed spec fn passes(&self) -> Map<u64, u64> {
        pipeline_table_contents(self.table)
    }

    /// No render pass yet.
    pub fn new() -> (r: Self)
        ensures
            r.passes() == Map::<u64, u64>::empty(),
    {
        PipelineRenderPasses { table: PipelineTable::with_capacity(8) }
    }

    /// The render pass for `color_format` and `depth_format`: the cached one,
    /// or one made by `create(color_format, depth_format)` and cached.
    pub fn get_pipeline_render_pass<F: FnOnce(i32, i32) -> Result<u64, i32>>(
        &mut self,
        color_format: i32,
        depth_format: i32,
        create: F,
    ) -> (r: Result<u64, i32>)
        requires
            call_requires(create, (color_format, depth_format)),
        ensures
            ({
                let key = spec_render_pass_key(color_format, depth_format);
                if old(self).passes().contains_key(key) {
                    r == Ok::<u64, i32>(old(self).passes()[key]) && final(self).passes() == old(self).passes()
                } else {
                    call_ensures(create, (color_format, depth_format), r) && match r {
                        Ok(rp) => final(self).passes() == old(self).passes().insert(key, rp),
                        Err(_) => final(self).passes() == old(self).passes(),
                    }
                }
            }),
    {
        let key = render_pass_key(color_format, depth_format);
        match self.table.get(key) {
            Some(rp) => Ok(rp),
            None => {
                let created = create(color_format, depth_format);
                match created {
                    Ok(rp) => {
                        let _ = self.table.insert(key, rp);
                        Ok(rp)
                    },
                    Err(e) => Err(e),
                }
            },
        }
    }

    /// Empties the cache and returns every render pass to destroy.
    pub fn cleanup(&mut self) -> (r: Vec<u64>)
        ensures
            final(self).passes() == Map::<u64, u64>::empty(),
            forall|p: u64|
                r@.contains(p) <==> exists|k: u64|
                    #[trigger] old(self).passes().contains_key(k) && old(self).passes()[k] == p,
    {
        let ghost before = self.passes();
        let r = self.table.drain_values();
        assert forall|p: u64| r@.contains(p) <==> exists|k: u64|
            #[trigger] before.contains_key(k) && before[k] == p by {}
        r
    }
}

/// `VK_DESCRIPTOR_TYPE_INPUT_ATTACHMENT`.
pub const DESCRIPTOR_TYPE_INPUT_ATTACHMENT: i32 = 10;

/// `VK_SHADER_STAGE_FRAGMENT_BIT`.
pub const SHADER_STAGE_FRAGMENT: u32 = 0x10;

/// `VK_FORMAT_B8G8R8A8_SRGB`.
pub const FORMAT_B8G8R8A8_SRGB: i32 = 50;

/// Bytes of the composite subpass's push constants (the near and far
/// planes of the two depth ranges).
pub const COMPOSITE_PUSH_CONSTANTS_BYTES: u32 = 16;

/// The subpass that composes the macro and micro images.
pub const COMPOSITE_SUBPASS: u32 = 2;

/// An attachment of a render pass bundle.
#[derive(Clone, Copy, Debug, PartialEq, Eq, Structural)]
pub enum BundleAttachment {
    /// The swapchain image, owned by the swapchain.
    SwapchainColor,
    /// A depth-stencil image of the bundle and its view.
    DepthStencil { image: u64, view: u64 },
    /// A color image of the bundle and its view.
    Color { image: u64, view: u64 },
}

/// One binding of a descriptor set layout.
#[derive(Clone, Copy, Debug, PartialEq, Eq, Structural)]
pub struct LayoutBinding {
    pub binding: u32,
    pub descriptor_type: i32,
    pub count: u32,
    pub stages: u32,
}

/// One input attachment descriptor of the composite set.
#[derive(Clone, Copy, Debug, PartialEq, Eq, Structural)]
pub struct InputAttachmentWrite {
    pub binding: u32,
    pub view: u64,
    pub layout: i32,
}

/// What setting up the composite subpass of a presentation engine asks.
#[derive(Clone, Copy, Debug, PartialEq, Eq, Structural)]
pub enum CompositeSetup {
    /// It was set up before: nothing to do.
    Done,
    /// Create the layouts, the descriptor set and the pipeline.
    Create,
}

/// Why the composite subpass could not be set up.
#[derive(Clone, Copy, Debug, PartialEq, Eq, Structural)]
pub enum CompositeError {
    /// The presentation engine has no render pass bundle.
    NoBundle,
    /// The bundle is not a compositing one (it has fewer than 6
    /// attachments).
    NotCompositing,
    /// The attachment at this index is not a color attachment.
    NotColor(usize),
    /// The bundle lacks the depth-only views of its macro and micro depths.
    MissingDepthViews,
}

/// Whether the composite subpass of a presentation engine must be set up,
/// given whether it has a bundle, whether that bundle has composite
/// resources, and its number of attachments.
pub fn composite_setup(has_bundle: bool, has_composite: bool, attachments: usize) -> (r: Result<
    CompositeSetup,
    CompositeError,
>)
    ensures
        r == (if !has_bundle {
            Err::<CompositeSetup, CompositeError>(CompositeError::NoBundle)
        } else if has_composite {
            Ok::<CompositeSetup, CompositeError>(CompositeSetup::Done)
        } else if attachments < 6 {
            Err::<CompositeSetup, CompositeError>(CompositeError::NotCompositing)
        } else {
            Ok::<CompositeSetup, CompositeError>(CompositeSetup::Create)
        }),
{
    if !has_bundle {
        Err(CompositeError::NoBundle)
    } else if has_composite {
        Ok(CompositeSetup::Done)
    } else if attachments < 6 {
        Err(CompositeError::NotCompositing)
    } else {
        Ok(CompositeSetup::Create)
    }
}

/// The composite set layout: four input attachments, bindings 0 to 3, read
/// by the fragment stage.
pub fn composite_set_bindings() -> (r: Vec<LayoutBinding>)
    ensures
        r@.len() == 4,
        forall|i: int|
            0 <= i < 4 ==> #[trigger] r@[i] == (LayoutBinding {
                binding: i as u32,
                descriptor_type: DESCRIPTOR_TYPE_INPUT_ATTACHMENT,
                count: 1,
                stages: SHADER_STAGE_FRAGMENT,
            }),
{
    let mut r: Vec<LayoutBinding> = Vec::new();
    let mut i: u32 = 0;
    while i < 4
        invariant
            i <= 4,
            r@.len() == i,
            forall|j: int|
                0 <= j < i ==> #[trigger] r@[j] == (LayoutBinding {
                    binding: j as u32,
                    descriptor_type: DESCRIPTOR_TYPE_INPUT_ATTACHMENT,
                    count: 1,
                    stages: SHADER_STAGE_FRAGMENT,
                }),
        decreases 4 - i,
    {
        r.push(
            LayoutBinding {
                binding: i,
                descriptor_type: DESCRIPTOR_TYPE_INPUT_ATTACHMENT,
                count: 1,
                stages: SHADER_STAGE_FRAGMENT,
            },
        );
        i = i + 1;
    }
    r
}

/// The view of a color attachment.
pub open spec fn color_view(a: BundleAttachment) -> Option<u64> {
    match a {
        BundleAttachment::Color { view, .. } => Some(view),
        _ => None,
    }
}

/// The input attachments the composite subpass reads, in binding order:
/// the macro color (attachment 2), the macro depth's depth-only view, the
/// micro color (attachment 4) and the micro depth's depth-only view; colors
/// read as shader-read-only, depths as depth-stencil-read-only.
pub open spec fn spec_composite_writes(attachments: Seq<BundleAttachment>, depth_views: Seq<u64>) -> Result<
    Seq<InputAttachmentWrite>,
    CompositeError,
> {
    if attachments.len() < 6 {
        Err(CompositeError::NotCompositing)
    } else if color_view(attachments[2]) is None {
        Err(CompositeError::NotColor(2))
    } else if depth_views.len() < 2 {
        Err(CompositeError::MissingDepthViews)
    } else if color_view(attachments[4]) is None {
        Err(CompositeError::NotColor(4))
    } else {
        Ok(
            seq![
                InputAttachmentWrite { binding: 0, view: color_view(attachments[2])->0, layout: LAYOUT_SHADER_READ_ONLY_OPTIMAL },
                InputAttachmentWrite { binding: 1, view: depth_views[0], layout: LAYOUT_DEPTH_STENCIL_READ_ONLY_OPTIMAL },
                InputAttachmentWrite { binding: 2, view: color_view(attachments[4])->0, layout: LAYOUT_SHADER_READ_ONLY_OPTIMAL },
                InputAttachmentWrite { binding: 3, view: depth_views[1], layout: LAYOUT_DEPTH_STENCIL_READ_ONLY_OPTIMAL },
            ],
        )
    }
}

/// See [`spec_composite_writes`].
pub fn composite_writes(attachments: &Vec<BundleAttachment>, depth_views: &Vec<u64>) -> (r: Result<
    Vec<InputAttachmentWrite>,
    CompositeError,
>)
    ensures
        match (r, spec_composite_writes(attachments@, depth_views@)) {
            (Ok(v), Ok(s)) => v@ == s,
            (Err(e), Err(f)) => e == f,
            _ => false,
        },
{
    if attachments.len() < 6 {
        return Err(CompositeError::NotCompositing);
    }
    let macro_color = match attachments[2] {
        BundleAttachment::Color { view, .. } => view,
        _ => {
            return Err(CompositeError::NotColor(2));
        },
    };
    if depth_views.len() < 2 {
        return Err(CompositeError::MissingDepthViews);
    }
    let micro_color = match attachments[4] {
        BundleAttachment::Color { view, .. } => view,
        _ => {
            return Err(CompositeError::NotColor(4));
        },
    };
    let r = vec![
        InputAttachmentWrite { binding: 0, view: macro_color, layout: LAYOUT_SHADER_READ_ONLY_OPTIMAL },
        InputAttachmentWrite { binding: 1, view: depth_views[0], layout: LAYOUT_DEPTH_STENCIL_READ_ONLY_OPTIMAL },
        InputAttachmentWrite { binding: 2, view: micro_color, layout: LAYOUT_SHADER_READ_ONLY_OPTIMAL },
        InputAttachmentWrite { binding: 3, view: depth_views[1], layout: LAYOUT_DEPTH_STENCIL_READ_ONLY_OPTIMAL },
    ];
    proof {
        let s = spec_composite_writes(attachments@, depth_views@)->Ok_0;
        assert(r@ =~= s);
    }
    Ok(r)
}

/// The description of the composite pipeline: a full-screen triangle with
/// no vertex input, the given shader modules, no depth test or write, one
/// default viewport and scissor, an sRGB color target, the given layout and
/// render pass, at the composite subpass.
pub fn composite_graphics_info(vertex_module: u64, fragment_module: u64, layout: u64, render_pass: u64) -> (r:
    GraphicsInfo)
    ensures
        r.specialization_constants@.len() == 0,
        r.specialization_constants_values@.len() == 0,
        r.vertex_in.topology == TOPOLOGY_TRIANGLE_LIST,
        r.vertex_in.attributes@.len() == 0,
        r.vertex_in.bindings@.len() == 0,
        r.pre_rasterization.vertex_module == vertex_module,
        r.fragment_shader.fragment_module == fragment_module,
        r.fragment_shader.viewports@ == seq![
            Viewport { x_bits: 0, y_bits: 0, width_bits: 0, height_bits: 0, min_depth_bits: 0, max_depth_bits: 0 },
        ],
        r.fragment_shader.scissors@ == seq![Rect2D { x: 0, y: 0, width: 0, height: 0 }],
        r.fragment_out.color_attachment_formats@ == seq![FORMAT_B8G8R8A8_SRGB],
        r.fragment_out.depth_attachment_format is None,
        r.fragment_out.stencil_attachment_format is None,
        r.pipeline_layout == layout,
        r.pipeline_flags.0 == PipelineFlags::NO_DEPTH_TEST | PipelineFlags::NO_DEPTH_WRITE,
        r.render_pass == render_pass,
        r.subpass == COMPOSITE_SUBPASS,
{
    let mut g = GraphicsInfo::default();
    g.vertex_in.topology = TOPOLOGY_TRIANGLE_LIST;
    g.pre_rasterization.vertex_module = vertex_module;
    g.fragment_shader.fragment_module = fragment_module;
    g.pipeline_flags = PipelineFlags(PipelineFlags::NO_DEPTH_TEST | PipelineFlags::NO_DEPTH_WRITE);
    g.fragment_shader.viewports.push(Viewport::zero());
    g.fragment_shader.scissors.push(Rect2D::zero());
    g.fragment_out.color_attachment_formats.push(FORMAT_B8G8R8A8_SRGB);
    g.pipeline_layout = layout;
    g.render_pass = render_pass;
    g.subpass = COMPOSITE_SUBPASS;
    proof {
        assert(g.fragment_shader.viewports@ =~= seq![
            Viewport { x_bits: 0, y_bits: 0, width_bits: 0, height_bits: 0, min_depth_bits: 0, max_depth_bits: 0 },
        ]);
        assert(g.fragment_shader.scissors@ =~= seq![Rect2D { x: 0, y: 0, width: 0, height: 0 }]);
        assert(g.fragment_out.color_attachment_formats@ =~= seq![FORMAT_B8G8R8A8_SRGB]);
    }
    g
}

/// What a bundle's composite subpass owns.
#[derive(Clone, Copy, Debug, PartialEq, Eq, Structural)]
pub struct CompositeResources {
    pub set_layout: u64,
    pub pipeline_layout: u64,
    pub descriptor_pool: u64,
    pub descriptor_set: u64,
    pub pipeline_key: u64,
}

/// A driver object a bundle gives up when it is replaced.
#[derive(Clone, Copy, Debug, PartialEq, Eq, Structural)]
pub enum BundleRelease {
    ImageView(u64),
    Image(u64),
    Framebuffer(u64),
    RenderPass(u64),
    SetLayout(u64),
    PipelineLayout(u64),
    DescriptorPool(u64),
}

/// What one attachment gives up: the view then the image of an image the
/// bundle owns, nothing for the swapchain image.
pub open spec fn attachment_release(a: BundleAttachment) -> Seq<BundleRelease> {
    match a {
        BundleAttachment::SwapchainColor => Seq::empty(),
        BundleAttachment::DepthStencil { image, view } => seq![BundleRelease::ImageView(view), BundleRelease::Image(image)],
        BundleAttachment::Color { image, view } => seq![BundleRelease::ImageView(view), BundleRelease::Image(image)],
    }
}

/// What the attachments give up, in attachment order.
pub open spec fn attachments_release(a: Seq<BundleAttachment>) -> Seq<BundleRelease>
    decreases a.len(),
{
    if a.len() == 0 {
        Seq::empty()
    } else {
        attachments_release(a.drop_last()) + attachment_release(a.last())
    }
}

/// What a replaced bundle gives up, in order: its attachments' views and
/// images, its depth-only views, its framebuffers, its render pass, then
/// the composite set layout, pipeline layout and descriptor pool.
pub open spec fn spec_bundle_releases(
    attachments: Seq<BundleAttachment>,
    depth_views: Seq<u64>,
    framebuffers: Seq<u64>,
    render_pass: u64,
    composite: Option<CompositeResources>,
) -> Seq<BundleRelease> {
    attachments_release(attachments) + depth_views.map_values(|v: u64| BundleRelease::ImageView(v))
        + framebuffers.map_values(|f: u64| BundleRelease::Framebuffer(f)) + seq![BundleRelease::RenderPass(render_pass)]
        + match composite {
        Some(c) => seq![
            BundleRelease::SetLayout(c.set_layout),
            BundleRelease::PipelineLayout(c.pipeline_layout),
            BundleRelease::DescriptorPool(c.descriptor_pool),
        ],
        None => Seq::empty(),
    }
}

/// Appends the release of each of `handles`, as framebuffers or as image
/// views, to `out`.
fn push_views(out: &mut Vec<BundleRelease>, handles: &Vec<u64>, framebuffers: bool)
    ensures
        final(out)@ == old(out)@ + if framebuffers {
            handles@.map_values(|f: u64| BundleRelease::Framebuffer(f))
        } else {
            handles@.map_values(|v: u64| BundleRelease::ImageView(v))
        },
{
    let ghost before = out@;
    let ghost mapped = if framebuffers {
        handles@.map_values(|f: u64| BundleRelease::Framebuffer(f))
    } else {
        handles@.map_values(|v: u64| BundleRelease::ImageView(v))
    };
    let mut i: usize = 0;
    while i < handles.len()
        invariant
            i <= handles@.len(),
            mapped.len() == handles@.len(),
            mapped == (if framebuffers {
                handles@.map_values(|f: u64| BundleRelease::Framebuffer(f))
            } else {
                handles@.map_values(|v: u64| BundleRelease::ImageView(v))
            }),
            out@ == before + mapped.take(i as int),
        decreases handles@.len() - i,
    {
        let h = handles[i];
        if framebuffers {
            out.push(BundleRelease::Framebuffer(h));
        } else {
            out.push(BundleRelease::ImageView(h));
        }
        assert(mapped.take(i + 1 as int) =~= mapped.take(i as int).push(mapped[i as int]));
        i = i + 1;
    }
    assert(mapped.take(handles@.len() as int) =~= mapped);
}

/// See [`spec_bundle_releases`].
pub fn bundle_releases(
    attachments: &Vec<BundleAttachment>,
    depth_views: &Vec<u64>,
    framebuffers: &Vec<u64>,
    render_pass: u64,
    composite: Option<CompositeResources>,
) -> (r: Vec<BundleRelease>)
    ensures
        r@ == spec_bundle_releases(attachments@, depth_views@, framebuffers@, render_pass, composite),
{
    let mut out: Vec<BundleRelease> = Vec::new();
    let mut i: usize = 0;
    assert(attachments@.take(0) =~= Seq::<BundleAttachment>::empty());
    while i < attachments.len()
        invariant
            i <= attachments@.len(),
            out@ == attachments_release(attachments@.take(i as int)),
        decreases attachments@.len() - i,
    {
        match attachments[i] {
            BundleAttachment::SwapchainColor => {},
            BundleAttachment::DepthStencil { image, view } => {
                out.push(BundleRelease::ImageView(view));
                out.push(BundleRelease::Image(image));
            },
            BundleAttachment::Color { image, view } => {
                out.push(BundleRelease::ImageView(view));
                out.push(BundleRelease::Image(image));
            },
        }
        proof {
            let t = attachments@.take(i + 1 as int);
            assert(t.drop_last() =~= attachments@.take(i as int));
            assert(t.last() == attachments@[i as int]);
            assert(out@ =~= attachments_release(t));
        }
        i = i + 1;
    }
    assert(attachments@.take(attachments@.len() as int) =~= attachments@);
    push_views(&mut out, depth_views, false);
    push_views(&mut out, framebuffers, true);
    out.push(BundleRelease::RenderPass(render_pass));
    match composite {
        Some(c) => {
            out.push(BundleRelease::SetLayout(c.set_layout));
            out.push(BundleRelease::PipelineLayout(c.pipeline_layout));
            out.push(BundleRelease::DescriptorPool(c.descriptor_pool));
        },
        None => {},
    }
    assert(out@ =~= spec_bundle_releases(attachments@, depth_views@, framebuffers@, render_pass, composite));
    out
}

/// Why a presentation engine's bundle could not be read.
#[derive(Clone, Copy, Debug, PartialEq, Eq, Structural)]
pub enum BundleError {
    /// The presentation engine has no render pass bundle.
    NoBundle,
}

/// Render pass bundles by presentation engine handle.
#[verifier::external_body]
pub struct BundleTable {
    inner: hashbrown::HashMap<u64, BundleState>,
}

/// Contents of a [`BundleTable`].
pub uninterp spec fn bundle_table_contents(t: BundleTable) -> Map<u64, BundleState>;

impl BundleTable {
    /// `hashbrown::HashMap::with_capacity`: an empty map.
    #[verifier::external_body]
    fn with_capacity(capacity: usize) -> (r: Self)
        ensures
            bundle_table_contents(r) =~= Map::empty(),
    {
        BundleTable { inner: hashbrown::HashMap::with_capacity(capacity) }
    }

    /// `hashbrown::HashMap::get`: the bundle stored under `key`, if any.
    #[verifier::external_body]
    fn get(&self, key: u64) -> (r: Option<&BundleState>)
        ensures
            r == (if bundle_table_contents(*self).contains_key(key) {
                Some(&bundle_table_contents(*self)[key])
            } else {
                None
            }),
    {
        self.inner.get(&key)
    }

    /// `hashbrown::HashMap::insert`: stores `value` under `key`, returning
    /// the bundle it replaces.
    #[verifier::external_body]
    fn insert(&mut self, key: u64, value: BundleState) -> (r: Option<BundleState>)
        ensures
            bundle_table_contents(*final(self)) == bundle_table_contents(*old(self)).insert(key, value),
            r == (if bundle_table_contents(*old(self)).contains_key(key) {
                Some(bundle_table_contents(*old(self))[key])
            } else {
                None
            }),
    {
        self.inner.insert(key, value)
    }

    /// `hashbrown::HashMap::remove`: takes out the bundle stored under `key`.
    #[verifier::external_body]
    fn remove(&mut self, key: u64) -> (r: Option<BundleState>)
        ensures
            bundle_table_contents(*final(self)) == bundle_table_contents(*old(self)).remove(key),
            r == (if bundle_table_contents(*old(self)).contains_key(key) {
                Some(bundle_table_contents(*old(self))[key])
            } else {
                None
            }),
    {
        self.inner.remove(&key)
    }
}

/// The render pass bundle of each presentation engine, by engine handle.
pub struct RenderPassBundles {
    table: BundleTable,
}

impl RenderPassBundles {
    /// The bundles by presentation engine.
    pub closed spec fn bundles(&self) -> Map<u64, BundleState> {
        bundle_table_contents(self.table)
    }

    /// No bundle.
    pub fn new() -> (r: Self)
        ensures
            r.bundles() == Map::<u64, BundleState>::empty(),
    {
        RenderPassBundles { table: BundleTable::with_capacity(8) }
    }

    /// Whether `engine` has a bundle.
    pub fn contains(&self, engine: u64) -> (r: bool)
        ensures
            r == self.bundles().contains_key(engine),
    {
        self.table.get(engine).is_some()
    }

    /// `engine`'s bundle, if it has one.
    pub fn get(&self, engine: u64) -> (r: Option<&BundleState>)
        ensures
            r == (if self.bundles().contains_key(engine) {
                Some(&self.bundles()[engine])
            } else {
                None
            }),
    {
        self.table.get(engine)
    }

    /// The render pass and framebuffer of swapchain image `image_index` of
    /// `engine`'s bundle when it still fits the specification; `None` when
    /// there is none or it must be made again.
    pub fn cached(&self, engine: u64, spec: &RenderPassSpecification, image_index: u32) -> (r: Option<(u64, u64)>)
        requires
            self.bundles().contains_key(engine) && spec_bundle_matches(self.bundles()[engine], *spec)
                ==> image_index < self.bundles()[engine].framebuffers@.len(),
        ensures
            r == (if self.bundles().contains_key(engine) && spec_bundle_matches(self.bundles()[engine], *spec) {
                Some((self.bundles()[engine].render_pass, self.bundles()[engine].framebuffers@[image_index as int]))
            } else {
                None
            }),
            r is Some <==> self.bundles().contains_key(engine) && self.bundles()[engine].swapchain_generation
                == spec.swapchain_generation && self.bundles()[engine].extent.width == spec.extent.width
                && self.bundles()[engine].extent.height == spec.extent.height,
    {
        match self.table.get(engine) {
            None => None,
            Some(b) => if b.swapchain_generation == spec.swapchain_generation && b.extent.width == spec.extent.width
                && b.extent.height == spec.extent.height {
                Some((b.render_pass, b.framebuffers[image_index as usize]))
            } else {
                None
            },
        }
    }

    /// Stores `bundle` as `engine`'s, handing back the bundle it replaces
    /// (to be discarded).
    pub fn insert(&mut self, engine: u64, bundle: BundleState) -> (r: Option<BundleState>)
        ensures
            final(self).bundles() == old(self).bundles().insert(engine, bundle),
            r == (if old(self).bundles().contains_key(engine) {
                Some(old(self).bundles()[engine])
            } else {
                None
            }),
    {
        self.table.insert(engine, bundle)
    }

    /// Takes out `engine`'s bundle, if any.
    pub fn remove(&mut self, engine: u64) -> (r: Option<BundleState>)
        ensures
            final(self).bundles() == old(self).bundles().remove(engine),
            r == (if old(self).bundles().contains_key(engine) {
                Some(old(self).bundles()[engine])
            } else {
                None
            }),
    {
        self.table.remove(engine)
    }

    /// The first clear values of `engine`'s bundle, as many as fit in
    /// `room`; `NoBundle` when it has none.
    pub fn clear_values(&self, engine: u64, room: usize) -> (r: Result<Vec<ClearValue>, BundleError>)
        ensures
            !self.bundles().contains_key(engine) ==> r == Err::<Vec<ClearValue>, BundleError>(BundleError::NoBundle),
            self.bundles().contains_key(engine) ==> (r matches Ok(v) && {
                let cv = self.bundles()[engine].clear_values@;
                let n = if room < cv.len() { room as int } else { cv.len() as int };
                v@ == cv.subrange(0, n)
            }),
    {
        match self.table.get(engine) {
            None => Err(BundleError::NoBundle),
            Some(b) => Ok(clear_values_for(b, room)),
        }
    }

    /// Whether the composite subpass of `engine` must be set up.
    pub fn composite_setup_for(&self, engine: u64) -> (r: Result<CompositeSetup, CompositeError>)
        ensures
            r == (if !self.bundles().contains_key(engine) {
                Err::<CompositeSetup, CompositeError>(CompositeError::NoBundle)
            } else if self.bundles()[engine].composite is Some {
                Ok::<CompositeSetup, CompositeError>(CompositeSetup::Done)
            } else if self.bundles()[engine].attachments@.len() < 6 {
                Err::<CompositeSetup, CompositeError>(CompositeError::NotCompositing)
            } else {
                Ok::<CompositeSetup, CompositeError>(CompositeSetup::Create)
            }),
    {
        match self.table.get(engine) {
            None => composite_setup(false, false, 0),
            Some(b) => composite_setup(true, b.composite.is_some(), b.attachments.len()),
        }
    }

    /// Keeps the composite subpass's objects on `engine`'s bundle; `false`,
    /// and nothing kept, when the engine has no bundle.
    pub fn set_composite(&mut self, engine: u64, resources: CompositeResources) -> (r: bool)
        ensures
            r == old(self).bundles().contains_key(engine),
            r ==> final(self).bundles() == old(self).bundles().insert(
                engine,
                BundleState { composite: Some(resources), ..old(self).bundles()[engine] },
            ),
            !r ==> final(self).bundles() == old(self).bundles(),
    {
        match self.table.remove(engine) {
            Some(mut b) => {
                let ghost before = old(self).bundles();
                b.composite = Some(resources);
                let _ = self.table.insert(engine, b);
                proof {
                    assert(self.bundles() =~= before.insert(engine, BundleState { composite: Some(resources), ..before[engine] }));
                }
                true
            },
            None => {
                proof {
                    assert(old(self).bundles().remove(engine) =~= old(self).bundles());
                }
                false
            },
        }
    }

    /// The composite subpass's objects of `engine`'s bundle, once set up.
    pub fn composite_resources(&self, engine: u64) -> (r: Option<CompositeResources>)
        ensures
            r == (if self.bundles().contains_key(engine) {
                self.bundles()[engine].composite
            } else {
                None
            }),
    {
        match self.table.get(engine) {
            None => None,
            Some(b) => b.composite,
        }
    }

    /// The render pass of `engine`'s bundle, when its composite subpass was
    /// set up.
    pub fn compositing_render_pass(&self, engine: u64) -> (r: Option<u64>)
        ensures
            r == (if self.bundles().contains_key(engine) && self.bundles()[engine].composite is Some {
                Some(self.bundles()[engine].render_pass)
            } else {
                None
            }),
    {
        match self.table.get(engine) {
            None => None,
            Some(b) => if b.composite.is_some() {
                Some(b.render_pass)
            } else {
                None
            },
        }
    }
}

} // verus!
