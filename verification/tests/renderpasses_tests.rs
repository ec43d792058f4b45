use aethervk_device::pipelines::{PipelineFlags, TOPOLOGY_TRIANGLE_LIST};
use aethervk_device::renderpasses::{
    composite_graphics_info, composite_set_bindings, composite_setup, composite_writes,
    bundle_releases, BundleAttachment, BundleRelease, CompositeError, CompositeResources, CompositeSetup, InputAttachmentWrite,
    DESCRIPTOR_TYPE_INPUT_ATTACHMENT, FORMAT_B8G8R8A8_SRGB, LAYOUT_DEPTH_STENCIL_READ_ONLY_OPTIMAL,
    LAYOUT_SHADER_READ_ONLY_OPTIMAL,
};
use aethervk_device::renderpasses::{
    bundle_clear_values, bundle_images, cached_render_pass, clear_values_for,
    compositing_render_pass_description, depth_only_view_images, framebuffer_attachments,
    render_pass_key, single_render_pass_description, compositing_bundle, single_subpass_bundle,
    BundleError, RenderPassBundles,
    BundleState, ClearValue, Extent2D,
    PipelineRenderPasses, RenderPassKind, RenderPassSpecification, ASPECT_DEPTH,
    ASPECT_DEPTH_STENCIL, FORMAT_R8G8B8A8_UNORM, LAYOUT_COLOR_ATTACHMENT_OPTIMAL, LAYOUT_PRESENT_SRC,
    LAYOUT_TRANSFER_SRC_OPTIMAL, LOAD_OP_CLEAR, ONE_F32_BITS, STAGE_BOTTOM_OF_PIPE, STAGE_TRANSFER,
    STORE_OP_DONT_CARE, STORE_OP_STORE, SUBPASS_EXTERNAL, USAGE_DEPTH_STENCIL_ATTACHMENT,
    USAGE_INPUT_ATTACHMENT,
};
use std::cell::Cell;

fn spec(kind: RenderPassKind, windowed: bool) -> RenderPassSpecification {
    RenderPassSpecification::for_engine(kind, windowed, 44, Extent2D { width: 800, height: 600 }, 3, vec![70, 71], 129)
}

#[test]
fn specification_picks_the_final_layout() {
    assert_eq!(spec(RenderPassKind::SingleSubpass, true).final_layout, LAYOUT_PRESENT_SRC);
    assert_eq!(spec(RenderPassKind::SingleSubpass, false).final_layout, LAYOUT_COLOR_ATTACHMENT_OPTIMAL);
    assert_eq!(spec(RenderPassKind::SingleSubpass, true).num_attachments(), 2);
    assert_eq!(spec(RenderPassKind::Compositing, true).num_attachments(), 6);
    assert_eq!(spec(RenderPassKind::Compositing, true).extent(), Extent2D { width: 800, height: 600 });
}

#[test]
fn single_pass_description() {
    let d = single_render_pass_description(44, 129, LAYOUT_PRESENT_SRC, false);
    assert_eq!(d.attachments.len(), 2);
    assert_eq!(d.attachments[0].format, 44);
    assert_eq!(d.attachments[0].store_op, STORE_OP_STORE);
    assert_eq!(d.attachments[0].final_layout, LAYOUT_PRESENT_SRC);
    assert_eq!(d.attachments[1].store_op, STORE_OP_DONT_CARE);
    assert_eq!(d.attachments[1].stencil_load_op, LOAD_OP_CLEAR);
    assert_eq!(d.subpasses.len(), 1);
    assert_eq!(d.subpasses[0].color_attachments[0].attachment, 0);
    assert_eq!(d.subpasses[0].depth_stencil_attachment.unwrap().attachment, 1);
    assert_eq!(d.dependencies.len(), 2);
    assert_eq!(d.dependencies[0].src_subpass, SUBPASS_EXTERNAL);
    assert_eq!(d.dependencies[1].dst_stage, STAGE_BOTTOM_OF_PIPE);
    assert!(!d.dependencies[0].legacy);
    let rb = single_render_pass_description(44, 129, LAYOUT_TRANSFER_SRC_OPTIMAL, false);
    assert_eq!(rb.dependencies[1].dst_stage, STAGE_TRANSFER | STAGE_BOTTOM_OF_PIPE);
}

#[test]
fn compositing_description() {
    let d = compositing_render_pass_description(44, 129, LAYOUT_PRESENT_SRC, false);
    assert_eq!(d.attachments.len(), 6);
    assert_eq!(d.attachments[2].format, FORMAT_R8G8B8A8_UNORM);
    assert_eq!(d.attachments[3].format, 129);
    assert_eq!(d.subpasses.len(), 3);
    assert_eq!(d.subpasses[0].color_attachments[0].attachment, 2);
    assert_eq!(d.subpasses[1].color_attachments[0].attachment, 4);
    let inputs = &d.subpasses[2].input_attachments;
    assert_eq!(inputs.len(), 4);
    assert_eq!(inputs[1].aspect_mask, ASPECT_DEPTH);
    assert_eq!(d.subpasses[2].depth_stencil_attachment.unwrap().aspect_mask, ASPECT_DEPTH_STENCIL);
    assert_eq!(d.dependencies.len(), 4);
    assert_eq!((d.dependencies[1].src_subpass, d.dependencies[1].dst_subpass), (0, 2));
    assert_eq!((d.dependencies[2].src_subpass, d.dependencies[2].dst_subpass), (1, 2));
    assert!(d.dependencies[3].legacy);
}

#[test]
fn bundle_images_and_clear_values() {
    let single = bundle_images(RenderPassKind::SingleSubpass, 129, false);
    assert_eq!(single.len(), 1);
    assert_eq!(single[0].usage, USAGE_DEPTH_STENCIL_ATTACHMENT);
    let comp = bundle_images(RenderPassKind::Compositing, 129, false);
    assert_eq!(comp.len(), 5);
    assert_eq!(comp[2].usage, USAGE_DEPTH_STENCIL_ATTACHMENT | USAGE_INPUT_ATTACHMENT);
    assert_eq!(depth_only_view_images(RenderPassKind::Compositing), vec![2, 4]);
    assert!(depth_only_view_images(RenderPassKind::SingleSubpass).is_empty());
    let cv = bundle_clear_values(RenderPassKind::Compositing);
    assert_eq!(cv.len(), 6);
    assert_eq!(cv[0], ClearValue::Color { r_bits: 0, g_bits: 0, b_bits: 0, a_bits: ONE_F32_BITS });
    assert_eq!(cv[4], ClearValue::Color { r_bits: 0, g_bits: 0, b_bits: 0, a_bits: 0 });
    assert_eq!(cv[5], ClearValue::DepthStencil { depth_bits: 0, stencil: 0 });
    assert_eq!(ONE_F32_BITS, 1.0f32.to_bits());
    assert_eq!(bundle_clear_values(RenderPassKind::SingleSubpass).len(), 2);
}

#[test]
fn framebuffer_starts_with_the_swapchain_view() {
    assert_eq!(framebuffer_attachments(70, &vec![1, 2, 3]), vec![70, 1, 2, 3]);
}

#[test]
fn bundle_is_reused_until_the_swapchain_changes() {
    let bundle = BundleState {
        render_pass: 5,
        framebuffers: vec![50, 51],
        swapchain_generation: 3,
        extent: Extent2D { width: 800, height: 600 },
        clear_values: bundle_clear_values(RenderPassKind::SingleSubpass),
        attachments: vec![],
        depth_only_views: vec![],
        composite: None,
    };
    assert_eq!(cached_render_pass(&bundle, &spec(RenderPassKind::SingleSubpass, true), 1), Some((5, 51)));
    let resized = RenderPassSpecification::for_engine(
        RenderPassKind::SingleSubpass, true, 44, Extent2D { width: 801, height: 600 }, 3, vec![70, 71], 129);
    assert_eq!(cached_render_pass(&bundle, &resized, 1), None);
    assert_eq!(clear_values_for(&bundle, 1).len(), 1);
    assert_eq!(clear_values_for(&bundle, 8).len(), 2);
}

#[test]
fn pipeline_render_passes_are_cached_by_formats() {
    assert_ne!(render_pass_key(44, 129), render_pass_key(129, 44));
    assert_eq!(render_pass_key(1, 2), (1u64 << 32) | 2);
    let created = Cell::new(0);
    let mut p = PipelineRenderPasses::new();
    let make = |_c: i32, _d: i32| -> Result<u64, i32> {
        created.set(created.get() + 1);
        Ok(900)
    };
    assert_eq!(p.get_pipeline_render_pass(44, 129, make), Ok(900));
    assert_eq!(p.get_pipeline_render_pass(44, 129, |_c: i32, _d: i32| Ok(901)), Ok(900));
    assert_eq!(created.get(), 1);
    assert_eq!(p.get_pipeline_render_pass(50, 129, |_c: i32, _d: i32| Err(-1)), Err(-1));
    assert_eq!(p.cleanup(), vec![900]);
}

#[test]
fn composite_setup_decisions() {
    assert_eq!(composite_setup(false, false, 6), Err(CompositeError::NoBundle));
    assert_eq!(composite_setup(true, true, 2), Ok(CompositeSetup::Done));
    assert_eq!(composite_setup(true, false, 2), Err(CompositeError::NotCompositing));
    assert_eq!(composite_setup(true, false, 6), Ok(CompositeSetup::Create));
}

#[test]
fn composite_reads_macro_and_micro_images() {
    let bindings = composite_set_bindings();
    assert_eq!(bindings.len(), 4);
    assert_eq!(bindings[3].binding, 3);
    assert_eq!(bindings[0].descriptor_type, DESCRIPTOR_TYPE_INPUT_ATTACHMENT);
    let atts = vec![
        BundleAttachment::SwapchainColor,
        BundleAttachment::DepthStencil { image: 1, view: 2 },
        BundleAttachment::Color { image: 3, view: 4 },
        BundleAttachment::DepthStencil { image: 5, view: 6 },
        BundleAttachment::Color { image: 7, view: 8 },
        BundleAttachment::DepthStencil { image: 9, view: 10 },
    ];
    let writes = composite_writes(&atts, &vec![60, 100]).unwrap();
    assert_eq!(
        writes,
        vec![
            InputAttachmentWrite { binding: 0, view: 4, layout: LAYOUT_SHADER_READ_ONLY_OPTIMAL },
            InputAttachmentWrite { binding: 1, view: 60, layout: LAYOUT_DEPTH_STENCIL_READ_ONLY_OPTIMAL },
            InputAttachmentWrite { binding: 2, view: 8, layout: LAYOUT_SHADER_READ_ONLY_OPTIMAL },
            InputAttachmentWrite { binding: 3, view: 100, layout: LAYOUT_DEPTH_STENCIL_READ_ONLY_OPTIMAL },
        ]
    );
    assert_eq!(composite_writes(&atts, &vec![60]), Err(CompositeError::MissingDepthViews));
    assert_eq!(composite_writes(&atts[..2].to_vec(), &vec![60, 100]), Err(CompositeError::NotCompositing));
    let mut wrong = atts.clone();
    wrong[4] = BundleAttachment::DepthStencil { image: 7, view: 8 };
    assert_eq!(composite_writes(&wrong, &vec![60, 100]), Err(CompositeError::NotColor(4)));
}

#[test]
fn composite_pipeline_description() {
    let g = composite_graphics_info(11, 12, 13, 14);
    assert_eq!(g.vertex_in.topology, TOPOLOGY_TRIANGLE_LIST);
    assert_eq!(g.subpass, 2);
    assert_eq!(g.render_pass, 14);
    assert_eq!(g.pipeline_layout, 13);
    assert_eq!(g.fragment_out.color_attachment_formats, vec![FORMAT_B8G8R8A8_SRGB]);
    assert_eq!(g.pipeline_flags.0, PipelineFlags::NO_DEPTH_TEST | PipelineFlags::NO_DEPTH_WRITE);
    assert_eq!(g.fragment_shader.viewports.len(), 1);
}

#[test]
fn replaced_bundle_releases_everything_it_owns_in_order() {
    let atts = vec![
        BundleAttachment::SwapchainColor,
        BundleAttachment::DepthStencil { image: 1, view: 2 },
        BundleAttachment::Color { image: 3, view: 4 },
    ];
    let comp = CompositeResources { set_layout: 20, pipeline_layout: 21, descriptor_pool: 22, descriptor_set: 23, pipeline_key: 24 };
    let r = bundle_releases(&atts, &vec![5], &vec![6, 7], 8, Some(comp));
    assert_eq!(
        r,
        vec![
            BundleRelease::ImageView(2),
            BundleRelease::Image(1),
            BundleRelease::ImageView(4),
            BundleRelease::Image(3),
            BundleRelease::ImageView(5),
            BundleRelease::Framebuffer(6),
            BundleRelease::Framebuffer(7),
            BundleRelease::RenderPass(8),
            BundleRelease::SetLayout(20),
            BundleRelease::PipelineLayout(21),
            BundleRelease::DescriptorPool(22),
        ]
    );
    assert_eq!(bundle_releases(&vec![BundleAttachment::SwapchainColor], &vec![], &vec![9], 10, None), vec![BundleRelease::Framebuffer(9), BundleRelease::RenderPass(10)]);
}

#[test]
fn compositing_bundle_is_assembled_from_its_objects() {
    let b = compositing_bundle(
        9,
        vec![90, 91, 92],
        vec![(1, 11), (2, 12), (3, 13), (4, 14), (5, 15)],
        vec![33, 55],
        Extent2D { width: 640, height: 480 },
        4,
    );
    assert_eq!(b.render_pass, 9);
    assert_eq!(b.framebuffers, vec![90, 91, 92]);
    assert_eq!(
        b.attachments,
        vec![
            BundleAttachment::SwapchainColor,
            BundleAttachment::DepthStencil { image: 1, view: 11 },
            BundleAttachment::Color { image: 2, view: 12 },
            BundleAttachment::DepthStencil { image: 3, view: 13 },
            BundleAttachment::Color { image: 4, view: 14 },
            BundleAttachment::DepthStencil { image: 5, view: 15 },
        ]
    );
    assert_eq!(b.depth_only_views, vec![33, 55]);
    assert_eq!(b.extent, Extent2D { width: 640, height: 480 });
    assert_eq!(b.swapchain_generation, 4);
    assert_eq!(b.clear_values, bundle_clear_values(RenderPassKind::Compositing));
    assert!(b.composite.is_none());
}

#[test]
fn bundle_table_answers_per_engine() {
    let mut t = RenderPassBundles::new();
    assert_eq!(t.clear_values(7, 4), Err(BundleError::NoBundle));
    assert_eq!(t.composite_setup_for(7), Err(CompositeError::NoBundle));
    let single = single_subpass_bundle(5, vec![50, 51], 60, 61, Extent2D { width: 800, height: 600 }, 3);
    assert!(t.insert(7, single).is_none());
    assert_eq!(t.clear_values(7, 1).unwrap().len(), 1);
    assert_eq!(t.composite_setup_for(7), Err(CompositeError::NotCompositing));
    assert_eq!(t.cached(7, &spec(RenderPassKind::SingleSubpass, true), 1), Some((5, 51)));
    let comp = compositing_bundle(
        9,
        vec![90, 91],
        vec![(1, 11), (2, 12), (3, 13), (4, 14), (5, 15)],
        vec![33, 55],
        Extent2D { width: 800, height: 600 },
        3,
    );
    let replaced = t.insert(7, comp).unwrap();
    assert_eq!(replaced.render_pass, 5);
    assert_eq!(t.composite_setup_for(7), Ok(CompositeSetup::Create));
    assert_eq!(t.compositing_render_pass(7), None);
    let res = CompositeResources { set_layout: 1, pipeline_layout: 2, descriptor_pool: 3, descriptor_set: 4, pipeline_key: 5 };
    assert!(t.set_composite(7, res));
    assert!(!t.set_composite(8, res));
    assert_eq!(t.composite_setup_for(7), Ok(CompositeSetup::Done));
    assert_eq!(t.composite_resources(7), Some(res));
    assert_eq!(t.compositing_render_pass(7), Some(9));
    assert_eq!(t.remove(7).unwrap().render_pass, 9);
    assert!(!t.contains(7));
}
