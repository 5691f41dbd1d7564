use jb_gfx::barrier::AttachmentHandle;
use jb_gfx::handles::{ImageHandle, VirtualRenderPassHandle};
use jb_gfx::rendergraph::{
    AttachmentInfo, LastUsage, RenderList, RenderPassLayout, RenderPassTracker,
    RenderResourceTracker, SizeClass, VirtualResource, VirtualTextureResource,
};
use jb_gfx::vkflags::{
    FORMAT_D32_SFLOAT, FORMAT_R16G16B16A16_SFLOAT, FORMAT_UNDEFINED, LAYOUT_ATTACHMENT_OPTIMAL,
    LAYOUT_SHADER_READ_ONLY_OPTIMAL, LAYOUT_UNDEFINED, USAGE_COLOR_ATTACHMENT,
    USAGE_DEPTH_STENCIL_ATTACHMENT, USAGE_SAMPLED,
};

#[test]
fn size_class_resolves() {
    assert_eq!(SizeClass::SwapchainRelative.resolve((1280, 720)), (1280, 720));
    assert_eq!(SizeClass::Custom(4096, 4096).resolve((1280, 720)), (4096, 4096));
    assert_eq!(SizeClass::default(), SizeClass::SwapchainRelative);
    let info = AttachmentInfo::default();
    assert_eq!(info.size, SizeClass::SwapchainRelative);
    assert_eq!(info.format, FORMAT_UNDEFINED);
}

#[test]
fn virtual_resource_records_passes() {
    let mut r = VirtualTextureResource::new();
    r.set_name("bloom");
    assert_eq!(r.name(), "bloom");
    let a = VirtualRenderPassHandle { key: 0x1_0000_0001 };
    let b = VirtualRenderPassHandle { key: 0x1_0000_0002 };
    r.write_in_pass(a);
    r.read_in_pass(b);
    r.read_in_pass(a);
    assert_eq!(r.get_write_passes(), &[a][..]);
    assert_eq!(r.get_read_passes(), &[b, a][..]);
    r.set_image_usage(USAGE_SAMPLED);
    r.set_image_usage(USAGE_COLOR_ATTACHMENT);
    assert_eq!(r.get_image_usage(), USAGE_SAMPLED | USAGE_COLOR_ATTACHMENT);
    r.set_attachment_info(AttachmentInfo { size: SizeClass::Custom(2, 3), format: FORMAT_D32_SFLOAT });
    assert_eq!(r.get_attachment_info().size, SizeClass::Custom(2, 3));
}

#[test]
fn trackers_hand_out_one_handle_per_name() {
    let mut passes = RenderPassTracker::new();
    let p1 = passes.get_render_pass("shadow");
    let p2 = passes.get_render_pass("forward");
    let p3 = passes.get_render_pass("shadow");
    assert_eq!(p1, p3);
    assert_ne!(p1, p2);
    // The tracker does not name the passes it creates.
    assert_eq!(passes.retrieve_render_pass(p2).name, "");

    let mut resources = RenderResourceTracker::new();
    let t1 = resources.get_texture_resource("depth");
    let t2 = resources.get_texture_resource("depth");
    assert_eq!(t1, t2);
    assert_eq!(resources.retrieve_resource(t1).name(), "depth");
    assert_eq!(resources.handles().len(), 1);
}

#[test]
fn last_usage_labels() {
    assert_eq!(LastUsage::Write.label(), "WRITE");
    assert_eq!(LastUsage::Read.label(), "READ");
    assert_eq!(LastUsage::Unused.label(), "NONE");
}

fn shadow_then_forward() -> (RenderList, VirtualRenderPassHandle, VirtualRenderPassHandle) {
    let mut list = RenderList::new((1280, 720));
    let shadow_info = AttachmentInfo { size: SizeClass::Custom(4096, 4096), format: FORMAT_D32_SFLOAT };
    let colour_info = AttachmentInfo { size: SizeClass::SwapchainRelative, format: FORMAT_R16G16B16A16_SFLOAT };
    let depth_info = AttachmentInfo { size: SizeClass::SwapchainRelative, format: FORMAT_D32_SFLOAT };
    let shadow = list.add_pass(
        "shadow",
        RenderPassLayout::new().set_depth_stencil_attachment("shadow_map", &shadow_info),
    );
    let forward = list.add_pass(
        "forward",
        RenderPassLayout::new()
            .add_color_attachment("forward", &colour_info)
            .set_depth_stencil_attachment("depth", &depth_info)
            .add_texture_input("shadow_map"),
    );
    (list, shadow, forward)
}

#[test]
fn image_requests_cover_every_texture() {
    let (list, _, _) = shadow_then_forward();
    let requests = list.image_requests();
    assert_eq!(requests.len(), 3);
    let shadow = requests.iter().find(|r| r.name == "shadow_map").unwrap();
    assert_eq!((shadow.width, shadow.height), (4096, 4096));
    assert_eq!(shadow.format, FORMAT_D32_SFLOAT);
    assert_eq!(shadow.usage, USAGE_DEPTH_STENCIL_ATTACHMENT | USAGE_SAMPLED);
    let forward = requests.iter().find(|r| r.name == "forward").unwrap();
    assert_eq!((forward.width, forward.height), (1280, 720));
    assert_eq!(forward.usage, USAGE_COLOR_ATTACHMENT);
    let depth = requests.iter().find(|r| r.name == "depth").unwrap();
    assert_eq!(depth.usage, USAGE_DEPTH_STENCIL_ATTACHMENT);
}

#[test]
fn baked_passes_carry_images_extents_and_barriers() {
    let (mut list, shadow, forward) = shadow_then_forward();
    let requests = list.image_requests();
    let mut next = 0x1_0000_0001u64;
    for r in requests.iter() {
        list.set_physical_image(r.resource, ImageHandle { key: next });
        next += 1;
    }
    list.bake_passes();
    let shadow_image = list.get_physical_resource("shadow_map");
    let forward_image = list.get_physical_resource("forward");
    let depth_image = list.get_physical_resource("depth");

    let s = list.get_physical_pass(shadow);
    assert!(s.colour_images.is_empty());
    assert_eq!(s.depth_image, Some(shadow_image));
    assert_eq!(s.extent, Some((4096, 4096)));
    assert_eq!(s.barriers.len(), 1);
    assert_eq!(s.barriers[0].image, AttachmentHandle::Image(shadow_image));
    assert_eq!(s.barriers[0].old_layout, LAYOUT_UNDEFINED);
    assert_eq!(s.barriers[0].new_layout, LAYOUT_ATTACHMENT_OPTIMAL);

    let f = list.get_physical_pass(forward);
    assert_eq!(f.colour_images, vec![forward_image]);
    assert_eq!(f.depth_image, Some(depth_image));
    assert_eq!(f.extent, Some((1280, 720)));
    assert_eq!(f.barriers.len(), 3);
    assert_eq!(f.barriers[0].image, AttachmentHandle::Image(forward_image));
    assert_eq!(f.barriers[0].old_layout, LAYOUT_UNDEFINED);
    assert_eq!(f.barriers[1].image, AttachmentHandle::Image(depth_image));
    let input = f.barriers[2];
    assert_eq!(input.image, AttachmentHandle::Image(shadow_image));
    assert_eq!(input.old_layout, LAYOUT_ATTACHMENT_OPTIMAL);
    assert_eq!(input.new_layout, LAYOUT_SHADER_READ_ONLY_OPTIMAL);
}

#[test]
fn attachment_written_by_previous_pass_needs_no_barrier() {
    let mut list = RenderList::new((64, 64));
    let info = AttachmentInfo { size: SizeClass::SwapchainRelative, format: FORMAT_R16G16B16A16_SFLOAT };
    let first = list.add_pass("first", RenderPassLayout::new().add_color_attachment("hdr", &info));
    let second = list.add_pass("second", RenderPassLayout::new().add_color_attachment("hdr", &info));
    for r in list.image_requests().iter() {
        list.set_physical_image(r.resource, ImageHandle { key: 0x1_0000_0005 });
    }
    list.bake_passes();
    assert_eq!(list.get_physical_pass(first).barriers.len(), 1);
    assert!(list.get_physical_pass(second).barriers.is_empty());
}

#[test]
fn pass_declared_twice_keeps_one_handle() {
    let mut list = RenderList::new((64, 64));
    let info = AttachmentInfo { size: SizeClass::SwapchainRelative, format: FORMAT_R16G16B16A16_SFLOAT };
    let a = list.add_pass("blur", RenderPassLayout::new().add_color_attachment("x", &info));
    let b = list.add_pass("blur", RenderPassLayout::new().add_color_attachment("y", &info));
    assert_eq!(a, b);
    assert_eq!(list.image_requests().len(), 2);
}
