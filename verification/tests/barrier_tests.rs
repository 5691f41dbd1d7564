use jb_gfx::barrier::{AttachmentHandle, ImageBarrier, ImageBarrierBuilder, ImageHandleType};
use jb_gfx::handles::{ImageHandle, NULL_KEY};
use jb_gfx::vkflags::{
    ACCESS_COLOR_ATTACHMENT_WRITE, ACCESS_NONE, ACCESS_SHADER_READ, ASPECT_COLOR, ASPECT_DEPTH,
    FORMAT_D32_SFLOAT, FORMAT_R8G8B8A8_SRGB, LAYOUT_ATTACHMENT_OPTIMAL,
    LAYOUT_SHADER_READ_ONLY_OPTIMAL, LAYOUT_UNDEFINED, STAGE_COLOR_ATTACHMENT_OUTPUT,
    STAGE_FRAGMENT_SHADER, STAGE_NONE, USAGE_COLOR_ATTACHMENT, USAGE_SAMPLED,
};

fn image(key: u64) -> ImageHandle {
    ImageHandle { key }
}

#[test]
fn new_barrier_is_empty_transition() {
    let b = ImageBarrier::new(AttachmentHandle::Image(image(7)));
    assert_eq!(b.image, AttachmentHandle::Image(image(7)));
    assert_eq!(b.src_stage_mask, STAGE_NONE);
    assert_eq!(b.src_access_mask, ACCESS_NONE);
    assert_eq!(b.dst_stage_mask, STAGE_NONE);
    assert_eq!(b.dst_access_mask, ACCESS_NONE);
    assert_eq!(b.old_layout, LAYOUT_UNDEFINED);
    assert_eq!(b.new_layout, LAYOUT_UNDEFINED);
    assert_eq!(b.base_mip_level, 0);
    assert_eq!(b.level_count, 1);
    assert_eq!(b.image_layers, 1);
}

#[test]
fn default_barrier_names_null_image() {
    let b = ImageBarrier::default();
    assert_eq!(b.image, AttachmentHandle::Image(ImageHandle { key: NULL_KEY }));
    assert_eq!(b, ImageBarrier::new(AttachmentHandle::Image(ImageHandle::default())));
}

#[test]
fn colour_to_sampled_transition() {
    let b = ImageBarrier::new(AttachmentHandle::SwapchainImage)
        .old_usage(USAGE_COLOR_ATTACHMENT)
        .new_usage(USAGE_SAMPLED);
    assert_eq!(b.src_stage_mask, STAGE_COLOR_ATTACHMENT_OUTPUT);
    assert_eq!(b.src_access_mask, ACCESS_COLOR_ATTACHMENT_WRITE);
    assert_eq!(b.old_layout, LAYOUT_ATTACHMENT_OPTIMAL);
    assert_eq!(b.dst_stage_mask, STAGE_FRAGMENT_SHADER);
    assert_eq!(b.dst_access_mask, ACCESS_SHADER_READ);
    assert_eq!(b.new_layout, LAYOUT_SHADER_READ_ONLY_OPTIMAL);
}

#[test]
fn subresource_setters_change_one_field() {
    let b = ImageBarrier::new(AttachmentHandle::Image(image(1)))
        .base_mip_level(2)
        .level_count(5)
        .image_layers(6);
    assert_eq!(b.base_mip_level, 2);
    assert_eq!(b.level_count, 5);
    assert_eq!(b.image_layers, 6);
    assert_eq!(b.old_layout, LAYOUT_UNDEFINED);
}

#[test]
fn image_handle_type_converts() {
    assert_eq!(ImageHandleType::Image(image(3)).to_attachment(), AttachmentHandle::Image(image(3)));
    assert_eq!(ImageHandleType::SwapchainImage.to_attachment(), AttachmentHandle::SwapchainImage);
}

#[test]
fn builder_resolves_aspects_in_order() {
    let colour = ImageBarrier::new(AttachmentHandle::Image(image(1))).new_usage(USAGE_SAMPLED);
    let depth = ImageBarrier::new(AttachmentHandle::Image(image(2))).image_layers(6);
    let swap = ImageBarrier::new(AttachmentHandle::SwapchainImage);
    let builder = ImageBarrierBuilder::new()
        .add_image_barrier(colour)
        .add_image_barrier(depth)
        .add_image_barrier(swap);
    assert_eq!(builder.barriers.len(), 3);
    let resolved = builder.resolve(&vec![Some(FORMAT_R8G8B8A8_SRGB), Some(FORMAT_D32_SFLOAT), None]);
    assert_eq!(resolved.len(), 3);
    assert_eq!(resolved[0].aspect_mask, ASPECT_COLOR);
    assert_eq!(resolved[0].new_layout, LAYOUT_SHADER_READ_ONLY_OPTIMAL);
    assert_eq!(resolved[1].aspect_mask, ASPECT_DEPTH);
    assert_eq!(resolved[1].layer_count, 6);
    assert_eq!(resolved[1].base_array_layer, 0);
    assert_eq!(resolved[2].aspect_mask, ASPECT_COLOR);
    assert_eq!(resolved[2].image, AttachmentHandle::SwapchainImage);
}

#[test]
fn empty_builder_resolves_to_nothing() {
    let builder = ImageBarrierBuilder::new();
    assert!(builder.resolve(&Vec::new()).is_empty());
}
