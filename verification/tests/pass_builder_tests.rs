use jb_gfx::barrier::AttachmentHandle;
use jb_gfx::handles::{ImageHandle, NULL_KEY};
use jb_gfx::pass_builder::{AttachmentInfo, RenderPassBuilder};
use jb_gfx::usage_tracker::ImageUsageTracker;
use jb_gfx::vkflags::{
    LAYOUT_ATTACHMENT_OPTIMAL, LAYOUT_SHADER_READ_ONLY_OPTIMAL, LAYOUT_UNDEFINED, LOAD_OP_CLEAR,
    LOAD_OP_LOAD, USAGE_COLOR_ATTACHMENT, USAGE_DEPTH_STENCIL_ATTACHMENT, USAGE_SAMPLED,
};

fn img(key: u64) -> ImageHandle {
    ImageHandle { key }
}

fn attachment(target: AttachmentHandle) -> AttachmentInfo<u32> {
    AttachmentInfo { target, image_layout: LAYOUT_ATTACHMENT_OPTIMAL, clear_value: 0 }
}

#[test]
fn usage_tracker_records_last_usage() {
    let mut tracker = ImageUsageTracker::new();
    let a = AttachmentHandle::Image(img(1));
    assert_eq!(tracker.get_last_usage(a), None);
    tracker.set_last_usage(a, USAGE_SAMPLED);
    assert_eq!(tracker.get_last_usage(a), Some(USAGE_SAMPLED));
    tracker.set_last_usage(a, USAGE_COLOR_ATTACHMENT);
    assert_eq!(tracker.get_last_usage(a), Some(USAGE_COLOR_ATTACHMENT));
    assert_eq!(tracker.get_last_usage(AttachmentHandle::SwapchainImage), None);
}

#[test]
fn attachment_info_default_target() {
    let info = AttachmentInfo::with_clear_value(5u8);
    assert_eq!(info.target, AttachmentHandle::Image(ImageHandle { key: NULL_KEY }));
    assert_eq!(info.image_layout, LAYOUT_ATTACHMENT_OPTIMAL);
    assert_eq!(info.clear_value, 5u8);
}

#[test]
fn first_pass_clears_and_transitions_everything() {
    let mut tracker = ImageUsageTracker::new();
    let builder = RenderPassBuilder::new((800, 600))
        .add_colour_attachment(attachment(AttachmentHandle::Image(img(1))))
        .set_depth_attachment(attachment(AttachmentHandle::Image(img(2))))
        .set_texture_input(img(3));
    let plan = builder.plan(&mut tracker);
    assert_eq!(plan.width, 800);
    assert_eq!(plan.height, 600);
    assert!(!plan.flip_viewport);
    assert_eq!(plan.colour_load_ops, vec![LOAD_OP_CLEAR]);
    assert_eq!(plan.depth_load_op, Some(LOAD_OP_CLEAR));
    assert_eq!(plan.barriers.len(), 3);
    assert_eq!(plan.barriers[0].image, AttachmentHandle::Image(img(1)));
    assert_eq!(plan.barriers[0].old_layout, LAYOUT_UNDEFINED);
    assert_eq!(plan.barriers[0].new_layout, LAYOUT_ATTACHMENT_OPTIMAL);
    assert_eq!(plan.barriers[1].image, AttachmentHandle::Image(img(2)));
    assert_eq!(plan.barriers[2].image, AttachmentHandle::Image(img(3)));
    assert_eq!(plan.barriers[2].new_layout, LAYOUT_SHADER_READ_ONLY_OPTIMAL);
    assert_eq!(tracker.get_last_usage(AttachmentHandle::Image(img(1))), Some(USAGE_COLOR_ATTACHMENT));
    assert_eq!(
        tracker.get_last_usage(AttachmentHandle::Image(img(2))),
        Some(USAGE_DEPTH_STENCIL_ATTACHMENT)
    );
    assert_eq!(tracker.get_last_usage(AttachmentHandle::Image(img(3))), Some(USAGE_SAMPLED));
}

#[test]
fn same_pass_again_loads_and_needs_no_barrier() {
    let mut tracker = ImageUsageTracker::new();
    let builder = RenderPassBuilder::new((64, 64))
        .add_colour_attachment(attachment(AttachmentHandle::Image(img(1))))
        .add_colour_attachment(attachment(AttachmentHandle::Image(img(4))));
    let first = builder.plan(&mut tracker);
    assert_eq!(first.barriers.len(), 2);
    let second = builder.plan(&mut tracker);
    assert_eq!(second.colour_load_ops, vec![LOAD_OP_LOAD, LOAD_OP_LOAD]);
    assert!(second.barriers.is_empty());
    assert_eq!(second.depth_load_op, None);
}

#[test]
fn sampling_a_rendered_image_transitions_from_colour() {
    let mut tracker = ImageUsageTracker::new();
    let producer = RenderPassBuilder::new((32, 32))
        .add_colour_attachment(attachment(AttachmentHandle::Image(img(9))));
    producer.plan(&mut tracker);
    let consumer = RenderPassBuilder::new((32, 32))
        .add_colour_attachment(attachment(AttachmentHandle::SwapchainImage))
        .set_texture_input(img(9));
    let plan = consumer.plan(&mut tracker);
    assert!(plan.flip_viewport);
    assert_eq!(plan.barriers.len(), 2);
    let sample = plan.barriers[1];
    assert_eq!(sample.image, AttachmentHandle::Image(img(9)));
    assert_eq!(sample.old_layout, LAYOUT_ATTACHMENT_OPTIMAL);
    assert_eq!(sample.new_layout, LAYOUT_SHADER_READ_ONLY_OPTIMAL);
}

#[test]
fn depth_used_twice_is_loaded_the_second_time() {
    let mut tracker = ImageUsageTracker::new();
    let shadow = RenderPassBuilder::new((4096, 4096))
        .set_depth_attachment(attachment(AttachmentHandle::Image(img(5))));
    let first = shadow.plan(&mut tracker);
    assert_eq!(first.depth_load_op, Some(LOAD_OP_CLEAR));
    assert_eq!(first.barriers.len(), 1);
    let second = shadow.plan(&mut tracker);
    assert_eq!(second.depth_load_op, Some(LOAD_OP_LOAD));
    assert!(second.barriers.is_empty());
    assert!(second.colour_load_ops.is_empty());
}

#[test]
fn repeated_colour_attachment_is_loaded_after_first_use() {
    let mut tracker = ImageUsageTracker::new();
    let builder = RenderPassBuilder::new((8, 8))
        .add_colour_attachment(attachment(AttachmentHandle::Image(img(1))))
        .add_colour_attachment(attachment(AttachmentHandle::Image(img(1))));
    let plan = builder.plan(&mut tracker);
    assert_eq!(plan.colour_load_ops, vec![LOAD_OP_CLEAR, LOAD_OP_LOAD]);
    assert_eq!(plan.barriers.len(), 1);
}
