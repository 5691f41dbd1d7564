use ash::vk;
use jb_gfx::swapchain::{
    choose_device, choose_present_mode, choose_surface_format, desired_image_count, pre_transform,
    resize_needed, surface_resolution, PhysicalDeviceInfo, QueueFamily, COLOR_SPACE_SRGB_NONLINEAR,
    FORMAT_B8G8R8A8_SRGB, PRESENT_MODE_FIFO, PRESENT_MODE_MAILBOX, QUEUE_GRAPHICS, TRANSFORM_IDENTITY,
};
use jb_gfx::vkflags::FORMAT_R8G8B8A8_UNORM;

#[test]
fn swapchain_constants_are_vulkan_values() {
    assert_eq!(QUEUE_GRAPHICS, vk::QueueFlags::GRAPHICS.as_raw());
    assert_eq!(TRANSFORM_IDENTITY, vk::SurfaceTransformFlagsKHR::IDENTITY.as_raw());
    assert_eq!(PRESENT_MODE_MAILBOX, vk::PresentModeKHR::MAILBOX.as_raw());
    assert_eq!(PRESENT_MODE_FIFO, vk::PresentModeKHR::FIFO.as_raw());
    assert_eq!(FORMAT_B8G8R8A8_SRGB, vk::Format::B8G8R8A8_SRGB.as_raw());
    assert_eq!(COLOR_SPACE_SRGB_NONLINEAR, vk::ColorSpaceKHR::SRGB_NONLINEAR.as_raw());
}

fn family(flags: vk::QueueFlags, surface_support: bool) -> QueueFamily {
    QueueFamily { queue_flags: flags.as_raw(), surface_support }
}

#[test]
fn device_choice_skips_devices_without_timestamps_or_queues() {
    let devices = vec![
        PhysicalDeviceInfo {
            has_timestamps: false,
            queue_families: vec![family(vk::QueueFlags::GRAPHICS, true)],
        },
        PhysicalDeviceInfo {
            has_timestamps: true,
            queue_families: vec![family(vk::QueueFlags::COMPUTE, true), family(vk::QueueFlags::GRAPHICS, false)],
        },
        PhysicalDeviceInfo {
            has_timestamps: true,
            queue_families: vec![
                family(vk::QueueFlags::TRANSFER, true),
                family(vk::QueueFlags::GRAPHICS | vk::QueueFlags::COMPUTE, true),
                family(vk::QueueFlags::GRAPHICS, true),
            ],
        },
    ];
    assert_eq!(choose_device(&devices), Some((2, 1)));
    let unfit: Vec<PhysicalDeviceInfo> = devices[..2]
        .iter()
        .map(|d| PhysicalDeviceInfo { has_timestamps: d.has_timestamps, queue_families: d.queue_families.clone() })
        .collect();
    assert_eq!(choose_device(&unfit), None);
    assert_eq!(choose_device(&Vec::new()), None);
}

#[test]
fn surface_format_choice() {
    let srgb = COLOR_SPACE_SRGB_NONLINEAR;
    let formats = vec![
        (FORMAT_R8G8B8A8_UNORM, srgb),
        (FORMAT_B8G8R8A8_SRGB, vk::ColorSpaceKHR::EXTENDED_SRGB_LINEAR_EXT.as_raw()),
        (vk::Format::R8G8B8A8_SRGB.as_raw(), srgb),
        (FORMAT_B8G8R8A8_SRGB, srgb),
    ];
    assert_eq!(choose_surface_format(&formats), Some((vk::Format::R8G8B8A8_SRGB.as_raw(), srgb)));
    assert_eq!(choose_surface_format(&vec![(FORMAT_R8G8B8A8_UNORM, srgb)]), None);
}

#[test]
fn present_mode_prefers_mailbox() {
    let fifo = PRESENT_MODE_FIFO;
    let immediate = vk::PresentModeKHR::IMMEDIATE.as_raw();
    assert_eq!(choose_present_mode(&vec![immediate, PRESENT_MODE_MAILBOX, fifo]), PRESENT_MODE_MAILBOX);
    assert_eq!(choose_present_mode(&vec![immediate, fifo]), PRESENT_MODE_FIFO);
    assert_eq!(choose_present_mode(&Vec::new()), PRESENT_MODE_FIFO);
}

#[test]
fn image_count_is_one_above_minimum_within_maximum() {
    assert_eq!(desired_image_count(2, 0), 3);
    assert_eq!(desired_image_count(2, 8), 3);
    assert_eq!(desired_image_count(3, 3), 3);
}

#[test]
fn extent_and_transform() {
    assert_eq!(surface_resolution((u32::MAX, u32::MAX), (800, 600)), (800, 600));
    assert_eq!(surface_resolution((1024, 768), (800, 600)), (1024, 768));
    let identity = vk::SurfaceTransformFlagsKHR::IDENTITY.as_raw();
    let rotate = vk::SurfaceTransformFlagsKHR::ROTATE_90.as_raw();
    assert_eq!(pre_transform(identity | rotate, rotate), identity);
    assert_eq!(pre_transform(rotate, rotate), rotate);
}

#[test]
fn resize_only_for_new_nonempty_sizes() {
    assert!(!resize_needed((0, 600), (800, 600)));
    assert!(!resize_needed((800, 0), (800, 600)));
    assert!(!resize_needed((800, 600), (800, 600)));
    assert!(resize_needed((1024, 600), (800, 600)));
}
