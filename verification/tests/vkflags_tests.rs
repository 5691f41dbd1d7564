use ash::vk;
use jb_gfx::vkflags::{
    attachment_load_op, get_access_flag_from_usage, get_image_aspect_flags_from_format,
    get_image_layout_from_usage, get_stage_flag_from_usage, BufferCreateInfo, BufferStorageType,
    ImageAspectType, ImageFormatType, ACCESS_COLOR_ATTACHMENT_WRITE,
    ACCESS_DEPTH_STENCIL_ATTACHMENT_WRITE, ACCESS_NONE, ACCESS_SHADER_READ, ALLOCATION_CREATE_MAPPED,
    ALLOCATION_CREATE_NONE, ASPECT_COLOR, ASPECT_DEPTH, FORMAT_D32_SFLOAT, FORMAT_R16G16B16A16_SFLOAT,
    FORMAT_R32G32B32A32_SFLOAT, FORMAT_R8G8B8A8_SRGB, FORMAT_R8G8B8A8_UNORM, FORMAT_UNDEFINED,
    LAYOUT_ATTACHMENT_OPTIMAL, LAYOUT_SHADER_READ_ONLY_OPTIMAL, LAYOUT_UNDEFINED, LOAD_OP_CLEAR,
    LOAD_OP_LOAD, STAGE_COLOR_ATTACHMENT_OUTPUT, STAGE_FRAGMENT_SHADER, STAGE_LATE_FRAGMENT_TESTS,
    STAGE_NONE, USAGE_COLOR_ATTACHMENT, USAGE_DEPTH_STENCIL_ATTACHMENT, USAGE_EMPTY, USAGE_SAMPLED,
    USAGE_TRANSFER_DST, USAGE_TRANSFER_SRC, ALLOCATION_CREATE_HOST_ACCESS_SEQUENTIAL_WRITE,
};

#[test]
fn usage_constants_are_vulkan_values() {
    assert_eq!(USAGE_EMPTY, vk::ImageUsageFlags::empty().as_raw());
    assert_eq!(USAGE_TRANSFER_SRC, vk::ImageUsageFlags::TRANSFER_SRC.as_raw());
    assert_eq!(USAGE_TRANSFER_DST, vk::ImageUsageFlags::TRANSFER_DST.as_raw());
    assert_eq!(USAGE_SAMPLED, vk::ImageUsageFlags::SAMPLED.as_raw());
    assert_eq!(USAGE_COLOR_ATTACHMENT, vk::ImageUsageFlags::COLOR_ATTACHMENT.as_raw());
    assert_eq!(
        USAGE_DEPTH_STENCIL_ATTACHMENT,
        vk::ImageUsageFlags::DEPTH_STENCIL_ATTACHMENT.as_raw()
    );
}

#[test]
fn stage_access_layout_constants_are_vulkan_values() {
    assert_eq!(STAGE_NONE, vk::PipelineStageFlags2::empty().as_raw());
    assert_eq!(STAGE_FRAGMENT_SHADER, vk::PipelineStageFlags2::FRAGMENT_SHADER.as_raw());
    assert_eq!(STAGE_LATE_FRAGMENT_TESTS, vk::PipelineStageFlags2::LATE_FRAGMENT_TESTS.as_raw());
    assert_eq!(
        STAGE_COLOR_ATTACHMENT_OUTPUT,
        vk::PipelineStageFlags2::COLOR_ATTACHMENT_OUTPUT.as_raw()
    );
    assert_eq!(ACCESS_NONE, vk::AccessFlags2::empty().as_raw());
    assert_eq!(ACCESS_SHADER_READ, vk::AccessFlags2::SHADER_READ.as_raw());
    assert_eq!(ACCESS_COLOR_ATTACHMENT_WRITE, vk::AccessFlags2::COLOR_ATTACHMENT_WRITE.as_raw());
    assert_eq!(
        ACCESS_DEPTH_STENCIL_ATTACHMENT_WRITE,
        vk::AccessFlags2::DEPTH_STENCIL_ATTACHMENT_WRITE.as_raw()
    );
    assert_eq!(LAYOUT_UNDEFINED, vk::ImageLayout::UNDEFINED.as_raw());
    assert_eq!(LAYOUT_SHADER_READ_ONLY_OPTIMAL, vk::ImageLayout::SHADER_READ_ONLY_OPTIMAL.as_raw());
    assert_eq!(LAYOUT_ATTACHMENT_OPTIMAL, vk::ImageLayout::ATTACHMENT_OPTIMAL.as_raw());
}

#[test]
fn format_aspect_load_op_constants_are_vulkan_values() {
    assert_eq!(FORMAT_UNDEFINED, vk::Format::UNDEFINED.as_raw());
    assert_eq!(FORMAT_R8G8B8A8_UNORM, vk::Format::R8G8B8A8_UNORM.as_raw());
    assert_eq!(FORMAT_R8G8B8A8_SRGB, vk::Format::R8G8B8A8_SRGB.as_raw());
    assert_eq!(FORMAT_R16G16B16A16_SFLOAT, vk::Format::R16G16B16A16_SFLOAT.as_raw());
    assert_eq!(FORMAT_R32G32B32A32_SFLOAT, vk::Format::R32G32B32A32_SFLOAT.as_raw());
    assert_eq!(FORMAT_D32_SFLOAT, vk::Format::D32_SFLOAT.as_raw());
    assert_eq!(ASPECT_COLOR, vk::ImageAspectFlags::COLOR.as_raw());
    assert_eq!(ASPECT_DEPTH, vk::ImageAspectFlags::DEPTH.as_raw());
    assert_eq!(LOAD_OP_LOAD, vk::AttachmentLoadOp::LOAD.as_raw());
    assert_eq!(LOAD_OP_CLEAR, vk::AttachmentLoadOp::CLEAR.as_raw());
}

#[test]
fn stage_flag_from_each_usage() {
    assert_eq!(get_stage_flag_from_usage(USAGE_DEPTH_STENCIL_ATTACHMENT), STAGE_LATE_FRAGMENT_TESTS);
    assert_eq!(get_stage_flag_from_usage(USAGE_SAMPLED), STAGE_FRAGMENT_SHADER);
    assert_eq!(get_stage_flag_from_usage(USAGE_COLOR_ATTACHMENT), STAGE_COLOR_ATTACHMENT_OUTPUT);
    assert_eq!(get_stage_flag_from_usage(USAGE_EMPTY), STAGE_NONE);
    // A combination of usages is none of the three single usages.
    assert_eq!(get_stage_flag_from_usage(USAGE_SAMPLED | USAGE_COLOR_ATTACHMENT), STAGE_NONE);
}

#[test]
fn access_flag_from_each_usage() {
    assert_eq!(
        get_access_flag_from_usage(USAGE_DEPTH_STENCIL_ATTACHMENT),
        ACCESS_DEPTH_STENCIL_ATTACHMENT_WRITE
    );
    assert_eq!(get_access_flag_from_usage(USAGE_SAMPLED), ACCESS_SHADER_READ);
    assert_eq!(get_access_flag_from_usage(USAGE_COLOR_ATTACHMENT), ACCESS_COLOR_ATTACHMENT_WRITE);
    assert_eq!(get_access_flag_from_usage(USAGE_TRANSFER_DST), ACCESS_NONE);
}

#[test]
fn image_layout_from_each_usage() {
    assert_eq!(get_image_layout_from_usage(USAGE_DEPTH_STENCIL_ATTACHMENT), LAYOUT_ATTACHMENT_OPTIMAL);
    assert_eq!(get_image_layout_from_usage(USAGE_SAMPLED), LAYOUT_SHADER_READ_ONLY_OPTIMAL);
    assert_eq!(get_image_layout_from_usage(USAGE_COLOR_ATTACHMENT), LAYOUT_ATTACHMENT_OPTIMAL);
    assert_eq!(get_image_layout_from_usage(USAGE_TRANSFER_SRC), LAYOUT_UNDEFINED);
}

#[test]
fn aspect_flags_of_known_formats() {
    assert_eq!(get_image_aspect_flags_from_format(FORMAT_R8G8B8A8_SRGB), ASPECT_COLOR);
    assert_eq!(get_image_aspect_flags_from_format(FORMAT_R8G8B8A8_UNORM), ASPECT_COLOR);
    assert_eq!(get_image_aspect_flags_from_format(FORMAT_D32_SFLOAT), ASPECT_DEPTH);
}

#[test]
fn aspect_type_flags() {
    assert_eq!(ImageAspectType::Color.aspect_flags(), ASPECT_COLOR);
    assert_eq!(ImageAspectType::Depth.aspect_flags(), ASPECT_DEPTH);
}

#[test]
fn image_format_type_formats() {
    assert_eq!(ImageFormatType::Default.format(), FORMAT_R8G8B8A8_SRGB);
    assert_eq!(ImageFormatType::Normal.format(), FORMAT_R8G8B8A8_UNORM);
}

#[test]
fn allocation_flags_by_storage() {
    let device = BufferCreateInfo {
        size: 64,
        usage: vk::BufferUsageFlags::VERTEX_BUFFER.as_raw(),
        storage_type: BufferStorageType::Device,
    };
    assert_eq!(device.allocation_flags(), ALLOCATION_CREATE_NONE);
    let host = BufferCreateInfo {
        size: 64,
        usage: vk::BufferUsageFlags::UNIFORM_BUFFER.as_raw(),
        storage_type: BufferStorageType::HostLocal,
    };
    assert_eq!(
        host.allocation_flags(),
        ALLOCATION_CREATE_MAPPED | ALLOCATION_CREATE_HOST_ACCESS_SEQUENTIAL_WRITE
    );
    assert_eq!(host.allocation_flags(), 0x404);
}

#[test]
fn load_op_clears_unused_and_loads_used() {
    assert_eq!(attachment_load_op(USAGE_EMPTY), LOAD_OP_CLEAR);
    assert_eq!(attachment_load_op(USAGE_COLOR_ATTACHMENT), LOAD_OP_LOAD);
    assert_eq!(attachment_load_op(USAGE_SAMPLED), LOAD_OP_LOAD);
}
