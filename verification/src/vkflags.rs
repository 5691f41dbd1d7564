//! Raw values of the Vulkan flags, layouts and formats that the engine's
//! logic decides on, and the mappings between them.
use vstd::prelude::*;

verus! {

// Image usage flags (`VkImageUsageFlagBits`).
pub const USAGE_EMPTY: u32 = 0u32;
pub const USAGE_TRANSFER_SRC: u32 = 0x1u32;
pub const USAGE_TRANSFER_DST: u32 = 0x2u32;
pub const USAGE_SAMPLED: u32 = 0x4u32;
pub const USAGE_COLOR_ATTACHMENT: u32 = 0x10u32;
pub const USAGE_DEPTH_STENCIL_ATTACHMENT: u32 = 0x20u32;

// Pipeline stage flags (`VkPipelineStageFlagBits2`).
pub const STAGE_NONE: u64 = 0u64;
pub const STAGE_FRAGMENT_SHADER: u64 = 0x80u64;
pub const STAGE_LATE_FRAGMENT_TESTS: u64 = 0x200u64;
pub const STAGE_COLOR_ATTACHMENT_OUTPUT: u64 = 0x400u64;
pub const STAGE_TRANSFER: u64 = 0x1000u64;

// Access flags (`VkAccessFlagBits2`).
pub const ACCESS_NONE: u64 = 0u64;
pub const ACCESS_SHADER_READ: u64 = 0x20u64;
pub const ACCESS_COLOR_ATTACHMENT_WRITE: u64 = 0x100u64;
pub const ACCESS_DEPTH_STENCIL_ATTACHMENT_WRITE: u64 = 0x400u64;
pub const ACCESS_TRANSFER_READ: u64 = 0x800u64;
pub const ACCESS_TRANSFER_WRITE: u64 = 0x1000u64;

// Image layouts (`VkImageLayout`).
pub const LAYOUT_UNDEFINED: i32 = 0i32;
pub const LAYOUT_SHADER_READ_ONLY_OPTIMAL: i32 = 5i32;
pub const LAYOUT_TRANSFER_SRC_OPTIMAL: i32 = 6i32;
pub const LAYOUT_TRANSFER_DST_OPTIMAL: i32 = 7i32;
pub const LAYOUT_ATTACHMENT_OPTIMAL: i32 = 1_000_314_001i32;

// Image aspect flags (`VkImageAspectFlagBits`).
pub const ASPECT_EMPTY: u32 = 0u32;
pub const ASPECT_COLOR: u32 = 0x1u32;
pub const ASPECT_DEPTH: u32 = 0x2u32;

// Formats (`VkFormat`).
pub const FORMAT_UNDEFINED: i32 = 0i32;
pub const FORMAT_R8G8B8A8_UNORM: i32 = 37i32;
pub const FORMAT_R8G8B8A8_SRGB: i32 = 43i32;
pub const FORMAT_R16G16B16A16_SFLOAT: i32 = 97i32;
pub const FORMAT_R32G32B32A32_SFLOAT: i32 = 109i32;
pub const FORMAT_D32_SFLOAT: i32 = 126i32;

// Attachment load operations (`VkAttachmentLoadOp`).
pub const LOAD_OP_LOAD: i32 = 0i32;
pub const LOAD_OP_CLEAR: i32 = 1i32;

// Memory allocator creation flags (`VmaAllocationCreateFlagBits`).
pub const ALLOCATION_CREATE_NONE: u32 = 0u32;
pub const ALLOCATION_CREATE_MAPPED: u32 = 0x4u32;
pub const ALLOCATION_CREATE_HOST_ACCESS_SEQUENTIAL_WRITE: u32 = 0x400u32;

/// The pipeline stage at which an image is used with the given usage: only
/// the three single usages the render passes know have a stage.
pub open spec fn stage_for_usage(usage: u32) -> u64 {
    if usage == USAGE_DEPTH_STENCIL_ATTACHMENT {
        STAGE_LATE_FRAGMENT_TESTS
    } else if usage == USAGE_SAMPLED {
        STAGE_FRAGMENT_SHADER
    } else if usage == USAGE_COLOR_ATTACHMENT {
        STAGE_COLOR_ATTACHMENT_OUTPUT
    } else {
        STAGE_NONE
    }
}

/// The memory access an image receives under the given usage.
pub open spec fn access_for_usage(usage: u32) -> u64 {
    if usage == USAGE_DEPTH_STENCIL_ATTACHMENT {
        ACCESS_DEPTH_STENCIL_ATTACHMENT_WRITE
    } else if usage == USAGE_SAMPLED {
        ACCESS_SHADER_READ
    } else if usage == USAGE_COLOR_ATTACHMENT {
        ACCESS_COLOR_ATTACHMENT_WRITE
    } else {
        ACCESS_NONE
    }
}

/// The layout an image must be in for the given usage.
pub open spec fn layout_for_usage(usage: u32) -> i32 {
    if usage == USAGE_DEPTH_STENCIL_ATTACHMENT {
        LAYOUT_ATTACHMENT_OPTIMAL
    } else if usage == USAGE_SAMPLED {
        LAYOUT_SHADER_READ_ONLY_OPTIMAL
    } else if usage == USAGE_COLOR_ATTACHMENT {
        LAYOUT_ATTACHMENT_OPTIMAL
    } else {
        LAYOUT_UNDEFINED
    }
}

/// Pipeline stage for an image usage.
pub fn get_stage_flag_from_usage(flags: u32) -> (r: u64)
    ensures
        r == stage_for_usage(flags),
{
    if flags == USAGE_DEPTH_STENCIL_ATTACHMENT {
        STAGE_LATE_FRAGMENT_TESTS
    } else if flags == USAGE_SAMPLED {
        STAGE_FRAGMENT_SHADER
    } else if flags == USAGE_COLOR_ATTACHMENT {
        STAGE_COLOR_ATTACHMENT_OUTPUT
    } else {
        STAGE_NONE
    }
}

/// Access mask for an image usage.
pub fn get_access_flag_from_usage(flags: u32) -> (r: u64)
    ensures
        r == access_for_usage(flags),
{
    if flags == USAGE_DEPTH_STENCIL_ATTACHMENT {
        ACCESS_DEPTH_STENCIL_ATTACHMENT_WRITE
    } else if flags == USAGE_SAMPLED {
        ACCESS_SHADER_READ
    } else if flags == USAGE_COLOR_ATTACHMENT {
        ACCESS_COLOR_ATTACHMENT_WRITE
    } else {
        ACCESS_NONE
    }
}

/// Image layout for an image usage.
pub fn get_image_layout_from_usage(flags: u32) -> (r: i32)
    ensures
        r == layout_for_usage(flags),
{
    if flags == USAGE_DEPTH_STENCIL_ATTACHMENT {
        LAYOUT_ATTACHMENT_OPTIMAL
    } else if flags == USAGE_SAMPLED {
        LAYOUT_SHADER_READ_ONLY_OPTIMAL
    } else if flags == USAGE_COLOR_ATTACHMENT {
        LAYOUT_ATTACHMENT_OPTIMAL
    } else {
        LAYOUT_UNDEFINED
    }
}

/// The formats whose aspect the engine knows.
pub open spec fn is_known_image_format(format: i32) -> bool {
    format == FORMAT_R8G8B8A8_SRGB || format == FORMAT_R8G8B8A8_UNORM || format
        == FORMAT_D32_SFLOAT
}

/// Aspect of an image of a known format: depth for the depth format, colour
/// for the two colour formats.
pub open spec fn aspect_for_format(format: i32) -> u32 {
    if format == FORMAT_D32_SFLOAT {
        ASPECT_DEPTH
    } else {
        ASPECT_COLOR
    }
}

/// The aspect flags of an image of the given format. Other formats are not
/// handled (the engine stops on them), hence the precondition.
pub fn get_image_aspect_flags_from_format(format: i32) -> (r: u32)
    requires
        is_known_image_format(format),
    ensures
        r == aspect_for_format(format),
{
    let mut flags: u32 = ASPECT_EMPTY;
    if format == FORMAT_R8G8B8A8_SRGB || format == FORMAT_R8G8B8A8_UNORM {
        flags = flags | ASPECT_COLOR;
        assert(ASPECT_EMPTY | ASPECT_COLOR == ASPECT_COLOR) by (bit_vector);
    } else {
        flags = flags | ASPECT_DEPTH;
        assert(ASPECT_EMPTY | ASPECT_DEPTH == ASPECT_DEPTH) by (bit_vector);
    }
    flags
}

/// The aspect a default image view covers.
#[derive(Clone, Copy, PartialEq, Eq, Structural, Debug)]
pub enum ImageAspectType {
    Color,
    Depth,
}

impl ImageAspectType {
    /// Aspect flags of the aspect type.
    pub fn aspect_flags(self) -> (r: u32)
        ensures
            r == (match self {
                ImageAspectType::Color => ASPECT_COLOR,
                ImageAspectType::Depth => ASPECT_DEPTH,
            }),
    {
        match self {
            ImageAspectType::Color => ASPECT_COLOR,
            ImageAspectType::Depth => ASPECT_DEPTH,
        }
    }
}

/// How the texels of a loaded texture are encoded.
#[derive(Clone, Copy, PartialEq, Eq, Structural, Debug)]
pub enum ImageFormatType {
    /// sRGB colour data.
    Default,
    /// Linear data, such as normal maps.
    Normal,
}

impl ImageFormatType {
    /// The Vulkan format of a texture of this kind.
    pub fn format(&self) -> (r: i32)
        ensures
            r == (match *self {
                ImageFormatType::Default => FORMAT_R8G8B8A8_SRGB,
                ImageFormatType::Normal => FORMAT_R8G8B8A8_UNORM,
            }),
    {
        match self {
            ImageFormatType::Default => FORMAT_R8G8B8A8_SRGB,
            ImageFormatType::Normal => FORMAT_R8G8B8A8_UNORM,
        }
    }
}

/// Where the memory of a buffer lives.
#[derive(Clone, Copy, PartialEq, Eq, Structural, Debug)]
pub enum BufferStorageType {
    /// Device-local memory.
    Device,
    /// Host-visible memory, persistently mapped.
    HostLocal,
}

/// What a buffer is created with.
#[derive(Clone, Copy, PartialEq, Eq, Structural, Debug)]
pub struct BufferCreateInfo {
    pub size: usize,
    pub usage: u32,
    pub storage_type: BufferStorageType,
}

/// The allocation flags for a storage type: host-local buffers are mapped
/// and written sequentially by the host.
pub open spec fn allocation_flags_for(storage: BufferStorageType) -> u32 {
    match storage {
        BufferStorageType::Device => ALLOCATION_CREATE_NONE,
        BufferStorageType::HostLocal => ALLOCATION_CREATE_MAPPED
            | ALLOCATION_CREATE_HOST_ACCESS_SEQUENTIAL_WRITE,
    }
}

impl BufferCreateInfo {
    /// Allocation creation flags for this buffer.
    pub fn allocation_flags(&self) -> (r: u32)
        ensures
            r == allocation_flags_for(self.storage_type),
    {
        match self.storage_type {
            BufferStorageType::Device => ALLOCATION_CREATE_NONE,
            BufferStorageType::HostLocal => ALLOCATION_CREATE_MAPPED
                | ALLOCATION_CREATE_HOST_ACCESS_SEQUENTIAL_WRITE,
        }
    }
}

/// The load operation of an attachment: an image that has not been used yet
/// in the frame is cleared, one that has is loaded.
pub open spec fn load_op_for(last_usage: u32) -> i32 {
    if last_usage == USAGE_EMPTY {
        LOAD_OP_CLEAR
    } else {
        LOAD_OP_LOAD
    }
}

/// Load operation for an attachment whose last usage is given.
pub fn attachment_load_op(last_usage: u32) -> (r: i32)
    ensures
        r == load_op_for(last_usage),
{
    if last_usage == USAGE_EMPTY {
        LOAD_OP_CLEAR
    } else {
        LOAD_OP_LOAD
    }
}

} // verus!
