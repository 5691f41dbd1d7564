//! The choices the graphics device makes when it creates or recreates its
//! swapchain: the physical device and queue family, the surface format,
//! the present mode, the image count, the extent and the transform.
use vstd::prelude::*;

verus! {

/// `VK_QUEUE_GRAPHICS_BIT`.
pub const QUEUE_GRAPHICS: u32 = 0x1u32;

/// `VK_SURFACE_TRANSFORM_IDENTITY_BIT_KHR`.
pub const TRANSFORM_IDENTITY: u32 = 0x1u32;

/// `VK_PRESENT_MODE_MAILBOX_KHR`.
pub const PRESENT_MODE_MAILBOX: i32 = 1i32;

/// `VK_PRESENT_MODE_FIFO_KHR`.
pub const PRESENT_MODE_FIFO: i32 = 2i32;

/// `VK_FORMAT_B8G8R8A8_SRGB`.
pub const FORMAT_B8G8R8A8_SRGB: i32 = 50i32;

/// `VK_COLOR_SPACE_SRGB_NONLINEAR_KHR`.
pub const COLOR_SPACE_SRGB_NONLINEAR: i32 = 0i32;

/// A queue family of a physical device: its capability flags and whether
/// it can present to the window's surface.
#[derive(Clone, Copy, PartialEq, Eq, Structural, Debug)]
pub struct QueueFamily {
    pub queue_flags: u32,
    pub surface_support: bool,
}

/// What the device choice reads of a physical device: whether it reports a
/// timestamp period (a period of zero means it cannot time GPU work), and
/// its queue families in order.
pub struct PhysicalDeviceInfo {
    pub has_timestamps: bool,
    pub queue_families: Vec<QueueFamily>,
}

/// Whether a queue family can draw and present.
pub open spec fn family_fits(f: QueueFamily) -> bool {
    f.queue_flags & QUEUE_GRAPHICS == QUEUE_GRAPHICS && f.surface_support
}

/// Whether the `q`-th family of the `d`-th device is the first family of the
/// first device that can time GPU work and has a fitting family.
pub open spec fn is_first_fit(ds: Seq<PhysicalDeviceInfo>, d: int, q: int) -> bool {
    &&& 0 <= d < ds.len()
    &&& ds[d].has_timestamps
    &&& 0 <= q < ds[d].queue_families@.len()
    &&& family_fits(ds[d].queue_families@[q])
    &&& forall|q2: int| 0 <= q2 < q ==> !family_fits(#[trigger] ds[d].queue_families@[q2])
    &&& forall|d2: int| 0 <= d2 < d ==> !device_fits(#[trigger] ds[d2])
}

/// Whether a device can time GPU work and has a family that can draw and
/// present.
pub open spec fn device_fits(dev: PhysicalDeviceInfo) -> bool {
    dev.has_timestamps && exists|q: int| 0 <= q < dev.queue_families@.len() && family_fits(#[trigger] dev.queue_families@[q])
}

fn first_fitting_family(families: &Vec<QueueFamily>) -> (r: Option<usize>)
    ensures
        match r {
            Some(q) => q < families@.len() && family_fits(families@[q as int])
                && forall|q2: int| 0 <= q2 < q ==> !family_fits(#[trigger] families@[q2]),
            None => forall|q: int| 0 <= q < families@.len() ==> !family_fits(#[trigger] families@[q]),
        },
{
    let mut i: usize = 0;
    while i < families.len()
        invariant
            i <= families@.len(),
            forall|q2: int| 0 <= q2 < i ==> !family_fits(#[trigger] families@[q2]),
        decreases families@.len() - i,
    {
        let f = families[i];
        if f.queue_flags & QUEUE_GRAPHICS == QUEUE_GRAPHICS && f.surface_support {
            return Some(i);
        }
        i = i + 1;
    }
    None
}

/// The physical device and queue family the engine runs on: the first
/// device that can time GPU work and has a family that can draw and
/// present, with the first such family. `None` when no device fits (the
/// engine then stops).
pub fn choose_device(devices: &Vec<PhysicalDeviceInfo>) -> (r: Option<(usize, usize)>)
    ensures
        match r {
            Some((d, q)) => is_first_fit(devices@, d as int, q as int),
            None => forall|d: int| 0 <= d < devices@.len() ==> !device_fits(#[trigger] devices@[d]),
        },
{
    let mut i: usize = 0;
    while i < devices.len()
        invariant
            i <= devices@.len(),
            forall|d2: int| 0 <= d2 < i ==> !device_fits(#[trigger] devices@[d2]),
        decreases devices@.len() - i,
    {
        let dev = &devices[i];
        if dev.has_timestamps {
            match first_fitting_family(&dev.queue_families) {
                Some(q) => {
                    return Some((i, q));
                },
                None => {},
            }
        }
        i = i + 1;
    }
    None
}

/// Whether a surface format is an sRGB eight-bit format in the sRGB
/// colour space.
pub open spec fn format_fits(f: (i32, i32)) -> bool {
    (f.0 == FORMAT_B8G8R8A8_SRGB || f.0 == crate::vkflags::FORMAT_R8G8B8A8_SRGB) && f.1 == COLOR_SPACE_SRGB_NONLINEAR
}

/// The surface format (format, colour space) the swapchain uses: the first
/// one offered that fits. `None` when none fits (the engine then stops).
pub fn choose_surface_format(formats: &Vec<(i32, i32)>) -> (r: Option<(i32, i32)>)
    ensures
        match r {
            Some(f) => exists|i: int| 0 <= i < formats@.len() && formats@[i] == f && format_fits(f)
                && forall|j: int| 0 <= j < i ==> !format_fits(#[trigger] formats@[j]),
            None => forall|i: int| 0 <= i < formats@.len() ==> !format_fits(#[trigger] formats@[i]),
        },
{
    let mut i: usize = 0;
    while i < formats.len()
        invariant
            i <= formats@.len(),
            forall|j: int| 0 <= j < i ==> !format_fits(#[trigger] formats@[j]),
        decreases formats@.len() - i,
    {
        let f = formats[i];
        if (f.0 == FORMAT_B8G8R8A8_SRGB || f.0 == crate::vkflags::FORMAT_R8G8B8A8_SRGB) && f.1 == COLOR_SPACE_SRGB_NONLINEAR {
            assert(formats@[i as int] == f);
            return Some(f);
        }
        i = i + 1;
    }
    None
}

/// The present mode: mailbox when offered, else FIFO (always available).
pub fn choose_present_mode(modes: &Vec<i32>) -> (r: i32)
    ensures
        r == (if modes@.contains(PRESENT_MODE_MAILBOX) { PRESENT_MODE_MAILBOX } else { PRESENT_MODE_FIFO }),
{
    let mut i: usize = 0;
    while i < modes.len()
        invariant
            i <= modes@.len(),
            forall|j: int| 0 <= j < i ==> modes@[j] != PRESENT_MODE_MAILBOX,
        decreases modes@.len() - i,
    {
        if modes[i] == PRESENT_MODE_MAILBOX {
            assert(modes@[i as int] == PRESENT_MODE_MAILBOX);
            return PRESENT_MODE_MAILBOX;
        }
        i = i + 1;
    }
    PRESENT_MODE_FIFO
}

/// The number of swapchain images to ask for: one more than the minimum,
/// but no more than the maximum when there is one (a maximum of zero means
/// none).
pub fn desired_image_count(min_image_count: u32, max_image_count: u32) -> (r: u32)
    requires
        min_image_count < u32::MAX,
    ensures
        r == (if max_image_count > 0 && min_image_count + 1 > max_image_count {
            max_image_count as int
        } else {
            min_image_count + 1
        }),
{
    let mut count = min_image_count + 1;
    if max_image_count > 0 && count > max_image_count {
        count = max_image_count;
    }
    count
}

/// The swapchain extent: the surface's current extent, unless its width is
/// the special value `u32::MAX`, in which case the window's size.
pub fn surface_resolution(current_extent: (u32, u32), window_size: (u32, u32)) -> (r: (u32, u32))
    ensures
        r == (if current_extent.0 == u32::MAX { window_size } else { current_extent }),
{
    if current_extent.0 == u32::MAX {
        window_size
    } else {
        current_extent
    }
}

/// The transform the swapchain presents with: the identity when supported,
/// else the surface's current transform.
pub fn pre_transform(supported_transforms: u32, current_transform: u32) -> (r: u32)
    ensures
        r == (if supported_transforms & TRANSFORM_IDENTITY == TRANSFORM_IDENTITY {
            TRANSFORM_IDENTITY
        } else {
            current_transform
        }),
{
    if supported_transforms & TRANSFORM_IDENTITY == TRANSFORM_IDENTITY {
        TRANSFORM_IDENTITY
    } else {
        current_transform
    }
}

/// Whether a window resize recreates the swapchain: not for an empty
/// window, nor for the size it already has.
pub fn resize_needed(new_size: (u32, u32), current_size: (u32, u32)) -> (r: bool)
    ensures
        r == !(new_size.0 == 0 || new_size.1 == 0 || new_size == current_size),
{
    !(new_size.0 == 0 || new_size.1 == 0 || (new_size.0 == current_size.0 && new_size.1 == current_size.1))
}

} // verus!
