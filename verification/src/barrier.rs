//! Image barriers: the layout and access transitions an image goes through
//! between two uses.
use vstd::prelude::*;
use crate::handles::ImageHandle;
use crate::vkflags;
use crate::vkflags::{
    ACCESS_NONE, ASPECT_COLOR, LAYOUT_UNDEFINED, STAGE_NONE, get_access_flag_from_usage, get_image_aspect_flags_from_format, get_image_layout_from_usage, get_stage_flag_from_usage,
};

verus! {

/// The image a render-pass attachment or a barrier refers to: an image of
/// the resource manager, or the swapchain image presented this frame.
#[derive(Clone, Copy, PartialEq, Eq, Structural, Hash, Debug)]
pub enum AttachmentHandle {
    Image(ImageHandle),
    SwapchainImage,
}

/// The image a barrier refers to, as the first barrier API names it.
#[derive(Clone, Copy, PartialEq, Eq, Structural, Debug)]
pub enum ImageHandleType {
    Image(ImageHandle),
    SwapchainImage,
}

impl ImageHandleType {
    /// The same image as an attachment handle.
    pub fn to_attachment(self) -> (r: AttachmentHandle)
        ensures
            r == (match self {
                ImageHandleType::Image(h) => AttachmentHandle::Image(h),
                ImageHandleType::SwapchainImage => AttachmentHandle::SwapchainImage,
            }),
    {
        match self {
            ImageHandleType::Image(h) => AttachmentHandle::Image(h),
            ImageHandleType::SwapchainImage => AttachmentHandle::SwapchainImage,
        }
    }
}

/// A transition of one image from the stage, access and layout of its old
/// usage to those of its new usage.
#[derive(Clone, Copy, PartialEq, Eq, Structural, Debug)]
pub struct ImageBarrier {
    pub image: AttachmentHandle,
    pub src_stage_mask: u64,
    pub src_access_mask: u64,
    pub dst_stage_mask: u64,
    pub dst_access_mask: u64,
    pub old_layout: i32,
    pub new_layout: i32,
    pub base_mip_level: u32,
    pub level_count: u32,
    pub image_layers: u32,
}

/// The barrier that takes `image` from an unspecified state, covering its
/// first mip level and layer.
pub open spec fn initial_barrier(image: AttachmentHandle) -> ImageBarrier {
    ImageBarrier {
        image,
        src_stage_mask: STAGE_NONE,
        src_access_mask: ACCESS_NONE,
        dst_stage_mask: STAGE_NONE,
        dst_access_mask: ACCESS_NONE,
        old_layout: LAYOUT_UNDEFINED,
        new_layout: LAYOUT_UNDEFINED,
        base_mip_level: 0,
        level_count: 1,
        image_layers: 1,
    }
}

/// `b` with its source side set from `usage`.
pub open spec fn with_old_usage(b: ImageBarrier, usage: u32) -> ImageBarrier {
    ImageBarrier {
        src_access_mask: vkflags::access_for_usage(usage),
        src_stage_mask: vkflags::stage_for_usage(usage),
        old_layout: vkflags::layout_for_usage(usage),
        ..b
    }
}

/// `b` with its destination side set from `usage`.
pub open spec fn with_new_usage(b: ImageBarrier, usage: u32) -> ImageBarrier {
    ImageBarrier {
        dst_access_mask: vkflags::access_for_usage(usage),
        dst_stage_mask: vkflags::stage_for_usage(usage),
        new_layout: vkflags::layout_for_usage(usage),
        ..b
    }
}

/// The barrier taking `image` from `old` usage to `new` usage.
pub open spec fn transition(image: AttachmentHandle, old: u32, new: u32) -> ImageBarrier {
    with_new_usage(with_old_usage(initial_barrier(image), old), new)
}

/// The barrier taking `image` from no known usage to `new` usage: its source
/// side stays empty and its old layout undefined.
pub open spec fn first_use(image: AttachmentHandle, new: u32) -> ImageBarrier {
    with_new_usage(initial_barrier(image), new)
}

impl Default for ImageBarrier {
    fn default() -> (r: Self)
        ensures
            r == initial_barrier(AttachmentHandle::Image(ImageHandle { key: crate::handles::NULL_KEY })),
    {
        ImageBarrier::new(AttachmentHandle::Image(ImageHandle::default()))
    }
}

impl ImageBarrier {
    /// A barrier on `attachment` with empty masks, undefined layouts, and one
    /// mip level and layer.
    pub fn new(attachment: AttachmentHandle) -> (r: Self)
        ensures
            r == initial_barrier(attachment),
    {
        ImageBarrier {
            image: attachment,
            src_stage_mask: STAGE_NONE,
            src_access_mask: ACCESS_NONE,
            dst_stage_mask: STAGE_NONE,
            dst_access_mask: ACCESS_NONE,
            old_layout: LAYOUT_UNDEFINED,
            new_layout: LAYOUT_UNDEFINED,
            base_mip_level: 0,
            level_count: 1,
            image_layers: 1,
        }
    }

    /// Sets the source access, stage and layout from the usage the image had.
    pub fn old_usage(self, usage: u32) -> (r: Self)
        ensures
            r == with_old_usage(self, usage),
    {
        let mut b = self;
        b.src_access_mask = get_access_flag_from_usage(usage);
        b.src_stage_mask = get_stage_flag_from_usage(usage);
        b.old_layout = get_image_layout_from_usage(usage);
        b
    }

    /// Sets the destination access, stage and layout from the usage the image
    /// will have.
    pub fn new_usage(self, usage: u32) -> (r: Self)
        ensures
            r == with_new_usage(self, usage),
    {
        let mut b = self;
        b.dst_access_mask = get_access_flag_from_usage(usage);
        b.dst_stage_mask = get_stage_flag_from_usage(usage);
        b.new_layout = get_image_layout_from_usage(usage);
        b
    }

    /// Sets the first mip level the barrier covers.
    pub fn base_mip_level(self, base_mip_level: u32) -> (r: Self)
        ensures
            r == (ImageBarrier { base_mip_level, ..self }),
    {
        let mut b = self;
        b.base_mip_level = base_mip_level;
        b
    }

    /// Sets how many mip levels the barrier covers.
    pub fn level_count(self, level_count: u32) -> (r: Self)
        ensures
            r == (ImageBarrier { level_count, ..self }),
    {
        let mut b = self;
        b.level_count = level_count;
        b
    }

    /// Sets how many array layers the barrier covers.
    pub fn image_layers(self, image_layers: u32) -> (r: Self)
        ensures
            r == (ImageBarrier { image_layers, ..self }),
    {
        let mut b = self;
        b.image_layers = image_layers;
        b
    }
}

/// A barrier as it is recorded: the image's aspect and its subresource
/// range resolved.
#[derive(Clone, Copy, PartialEq, Eq, Structural, Debug)]
pub struct ResolvedBarrier {
    pub image: AttachmentHandle,
    pub src_stage_mask: u64,
    pub src_access_mask: u64,
    pub dst_stage_mask: u64,
    pub dst_access_mask: u64,
    pub old_layout: i32,
    pub new_layout: i32,
    pub aspect_mask: u32,
    pub base_mip_level: u32,
    pub level_count: u32,
    pub base_array_layer: u32,
    pub layer_count: u32,
}

/// The recorded form of `b`, given the format of its image (`None` for the
/// swapchain image, which is a colour image).
pub open spec fn resolve_spec(b: ImageBarrier, format: Option<i32>) -> ResolvedBarrier {
    ResolvedBarrier {
        image: b.image,
        src_stage_mask: b.src_stage_mask,
        src_access_mask: b.src_access_mask,
        dst_stage_mask: b.dst_stage_mask,
        dst_access_mask: b.dst_access_mask,
        old_layout: b.old_layout,
        new_layout: b.new_layout,
        aspect_mask: match format {
            Some(f) => vkflags::aspect_for_format(f),
            None => ASPECT_COLOR,
        },
        base_mip_level: b.base_mip_level,
        level_count: b.level_count,
        base_array_layer: 0,
        layer_count: b.image_layers,
    }
}

/// What a barrier needs to know of its image: a managed image must have a
/// known format, the swapchain image has none.
pub open spec fn format_fits(image: AttachmentHandle, format: Option<i32>) -> bool {
    match image {
        AttachmentHandle::Image(_) => format is Some && vkflags::is_known_image_format(format->0),
        AttachmentHandle::SwapchainImage => format is None,
    }
}

/// Collects barriers and records them together.
pub struct ImageBarrierBuilder {
    pub barriers: Vec<ImageBarrier>,
}

impl ImageBarrierBuilder {
    /// An empty builder.
    pub fn new() -> (r: Self)
        ensures
            r.barriers@ == Seq::<ImageBarrier>::empty(),
    {
        ImageBarrierBuilder { barriers: Vec::new() }
    }

    /// Appends a barrier.
    pub fn add_image_barrier(self, barrier: ImageBarrier) -> (r: Self)
        ensures
            r.barriers@ == self.barriers@.push(barrier),
    {
        let mut s = self;
        s.barriers.push(barrier);
        s
    }

    /// The barriers in recorded form, in order; `formats[i]` is the format of
    /// the image of the `i`-th barrier.
    pub fn resolve(&self, formats: &Vec<Option<i32>>) -> (r: Vec<ResolvedBarrier>)
        requires
            formats.len() == self.barriers.len(),
            forall|i: int|
                0 <= i < formats.len() ==> format_fits(#[trigger] self.barriers@[i].image, formats@[i]),
        ensures
            r.len() == self.barriers.len(),
            forall|i: int|
                0 <= i < r.len() ==> #[trigger] r@[i] == resolve_spec(self.barriers@[i], formats@[i]),
    {
        let mut out: Vec<ResolvedBarrier> = Vec::new();
        let mut i: usize = 0;
        while i < self.barriers.len()
            invariant
                i <= self.barriers.len(),
                formats.len() == self.barriers.len(),
                out.len() == i,
                forall|j: int|
                    0 <= j < formats.len() ==> format_fits(#[trigger] self.barriers@[j].image, formats@[j]),
                forall|j: int|
                    0 <= j < i ==> #[trigger] out@[j] == resolve_spec(self.barriers@[j], formats@[j]),
            decreases self.barriers.len() - i,
        {
            let b = self.barriers[i];
            let aspect_mask = match formats[i] {
                Some(f) => {
                    assert(format_fits(self.barriers@[i as int].image, formats@[i as int]));
                    get_image_aspect_flags_from_format(f)
                },
                None => ASPECT_COLOR,
            };
            out.push(
                ResolvedBarrier {
                    image: b.image,
                    src_stage_mask: b.src_stage_mask,
                    src_access_mask: b.src_access_mask,
                    dst_stage_mask: b.dst_stage_mask,
                    dst_access_mask: b.dst_access_mask,
                    old_layout: b.old_layout,
                    new_layout: b.new_layout,
                    aspect_mask,
                    base_mip_level: b.base_mip_level,
                    level_count: b.level_count,
                    base_array_layer: 0,
                    layer_count: b.image_layers,
                },
            );
            i = i + 1;
        }
        out
    }
}

} // verus!
