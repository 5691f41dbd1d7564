//! Deferred image uploads: the commands the device records at the start of
//! a frame to copy a loaded image into its GPU image and fill its mip chain,
//! and the staging buffers it frees afterwards.
use vstd::prelude::*;
use crate::barrier::{AttachmentHandle, ImageBarrier};
use crate::handles::{BufferHandle, ImageHandle};
use crate::vkflags::{
    ACCESS_NONE, ACCESS_SHADER_READ, ACCESS_TRANSFER_READ, ACCESS_TRANSFER_WRITE,
    LAYOUT_SHADER_READ_ONLY_OPTIMAL, LAYOUT_TRANSFER_DST_OPTIMAL, LAYOUT_TRANSFER_SRC_OPTIMAL,
    LAYOUT_UNDEFINED, STAGE_FRAGMENT_SHADER, STAGE_NONE, STAGE_TRANSFER,
};

verus! {

/// An image whose texels wait in a staging buffer.
#[derive(Clone, Copy, PartialEq, Eq, Structural, Debug)]
pub struct ImageToUpload {
    pub buffer_handle: BufferHandle,
    pub image_handle: ImageHandle,
    pub width: u32,
    pub height: u32,
    pub mip_levels: u32,
    pub img_layers: u32,
}

/// One command of an upload.
#[derive(Clone, Copy, PartialEq, Eq, Structural, Debug)]
pub enum UploadCommand {
    /// An image barrier.
    Barrier(ImageBarrier),
    /// A copy of the whole staging buffer into mip level 0 of all layers.
    CopyBufferToImage { buffer: BufferHandle, image: ImageHandle, width: u32, height: u32, layers: u32 },
    /// A linear blit of all layers from one mip level to the next.
    Blit {
        image: ImageHandle,
        src_mip: u32,
        dst_mip: u32,
        src_width: u32,
        src_height: u32,
        dst_width: u32,
        dst_height: u32,
        layers: u32,
    },
}

/// One step down the mip chain of a running extent: halved while above
/// one.
pub open spec fn halve(x: u32) -> u32 {
    if x > 1 { x / 2 } else { x }
}

/// The extent that mip level `k` is blitted from, starting from `x` at
/// level 0.
pub open spec fn level_extent(x: u32, k: nat) -> u32
    decreases k,
{
    if k == 0 { x } else { halve(level_extent(x, (k - 1) as nat)) }
}

/// The extent a blit from an extent of `x` writes: half of it, at least
/// one.
pub open spec fn blit_target(x: u32) -> u32 {
    if x > 1 { x / 2 } else { 1 }
}

/// A barrier on one mip level of the uploaded image.
pub open spec fn level_barrier(
    u: ImageToUpload,
    level: u32,
    src_stage: u64,
    src_access: u64,
    dst_stage: u64,
    dst_access: u64,
    old_layout: i32,
    new_layout: i32,
) -> ImageBarrier {
    ImageBarrier {
        image: AttachmentHandle::Image(u.image_handle),
        src_stage_mask: src_stage,
        src_access_mask: src_access,
        dst_stage_mask: dst_stage,
        dst_access_mask: dst_access,
        old_layout,
        new_layout,
        base_mip_level: level,
        level_count: 1,
        image_layers: u.img_layers,
    }
}

/// The first barrier: every mip level (of the first layer) from undefined
/// to transfer destination.
pub open spec fn first_barrier(u: ImageToUpload) -> ImageBarrier {
    ImageBarrier {
        image: AttachmentHandle::Image(u.image_handle),
        src_stage_mask: STAGE_NONE,
        src_access_mask: ACCESS_NONE,
        dst_stage_mask: STAGE_TRANSFER,
        dst_access_mask: ACCESS_TRANSFER_WRITE,
        old_layout: LAYOUT_UNDEFINED,
        new_layout: LAYOUT_TRANSFER_DST_OPTIMAL,
        base_mip_level: 0,
        level_count: u.mip_levels,
        image_layers: 1,
    }
}

/// The copy of the staging buffer into level 0.
pub open spec fn copy_command(u: ImageToUpload) -> UploadCommand {
    UploadCommand::CopyBufferToImage {
        buffer: u.buffer_handle,
        image: u.image_handle,
        width: u.width,
        height: u.height,
        layers: u.img_layers,
    }
}

/// Level `level`, written, becomes the source of the next blit.
pub open spec fn to_source_barrier(u: ImageToUpload, level: u32) -> ImageBarrier {
    level_barrier(u, level, STAGE_TRANSFER, ACCESS_TRANSFER_WRITE, STAGE_TRANSFER, ACCESS_TRANSFER_READ,
        LAYOUT_TRANSFER_DST_OPTIMAL, LAYOUT_TRANSFER_SRC_OPTIMAL)
}

/// Level `level`, blitted from, becomes readable by fragment shaders.
pub open spec fn source_to_read_barrier(u: ImageToUpload, level: u32) -> ImageBarrier {
    level_barrier(u, level, STAGE_TRANSFER, ACCESS_TRANSFER_READ, STAGE_FRAGMENT_SHADER, ACCESS_SHADER_READ,
        LAYOUT_TRANSFER_SRC_OPTIMAL, LAYOUT_SHADER_READ_ONLY_OPTIMAL)
}

/// The last level, only written, becomes readable by fragment shaders.
pub open spec fn last_barrier(u: ImageToUpload) -> ImageBarrier {
    level_barrier(u, (u.mip_levels - 1) as u32, STAGE_TRANSFER, ACCESS_TRANSFER_WRITE, STAGE_FRAGMENT_SHADER,
        ACCESS_SHADER_READ, LAYOUT_TRANSFER_DST_OPTIMAL, LAYOUT_SHADER_READ_ONLY_OPTIMAL)
}

/// The blit that fills level `i` from level `i - 1`.
pub open spec fn blit_command(u: ImageToUpload, i: u32) -> UploadCommand {
    let w = level_extent(u.width, (i - 1) as nat);
    let h = level_extent(u.height, (i - 1) as nat);
    UploadCommand::Blit {
        image: u.image_handle,
        src_mip: (i - 1) as u32,
        dst_mip: i,
        src_width: w,
        src_height: h,
        dst_width: blit_target(w),
        dst_height: blit_target(h),
        layers: u.img_layers,
    }
}

/// The commands that fill levels 1 to `m`, three per level: the level
/// above becomes a blit source, the blit, and the level above becomes
/// readable.
pub open spec fn mip_steps(u: ImageToUpload, m: nat) -> Seq<UploadCommand>
    decreases m,
{
    if m == 0 {
        Seq::empty()
    } else {
        mip_steps(u, (m - 1) as nat) + seq![
            UploadCommand::Barrier(to_source_barrier(u, (m - 1) as u32)),
            blit_command(u, m as u32),
            UploadCommand::Barrier(source_to_read_barrier(u, (m - 1) as u32)),
        ]
    }
}

/// All commands of an upload, in recording order.
pub open spec fn upload_commands_spec(u: ImageToUpload) -> Seq<UploadCommand> {
    seq![UploadCommand::Barrier(first_barrier(u)), copy_command(u)] + mip_steps(u, (u.mip_levels - 1) as nat)
        + seq![UploadCommand::Barrier(last_barrier(u))]
}

/// Law: an upload copies the whole staging buffer into mip level 0 of the
/// image: the copy, right after the first barrier, has the image's width as
/// its width, its height as its height, and all its layers. When the image
/// has more levels, the first blit reads level 0 over exactly that extent.
pub proof fn lemma_copy_fills_level_zero(u: ImageToUpload)
    requires
        u.mip_levels >= 1,
    ensures
        upload_commands_spec(u).len() >= 3,
        upload_commands_spec(u)[1] matches UploadCommand::CopyBufferToImage { buffer, image, width, height, layers }
            && buffer == u.buffer_handle && image == u.image_handle && width == u.width && height == u.height
            && layers == u.img_layers,
        u.mip_levels >= 2 ==> (upload_commands_spec(u)[3] matches UploadCommand::Blit {
            image,
            src_mip,
            src_width,
            src_height,
            ..
        } && image == u.image_handle && src_mip == 0 && src_width == u.width && src_height == u.height),
{
    let m = (u.mip_levels - 1) as nat;
    lemma_mip_steps_shape(u, m);
    let head = seq![UploadCommand::Barrier(first_barrier(u)), copy_command(u)];
    let all = upload_commands_spec(u);
    assert(all[1] == copy_command(u));
    if u.mip_levels >= 2 {
        assert(mip_steps(u, m)[3 * 0int + 1] == blit_command(u, (0int + 1) as u32));
        assert(all[3] == mip_steps(u, m)[1]);
    }
}

/// The commands that upload `u` and fill its mip chain. An image with no
/// mip level is not handled (the engine stops on it).
pub fn upload_commands(u: &ImageToUpload) -> (r: Vec<UploadCommand>)
    requires
        u.mip_levels >= 1,
    ensures
        r@ == upload_commands_spec(*u),
        r@[1] matches UploadCommand::CopyBufferToImage { width, height, .. } && width == u.width && height == u.height,
{
    let mut out: Vec<UploadCommand> = Vec::new();
    out.push(UploadCommand::Barrier(ImageBarrier {
        image: AttachmentHandle::Image(u.image_handle),
        src_stage_mask: STAGE_NONE,
        src_access_mask: ACCESS_NONE,
        dst_stage_mask: STAGE_TRANSFER,
        dst_access_mask: ACCESS_TRANSFER_WRITE,
        old_layout: LAYOUT_UNDEFINED,
        new_layout: LAYOUT_TRANSFER_DST_OPTIMAL,
        base_mip_level: 0,
        level_count: u.mip_levels,
        image_layers: 1,
    }));
    out.push(UploadCommand::CopyBufferToImage {
        buffer: u.buffer_handle,
        image: u.image_handle,
        width: u.width,
        height: u.height,
        layers: u.img_layers,
    });
    let mut mip_width: u32 = u.width;
    let mut mip_height: u32 = u.height;
    let mut i: u32 = 1;
    proof {
        assert(out@ =~= seq![UploadCommand::Barrier(first_barrier(*u)), copy_command(*u)] + mip_steps(*u, 0));
    }
    while i < u.mip_levels
        invariant
            1 <= i <= u.mip_levels,
            mip_width == level_extent(u.width, (i - 1) as nat),
            mip_height == level_extent(u.height, (i - 1) as nat),
            out@ == seq![UploadCommand::Barrier(first_barrier(*u)), copy_command(*u)] + mip_steps(*u, (i - 1) as nat),
        decreases u.mip_levels - i,
    {
        out.push(UploadCommand::Barrier(ImageBarrier {
            image: AttachmentHandle::Image(u.image_handle),
            src_stage_mask: STAGE_TRANSFER,
            src_access_mask: ACCESS_TRANSFER_WRITE,
            dst_stage_mask: STAGE_TRANSFER,
            dst_access_mask: ACCESS_TRANSFER_READ,
            old_layout: LAYOUT_TRANSFER_DST_OPTIMAL,
            new_layout: LAYOUT_TRANSFER_SRC_OPTIMAL,
            base_mip_level: i - 1,
            level_count: 1,
            image_layers: u.img_layers,
        }));
        let dst_width: u32 = if mip_width > 1 { mip_width / 2 } else { 1 };
        let dst_height: u32 = if mip_height > 1 { mip_height / 2 } else { 1 };
        out.push(UploadCommand::Blit {
            image: u.image_handle,
            src_mip: i - 1,
            dst_mip: i,
            src_width: mip_width,
            src_height: mip_height,
            dst_width,
            dst_height,
            layers: u.img_layers,
        });
        out.push(UploadCommand::Barrier(ImageBarrier {
            image: AttachmentHandle::Image(u.image_handle),
            src_stage_mask: STAGE_TRANSFER,
            src_access_mask: ACCESS_TRANSFER_READ,
            dst_stage_mask: STAGE_FRAGMENT_SHADER,
            dst_access_mask: ACCESS_SHADER_READ,
            old_layout: LAYOUT_TRANSFER_SRC_OPTIMAL,
            new_layout: LAYOUT_SHADER_READ_ONLY_OPTIMAL,
            base_mip_level: i - 1,
            level_count: 1,
            image_layers: u.img_layers,
        }));
        if mip_width > 1 {
            mip_width = mip_width / 2;
        }
        if mip_height > 1 {
            mip_height = mip_height / 2;
        }
        proof {
            let head = seq![UploadCommand::Barrier(first_barrier(*u)), copy_command(*u)];
            assert(mip_steps(*u, i as nat) == mip_steps(*u, (i - 1) as nat) + seq![
                UploadCommand::Barrier(to_source_barrier(*u, (i - 1) as u32)),
                blit_command(*u, i),
                UploadCommand::Barrier(source_to_read_barrier(*u, (i - 1) as u32)),
            ]);
            assert(out@ =~= head + mip_steps(*u, i as nat));
        }
        i = i + 1;
    }
    out.push(UploadCommand::Barrier(ImageBarrier {
        image: AttachmentHandle::Image(u.image_handle),
        src_stage_mask: STAGE_TRANSFER,
        src_access_mask: ACCESS_TRANSFER_WRITE,
        dst_stage_mask: STAGE_FRAGMENT_SHADER,
        dst_access_mask: ACCESS_SHADER_READ,
        old_layout: LAYOUT_TRANSFER_DST_OPTIMAL,
        new_layout: LAYOUT_SHADER_READ_ONLY_OPTIMAL,
        base_mip_level: u.mip_levels - 1,
        level_count: 1,
        image_layers: u.img_layers,
    }));
    proof {
        assert(out@ =~= upload_commands_spec(*u));
        lemma_copy_fills_level_zero(*u);
    }
    out
}

/// The size in bytes of the staging buffer for an image of four bytes per
/// texel. The engine computes it in 32 bits, left to right, and stops when
/// a step does not fit.
pub fn image_upload_size(width: u32, height: u32, layers: u32) -> (r: u64)
    requires
        width * height * 4 <= u32::MAX,
        width * height * 4 * layers <= u32::MAX,
    ensures
        r == width * height * 4 * layers,
{
    assert(width * height <= u32::MAX) by (nonlinear_arith)
        requires
            width * height * 4 <= u32::MAX,
    ;
    let size: u32 = width * height * 4 * layers;
    size as u64
}

/// The staging buffers freed at the start of a frame: each pending buffer's
/// count of frames to wait drops by one, and those that reach zero are
/// freed. The whole list is then dropped, the others with it.
pub open spec fn expired(pending: Seq<(BufferHandle, u32)>) -> Seq<BufferHandle> {
    pending.filter(|p: (BufferHandle, u32)| p.1 == 1).map_values(|p: (BufferHandle, u32)| p.0)
}

/// The pending buffers whose wait ends this frame, in order. A buffer
/// pending with a count of zero is not handled (the engine stops on it).
pub fn expire_pending_buffers(pending: &Vec<(BufferHandle, u32)>) -> (r: Vec<BufferHandle>)
    requires
        forall|i: int| 0 <= i < pending@.len() ==> (#[trigger] pending@[i]).1 >= 1,
    ensures
        r@ == expired(pending@),
{
    let mut out: Vec<BufferHandle> = Vec::new();
    let mut i: usize = 0;
    while i < pending.len()
        invariant
            i <= pending@.len(),
            forall|j: int| 0 <= j < pending@.len() ==> (#[trigger] pending@[j]).1 >= 1,
            out@ == expired(pending@.take(i as int)),
        decreases pending@.len() - i,
    {
        let (buffer, frames) = pending[i];
        let left: u32 = frames - 1;
        proof {
            let f = |p: (BufferHandle, u32)| p.1 == 1;
            assert(pending@.take(i as int + 1) =~= pending@.take(i as int).push(pending@[i as int]));
            pending@.take(i as int).lemma_filter_push(pending@[i as int], f);
        }
        if left == 0 {
            out.push(buffer);
        }
        proof {
            let f = |p: (BufferHandle, u32)| p.1 == 1;
            let g = |p: (BufferHandle, u32)| p.0;
            let a = pending@.take(i as int).filter(f);
            let b = pending@.take(i as int + 1).filter(f);
            if left == 0 {
                assert(b =~= a.push(pending@[i as int]));
                assert(b.map_values(g) =~= a.map_values(g).push(buffer));
            } else {
                assert(b =~= a);
            }
        }
        i = i + 1;
    }
    proof {
        assert(pending@.take(pending@.len() as int) =~= pending@);
    }
    out
}

/// The floor of the base-two logarithm of `x`, taken as 0 for 0 and 1.
pub open spec fn log2_floor(x: nat) -> nat
    decreases x,
{
    if x <= 1 {
        0
    } else {
        1 + log2_floor(x / 2)
    }
}

/// The mip levels of a texture of the given extent: halving the larger
/// side down to one texel, `floor(log2(max(width, height))) + 1` levels.
pub open spec fn mip_level_count_spec(width: u32, height: u32) -> nat {
    log2_floor(if width >= height { width as nat } else { height as nat }) + 1
}

/// The mip levels a loaded texture gets: `floor(log2(max(width, height)))
/// + 1`, so that its last level is one texel on its larger side. An empty
/// image gets one level.
pub fn mip_level_count(width: u32, height: u32) -> (r: u32)
    ensures
        r == mip_level_count_spec(width, height),
{
    let largest: u32 = if width >= height { width } else { height };
    let mut x: u32 = largest;
    let mut levels: u32 = 1;
    while x > 1
        invariant
            levels >= 1,
            levels - 1 + log2_floor(x as nat) == log2_floor(largest as nat),
        decreases x,
    {
        proof {
            lemma_log2_floor_below(largest as nat);
            assert(log2_floor(x as nat) >= 1);
        }
        x = x / 2;
        levels = levels + 1;
    }
    levels
}

/// The base-two logarithm of a positive number is below the number.
proof fn lemma_log2_floor_below(x: nat)
    ensures
        x >= 1 ==> log2_floor(x) <= x - 1,
    decreases x,
{
    if x > 1 {
        lemma_log2_floor_below(x / 2);
    }
}

/// How many frame starts a staging buffer waits in the pending list once
/// its upload has been recorded.
pub const STAGING_WAIT_FRAMES: u32 = 2u32;

/// The commands that upload every image of `queue`, image after image.
pub open spec fn queue_commands(queue: Seq<ImageToUpload>) -> Seq<UploadCommand>
    decreases queue.len(),
{
    if queue.len() == 0 {
        Seq::empty()
    } else {
        queue_commands(queue.drop_last()) + upload_commands_spec(queue.last())
    }
}

/// The staging buffers that the uploads of `queue` leave pending: each
/// image's buffer twice (once after its copy, once after its mip chain),
/// each waiting `STAGING_WAIT_FRAMES` frame starts.
pub open spec fn queue_staging(queue: Seq<ImageToUpload>) -> Seq<(BufferHandle, u32)>
    decreases queue.len(),
{
    if queue.len() == 0 {
        Seq::empty()
    } else {
        queue_staging(queue.drop_last()) + seq![
            (queue.last().buffer_handle, STAGING_WAIT_FRAMES),
            (queue.last().buffer_handle, STAGING_WAIT_FRAMES),
        ]
    }
}

/// What the device does about uploads when a frame starts: the staging
/// buffers to free, then the commands to record.
pub struct FrameUploads {
    pub freed: Vec<BufferHandle>,
    pub commands: Vec<UploadCommand>,
}

/// The device's deferred uploads: the images loaded since the last frame
/// start, and the staging buffers waiting to be freed.
pub struct UploadQueue {
    images_to_upload: Vec<ImageToUpload>,
    buffers_to_delete: Vec<(BufferHandle, u32)>,
}

impl UploadQueue {
    /// The images waiting for upload, in the order they were loaded.
    pub closed spec fn queued(&self) -> Seq<ImageToUpload> {
        self.images_to_upload@
    }

    /// The staging buffers waiting to be freed, with their frame counts.
    pub closed spec fn pending(&self) -> Seq<(BufferHandle, u32)> {
        self.buffers_to_delete@
    }

    /// Every queued image has a mip level, and every pending buffer waits
    /// `STAGING_WAIT_FRAMES` frame starts.
    pub closed spec fn wf(&self) -> bool {
        &&& forall|i: int| 0 <= i < self.images_to_upload@.len() ==> (#[trigger] self.images_to_upload@[i]).mip_levels >= 1
        &&& forall|i: int| 0 <= i < self.buffers_to_delete@.len() ==> (#[trigger] self.buffers_to_delete@[i]).1 == STAGING_WAIT_FRAMES
    }

    /// Nothing queued, nothing pending.
    pub fn new() -> (r: Self)
        ensures
            r.wf(),
            r.queued() == Seq::<ImageToUpload>::empty(),
            r.pending() == Seq::<(BufferHandle, u32)>::empty(),
    {
        UploadQueue { images_to_upload: Vec::new(), buffers_to_delete: Vec::new() }
    }

    /// Queues a loaded image for upload at the next frame start. An image
    /// with no mip level is not handled (the engine stops on it when the
    /// upload is recorded).
    pub fn queue_image(&mut self, image: ImageToUpload)
        requires
            old(self).wf(),
            image.mip_levels >= 1,
        ensures
            final(self).wf(),
            final(self).queued() == old(self).queued().push(image),
            final(self).pending() == old(self).pending(),
    {
        self.images_to_upload.push(image);
        proof {
            assert forall|i: int| 0 <= i < self.images_to_upload@.len() implies (#[trigger] self.images_to_upload@[i]).mip_levels >= 1 by {
                if i < old(self).images_to_upload@.len() {
                    assert(self.images_to_upload@[i] == old(self).images_to_upload@[i]);
                }
            }
        }
    }

    /// The upload work of a frame start. Each pending buffer's count drops
    /// by one and those that reach zero are freed; the pending list is then
    /// cleared. Every queued image is uploaded, in order, and its staging
    /// buffer becomes pending twice; the queue is then empty, so the next
    /// frame start records none of these images again.
    pub fn start_frame(&mut self) -> (r: FrameUploads)
        requires
            old(self).wf(),
        ensures
            final(self).wf(),
            r.freed@ == expired(old(self).pending()),
            r.commands@ == queue_commands(old(self).queued()),
            final(self).queued() == Seq::<ImageToUpload>::empty(),
            final(self).pending() == queue_staging(old(self).queued()),
    {
        let freed = expire_pending_buffers(&self.buffers_to_delete);
        let mut pending: Vec<(BufferHandle, u32)> = Vec::new();
        let mut commands: Vec<UploadCommand> = Vec::new();
        let mut i: usize = 0;
        while i < self.images_to_upload.len()
            invariant
                i <= self.images_to_upload@.len(),
                forall|j: int| 0 <= j < self.images_to_upload@.len() ==> (#[trigger] self.images_to_upload@[j]).mip_levels >= 1,
                commands@ == queue_commands(self.images_to_upload@.take(i as int)),
                pending@ == queue_staging(self.images_to_upload@.take(i as int)),
            decreases self.images_to_upload@.len() - i,
        {
            let image = self.images_to_upload[i];
            let cmds = upload_commands(&image);
            let ghost before = commands@;
            let mut k: usize = 0;
            while k < cmds.len()
                invariant
                    k <= cmds@.len(),
                    commands@ == before + cmds@.take(k as int),
                decreases cmds@.len() - k,
            {
                commands.push(cmds[k]);
                proof {
                    assert(cmds@.take(k as int + 1) =~= cmds@.take(k as int).push(cmds@[k as int]));
                    assert(before + cmds@.take(k as int + 1) =~= (before + cmds@.take(k as int)).push(cmds@[k as int]));
                }
                k = k + 1;
            }
            pending.push((image.buffer_handle, STAGING_WAIT_FRAMES));
            pending.push((image.buffer_handle, STAGING_WAIT_FRAMES));
            proof {
                let q = self.images_to_upload@;
                assert(q.take(i as int + 1).drop_last() =~= q.take(i as int));
                assert(q.take(i as int + 1).last() == q[i as int]);
                assert(cmds@.take(cmds@.len() as int) =~= cmds@);
                assert(pending@ =~= queue_staging(q.take(i as int)) + seq![
                    (image.buffer_handle, STAGING_WAIT_FRAMES),
                    (image.buffer_handle, STAGING_WAIT_FRAMES),
                ]);
            }
            i = i + 1;
        }
        proof {
            assert(self.images_to_upload@.take(self.images_to_upload@.len() as int) =~= self.images_to_upload@);
            let q = self.images_to_upload@;
            lemma_queue_staging_waits(q);
        }
        self.images_to_upload = Vec::new();
        self.buffers_to_delete = pending;
        FrameUploads { freed, commands }
    }
}

proof fn lemma_queue_staging_waits(queue: Seq<ImageToUpload>)
    ensures
        forall|i: int| 0 <= i < queue_staging(queue).len() ==> (#[trigger] queue_staging(queue)[i]).1 == STAGING_WAIT_FRAMES,
    decreases queue.len(),
{
    if queue.len() > 0 {
        lemma_queue_staging_waits(queue.drop_last());
        let prev = queue_staging(queue.drop_last());
        let s = queue_staging(queue);
        assert forall|i: int| 0 <= i < s.len() implies (#[trigger] s[i]).1 == STAGING_WAIT_FRAMES by {
            if i < prev.len() {
                assert(s[i] == prev[i]);
            }
        }
    }
}

/// Law: a frame start uploads each queued image once. Right after it
/// nothing is queued, so a second frame start, with no image loaded in
/// between, records no upload, and it frees none of the buffers the first
/// one left pending (they wait one more frame start).
pub proof fn lemma_frame_start_drains(queue: Seq<ImageToUpload>)
    ensures
        queue_commands(Seq::<ImageToUpload>::empty()) == Seq::<UploadCommand>::empty(),
        expired(queue_staging(queue)) == Seq::<BufferHandle>::empty(),
{
    lemma_queue_staging_waits(queue);
    let s = queue_staging(queue);
    let f = |p: (BufferHandle, u32)| p.1 == 1;
    assert(s.all(|x: (BufferHandle, u32)| !f(x)));
    s.lemma_all_neg_filter_empty(f);
    assert(s.filter(f) =~= Seq::<(BufferHandle, u32)>::empty());
    assert(expired(s) =~= Seq::<BufferHandle>::empty());
}

/// Whether barrier `b` covers mip level `level`.
pub open spec fn covers(b: ImageBarrier, level: int) -> bool {
    b.base_mip_level <= level < b.base_mip_level + b.level_count
}

/// Whether command `c` is a barrier that covers mip level `level`.
pub open spec fn barrier_covers(c: UploadCommand, level: int) -> bool {
    match c {
        UploadCommand::Barrier(b) => covers(b, level),
        _ => false,
    }
}

proof fn lemma_mip_steps_shape(u: ImageToUpload, m: nat)
    requires
        m < 0x1_0000_0000,
    ensures
        mip_steps(u, m).len() == 3 * m,
        forall|j: int| 0 <= j < m ==> #[trigger] mip_steps(u, m)[3 * j] == UploadCommand::Barrier(to_source_barrier(u, j as u32)),
        forall|j: int| 0 <= j < m ==> #[trigger] mip_steps(u, m)[3 * j + 1] == blit_command(u, (j + 1) as u32),
        forall|j: int| 0 <= j < m ==> #[trigger] mip_steps(u, m)[3 * j + 2] == UploadCommand::Barrier(source_to_read_barrier(u, j as u32)),
    decreases m,
{
    if m > 0 {
        lemma_mip_steps_shape(u, (m - 1) as nat);
        let prev = mip_steps(u, (m - 1) as nat);
        let s = mip_steps(u, m);
        assert forall|j: int| 0 <= j < m implies #[trigger] s[3 * j] == UploadCommand::Barrier(to_source_barrier(u, j as u32)) by {
            if j < m - 1 {
                assert(s[3 * j] == prev[3 * j]);
            }
        }
        assert forall|j: int| 0 <= j < m implies #[trigger] s[3 * j + 1] == blit_command(u, (j + 1) as u32) by {
            if j < m - 1 {
                assert(s[3 * j + 1] == prev[3 * j + 1]);
            }
        }
        assert forall|j: int| 0 <= j < m implies #[trigger] s[3 * j + 2] == UploadCommand::Barrier(source_to_read_barrier(u, j as u32)) by {
            if j < m - 1 {
                assert(s[3 * j + 2] == prev[3 * j + 2]);
            }
        }
    }
}

/// Law: once the upload's commands have run, every mip level can be read by
/// fragment shaders: the last barrier that covers a level takes it to the
/// shader-read layout.
pub proof fn lemma_upload_leaves_levels_readable(u: ImageToUpload, level: int)
    requires
        u.mip_levels >= 1,
        0 <= level < u.mip_levels,
    ensures
        exists|k: int| #![trigger upload_commands_spec(u)[k]] 0 <= k < upload_commands_spec(u).len() && {
            &&& upload_commands_spec(u)[k] matches UploadCommand::Barrier(b)
                && covers(b, level) && b.new_layout == LAYOUT_SHADER_READ_ONLY_OPTIMAL
            &&& forall|k2: int| k < k2 < upload_commands_spec(u).len()
                ==> !barrier_covers(#[trigger] upload_commands_spec(u)[k2], level)
        },
{
    let n = u.mip_levels as int;
    let m = (n - 1) as nat;
    lemma_mip_steps_shape(u, m);
    let steps = mip_steps(u, m);
    let all = upload_commands_spec(u);
    let head = seq![UploadCommand::Barrier(first_barrier(u)), copy_command(u)];
    assert(all.len() == 3 * n);
    assert forall|k2: int| 2 <= k2 < 2 + 3 * m implies #[trigger] all[k2] == steps[k2 - 2] by {}
    if level < n - 1 {
        let k = 3 * level + 4;
        assert(steps[3 * level + 2] == UploadCommand::Barrier(source_to_read_barrier(u, level as u32)));
        assert(all[k] == steps[3 * level + 2]);
        assert forall|k2: int| k < k2 < all.len() implies !barrier_covers(#[trigger] all[k2], level) by {
            if k2 == 3 * n - 1 {
                assert(all[k2] == UploadCommand::Barrier(last_barrier(u)));
            } else {
                let s = k2 - 2;
                let j = s / 3;
                assert(0 <= j < m);
                assert(j > level);
                if s % 3 == 0 {
                    assert(s == 3 * j);
                    assert(all[k2] == steps[3 * j]);
                } else if s % 3 == 1 {
                    assert(s == 3 * j + 1);
                    assert(all[k2] == steps[3 * j + 1]);
                } else {
                    assert(s == 3 * j + 2);
                    assert(all[k2] == steps[3 * j + 2]);
                }
            }
        }
        assert(all[k] matches UploadCommand::Barrier(b) && covers(b, level) && b.new_layout == LAYOUT_SHADER_READ_ONLY_OPTIMAL);
    } else {
        let k = 3 * n - 1;
        assert(all[k] == UploadCommand::Barrier(last_barrier(u)));
        assert(all[k] matches UploadCommand::Barrier(b) && covers(b, level) && b.new_layout == LAYOUT_SHADER_READ_ONLY_OPTIMAL);
    }
}

proof fn lemma_level_extent_positive(x: u32, k: nat)
    requires
        x >= 1,
    ensures
        level_extent(x, k) >= 1,
    decreases k,
{
    if k > 0 {
        lemma_level_extent_positive(x, (k - 1) as nat);
    }
}

/// Law: for an image of at least one texel, each blit reads from its
/// source level the extent that the blit before it wrote there.
pub proof fn lemma_blits_chain(u: ImageToUpload, i: u32)
    requires
        u.width >= 1,
        u.height >= 1,
        1 <= i,
        i + 1 < u.mip_levels,
    ensures
        blit_command(u, i) matches UploadCommand::Blit { dst_width, dst_height, .. }
            && blit_command(u, (i + 1) as u32) matches UploadCommand::Blit { src_width, src_height, .. }
            && src_width == dst_width && src_height == dst_height,
{
    lemma_level_extent_positive(u.width, (i - 1) as nat);
    lemma_level_extent_positive(u.height, (i - 1) as nat);
    assert(level_extent(u.width, i as nat) == halve(level_extent(u.width, (i - 1) as nat)));
    assert(level_extent(u.height, i as nat) == halve(level_extent(u.height, (i - 1) as nat)));
}

} // verus!
