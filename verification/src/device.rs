//! The graphics device's frame bookkeeping: which of the buffered per-frame
//! resources a frame uses, and the GPU timestamps written during a frame.
use vstd::prelude::*;
use crate::handles::BufferHandle;
use crate::upload::{expired, queue_commands, queue_staging, FrameUploads, ImageToUpload, UploadQueue};

verus! {

/// How many frames the CPU may record ahead of the GPU.
pub const FRAMES_IN_FLIGHT: usize = 2usize;

/// The size of the timestamp query pool.
pub const QUERY_COUNT: u32 = 10u32;

/// The width and height of the shadow map.
pub const SHADOWMAP_SIZE: u32 = 4096u32;

/// The query slot a timestamp was written to during a frame.
#[derive(Clone, Copy, PartialEq, Eq, Structural, Debug)]
pub struct TimeStampIndex(pub usize);

/// The frame counter, the timestamps written in the frame being recorded,
/// and the timestamp values the last finished frame read back.
pub struct FrameClock {
    frame_number: usize,
    timestamp_frame_count: usize,
    timestamps: Vec<u64>,
}

/// The per-frame resource set that frame `frame` uses.
pub open spec fn buffered_slot(frame: nat) -> nat {
    frame % (FRAMES_IN_FLIGHT as nat)
}

/// The tick count between two timestamps that were both read back.
pub open spec fn ticks_between(timestamps: Seq<u64>, start: TimeStampIndex, end: TimeStampIndex) -> Option<u64> {
    if start.0 < timestamps.len() && end.0 < timestamps.len() {
        Some((timestamps[end.0 as int] - timestamps[start.0 as int]) as u64)
    } else {
        None
    }
}

impl FrameClock {
    /// The number of frames finished.
    pub closed spec fn frame(&self) -> nat {
        self.frame_number as nat
    }

    /// The number of timestamps written in the frame being recorded.
    pub closed spec fn written(&self) -> nat {
        self.timestamp_frame_count as nat
    }

    /// The timestamp values read back at the end of the last frame.
    pub closed spec fn read_back(&self) -> Seq<u64> {
        self.timestamps@
    }

    /// No frame finished, no timestamp written, none read back.
    pub fn new() -> (r: Self)
        ensures
            r.frame() == 0,
            r.written() == 0,
            r.read_back() =~= Seq::empty(),
    {
        FrameClock { frame_number: 0, timestamp_frame_count: 0, timestamps: Vec::new() }
    }

    /// The number of frames finished.
    pub fn frame_number(&self) -> (r: usize)
        ensures
            r == self.frame(),
    {
        self.frame_number
    }

    /// Which of the buffered per-frame resources (command buffer, fence,
    /// semaphores, descriptor set) the current frame uses.
    pub fn buffered_resource_number(&self) -> (r: usize)
        ensures
            r == buffered_slot(self.frame()),
            r < FRAMES_IN_FLIGHT,
    {
        self.frame_number % FRAMES_IN_FLIGHT
    }

    /// Starts recording a frame: the query pool is reset, so no timestamp
    /// is written yet.
    pub fn start_frame(&mut self)
        ensures
            final(self).written() == 0,
            final(self).frame() == old(self).frame(),
            final(self).read_back() == old(self).read_back(),
    {
        self.timestamp_frame_count = 0;
    }

    /// Writes the next timestamp of the frame: it takes the next free query
    /// slot, whose index is returned.
    pub fn write_timestamp(&mut self) -> (r: TimeStampIndex)
        requires
            old(self).written() < QUERY_COUNT,
        ensures
            r.0 == old(self).written(),
            final(self).written() == old(self).written() + 1,
            final(self).frame() == old(self).frame(),
            final(self).read_back() == old(self).read_back(),
    {
        let index = TimeStampIndex(self.timestamp_frame_count);
        self.timestamp_frame_count = self.timestamp_frame_count + 1;
        index
    }

    /// How many query slots the current frame wrote, which is how many
    /// results to read back.
    pub fn timestamp_count(&self) -> (r: u32)
        requires
            self.written() <= QUERY_COUNT,
        ensures
            r == self.written(),
    {
        self.timestamp_frame_count as u32
    }

    /// Finishes the frame: the timestamps read back, when the read
    /// succeeded, replace the earlier ones; the frame counter advances.
    pub fn end_frame(&mut self, query_results: Option<Vec<u64>>)
        requires
            old(self).frame() < usize::MAX,
        ensures
            final(self).frame() == old(self).frame() + 1,
            final(self).written() == old(self).written(),
            final(self).read_back() == (match query_results {
                Some(v) => v@,
                None => old(self).read_back(),
            }),
    {
        if let Some(results) = query_results {
            self.timestamps = results;
        }
        self.frame_number = self.frame_number + 1;
    }

    /// The timestamp values read back at the end of the last frame.
    pub fn read_back_timestamps(&self) -> (r: &Vec<u64>)
        ensures
            r@ == self.read_back(),
    {
        &self.timestamps
    }

    /// The GPU ticks between two timestamps of the last finished frame, or
    /// `None` when either was not read back.
    pub fn timestamp_ticks(&self, start_index: TimeStampIndex, end_index: TimeStampIndex) -> (r: Option<u64>)
        requires
            ticks_between(self.read_back(), start_index, end_index).is_some() ==>
                self.read_back()[start_index.0 as int] <= self.read_back()[end_index.0 as int],
        ensures
            r == ticks_between(self.read_back(), start_index, end_index),
    {
        if start_index.0 < self.timestamps.len() && end_index.0 < self.timestamps.len() {
            Some(self.timestamps[end_index.0] - self.timestamps[start_index.0])
        } else {
            None
        }
    }
}

/// The device's frame state: the frame clock and the deferred uploads.
pub struct DeviceFrame {
    pub clock: FrameClock,
    pub uploads: UploadQueue,
}

impl DeviceFrame {
    /// No frame finished, nothing written, queued or pending.
    pub fn new() -> (r: Self)
        ensures
            r.uploads.wf(),
            r.clock.frame() == 0,
            r.clock.written() == 0,
            r.clock.read_back() == Seq::<u64>::empty(),
            r.uploads.queued() == Seq::<ImageToUpload>::empty(),
            r.uploads.pending() == Seq::<(BufferHandle, u32)>::empty(),
    {
        DeviceFrame { clock: FrameClock::new(), uploads: UploadQueue::new() }
    }

    /// Queues a loaded image, whose staging buffer holds its texels, for
    /// upload at the next frame start.
    pub fn load_image(&mut self, image: ImageToUpload)
        requires
            old(self).uploads.wf(),
            image.mip_levels >= 1,
        ensures
            final(self).uploads.wf(),
            final(self).uploads.queued() == old(self).uploads.queued().push(image),
            final(self).uploads.pending() == old(self).uploads.pending(),
            final(self).clock == old(self).clock,
    {
        self.uploads.queue_image(image);
    }

    /// Starts a frame: the query pool is reset, so the next timestamp takes
    /// slot 0; the pending staging buffers whose wait ends are freed; every
    /// queued image is uploaded in order and the queue is emptied.
    pub fn start_frame(&mut self) -> (r: FrameUploads)
        requires
            old(self).uploads.wf(),
        ensures
            final(self).uploads.wf(),
            final(self).clock.written() == 0,
            final(self).clock.frame() == old(self).clock.frame(),
            final(self).clock.read_back() == old(self).clock.read_back(),
            r.freed@ == expired(old(self).uploads.pending()),
            r.commands@ == queue_commands(old(self).uploads.queued()),
            final(self).uploads.queued() == Seq::<ImageToUpload>::empty(),
            final(self).uploads.pending() == queue_staging(old(self).uploads.queued()),
    {
        self.clock.start_frame();
        self.uploads.start_frame()
    }
}

/// Law: the timestamps of a frame take consecutive query slots from 0.
/// After a frame starts (nothing written), the `i`-th timestamp written
/// takes slot `i`; no two take the same slot, and the frame has written as
/// many as were taken.
pub proof fn lemma_timestamps_consecutive(clocks: Seq<FrameClock>, taken: Seq<TimeStampIndex>)
    requires
        clocks.len() == taken.len() + 1,
        clocks[0].written() == 0,
        forall|i: int| 0 <= i < taken.len() ==> (#[trigger] taken[i]).0 == clocks[i].written()
            && clocks[i + 1].written() == clocks[i].written() + 1,
    ensures
        forall|i: int| 0 <= i < taken.len() ==> (#[trigger] taken[i]).0 == i,
        forall|i: int, j: int| 0 <= i < j < taken.len() ==> taken[i] != taken[j],
        clocks[taken.len() as int].written() == taken.len(),
    decreases taken.len(),
{
    if taken.len() > 0 {
        let n = (taken.len() - 1) as int;
        lemma_timestamps_consecutive(clocks.take(n + 1), taken.take(n));
        assert(clocks.take(n + 1)[n] == clocks[n]);
        assert(taken[n].0 == clocks[n].written());
        assert(clocks[n].written() == n);
        assert forall|i: int| 0 <= i < taken.len() implies (#[trigger] taken[i]).0 == i by {
            if i < n {
                assert(taken.take(n)[i] == taken[i]);
            }
            assert(clocks.take(n + 1)[n] == clocks[n]);
        }
    }
}

/// Law: consecutive frames use different per-frame resource sets, and a
/// frame uses the same set as the frame two before it.
pub proof fn lemma_buffered_alternates(frame: nat)
    ensures
        buffered_slot(frame) != buffered_slot(frame + 1),
        buffered_slot(frame) == buffered_slot(frame + 2),
        buffered_slot(frame) < FRAMES_IN_FLIGHT,
{
}

} // verus!
