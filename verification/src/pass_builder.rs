//! Render-pass construction: which barriers a pass needs before it starts,
//! and whether each attachment is cleared or loaded.
use vstd::prelude::*;
use crate::barrier::{AttachmentHandle, ImageBarrier};
use crate::handles::ImageHandle;
use crate::usage_tracker::ImageUsageTracker;
use crate::vkflags::{
    attachment_load_op, LAYOUT_ATTACHMENT_OPTIMAL, USAGE_COLOR_ATTACHMENT,
    USAGE_DEPTH_STENCIL_ATTACHMENT, USAGE_EMPTY, USAGE_SAMPLED,
};

verus! {

/// An attachment of a render pass: its image, the layout it is rendered in,
/// and its clear value (of whatever type the caller records it with).
#[derive(Clone, Copy)]
pub struct AttachmentInfo<C> {
    pub target: AttachmentHandle,
    pub image_layout: i32,
    pub clear_value: C,
}

impl<C> AttachmentInfo<C> {
    /// An attachment on the default image in the attachment layout.
    pub fn with_clear_value(clear_value: C) -> (r: Self)
        ensures
            r.target == AttachmentHandle::Image(ImageHandle { key: crate::handles::NULL_KEY }),
            r.image_layout == LAYOUT_ATTACHMENT_OPTIMAL,
            r.clear_value == clear_value,
    {
        AttachmentInfo {
            target: AttachmentHandle::Image(ImageHandle::default()),
            image_layout: LAYOUT_ATTACHMENT_OPTIMAL,
            clear_value,
        }
    }
}

/// The state threaded through the planning of a pass: last usages, load
/// operations and barriers so far.
pub type PlanState = (Map<AttachmentHandle, u32>, Seq<i32>, Seq<ImageBarrier>);

/// One attachment that a pass uses with `usage`: the image moves to `usage`
/// with a barrier from its last usage unless it is already there, and the
/// tracker then records `usage`.
pub open spec fn use_step(st: PlanState, t: AttachmentHandle, usage: u32) -> PlanState {
    let last = crate::usage_tracker::last_or_empty(st.0, t);
    if last != usage {
        (st.0.insert(t, usage), st.1, st.2.push(crate::barrier::transition(t, last, usage)))
    } else {
        st
    }
}

/// The colour attachments `ts`, in order: each records its load operation
/// (from its last usage before the pass touched it) and then moves to the
/// colour-attachment usage.
pub open spec fn colour_plan(st: PlanState, ts: Seq<AttachmentHandle>) -> PlanState
    decreases ts.len(),
{
    if ts.len() == 0 {
        st
    } else {
        let prev = colour_plan(st, ts.drop_last());
        let t = ts.last();
        let load = crate::vkflags::load_op_for(crate::usage_tracker::last_or_empty(prev.0, t));
        use_step((prev.0, prev.1.push(load), prev.2), t, USAGE_COLOR_ATTACHMENT)
    }
}

/// The sampled inputs `ts`, in order, each moved to the sampled usage.
pub open spec fn input_plan(st: PlanState, ts: Seq<ImageHandle>) -> PlanState
    decreases ts.len(),
{
    if ts.len() == 0 {
        st
    } else {
        let prev = input_plan(st, ts.drop_last());
        use_step(prev, AttachmentHandle::Image(ts.last()), USAGE_SAMPLED)
    }
}

/// The barrier a depth attachment gets before the pass: a transition to the
/// depth usage unless it is already there. Its usage is recorded only when
/// the pass begins.
pub open spec fn depth_barrier(st: PlanState, d: Option<AttachmentHandle>) -> PlanState {
    match d {
        Some(t) => {
            let last = crate::usage_tracker::last_or_empty(st.0, t);
            if last != USAGE_DEPTH_STENCIL_ATTACHMENT {
                (
                    st.0,
                    st.1,
                    st.2.push(crate::barrier::transition(t, last, USAGE_DEPTH_STENCIL_ATTACHMENT)),
                )
            } else {
                st
            }
        },
        None => st,
    }
}

/// Law: after the colour attachments of a pass are planned, each of them is
/// recorded as in colour-attachment use, and the usage of every other image
/// is unchanged.
pub proof fn lemma_colour_plan_records_colour_use(st: PlanState, ts: Seq<AttachmentHandle>)
    ensures
        forall|i: int| 0 <= i < ts.len() ==> colour_plan(st, ts).0.contains_key(#[trigger] ts[i])
            && colour_plan(st, ts).0[ts[i]] == USAGE_COLOR_ATTACHMENT,
        forall|h: AttachmentHandle| !ts.contains(h) ==> ((colour_plan(st, ts).0.contains_key(h)
            == st.0.contains_key(h)) && (colour_plan(st, ts).0.contains_key(h) ==> colour_plan(st, ts).0[h] == st.0[h])),
        colour_plan(st, ts).1.len() == st.1.len() + ts.len(),
        colour_plan(st, ts).2.len() <= st.2.len() + ts.len(),
    decreases ts.len(),
{
    if ts.len() > 0 {
        let init = ts.drop_last();
        lemma_colour_plan_records_colour_use(st, init);
        assert forall|i: int| 0 <= i < ts.len() implies colour_plan(st, ts).0.contains_key(#[trigger] ts[i])
            && colour_plan(st, ts).0[ts[i]] == USAGE_COLOR_ATTACHMENT by {
            if i < ts.len() - 1 {
                assert(init[i] == ts[i]);
            }
        }
        assert forall|h: AttachmentHandle| !ts.contains(h) implies (colour_plan(st, ts).0.contains_key(h)
            == st.0.contains_key(h)) && (colour_plan(st, ts).0.contains_key(h) ==> colour_plan(st, ts).0[h] == st.0[h]) by {
            if init.contains(h) {
                let j = choose|j: int| 0 <= j < init.len() && init[j] == h;
                assert(ts[j] == h);
            }
            assert(ts[ts.len() - 1] != h);
        }
    }
}

/// Law: planning the same colour attachments again, right after a pass that
/// used them, needs no barrier and loads every attachment.
pub proof fn lemma_colour_plan_again(st: PlanState, ts: Seq<AttachmentHandle>)
    ensures
        colour_plan(colour_plan(st, ts), ts).0 == colour_plan(st, ts).0,
        colour_plan(colour_plan(st, ts), ts).2 == colour_plan(st, ts).2,
        colour_plan(colour_plan(st, ts), ts).1 == colour_plan(st, ts).1 + Seq::new(
            ts.len(),
            |i: int| crate::vkflags::LOAD_OP_LOAD,
        ),
{
    lemma_colour_plan_records_colour_use(st, ts);
    let s = colour_plan(st, ts);
    assert(ts.take(ts.len() as int) =~= ts);
    lemma_colour_plan_on_colour_images(s, ts, ts);
}

/// Colour attachments that all already are in colour use keep their usage,
/// get no barrier and are loaded.
proof fn lemma_colour_plan_on_colour_images(s: PlanState, all: Seq<AttachmentHandle>, ts: Seq<AttachmentHandle>)
    requires
        forall|i: int| 0 <= i < all.len() ==> s.0.contains_key(#[trigger] all[i])
            && s.0[all[i]] == USAGE_COLOR_ATTACHMENT,
        ts.len() <= all.len(),
        ts == all.take(ts.len() as int),
    ensures
        colour_plan(s, ts).0 == s.0,
        colour_plan(s, ts).2 == s.2,
        colour_plan(s, ts).1 == s.1 + Seq::new(ts.len(), |i: int| crate::vkflags::LOAD_OP_LOAD),
    decreases ts.len(),
{
    if ts.len() == 0 {
        assert(s.1 + Seq::new(0, |i: int| crate::vkflags::LOAD_OP_LOAD) =~= s.1);
    } else {
        let init = ts.drop_last();
        assert(init == all.take(init.len() as int));
        lemma_colour_plan_on_colour_images(s, all, init);
        let t = ts.last();
        assert(t == all[ts.len() - 1]);
        assert(s.1 + Seq::new(ts.len(), |i: int| crate::vkflags::LOAD_OP_LOAD) =~= (s.1 + Seq::new(
            init.len(),
            |i: int| crate::vkflags::LOAD_OP_LOAD,
        )).push(crate::vkflags::LOAD_OP_LOAD));
    }
}

/// Law: an attachment that the frame has not used before the pass, and that
/// does not occur earlier among the pass's colour attachments, is cleared;
/// every other colour attachment is loaded.
pub proof fn lemma_colour_plan_load_ops(st: PlanState, ts: Seq<AttachmentHandle>, i: int)
    requires
        0 <= i < ts.len(),
        forall|h: AttachmentHandle| #[trigger] st.0.contains_key(h) ==> st.0[h] != USAGE_EMPTY,
    ensures
        colour_plan(st, ts).1[st.1.len() + i] == (if !st.0.contains_key(ts[i]) && !ts.take(i).contains(ts[i]) {
            crate::vkflags::LOAD_OP_CLEAR
        } else {
            crate::vkflags::LOAD_OP_LOAD
        }),
    decreases ts.len(),
{
    lemma_colour_plan_records_colour_use(st, ts.take(i));
    lemma_colour_plan_records_colour_use(st, ts);
    lemma_colour_plan_prefix(st, ts, i + 1);
    let prev = colour_plan(st, ts.take(i));
    assert(ts.take(i + 1).drop_last() =~= ts.take(i));
    assert(ts.take(i + 1).last() == ts[i]);
    if ts.take(i).contains(ts[i]) {
        let j = choose|j: int| 0 <= j < ts.take(i).len() && ts.take(i)[j] == ts[i];
        assert(prev.0.contains_key(ts.take(i)[j]));
    } else {
        assert(prev.0.contains_key(ts[i]) == st.0.contains_key(ts[i]));
    }
    assert(prev.1.len() == st.1.len() + i);
    let load = crate::vkflags::load_op_for(crate::usage_tracker::last_or_empty(prev.0, ts[i]));
    let full = colour_plan(st, ts.take(i + 1));
    assert(full.1 == prev.1.push(load));
    assert(full.1[st.1.len() + i] == load);
    assert(colour_plan(st, ts).1.take(st.1.len() + i + 1)[st.1.len() + i] == colour_plan(st, ts).1[st.1.len() + i]);
}

/// The load operations planned for a prefix of the attachments stay those of
/// the whole list.
proof fn lemma_colour_plan_prefix(st: PlanState, ts: Seq<AttachmentHandle>, n: int)
    requires
        0 <= n <= ts.len(),
    ensures
        colour_plan(st, ts.take(n)).1 == colour_plan(st, ts).1.take(st.1.len() + n),
    decreases ts.len(),
{
    lemma_colour_plan_records_colour_use(st, ts);
    if n < ts.len() {
        let init = ts.drop_last();
        assert(init.take(n) =~= ts.take(n));
        lemma_colour_plan_prefix(st, init, n);
        lemma_colour_plan_records_colour_use(st, init);
        let prev = colour_plan(st, init);
        assert(colour_plan(st, ts).1 == prev.1.push(
            crate::vkflags::load_op_for(crate::usage_tracker::last_or_empty(prev.0, ts.last())),
        ));
        assert(prev.1.take(st.1.len() + n) =~= colour_plan(st, ts).1.take(st.1.len() + n));
    } else {
        assert(ts.take(n) =~= ts);
        assert(colour_plan(st, ts).1.take(st.1.len() + n) =~= colour_plan(st, ts).1);
    }
}

/// Planning sampled inputs only appends barriers: the barriers before it
/// stay, in place.
proof fn lemma_input_plan_keeps_barriers(st: PlanState, ts: Seq<ImageHandle>)
    ensures
        input_plan(st, ts).2.len() >= st.2.len(),
        forall|i: int| 0 <= i < st.2.len() ==> #[trigger] input_plan(st, ts).2[i] == st.2[i],
    decreases ts.len(),
{
    if ts.len() > 0 {
        lemma_input_plan_keeps_barriers(st, ts.drop_last());
    }
}

/// Law: the depth attachment `d` is moved into depth-attachment use, never
/// out of it. A barrier is added exactly when `d` is not already in depth
/// use; it targets `d`, ends in the attachment layout on the late fragment
/// tests stage with depth-stencil writes, and starts from the layout, stage
/// and access of `d`'s last recorded usage: from the undefined layout with
/// an empty source side when `d` has none. The usages and load operations
/// recorded so far, and the barriers before it, are untouched.
pub proof fn lemma_depth_barrier_into_depth_use(st: PlanState, d: AttachmentHandle)
    ensures
        depth_barrier(st, Some(d)).0 == st.0,
        depth_barrier(st, Some(d)).1 == st.1,
        crate::usage_tracker::last_or_empty(st.0, d) == USAGE_DEPTH_STENCIL_ATTACHMENT
            ==> depth_barrier(st, Some(d)).2 == st.2,
        crate::usage_tracker::last_or_empty(st.0, d) != USAGE_DEPTH_STENCIL_ATTACHMENT ==> {
            let b = depth_barrier(st, Some(d)).2[st.2.len() as int];
            let last = crate::usage_tracker::last_or_empty(st.0, d);
            &&& depth_barrier(st, Some(d)).2.len() == st.2.len() + 1
            &&& depth_barrier(st, Some(d)).2.take(st.2.len() as int) == st.2
            &&& b.image == d
            &&& b.new_layout == LAYOUT_ATTACHMENT_OPTIMAL
            &&& b.dst_stage_mask == crate::vkflags::STAGE_LATE_FRAGMENT_TESTS
            &&& b.dst_access_mask == crate::vkflags::ACCESS_DEPTH_STENCIL_ATTACHMENT_WRITE
            &&& b.old_layout == crate::vkflags::layout_for_usage(last)
            &&& b.src_stage_mask == crate::vkflags::stage_for_usage(last)
            &&& b.src_access_mask == crate::vkflags::access_for_usage(last)
        },
        !st.0.contains_key(d) ==> {
            let b = depth_barrier(st, Some(d)).2[st.2.len() as int];
            &&& depth_barrier(st, Some(d)).2.len() == st.2.len() + 1
            &&& b.old_layout == crate::vkflags::LAYOUT_UNDEFINED
            &&& b.src_stage_mask == crate::vkflags::STAGE_NONE
            &&& b.src_access_mask == crate::vkflags::ACCESS_NONE
            &&& b.new_layout == LAYOUT_ATTACHMENT_OPTIMAL
        },
{
    let last = crate::usage_tracker::last_or_empty(st.0, d);
    if last != USAGE_DEPTH_STENCIL_ATTACHMENT {
        assert(depth_barrier(st, Some(d)).2.take(st.2.len() as int) =~= st.2);
    }
}

/// Law: in the barriers a pass plans, the one for its depth attachment `d`
/// comes right after the colour attachments' barriers whenever `d` is not
/// already in depth use after them, and it moves `d` into the
/// depth-attachment layout from the layout of its last usage. Planning the
/// sampled inputs afterwards does not disturb it.
pub proof fn lemma_plan_depth_barrier(
    st: PlanState,
    colours: Seq<AttachmentHandle>,
    d: AttachmentHandle,
    inputs: Seq<ImageHandle>,
)
    requires
        crate::usage_tracker::last_or_empty(colour_plan(st, colours).0, d) != USAGE_DEPTH_STENCIL_ATTACHMENT,
    ensures
        ({
            let s1 = colour_plan(st, colours);
            let s3 = input_plan(depth_barrier(s1, Some(d)), inputs);
            let last = crate::usage_tracker::last_or_empty(s1.0, d);
            let b = s3.2[s1.2.len() as int];
            &&& s3.2.len() > s1.2.len()
            &&& b.image == d
            &&& b.new_layout == LAYOUT_ATTACHMENT_OPTIMAL
            &&& b.dst_stage_mask == crate::vkflags::STAGE_LATE_FRAGMENT_TESTS
            &&& b.dst_access_mask == crate::vkflags::ACCESS_DEPTH_STENCIL_ATTACHMENT_WRITE
            &&& b.old_layout == crate::vkflags::layout_for_usage(last)
            &&& b.src_stage_mask == crate::vkflags::stage_for_usage(last)
        }),
{
    let s1 = colour_plan(st, colours);
    let s2 = depth_barrier(s1, Some(d));
    lemma_depth_barrier_into_depth_use(s1, d);
    lemma_input_plan_keeps_barriers(s2, inputs);
    assert(input_plan(s2, inputs).2[s1.2.len() as int] == s2.2[s1.2.len() as int]);
}

/// Everything the engine decides before recording a pass.
pub struct PassPlan {
    /// The viewport is flipped when the first colour attachment is the
    /// swapchain image.
    pub flip_viewport: bool,
    pub width: u32,
    pub height: u32,
    /// One per colour attachment, in order.
    pub colour_load_ops: Vec<i32>,
    /// Present when the pass has a depth attachment.
    pub depth_load_op: Option<i32>,
    /// In the order they are recorded.
    pub barriers: Vec<ImageBarrier>,
}

/// Builds a render pass from its attachments.
pub struct RenderPassBuilder<C> {
    pub colour_attachments: Vec<AttachmentInfo<C>>,
    pub depth_attachment: Option<AttachmentInfo<C>>,
    pub texture_inputs: Vec<ImageHandle>,
    pub viewport_size: (u32, u32),
}

impl<C: Copy> RenderPassBuilder<C> {
    /// The images of the colour attachments, in order.
    pub open spec fn colour_targets(&self) -> Seq<AttachmentHandle> {
        self.colour_attachments@.map_values(|a: AttachmentInfo<C>| a.target)
    }

    /// The depth attachment's image.
    pub open spec fn depth_target(&self) -> Option<AttachmentHandle> {
        match self.depth_attachment {
            Some(a) => Some(a.target),
            None => None,
        }
    }

    /// A builder for a pass of the given viewport size, with no attachments.
    pub fn new(viewport_size: (u32, u32)) -> (r: Self)
        ensures
            r.viewport_size == viewport_size,
            r.colour_attachments@.len() == 0,
            r.depth_attachment is None,
            r.texture_inputs@.len() == 0,
    {
        RenderPassBuilder {
            colour_attachments: Vec::new(),
            depth_attachment: None,
            texture_inputs: Vec::new(),
            viewport_size,
        }
    }

    /// Adds a colour attachment after the present ones.
    pub fn add_colour_attachment(self, attachment: AttachmentInfo<C>) -> (r: Self)
        ensures
            r.colour_attachments@ == self.colour_attachments@.push(attachment),
            r.depth_attachment == self.depth_attachment,
            r.texture_inputs@ == self.texture_inputs@,
            r.viewport_size == self.viewport_size,
    {
        let mut s = self;
        s.colour_attachments.push(attachment);
        s
    }

    /// Sets the depth attachment.
    pub fn set_depth_attachment(self, attachment: AttachmentInfo<C>) -> (r: Self)
        ensures
            r.colour_attachments@ == self.colour_attachments@,
            r.depth_attachment == Some(attachment),
            r.texture_inputs@ == self.texture_inputs@,
            r.viewport_size == self.viewport_size,
    {
        let mut s = self;
        s.depth_attachment = Some(attachment);
        s
    }

    /// Adds an image that the pass samples.
    pub fn set_texture_input(self, handle: ImageHandle) -> (r: Self)
        ensures
            r.colour_attachments@ == self.colour_attachments@,
            r.depth_attachment == self.depth_attachment,
            r.texture_inputs@ == self.texture_inputs@.push(handle),
            r.viewport_size == self.viewport_size,
    {
        let mut s = self;
        s.texture_inputs.push(handle);
        s
    }

    /// Decides what starting the pass records, and updates the frame's usage
    /// tracker as the pass leaves it: colour attachments first (load
    /// operation, then a barrier to colour use), then the depth barrier, then
    /// the sampled inputs, and last the depth load operation, after which the
    /// depth image is recorded as in depth use.
    pub fn plan(&self, tracker: &mut ImageUsageTracker) -> (r: PassPlan)
        requires
            old(tracker).wf(),
        ensures
            final(tracker).wf(),
            r.width == self.viewport_size.0,
            r.height == self.viewport_size.1,
            r.flip_viewport == (self.colour_attachments@.len() > 0
                && self.colour_attachments@[0].target == AttachmentHandle::SwapchainImage),
            ({
                let s1 = colour_plan((old(tracker).view(), Seq::empty(), Seq::empty()), self.colour_targets());
                let s2 = depth_barrier(s1, self.depth_target());
                let s3 = input_plan(s2, self.texture_inputs@);
                &&& r.colour_load_ops@ == s1.1
                &&& r.barriers@ == s3.2
                &&& match self.depth_target() {
                    Some(d) => {
                        &&& r.depth_load_op == Some(crate::vkflags::load_op_for(crate::usage_tracker::last_or_empty(s3.0, d)))
                        &&& final(tracker).view() == s3.0.insert(d, USAGE_DEPTH_STENCIL_ATTACHMENT)
                    },
                    None => {
                        &&& r.depth_load_op is None
                        &&& final(tracker).view() == s3.0
                    },
                }
            }),
    {
        let flip_viewport = if self.colour_attachments.len() > 0 {
            match self.colour_attachments[0].target {
                AttachmentHandle::SwapchainImage => true,
                AttachmentHandle::Image(_) => false,
            }
        } else {
            false
        };
        let ghost st0: PlanState = (tracker.view(), Seq::empty(), Seq::empty());
        let mut colour_load_ops: Vec<i32> = Vec::new();
        let mut barriers: Vec<ImageBarrier> = Vec::new();
        let n = self.colour_attachments.len();
        let mut i: usize = 0;
        while i < n
            invariant
                n == self.colour_attachments.len(),
                i <= n,
                tracker.wf(),
                colour_plan(st0, self.colour_targets().take(i as int))
                    == (tracker.view(), colour_load_ops@, barriers@),
            decreases n - i,
        {
            let target = self.colour_attachments[i].target;
            proof {
                assert(self.colour_targets().take(i as int + 1).drop_last()
                    =~= self.colour_targets().take(i as int));
            }
            let last_usage = match tracker.get_last_usage(target) {
                Some(u) => u,
                None => USAGE_EMPTY,
            };
            colour_load_ops.push(attachment_load_op(last_usage));
            if last_usage != USAGE_COLOR_ATTACHMENT {
                tracker.set_last_usage(target, USAGE_COLOR_ATTACHMENT);
                let barrier = ImageBarrier::new(target).old_usage(last_usage).new_usage(
                    USAGE_COLOR_ATTACHMENT,
                );
                barriers.push(barrier);
            }
            i = i + 1;
        }
        proof {
            assert(self.colour_targets().take(n as int) =~= self.colour_targets());
        }
        let ghost s1: PlanState = (tracker.view(), colour_load_ops@, barriers@);
        match self.depth_attachment {
            Some(attachment) => {
                let last_usage = match tracker.get_last_usage(attachment.target) {
                    Some(u) => u,
                    None => USAGE_EMPTY,
                };
                if last_usage != USAGE_DEPTH_STENCIL_ATTACHMENT {
                    let barrier = ImageBarrier::new(attachment.target).old_usage(
                        last_usage,
                    ).new_usage(USAGE_DEPTH_STENCIL_ATTACHMENT);
                    barriers.push(barrier);
                }
            },
            None => {},
        }
        let ghost s2: PlanState = (tracker.view(), colour_load_ops@, barriers@);
        assert(s2 == depth_barrier(s1, self.depth_target()));
        let ghost base_loads = colour_load_ops@;
        let m = self.texture_inputs.len();
        let mut k: usize = 0;
        while k < m
            invariant
                m == self.texture_inputs.len(),
                k <= m,
                tracker.wf(),
                colour_load_ops@ == base_loads,
                input_plan(s2, self.texture_inputs@.take(k as int))
                    == (tracker.view(), colour_load_ops@, barriers@),
            decreases m - k,
        {
            let handle = self.texture_inputs[k];
            proof {
                assert(self.texture_inputs@.take(k as int + 1).drop_last()
                    =~= self.texture_inputs@.take(k as int));
            }
            let target = AttachmentHandle::Image(handle);
            let last_usage = match tracker.get_last_usage(target) {
                Some(u) => u,
                None => USAGE_EMPTY,
            };
            if last_usage != USAGE_SAMPLED {
                tracker.set_last_usage(target, USAGE_SAMPLED);
                let barrier = ImageBarrier::new(target).old_usage(last_usage).new_usage(
                    USAGE_SAMPLED,
                );
                barriers.push(barrier);
            }
            k = k + 1;
        }
        proof {
            assert(self.texture_inputs@.take(m as int) =~= self.texture_inputs@);
        }
        let depth_load_op = match self.depth_attachment {
            Some(attachment) => {
                let last_usage = match tracker.get_last_usage(attachment.target) {
                    Some(u) => u,
                    None => USAGE_EMPTY,
                };
                let op = attachment_load_op(last_usage);
                tracker.set_last_usage(attachment.target, USAGE_DEPTH_STENCIL_ATTACHMENT);
                Some(op)
            },
            None => None,
        };
        PassPlan {
            flip_viewport,
            width: self.viewport_size.0,
            height: self.viewport_size.1,
            colour_load_ops,
            depth_load_op,
            barriers,
        }
    }
}

} // verus!
