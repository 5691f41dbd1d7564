//! What running a baked render graph does to the layouts of its textures:
//! when the passes run in order, each after its barriers, every texture a
//! pass uses is in the layout that use needs.
use vstd::prelude::*;
use crate::barrier::{AttachmentHandle, ImageBarrier};
use crate::handles::{ImageHandle, VirtualRenderPassHandle, VirtualTextureResourceHandle};
use crate::rendergraph::{
    attachment_barrier, attachments_barriers, input_barrier, inputs_barriers, last_input_use, last_rw,
    pass_barriers, renders_to, samples, uses_recorded, LastUsage, VirtualRenderPass, VirtualResource,
    VirtualTextureResource,
};
use crate::vkflags::{
    LAYOUT_ATTACHMENT_OPTIMAL, LAYOUT_SHADER_READ_ONLY_OPTIMAL, LAYOUT_UNDEFINED, USAGE_COLOR_ATTACHMENT,
    USAGE_DEPTH_STENCIL_ATTACHMENT, USAGE_EMPTY, USAGE_SAMPLED,
};

verus! {

/// The layout `img` is in after the barriers `bs` ran, starting from
/// `init`: the new layout of the last barrier on it.
pub open spec fn final_layout(bs: Seq<ImageBarrier>, img: AttachmentHandle, init: i32) -> i32
    decreases bs.len(),
{
    if bs.len() == 0 {
        init
    } else if bs.last().image == img {
        bs.last().new_layout
    } else {
        final_layout(bs.drop_last(), img, init)
    }
}

/// The barriers of the first `i` passes of `order`, in the order they run.
pub open spec fn frame_barriers(
    passes: Map<u64, VirtualRenderPass>,
    res: Map<u64, VirtualTextureResource>,
    images: Map<u64, ImageHandle>,
    order: Seq<VirtualRenderPassHandle>,
    i: int,
) -> Seq<ImageBarrier>
    decreases i,
{
    if i <= 0 {
        Seq::empty()
    } else {
        frame_barriers(passes, res, images, order, i - 1) + pass_barriers(passes, res, images, order, i - 1)
    }
}

/// The layout that the last of the first `i` passes to use `t` left it
/// in: attachment layout if it rendered to it, shader-read layout if it
/// sampled it, undefined if no pass used it yet.
pub open spec fn prev_layout(
    passes: Map<u64, VirtualRenderPass>,
    order: Seq<VirtualRenderPassHandle>,
    i: int,
    t: VirtualTextureResourceHandle,
) -> i32
    decreases i,
{
    if i <= 0 {
        LAYOUT_UNDEFINED
    } else {
        let p = passes[order[i - 1].key];
        if renders_to(p, t) {
            LAYOUT_ATTACHMENT_OPTIMAL
        } else if samples(p, t) {
            LAYOUT_SHADER_READ_ONLY_OPTIMAL
        } else {
            prev_layout(passes, order, i - 1, t)
        }
    }
}

proof fn lemma_final_layout_concat(a: Seq<ImageBarrier>, b: Seq<ImageBarrier>, img: AttachmentHandle, init: i32)
    ensures
        final_layout(a + b, img, init) == final_layout(b, img, final_layout(a, img, init)),
    decreases b.len(),
{
    if b.len() > 0 {
        assert((a + b).drop_last() =~= a + b.drop_last());
        assert((a + b).last() == b.last());
        lemma_final_layout_concat(a, b.drop_last(), img, init);
    } else {
        assert(a + b =~= a);
    }
}

/// Distinct textures have distinct images.
pub open spec fn images_distinct(images: Map<u64, ImageHandle>) -> bool {
    forall|k1: u64, k2: u64|
        #![trigger images[k1], images[k2]]
        images.contains_key(k1) && images.contains_key(k2) && images[k1] == images[k2] ==> k1 == k2
}

/// The layout a use of a texture with usage `usage` leaves it in.
proof fn lemma_usage_layouts()
    ensures
        crate::vkflags::layout_for_usage(USAGE_COLOR_ATTACHMENT) == LAYOUT_ATTACHMENT_OPTIMAL,
        crate::vkflags::layout_for_usage(USAGE_DEPTH_STENCIL_ATTACHMENT) == LAYOUT_ATTACHMENT_OPTIMAL,
        crate::vkflags::layout_for_usage(USAGE_SAMPLED) == LAYOUT_SHADER_READ_ONLY_OPTIMAL,
        crate::vkflags::layout_for_usage(USAGE_EMPTY) == LAYOUT_UNDEFINED,
{
}

proof fn lemma_attachments_final(
    cs: Seq<VirtualTextureResourceHandle>,
    res: Map<u64, VirtualTextureResource>,
    images: Map<u64, ImageHandle>,
    order: Seq<VirtualRenderPassHandle>,
    i: int,
    usage: u32,
    t: VirtualTextureResourceHandle,
    x: i32,
)
    requires
        images_distinct(images),
        images.contains_key(t.key),
        forall|j: int| 0 <= j < cs.len() ==> images.contains_key(#[trigger] cs[j].key),
    ensures
        final_layout(attachments_barriers(cs, res, images, order, i, usage), AttachmentHandle::Image(images[t.key]), x)
            == (if cs.contains(t) && last_rw(res[t.key].read_passes(), res[t.key].write_passes(), order, i) != LastUsage::Write {
                crate::vkflags::layout_for_usage(usage)
            } else {
                x
            }),
    decreases cs.len(),
{
    let img = AttachmentHandle::Image(images[t.key]);
    if cs.len() > 0 {
        let prefix = cs.drop_last();
        let c = cs.last();
        assert forall|j: int| 0 <= j < prefix.len() implies images.contains_key(#[trigger] prefix[j].key) by {
            assert(prefix[j] == cs[j]);
        }
        lemma_attachments_final(prefix, res, images, order, i, usage, t, x);
        let front = attachments_barriers(prefix, res, images, order, i, usage);
        let tail = attachment_barrier(
            last_rw(res[c.key].read_passes(), res[c.key].write_passes(), order, i),
            images[c.key],
            usage,
        );
        assert(attachments_barriers(cs, res, images, order, i, usage) == front + tail);
        lemma_final_layout_concat(front, tail, img, x);
        let y = final_layout(front, img, x);
        assert(images.contains_key(c.key)) by {
            assert(cs[cs.len() - 1] == c);
        }
        assert(cs.contains(t) == (prefix.contains(t) || c == t)) by {
            if cs.contains(t) && c != t {
                let j = choose|j: int| 0 <= j < cs.len() && cs[j] == t;
                assert(j != cs.len() - 1);
                assert(prefix[j] == t);
            }
            if prefix.contains(t) {
                let j = choose|j: int| 0 <= j < prefix.len() && prefix[j] == t;
                assert(cs[j] == t);
            }
            if c == t {
                assert(cs[cs.len() - 1] == t);
            }
        }
        if c == t {
            match last_rw(res[c.key].read_passes(), res[c.key].write_passes(), order, i) {
                LastUsage::Write => {
                    assert(tail.len() == 0);
                    assert(final_layout(tail, img, y) == y);
                },
                _ => {
                    assert(tail.len() == 1);
                    assert(tail.drop_last().len() == 0);
                    assert(tail.last().image == img);
                },
            }
        } else {
            assert(images[c.key] != images[t.key]);
            if tail.len() == 1 {
                assert(tail.last().image != img);
                assert(tail.drop_last() =~= Seq::<ImageBarrier>::empty());
                assert(final_layout(tail, img, y) == final_layout(tail.drop_last(), img, y));
            }
            assert(final_layout(tail, img, y) == y);
        }
    }
}

proof fn lemma_inputs_final(
    ts: Seq<VirtualTextureResourceHandle>,
    passes: Map<u64, VirtualRenderPass>,
    images: Map<u64, ImageHandle>,
    order: Seq<VirtualRenderPassHandle>,
    i: int,
    t: VirtualTextureResourceHandle,
    x: i32,
)
    requires
        images_distinct(images),
        images.contains_key(t.key),
        forall|j: int| 0 <= j < ts.len() ==> images.contains_key(#[trigger] ts[j].key),
    ensures
        final_layout(inputs_barriers(ts, passes, images, order, i), AttachmentHandle::Image(images[t.key]), x)
            == (if ts.contains(t) && last_input_use(passes, order, i, t).0 != LastUsage::Read {
                LAYOUT_SHADER_READ_ONLY_OPTIMAL
            } else {
                x
            }),
    decreases ts.len(),
{
    let img = AttachmentHandle::Image(images[t.key]);
    if ts.len() > 0 {
        let prefix = ts.drop_last();
        let c = ts.last();
        assert forall|j: int| 0 <= j < prefix.len() implies images.contains_key(#[trigger] prefix[j].key) by {
            assert(prefix[j] == ts[j]);
        }
        lemma_inputs_final(prefix, passes, images, order, i, t, x);
        let front = inputs_barriers(prefix, passes, images, order, i);
        let tail = input_barrier(last_input_use(passes, order, i, c), images[c.key]);
        assert(inputs_barriers(ts, passes, images, order, i) == front + tail);
        lemma_final_layout_concat(front, tail, img, x);
        let y = final_layout(front, img, x);
        assert(images.contains_key(c.key)) by {
            assert(ts[ts.len() - 1] == c);
        }
        assert(ts.contains(t) == (prefix.contains(t) || c == t)) by {
            if ts.contains(t) && c != t {
                let j = choose|j: int| 0 <= j < ts.len() && ts[j] == t;
                assert(j != ts.len() - 1);
                assert(prefix[j] == t);
            }
            if prefix.contains(t) {
                let j = choose|j: int| 0 <= j < prefix.len() && prefix[j] == t;
                assert(ts[j] == t);
            }
            if c == t {
                assert(ts[ts.len() - 1] == t);
            }
        }
        lemma_usage_layouts();
        if c == t {
            match last_input_use(passes, order, i, c).0 {
                LastUsage::Read => {
                    assert(tail.len() == 0);
                    assert(final_layout(tail, img, y) == y);
                },
                _ => {
                    assert(tail.len() == 1);
                    assert(tail.drop_last().len() == 0);
                    assert(tail.last().image == img);
                },
            }
        } else {
            assert(images[c.key] != images[t.key]);
            if tail.len() == 1 {
                assert(tail.last().image != img);
                assert(tail.drop_last() =~= Seq::<ImageBarrier>::empty());
                assert(final_layout(tail, img, y) == final_layout(tail.drop_last(), img, y));
            }
            assert(final_layout(tail, img, y) == y);
        }
    }
}

proof fn lemma_pass_final(
    passes: Map<u64, VirtualRenderPass>,
    res: Map<u64, VirtualTextureResource>,
    images: Map<u64, ImageHandle>,
    order: Seq<VirtualRenderPassHandle>,
    i: int,
    t: VirtualTextureResourceHandle,
    x: i32,
)
    requires
        images_distinct(images),
        images.contains_key(t.key),
        crate::rendergraph::refs_have_images(passes[order[i].key], images),
    ensures
        ({
            let p = passes[order[i].key];
            let lr = last_rw(res[t.key].read_passes(), res[t.key].write_passes(), order, i);
            let after_attachments = if renders_to(p, t) && lr != LastUsage::Write { LAYOUT_ATTACHMENT_OPTIMAL } else { x };
            final_layout(pass_barriers(passes, res, images, order, i), AttachmentHandle::Image(images[t.key]), x)
                == if samples(p, t) && last_input_use(passes, order, i, t).0 != LastUsage::Read {
                    LAYOUT_SHADER_READ_ONLY_OPTIMAL
                } else {
                    after_attachments
                }
        }),
{
    let p = passes[order[i].key];
    let img = AttachmentHandle::Image(images[t.key]);
    let lr = last_rw(res[t.key].read_passes(), res[t.key].write_passes(), order, i);
    lemma_usage_layouts();
    let a = attachments_barriers(p.color_attachments@, res, images, order, i, USAGE_COLOR_ATTACHMENT);
    let d = match p.depth_attachment {
        Some(dh) => attachments_barriers(seq![dh], res, images, order, i, USAGE_DEPTH_STENCIL_ATTACHMENT),
        None => Seq::empty(),
    };
    let b = inputs_barriers(p.texture_inputs@, passes, images, order, i);
    assert(pass_barriers(passes, res, images, order, i) == a + d + b);
    lemma_attachments_final(p.color_attachments@, res, images, order, i, USAGE_COLOR_ATTACHMENT, t, x);
    let ya = final_layout(a, img, x);
    let yd = final_layout(d, img, ya);
    match p.depth_attachment {
        Some(dh) => {
            assert(images.contains_key(seq![dh][0].key));
            lemma_attachments_final(seq![dh], res, images, order, i, USAGE_DEPTH_STENCIL_ATTACHMENT, t, ya);
            assert(seq![dh].contains(t) == (dh == t)) by {
                if dh == t {
                    assert(seq![dh][0] == t);
                }
            }
        },
        None => {},
    }
    lemma_final_layout_concat(a, d, img, x);
    lemma_inputs_final(p.texture_inputs@, passes, images, order, i, t, yd);
    lemma_final_layout_concat(a + d, b, img, x);
}

/// The last use of `t` among the first `i` passes, as judged by the passes'
/// attachments, leaves it in the layout `prev_layout` gives.
proof fn lemma_input_use_layout(
    passes: Map<u64, VirtualRenderPass>,
    order: Seq<VirtualRenderPassHandle>,
    i: int,
    t: VirtualTextureResourceHandle,
)
    ensures
        (last_input_use(passes, order, i, t).0 == LastUsage::Write) == (prev_layout(passes, order, i, t) == LAYOUT_ATTACHMENT_OPTIMAL),
        (last_input_use(passes, order, i, t).0 == LastUsage::Read) == (prev_layout(passes, order, i, t) == LAYOUT_SHADER_READ_ONLY_OPTIMAL),
    decreases i,
{
    if i > 0 {
        lemma_input_use_layout(passes, order, i - 1, t);
    }
}

/// When the textures record the passes that use them, the last operation
/// the first `i` passes made on `t` is the same whether read from the
/// texture's records or from the passes' attachments.
proof fn lemma_rw_matches_use(
    passes: Map<u64, VirtualRenderPass>,
    res: Map<u64, VirtualTextureResource>,
    order: Seq<VirtualRenderPassHandle>,
    i: int,
    t: VirtualTextureResourceHandle,
)
    requires
        i <= order.len(),
        res.contains_key(t.key),
        uses_recorded(passes, res, order),
    ensures
        last_rw(res[t.key].read_passes(), res[t.key].write_passes(), order, i) == last_input_use(passes, order, i, t).0,
    decreases i,
{
    if i > 0 {
        lemma_rw_matches_use(passes, res, order, i - 1, t);
        assert(res[t.key].write_passes().contains(order[i - 1]) == renders_to(passes[order[i - 1].key], t));
        assert(res[t.key].read_passes().contains(order[i - 1]) == samples(passes[order[i - 1].key], t));
    }
}

/// Whether no pass of `order` both renders to and samples one texture.
pub open spec fn no_feedback(passes: Map<u64, VirtualRenderPass>, order: Seq<VirtualRenderPassHandle>) -> bool {
    forall|j: int, c: VirtualTextureResourceHandle|
        0 <= j < order.len() ==> !(#[trigger] renders_to(passes[order[j].key], c) && samples(passes[order[j].key], c))
}

/// Law: run the baked passes in order, each after its barriers. Then after
/// the first `i` passes every texture is in the layout its last use left
/// it in (undefined before any use), provided the textures record the
/// passes that use them (as in every graph whose passes were declared
/// under distinct names), no pass samples a texture it renders to, and
/// distinct textures have distinct images.
pub proof fn lemma_graph_layouts(
    passes: Map<u64, VirtualRenderPass>,
    res: Map<u64, VirtualTextureResource>,
    images: Map<u64, ImageHandle>,
    order: Seq<VirtualRenderPassHandle>,
    i: int,
    t: VirtualTextureResourceHandle,
)
    requires
        0 <= i <= order.len(),
        crate::rendergraph::images_cover(passes, order, images),
        images_distinct(images),
        images.contains_key(t.key),
        res.contains_key(t.key),
        uses_recorded(passes, res, order),
        no_feedback(passes, order),
    ensures
        final_layout(frame_barriers(passes, res, images, order, i), AttachmentHandle::Image(images[t.key]), LAYOUT_UNDEFINED)
            == prev_layout(passes, order, i, t),
    decreases i,
{
    if i > 0 {
        let img = AttachmentHandle::Image(images[t.key]);
        lemma_graph_layouts(passes, res, images, order, i - 1, t);
        let prev = prev_layout(passes, order, i - 1, t);
        lemma_final_layout_concat(
            frame_barriers(passes, res, images, order, i - 1),
            pass_barriers(passes, res, images, order, i - 1),
            img,
            LAYOUT_UNDEFINED,
        );
        assert(crate::rendergraph::refs_have_images(passes[order[i - 1].key], images));
        lemma_pass_final(passes, res, images, order, i - 1, t, prev);
        lemma_rw_matches_use(passes, res, order, i - 1, t);
        lemma_input_use_layout(passes, order, i - 1, t);
        let p = passes[order[i - 1].key];
        assert(!(renders_to(p, t) && samples(p, t)));
    }
}

/// Law: run the baked passes in order, each after its barriers. Then each
/// pass finds every texture it renders to in the attachment layout and
/// every texture it samples in the shader-read layout, under the same
/// conditions on the graph as `lemma_graph_layouts`.
pub proof fn lemma_pass_sees_needed_layouts(
    passes: Map<u64, VirtualRenderPass>,
    res: Map<u64, VirtualTextureResource>,
    images: Map<u64, ImageHandle>,
    order: Seq<VirtualRenderPassHandle>,
    i: int,
    t: VirtualTextureResourceHandle,
)
    requires
        0 <= i < order.len(),
        crate::rendergraph::images_cover(passes, order, images),
        images_distinct(images),
        images.contains_key(t.key),
        res.contains_key(t.key),
        uses_recorded(passes, res, order),
        no_feedback(passes, order),
    ensures
        renders_to(passes[order[i].key], t) ==> final_layout(
            frame_barriers(passes, res, images, order, i + 1),
            AttachmentHandle::Image(images[t.key]),
            LAYOUT_UNDEFINED,
        ) == LAYOUT_ATTACHMENT_OPTIMAL,
        samples(passes[order[i].key], t) ==> final_layout(
            frame_barriers(passes, res, images, order, i + 1),
            AttachmentHandle::Image(images[t.key]),
            LAYOUT_UNDEFINED,
        ) == LAYOUT_SHADER_READ_ONLY_OPTIMAL,
{
    lemma_graph_layouts(passes, res, images, order, i + 1, t);
}

} // verus!
