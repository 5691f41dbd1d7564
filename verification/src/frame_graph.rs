//! The renderer's frame graph: the passes of a deferred frame, declared in
//! order under distinct names.
use vstd::prelude::*;
use crate::handles::VirtualRenderPassHandle;
use crate::handles::VirtualTextureResourceHandle;
use crate::rendergraph::{
    apply_touches, base_model, colour_names, handles_for, input_names, layout_touches, lemma_render_list_wf,
    names_touch, records_declared, resource_model, touch_name_seq, touches_of, uses_recorded, AttachmentInfo,
    RenderList, RenderPassLayout, ResourceModel, SizeClass, Touch, VirtualResource, renders_to, samples,
};
use crate::vkflags::{
    FORMAT_D32_SFLOAT, FORMAT_R16G16B16A16_SFLOAT, FORMAT_R32G32B32A32_SFLOAT, FORMAT_R8G8B8A8_SRGB,
    FORMAT_R8G8B8A8_UNORM,
};

verus! {

/// The format of the G-buffer's emissive target.
pub const DEFERRED_POSITION_FORMAT: i32 = FORMAT_R16G16B16A16_SFLOAT;
/// The format of the G-buffer's normal target.
pub const DEFERRED_NORMAL_FORMAT: i32 = FORMAT_R32G32B32A32_SFLOAT;
/// The format of the G-buffer's colour target.
pub const DEFERRED_COLOR_FORMAT: i32 = FORMAT_R8G8B8A8_UNORM;
/// The format of the lit, bloomed and final images.
pub const RENDER_IMAGE_FORMAT: i32 = FORMAT_R8G8B8A8_SRGB;

/// The frame graph and the handle of each of its passes.
pub struct FrameGraph {
    pub list: RenderList,
    pub shadow: VirtualRenderPassHandle,
    pub gbuffer: VirtualRenderPassHandle,
    pub deferred_lighting: VirtualRenderPassHandle,
    pub bloom_initial: VirtualRenderPassHandle,
    pub bloom_horizontal: VirtualRenderPassHandle,
    pub bloom_vertical: VirtualRenderPassHandle,
    pub combine: VirtualRenderPassHandle,
    pub ui: VirtualRenderPassHandle,
}

impl FrameGraph {
    /// The size and format of the texture named `name`.
    pub open spec fn texture_info(&self, name: Seq<char>) -> AttachmentInfo {
        self.list.resources()[self.list.resource_names()[name]].info()
    }

    /// The passes in the order they run.
    pub open spec fn pass_order(&self) -> Seq<VirtualRenderPassHandle> {
        seq![
            self.shadow,
            self.gbuffer,
            self.deferred_lighting,
            self.bloom_initial,
            self.bloom_horizontal,
            self.bloom_vertical,
            self.combine,
            self.ui,
        ]
    }
}

/// A texture the size of the swapchain.
fn info(format: i32) -> (r: AttachmentInfo)
    ensures
        r == (AttachmentInfo { size: SizeClass::SwapchainRelative, format }),
{
    AttachmentInfo { size: SizeClass::SwapchainRelative, format }
}

/// What a pass added under a new name keeps of the graph before it: it
/// takes a handle not in use, leaves the other passes as they were, and
/// keeps every texture name on its texture.
spec fn keeps(a: RenderList, b: RenderList, h: VirtualRenderPassHandle) -> bool {
    &&& !a.passes().contains_key(h.key)
    &&& b.passes().dom() == a.passes().dom().insert(h.key)
    &&& forall|k: u64| k != h.key && a.passes().contains_key(k) ==> #[trigger] b.passes()[k] == a.passes()[k]
    &&& forall|n: Seq<char>| #[trigger] a.resource_names().contains_key(n)
        ==> b.resource_names().contains_key(n) && b.resource_names()[n] == a.resource_names()[n]
}

/// Over a run of passes added under new names, the pass added at step `i`
/// and the texture names known after it are kept to the end of the run.
proof fn lemma_kept_to_end(states: Seq<RenderList>, hs: Seq<VirtualRenderPassHandle>, i: int, j: int)
    requires
        states.len() == hs.len() + 1,
        forall|t: int| 0 <= t < hs.len() ==> #[trigger] keeps(states[t], states[t + 1], hs[t]),
        0 <= i < j <= hs.len(),
    ensures
        states[j].passes().contains_key(hs[i].key),
        states[j].passes()[hs[i].key] == states[i + 1].passes()[hs[i].key],
        forall|n: Seq<char>| #[trigger] states[i + 1].resource_names().contains_key(n)
            ==> states[j].resource_names().contains_key(n) && states[j].resource_names()[n] == states[i + 1].resource_names()[n],
    decreases j - i,
{
    assert(keeps(states[i], states[i + 1], hs[i]));
    if j > i + 1 {
        lemma_kept_to_end(states, hs, i, j - 1);
        let t = j - 1;
        assert(keeps(states[t], states[t + 1], hs[t]));
        assert(t + 1 == j);
    }
}

/// The size and format of the texture named `n` after the touches `ts`,
/// from `start`: the last touch of `n` that sets them decides.
pub open spec fn info_after(start: AttachmentInfo, ts: Seq<Touch>, n: Seq<char>) -> AttachmentInfo
    decreases ts.len(),
{
    if ts.len() == 0 {
        start
    } else {
        let prev = info_after(start, ts.drop_last(), n);
        if ts.last().0 == n {
            match ts.last().3 {
                Some(i) => i,
                None => prev,
            }
        } else {
            prev
        }
    }
}

/// A texture the size of the swapchain, in `format`.
pub open spec fn swapchain_sized(format: i32) -> AttachmentInfo {
    AttachmentInfo { size: SizeClass::SwapchainRelative, format }
}

/// The size and format a texture has when it is declared.
pub open spec fn fresh_info() -> AttachmentInfo {
    AttachmentInfo { size: SizeClass::SwapchainRelative, format: crate::vkflags::FORMAT_UNDEFINED }
}

/// Touches that set nothing on `n` leave its size and format as they were.
proof fn lemma_info_keep(start: AttachmentInfo, ts: Seq<Touch>, n: Seq<char>)
    requires
        forall|j: int| 0 <= j < ts.len() && (#[trigger] ts[j]).0 == n ==> ts[j].3 is None,
    ensures
        info_after(start, ts, n) == start,
    decreases ts.len(),
{
    if ts.len() > 0 {
        let p = ts.drop_last();
        assert forall|j: int| 0 <= j < p.len() && (#[trigger] p[j]).0 == n implies p[j].3 is None by {
            assert(p[j] == ts[j]);
        }
        lemma_info_keep(start, p, n);
        assert(ts.last() == ts[ts.len() - 1]);
    }
}

/// Touches that set `n` to `i`, and to nothing else, leave it at `i`.
proof fn lemma_info_set(start: AttachmentInfo, ts: Seq<Touch>, n: Seq<char>, i: AttachmentInfo, k: int)
    requires
        forall|j: int| 0 <= j < ts.len() && (#[trigger] ts[j]).0 == n && ts[j].3 is Some ==> ts[j].3 == Some(i),
        0 <= k < ts.len(),
        ts[k].0 == n,
        ts[k].3 == Some(i),
    ensures
        info_after(start, ts, n) == i,
    decreases ts.len(),
{
    let p = ts.drop_last();
    assert(ts.last() == ts[ts.len() - 1]);
    assert forall|j: int| 0 <= j < p.len() && (#[trigger] p[j]).0 == n && p[j].3 is Some implies p[j].3 == Some(i) by {
        assert(p[j] == ts[j]);
    }
    if k < ts.len() - 1 {
        assert(p[k] == ts[k]);
        lemma_info_set(start, p, n, i, k);
    }
}

proof fn lemma_info_after(m: ResourceModel, ts: Seq<Touch>, n: Seq<char>, h: VirtualRenderPassHandle)
    ensures
        apply_touches(m, touches_of(ts, n), h).3 == info_after(m.3, ts, n),
    decreases ts.len(),
{
    if ts.len() > 0 {
        let p = ts.drop_last();
        let t = ts.last();
        lemma_info_after(m, p, n, h);
        assert(ts =~= p.push(t));
        p.lemma_filter_push(t, names_touch(n));
        if t.0 == n {
            let f = touches_of(p, n).push(t);
            assert(f.drop_last() =~= touches_of(p, n));
        }
    }
}

/// Adds a pass under a name the graph does not hold yet.
fn add_new_pass(list: &mut RenderList, name: &str, layout: RenderPassLayout) -> (r: VirtualRenderPassHandle)
    requires
        old(list).wf(),
        !old(list).pass_names().contains_key(name@),
        old(list).passes().len() < 100,
        old(list).resources().len() < 1000,
        layout_touches(layout).len() < 100,
        uses_recorded(old(list).passes(), old(list).resources(), old(list).order()),
        records_declared(old(list).passes(), old(list).resources()),
    ensures
        final(list).wf(),
        !old(list).passes().contains_key(r.key),
        final(list).pass_names() == old(list).pass_names().insert(name@, r.key),
        final(list).passes().len() == old(list).passes().len() + 1,
        final(list).passes().dom() == old(list).passes().dom().insert(r.key),
        final(list).resources().len() <= old(list).resources().len() + layout_touches(layout).len(),
        final(list).order() == old(list).order().push(r),
        uses_recorded(final(list).passes(), final(list).resources(), final(list).order()),
        records_declared(final(list).passes(), final(list).resources()),
        final(list).images() == old(list).images(),
        final(list).physical() == old(list).physical(),
        final(list).swapchain() == old(list).swapchain(),
        final(list).passes()[r.key].color_attachments@ == handles_for(final(list).resource_names(), colour_names(layout)),
        final(list).passes()[r.key].depth_attachment == (match layout.depth_attachment {
            Some(d) => Some(VirtualTextureResourceHandle { key: final(list).resource_names()[d.0@] }),
            None => None,
        }),
        final(list).passes()[r.key].texture_inputs@ == handles_for(final(list).resource_names(), input_names(layout)),
        forall|k: u64| k != r.key && old(list).passes().contains_key(k)
            ==> #[trigger] final(list).passes()[k] == old(list).passes()[k],
        forall|n: Seq<char>| #[trigger] old(list).resource_names().contains_key(n)
            ==> final(list).resource_names().contains_key(n) && final(list).resource_names()[n] == old(list).resource_names()[n],
        forall|n: Seq<char>| #[trigger] final(list).resource_names().contains_key(n)
            <==> (old(list).resource_names().contains_key(n) || touch_name_seq(layout_touches(layout)).contains(n)),
        forall|j: int| 0 <= j < colour_names(layout).len() ==> final(list).resource_names().contains_key(#[trigger] colour_names(layout)[j]),
        forall|j: int| 0 <= j < input_names(layout).len() ==> final(list).resource_names().contains_key(#[trigger] input_names(layout)[j]),
        layout.depth_attachment matches Some(d) ==> final(list).resource_names().contains_key(d.0@),
        forall|n: Seq<char>| #[trigger] final(list).resource_names().contains_key(n)
            ==> final(list).resources()[final(list).resource_names()[n]].info() == info_after(
                if old(list).resource_names().contains_key(n) {
                    old(list).resources()[old(list).resource_names()[n]].info()
                } else {
                    fresh_info()
                },
                layout_touches(layout),
                n,
            ),
{
    proof {
        lemma_render_list_wf(*old(list));
    }
    let ghost gl = layout;
    let r = list.add_pass(name, layout);
    proof {
        assert(list.passes().dom() == old(list).passes().dom().insert(r.key));
        let ts = layout_touches(gl);
        let nc: int = gl.color_attachments@.len() as int;
        let nd: int = if gl.depth_attachment is Some { 1 } else { 0 };
        assert forall|j: int| 0 <= j < colour_names(gl).len() implies list.resource_names().contains_key(#[trigger] colour_names(gl)[j]) by {
            assert(touch_name_seq(ts)[j] == colour_names(gl)[j]);
        }
        assert forall|j: int| 0 <= j < input_names(gl).len() implies list.resource_names().contains_key(#[trigger] input_names(gl)[j]) by {
            assert(touch_name_seq(ts)[nc + nd + j] == input_names(gl)[j]);
        }
        if let Some(d) = gl.depth_attachment {
            assert(touch_name_seq(ts)[nc] == d.0@);
        }
        lemma_render_list_wf(*list);
        assert forall|n: Seq<char>| #[trigger] list.resource_names().contains_key(n)
            implies list.resources()[list.resource_names()[n]].info() == info_after(
                if old(list).resource_names().contains_key(n) {
                    old(list).resources()[old(list).resource_names()[n]].info()
                } else {
                    fresh_info()
                },
                ts,
                n,
            ) by {
            let k = list.resource_names()[n];
            assert(list.resources().contains_key(k));
            assert(list.resources()[k].resource_name() == n);
            lemma_info_after(base_model(old(list).resources(), k), ts, n, r);
            if old(list).resource_names().contains_key(n) {
                assert(old(list).resources().contains_key(old(list).resource_names()[n]));
            } else if old(list).resources().contains_key(k) {
                let n2 = choose|n2: Seq<char>| #[trigger] old(list).resource_names().contains_key(n2) && old(list).resource_names()[n2] == k;
                assert(list.resource_names().contains_key(n2));
            }
        }
    }
    r
}

/// Declares the passes of a frame for a swapchain of the given size:
/// shadow, G-buffer, deferred lighting, the bloom ping-pong, combine and
/// UI, in that order, each under its own name, each rendering to and
/// sampling the textures named below.
pub fn declare(swapchain_size: (u32, u32)) -> (r: FrameGraph)
    ensures
        r.list.wf(),
        r.list.swapchain() == swapchain_size,
        r.list.order() == r.pass_order(),
        r.list.passes().len() == 8,
        forall|i: int, j: int| 0 <= i < j < 8 ==> r.pass_order()[i] != r.pass_order()[j],
        r.list.pass_names()["shadow"@] == r.shadow.key,
        r.list.pass_names()["gbuffer"@] == r.gbuffer.key,
        r.list.pass_names()["deferred"@] == r.deferred_lighting.key,
        r.list.pass_names()["bloom_initial_pass"@] == r.bloom_initial.key,
        r.list.pass_names()["bloom_horizontal_pass"@] == r.bloom_horizontal.key,
        r.list.pass_names()["bloom_vertical_pass"@] == r.bloom_vertical.key,
        r.list.pass_names()["combine"@] == r.combine.key,
        r.list.pass_names()["ui"@] == r.ui.key,
        r.list.passes()[r.shadow.key].color_attachments@ == handles_for(r.list.resource_names(), Seq::<Seq<char>>::empty()),
        r.list.passes()[r.shadow.key].depth_attachment == Some(VirtualTextureResourceHandle { key: r.list.resource_names()["scene_shadow"@] }),
        r.list.passes()[r.shadow.key].texture_inputs@ == handles_for(r.list.resource_names(), Seq::<Seq<char>>::empty()),
        r.list.passes()[r.gbuffer.key].color_attachments@ == handles_for(r.list.resource_names(), seq!["emissive"@, "normal"@, "color"@]),
        r.list.passes()[r.gbuffer.key].depth_attachment == Some(VirtualTextureResourceHandle { key: r.list.resource_names()["depth"@] }),
        r.list.passes()[r.gbuffer.key].texture_inputs@ == handles_for(r.list.resource_names(), Seq::<Seq<char>>::empty()),
        r.list.passes()[r.deferred_lighting.key].color_attachments@ == handles_for(r.list.resource_names(), seq!["forward"@, "bright"@]),
        r.list.passes()[r.deferred_lighting.key].depth_attachment is None,
        r.list.passes()[r.deferred_lighting.key].texture_inputs@ == handles_for(r.list.resource_names(), seq!["emissive"@, "normal"@, "color"@, "depth"@, "scene_shadow"@]),
        r.list.passes()[r.bloom_initial.key].color_attachments@ == handles_for(r.list.resource_names(), seq!["bloom_horizontal"@]),
        r.list.passes()[r.bloom_initial.key].depth_attachment is None,
        r.list.passes()[r.bloom_initial.key].texture_inputs@ == handles_for(r.list.resource_names(), seq!["bright"@, "bloom_vertical"@]),
        r.list.passes()[r.bloom_horizontal.key].color_attachments@ == handles_for(r.list.resource_names(), seq!["bloom_vertical"@]),
        r.list.passes()[r.bloom_horizontal.key].depth_attachment is None,
        r.list.passes()[r.bloom_horizontal.key].texture_inputs@ == handles_for(r.list.resource_names(), seq!["bloom_horizontal"@]),
        r.list.passes()[r.bloom_vertical.key].color_attachments@ == handles_for(r.list.resource_names(), seq!["bloom_horizontal"@]),
        r.list.passes()[r.bloom_vertical.key].depth_attachment is None,
        r.list.passes()[r.bloom_vertical.key].texture_inputs@ == handles_for(r.list.resource_names(), seq!["bloom_vertical"@]),
        r.list.passes()[r.combine.key].color_attachments@ == handles_for(r.list.resource_names(), seq!["output"@]),
        r.list.passes()[r.combine.key].depth_attachment is None,
        r.list.passes()[r.combine.key].texture_inputs@ == handles_for(r.list.resource_names(), seq!["forward"@, "bloom_vertical"@]),
        r.list.passes()[r.ui.key].color_attachments@ == handles_for(r.list.resource_names(), seq!["output"@]),
        r.list.passes()[r.ui.key].depth_attachment == Some(VirtualTextureResourceHandle { key: r.list.resource_names()["depth"@] }),
        r.list.passes()[r.ui.key].texture_inputs@ == handles_for(r.list.resource_names(), Seq::<Seq<char>>::empty()),
        r.list.resource_names().contains_key("scene_shadow"@),
        r.list.resource_names().contains_key("emissive"@),
        r.list.resource_names().contains_key("normal"@),
        r.list.resource_names().contains_key("color"@),
        r.list.resource_names().contains_key("depth"@),
        r.list.resource_names().contains_key("forward"@),
        r.list.resource_names().contains_key("bright"@),
        r.list.resource_names().contains_key("bloom_horizontal"@),
        r.list.resource_names().contains_key("bloom_vertical"@),
        r.list.resource_names().contains_key("output"@),
        r.texture_info("scene_shadow"@) == swapchain_sized(FORMAT_D32_SFLOAT),
        r.texture_info("emissive"@) == swapchain_sized(DEFERRED_POSITION_FORMAT),
        r.texture_info("normal"@) == swapchain_sized(DEFERRED_NORMAL_FORMAT),
        r.texture_info("color"@) == swapchain_sized(DEFERRED_COLOR_FORMAT),
        r.texture_info("depth"@) == swapchain_sized(FORMAT_D32_SFLOAT),
        r.texture_info("forward"@) == swapchain_sized(RENDER_IMAGE_FORMAT),
        r.texture_info("bright"@) == swapchain_sized(RENDER_IMAGE_FORMAT),
        r.texture_info("bloom_horizontal"@) == swapchain_sized(RENDER_IMAGE_FORMAT),
        r.texture_info("bloom_vertical"@) == swapchain_sized(RENDER_IMAGE_FORMAT),
        r.texture_info("output"@) == swapchain_sized(RENDER_IMAGE_FORMAT),
        uses_recorded(r.list.passes(), r.list.resources(), r.list.order()),
        records_declared(r.list.passes(), r.list.resources()),
        crate::graph_layouts::no_feedback(r.list.passes(), r.list.order()),
        r.list.images() == Map::<u64, crate::handles::ImageHandle>::empty(),
{
    proof {
        reveal_strlit("shadow");
        reveal_strlit("gbuffer");
        reveal_strlit("deferred");
        reveal_strlit("bloom_initial_pass");
        reveal_strlit("bloom_horizontal_pass");
        reveal_strlit("bloom_vertical_pass");
        reveal_strlit("combine");
        reveal_strlit("ui");
        reveal_strlit("scene_shadow");
        reveal_strlit("emissive");
        reveal_strlit("normal");
        reveal_strlit("color");
        reveal_strlit("depth");
        reveal_strlit("forward");
        reveal_strlit("bright");
        reveal_strlit("bloom_horizontal");
        reveal_strlit("bloom_vertical");
        reveal_strlit("output");
    }
    let mut list = RenderList::new(swapchain_size);
    let ghost s0 = list;
    let layout = RenderPassLayout::new()
        .set_depth_stencil_attachment("scene_shadow", &info(FORMAT_D32_SFLOAT));
    proof {
        assert(colour_names(layout) =~= Seq::<Seq<char>>::empty());
        assert(input_names(layout) =~= Seq::<Seq<char>>::empty());
    }
    let ghost g1 = layout;
    let shadow = add_new_pass(&mut list, "shadow", layout);
    let ghost s1 = list;
    assert("gbuffer"@.len() != "shadow"@.len());
    let layout = RenderPassLayout::new()
        .add_color_attachment("emissive", &info(DEFERRED_POSITION_FORMAT))
        .add_color_attachment("normal", &info(DEFERRED_NORMAL_FORMAT))
        .add_color_attachment("color", &info(DEFERRED_COLOR_FORMAT))
        .set_depth_stencil_attachment("depth", &info(FORMAT_D32_SFLOAT));
    proof {
        assert(colour_names(layout) =~= seq!["emissive"@, "normal"@, "color"@]);
        assert(input_names(layout) =~= Seq::<Seq<char>>::empty());
    }
    let ghost g2 = layout;
    let gbuffer = add_new_pass(&mut list, "gbuffer", layout);
    let ghost s2 = list;
    assert("deferred"@.len() != "shadow"@.len());
    assert("deferred"@.len() != "gbuffer"@.len());
    let layout = RenderPassLayout::new()
        .add_color_attachment("forward", &info(RENDER_IMAGE_FORMAT))
        .add_color_attachment("bright", &info(RENDER_IMAGE_FORMAT))
        .add_texture_input("emissive")
        .add_texture_input("normal")
        .add_texture_input("color")
        .add_texture_input("depth")
        .add_texture_input("scene_shadow");
    proof {
        assert(colour_names(layout) =~= seq!["forward"@, "bright"@]);
        assert(input_names(layout) =~= seq!["emissive"@, "normal"@, "color"@, "depth"@, "scene_shadow"@]);
    }
    let ghost g3 = layout;
    let deferred_lighting = add_new_pass(&mut list, "deferred", layout);
    let ghost s3 = list;
    assert("bloom_initial_pass"@.len() != "shadow"@.len());
    assert("bloom_initial_pass"@.len() != "gbuffer"@.len());
    assert("bloom_initial_pass"@.len() != "deferred"@.len());
    let layout = RenderPassLayout::new()
        .add_texture_input("bright")
        .add_texture_input("bloom_vertical")
        .add_color_attachment("bloom_horizontal", &info(RENDER_IMAGE_FORMAT));
    proof {
        assert(colour_names(layout) =~= seq!["bloom_horizontal"@]);
        assert(input_names(layout) =~= seq!["bright"@, "bloom_vertical"@]);
    }
    let ghost g4 = layout;
    let bloom_initial = add_new_pass(&mut list, "bloom_initial_pass", layout);
    let ghost s4 = list;
    assert("bloom_horizontal_pass"@.len() != "shadow"@.len());
    assert("bloom_horizontal_pass"@.len() != "gbuffer"@.len());
    assert("bloom_horizontal_pass"@.len() != "deferred"@.len());
    assert("bloom_horizontal_pass"@.len() != "bloom_initial_pass"@.len());
    let layout = RenderPassLayout::new()
        .add_texture_input("bloom_horizontal")
        .add_color_attachment("bloom_vertical", &info(RENDER_IMAGE_FORMAT));
    proof {
        assert(colour_names(layout) =~= seq!["bloom_vertical"@]);
        assert(input_names(layout) =~= seq!["bloom_horizontal"@]);
    }
    let ghost g5 = layout;
    let bloom_horizontal = add_new_pass(&mut list, "bloom_horizontal_pass", layout);
    let ghost s5 = list;
    assert("bloom_vertical_pass"@.len() != "shadow"@.len());
    assert("bloom_vertical_pass"@.len() != "gbuffer"@.len());
    assert("bloom_vertical_pass"@.len() != "deferred"@.len());
    assert("bloom_vertical_pass"@.len() != "bloom_initial_pass"@.len());
    assert("bloom_vertical_pass"@.len() != "bloom_horizontal_pass"@.len());
    let layout = RenderPassLayout::new()
        .add_texture_input("bloom_vertical")
        .add_color_attachment("bloom_horizontal", &info(RENDER_IMAGE_FORMAT));
    proof {
        assert(colour_names(layout) =~= seq!["bloom_horizontal"@]);
        assert(input_names(layout) =~= seq!["bloom_vertical"@]);
    }
    let ghost g6 = layout;
    let bloom_vertical = add_new_pass(&mut list, "bloom_vertical_pass", layout);
    let ghost s6 = list;
    assert("combine"@.len() != "shadow"@.len());
    assert("combine"@[0] != "gbuffer"@[0]);
    assert("combine"@.len() != "deferred"@.len());
    assert("combine"@.len() != "bloom_initial_pass"@.len());
    assert("combine"@.len() != "bloom_horizontal_pass"@.len());
    assert("combine"@.len() != "bloom_vertical_pass"@.len());
    let layout = RenderPassLayout::new()
        .add_color_attachment("output", &info(RENDER_IMAGE_FORMAT))
        .add_texture_input("forward")
        .add_texture_input("bloom_vertical");
    proof {
        assert(colour_names(layout) =~= seq!["output"@]);
        assert(input_names(layout) =~= seq!["forward"@, "bloom_vertical"@]);
    }
    let ghost g7 = layout;
    let combine = add_new_pass(&mut list, "combine", layout);
    let ghost s7 = list;
    assert("ui"@.len() != "shadow"@.len());
    assert("ui"@.len() != "gbuffer"@.len());
    assert("ui"@.len() != "deferred"@.len());
    assert("ui"@.len() != "bloom_initial_pass"@.len());
    assert("ui"@.len() != "bloom_horizontal_pass"@.len());
    assert("ui"@.len() != "bloom_vertical_pass"@.len());
    assert("ui"@.len() != "combine"@.len());
    let layout = RenderPassLayout::new()
        .add_color_attachment("output", &info(RENDER_IMAGE_FORMAT))
        .set_depth_stencil_attachment("depth", &info(FORMAT_D32_SFLOAT));
    proof {
        assert(colour_names(layout) =~= seq!["output"@]);
        assert(input_names(layout) =~= Seq::<Seq<char>>::empty());
    }
    let ghost g8 = layout;
    let ui = add_new_pass(&mut list, "ui", layout);
    let ghost s8 = list;
    let r = FrameGraph {
        list,
        shadow,
        gbuffer,
        deferred_lighting,
        bloom_initial,
        bloom_horizontal,
        bloom_vertical,
        combine,
        ui,
    };
    proof {
        assert(r.list.order() =~= r.pass_order());
        lemma_render_list_wf(r.list);
        let names = r.list.pass_names();
        let hs = r.pass_order();
        let ns = seq!["shadow"@, "gbuffer"@, "deferred"@, "bloom_initial_pass"@, "bloom_horizontal_pass"@, "bloom_vertical_pass"@, "combine"@, "ui"@];
        assert forall|i: int| 0 <= i < 8 implies #[trigger] names.contains_key(ns[i]) && names[ns[i]] == hs[i].key by {
        }
        assert forall|i: int, j: int| 0 <= i < j < 8 implies hs[i] != hs[j] by {
            assert(names.contains_key(ns[i]) && names[ns[i]] == hs[i].key);
            assert(names.contains_key(ns[j]) && names[ns[j]] == hs[j].key);
            assert(ns[i] != ns[j]);
        }
        let states = seq![s0, s1, s2, s3, s4, s5, s6, s7, s8];
        assert forall|t: int| 0 <= t < 8 implies #[trigger] keeps(states[t], states[t + 1], hs[t]) by {
        }
        lemma_kept_to_end(states, hs, 0, 8);
        assert(s1.resource_names().contains_key("scene_shadow"@));
        assert(r.list.passes()[r.shadow.key].color_attachments@ =~= handles_for(r.list.resource_names(), Seq::<Seq<char>>::empty()));
        assert(r.list.passes()[r.shadow.key].texture_inputs@ =~= handles_for(r.list.resource_names(), Seq::<Seq<char>>::empty()));
        lemma_kept_to_end(states, hs, 1, 8);
        assert(s2.resource_names().contains_key(colour_names(g2)[0]));
        assert(s2.resource_names().contains_key(colour_names(g2)[1]));
        assert(s2.resource_names().contains_key(colour_names(g2)[2]));
        assert(s2.resource_names().contains_key("depth"@));
        assert(r.list.passes()[r.gbuffer.key].color_attachments@ =~= handles_for(r.list.resource_names(), seq!["emissive"@, "normal"@, "color"@]));
        assert(r.list.passes()[r.gbuffer.key].texture_inputs@ =~= handles_for(r.list.resource_names(), Seq::<Seq<char>>::empty()));
        lemma_kept_to_end(states, hs, 2, 8);
        assert(s3.resource_names().contains_key(colour_names(g3)[0]));
        assert(s3.resource_names().contains_key(colour_names(g3)[1]));
        assert(s3.resource_names().contains_key(input_names(g3)[0]));
        assert(s3.resource_names().contains_key(input_names(g3)[1]));
        assert(s3.resource_names().contains_key(input_names(g3)[2]));
        assert(s3.resource_names().contains_key(input_names(g3)[3]));
        assert(s3.resource_names().contains_key(input_names(g3)[4]));
        assert(r.list.passes()[r.deferred_lighting.key].color_attachments@ =~= handles_for(r.list.resource_names(), seq!["forward"@, "bright"@]));
        assert(r.list.passes()[r.deferred_lighting.key].texture_inputs@ =~= handles_for(r.list.resource_names(), seq!["emissive"@, "normal"@, "color"@, "depth"@, "scene_shadow"@]));
        lemma_kept_to_end(states, hs, 3, 8);
        assert(s4.resource_names().contains_key(colour_names(g4)[0]));
        assert(s4.resource_names().contains_key(input_names(g4)[0]));
        assert(s4.resource_names().contains_key(input_names(g4)[1]));
        assert(r.list.passes()[r.bloom_initial.key].color_attachments@ =~= handles_for(r.list.resource_names(), seq!["bloom_horizontal"@]));
        assert(r.list.passes()[r.bloom_initial.key].texture_inputs@ =~= handles_for(r.list.resource_names(), seq!["bright"@, "bloom_vertical"@]));
        lemma_kept_to_end(states, hs, 4, 8);
        assert(s5.resource_names().contains_key(colour_names(g5)[0]));
        assert(s5.resource_names().contains_key(input_names(g5)[0]));
        assert(r.list.passes()[r.bloom_horizontal.key].color_attachments@ =~= handles_for(r.list.resource_names(), seq!["bloom_vertical"@]));
        assert(r.list.passes()[r.bloom_horizontal.key].texture_inputs@ =~= handles_for(r.list.resource_names(), seq!["bloom_horizontal"@]));
        lemma_kept_to_end(states, hs, 5, 8);
        assert(s6.resource_names().contains_key(colour_names(g6)[0]));
        assert(s6.resource_names().contains_key(input_names(g6)[0]));
        assert(r.list.passes()[r.bloom_vertical.key].color_attachments@ =~= handles_for(r.list.resource_names(), seq!["bloom_horizontal"@]));
        assert(r.list.passes()[r.bloom_vertical.key].texture_inputs@ =~= handles_for(r.list.resource_names(), seq!["bloom_vertical"@]));
        lemma_kept_to_end(states, hs, 6, 8);
        assert(s7.resource_names().contains_key(colour_names(g7)[0]));
        assert(s7.resource_names().contains_key(input_names(g7)[0]));
        assert(s7.resource_names().contains_key(input_names(g7)[1]));
        assert(r.list.passes()[r.combine.key].color_attachments@ =~= handles_for(r.list.resource_names(), seq!["output"@]));
        assert(r.list.passes()[r.combine.key].texture_inputs@ =~= handles_for(r.list.resource_names(), seq!["forward"@, "bloom_vertical"@]));
        lemma_kept_to_end(states, hs, 7, 8);
        assert(s8.resource_names().contains_key(colour_names(g8)[0]));
        assert(s8.resource_names().contains_key("depth"@));
        assert(r.list.passes()[r.ui.key].color_attachments@ =~= handles_for(r.list.resource_names(), seq!["output"@]));
        assert(r.list.passes()[r.ui.key].texture_inputs@ =~= handles_for(r.list.resource_names(), Seq::<Seq<char>>::empty()));
        assert("scene_shadow"@.len() != "emissive"@.len());
        assert("scene_shadow"@.len() != "normal"@.len());
        assert("scene_shadow"@.len() != "color"@.len());
        assert("scene_shadow"@.len() != "depth"@.len());
        assert("scene_shadow"@.len() != "forward"@.len());
        assert("scene_shadow"@.len() != "bright"@.len());
        assert("scene_shadow"@.len() != "bloom_horizontal"@.len());
        assert("scene_shadow"@.len() != "bloom_vertical"@.len());
        assert("scene_shadow"@.len() != "output"@.len());
        assert("emissive"@.len() != "normal"@.len());
        assert("emissive"@.len() != "color"@.len());
        assert("emissive"@.len() != "depth"@.len());
        assert("emissive"@.len() != "forward"@.len());
        assert("emissive"@.len() != "bright"@.len());
        assert("emissive"@.len() != "bloom_horizontal"@.len());
        assert("emissive"@.len() != "bloom_vertical"@.len());
        assert("emissive"@.len() != "output"@.len());
        assert("normal"@.len() != "color"@.len());
        assert("normal"@.len() != "depth"@.len());
        assert("normal"@.len() != "forward"@.len());
        assert("normal"@[0] != "bright"@[0]);
        assert("normal"@.len() != "bloom_horizontal"@.len());
        assert("normal"@.len() != "bloom_vertical"@.len());
        assert("normal"@[0] != "output"@[0]);
        assert("color"@[0] != "depth"@[0]);
        assert("color"@.len() != "forward"@.len());
        assert("color"@.len() != "bright"@.len());
        assert("color"@.len() != "bloom_horizontal"@.len());
        assert("color"@.len() != "bloom_vertical"@.len());
        assert("color"@.len() != "output"@.len());
        assert("depth"@.len() != "forward"@.len());
        assert("depth"@.len() != "bright"@.len());
        assert("depth"@.len() != "bloom_horizontal"@.len());
        assert("depth"@.len() != "bloom_vertical"@.len());
        assert("depth"@.len() != "output"@.len());
        assert("forward"@.len() != "bright"@.len());
        assert("forward"@.len() != "bloom_horizontal"@.len());
        assert("forward"@.len() != "bloom_vertical"@.len());
        assert("forward"@.len() != "output"@.len());
        assert("bright"@.len() != "bloom_horizontal"@.len());
        assert("bright"@.len() != "bloom_vertical"@.len());
        assert("bright"@[0] != "output"@[0]);
        assert("bloom_horizontal"@.len() != "bloom_vertical"@.len());
        assert("bloom_horizontal"@.len() != "output"@.len());
        assert("bloom_vertical"@.len() != "output"@.len());
        assert(layout_touches(g1) =~= seq![("scene_shadow"@, crate::vkflags::USAGE_DEPTH_STENCIL_ATTACHMENT, true, Some(AttachmentInfo { size: SizeClass::SwapchainRelative, format: FORMAT_D32_SFLOAT }))]);
        assert forall|j: int| 0 <= j < layout_touches(g1).len() && (#[trigger] layout_touches(g1)[j]).0 == "scene_shadow"@ && layout_touches(g1)[j].3 is Some implies layout_touches(g1)[j].3 == Some(AttachmentInfo { size: SizeClass::SwapchainRelative, format: FORMAT_D32_SFLOAT }) by { assert(j == 0); }
        lemma_info_set((if s0.resource_names().contains_key("scene_shadow"@) { s0.resources()[s0.resource_names()["scene_shadow"@]].info() } else { fresh_info() }), layout_touches(g1), "scene_shadow"@, AttachmentInfo { size: SizeClass::SwapchainRelative, format: FORMAT_D32_SFLOAT }, 0);
        assert(s1.resources()[s1.resource_names()["scene_shadow"@]].info() == AttachmentInfo { size: SizeClass::SwapchainRelative, format: FORMAT_D32_SFLOAT });
        assert(layout_touches(g2) =~= seq![("emissive"@, crate::vkflags::USAGE_COLOR_ATTACHMENT, true, Some(AttachmentInfo { size: SizeClass::SwapchainRelative, format: DEFERRED_POSITION_FORMAT })), ("normal"@, crate::vkflags::USAGE_COLOR_ATTACHMENT, true, Some(AttachmentInfo { size: SizeClass::SwapchainRelative, format: DEFERRED_NORMAL_FORMAT })), ("color"@, crate::vkflags::USAGE_COLOR_ATTACHMENT, true, Some(AttachmentInfo { size: SizeClass::SwapchainRelative, format: DEFERRED_COLOR_FORMAT })), ("depth"@, crate::vkflags::USAGE_DEPTH_STENCIL_ATTACHMENT, true, Some(AttachmentInfo { size: SizeClass::SwapchainRelative, format: FORMAT_D32_SFLOAT }))]);
        assert forall|j: int| 0 <= j < layout_touches(g2).len() && (#[trigger] layout_touches(g2)[j]).0 == "scene_shadow"@ implies layout_touches(g2)[j].3 is None by { assert(j == 0 || j == 1 || j == 2 || j == 3); }
        lemma_info_keep((if s1.resource_names().contains_key("scene_shadow"@) { s1.resources()[s1.resource_names()["scene_shadow"@]].info() } else { fresh_info() }), layout_touches(g2), "scene_shadow"@);
        assert(s2.resources()[s2.resource_names()["scene_shadow"@]].info() == AttachmentInfo { size: SizeClass::SwapchainRelative, format: FORMAT_D32_SFLOAT });
        assert forall|j: int| 0 <= j < layout_touches(g2).len() && (#[trigger] layout_touches(g2)[j]).0 == "emissive"@ && layout_touches(g2)[j].3 is Some implies layout_touches(g2)[j].3 == Some(AttachmentInfo { size: SizeClass::SwapchainRelative, format: DEFERRED_POSITION_FORMAT }) by { assert(j == 0 || j == 1 || j == 2 || j == 3); }
        lemma_info_set((if s1.resource_names().contains_key("emissive"@) { s1.resources()[s1.resource_names()["emissive"@]].info() } else { fresh_info() }), layout_touches(g2), "emissive"@, AttachmentInfo { size: SizeClass::SwapchainRelative, format: DEFERRED_POSITION_FORMAT }, 0);
        assert(s2.resources()[s2.resource_names()["emissive"@]].info() == AttachmentInfo { size: SizeClass::SwapchainRelative, format: DEFERRED_POSITION_FORMAT });
        assert forall|j: int| 0 <= j < layout_touches(g2).len() && (#[trigger] layout_touches(g2)[j]).0 == "normal"@ && layout_touches(g2)[j].3 is Some implies layout_touches(g2)[j].3 == Some(AttachmentInfo { size: SizeClass::SwapchainRelative, format: DEFERRED_NORMAL_FORMAT }) by { assert(j == 0 || j == 1 || j == 2 || j == 3); }
        lemma_info_set((if s1.resource_names().contains_key("normal"@) { s1.resources()[s1.resource_names()["normal"@]].info() } else { fresh_info() }), layout_touches(g2), "normal"@, AttachmentInfo { size: SizeClass::SwapchainRelative, format: DEFERRED_NORMAL_FORMAT }, 1);
        assert(s2.resources()[s2.resource_names()["normal"@]].info() == AttachmentInfo { size: SizeClass::SwapchainRelative, format: DEFERRED_NORMAL_FORMAT });
        assert forall|j: int| 0 <= j < layout_touches(g2).len() && (#[trigger] layout_touches(g2)[j]).0 == "color"@ && layout_touches(g2)[j].3 is Some implies layout_touches(g2)[j].3 == Some(AttachmentInfo { size: SizeClass::SwapchainRelative, format: DEFERRED_COLOR_FORMAT }) by { assert(j == 0 || j == 1 || j == 2 || j == 3); }
        lemma_info_set((if s1.resource_names().contains_key("color"@) { s1.resources()[s1.resource_names()["color"@]].info() } else { fresh_info() }), layout_touches(g2), "color"@, AttachmentInfo { size: SizeClass::SwapchainRelative, format: DEFERRED_COLOR_FORMAT }, 2);
        assert(s2.resources()[s2.resource_names()["color"@]].info() == AttachmentInfo { size: SizeClass::SwapchainRelative, format: DEFERRED_COLOR_FORMAT });
        assert forall|j: int| 0 <= j < layout_touches(g2).len() && (#[trigger] layout_touches(g2)[j]).0 == "depth"@ && layout_touches(g2)[j].3 is Some implies layout_touches(g2)[j].3 == Some(AttachmentInfo { size: SizeClass::SwapchainRelative, format: FORMAT_D32_SFLOAT }) by { assert(j == 0 || j == 1 || j == 2 || j == 3); }
        lemma_info_set((if s1.resource_names().contains_key("depth"@) { s1.resources()[s1.resource_names()["depth"@]].info() } else { fresh_info() }), layout_touches(g2), "depth"@, AttachmentInfo { size: SizeClass::SwapchainRelative, format: FORMAT_D32_SFLOAT }, 3);
        assert(s2.resources()[s2.resource_names()["depth"@]].info() == AttachmentInfo { size: SizeClass::SwapchainRelative, format: FORMAT_D32_SFLOAT });
        assert(layout_touches(g3) =~= seq![("forward"@, crate::vkflags::USAGE_COLOR_ATTACHMENT, true, Some(AttachmentInfo { size: SizeClass::SwapchainRelative, format: RENDER_IMAGE_FORMAT })), ("bright"@, crate::vkflags::USAGE_COLOR_ATTACHMENT, true, Some(AttachmentInfo { size: SizeClass::SwapchainRelative, format: RENDER_IMAGE_FORMAT })), ("emissive"@, crate::vkflags::USAGE_SAMPLED, false, None::<AttachmentInfo>), ("normal"@, crate::vkflags::USAGE_SAMPLED, false, None::<AttachmentInfo>), ("color"@, crate::vkflags::USAGE_SAMPLED, false, None::<AttachmentInfo>), ("depth"@, crate::vkflags::USAGE_SAMPLED, false, None::<AttachmentInfo>), ("scene_shadow"@, crate::vkflags::USAGE_SAMPLED, false, None::<AttachmentInfo>)]);
        assert forall|j: int| 0 <= j < layout_touches(g3).len() && (#[trigger] layout_touches(g3)[j]).0 == "scene_shadow"@ implies layout_touches(g3)[j].3 is None by { assert(j == 0 || j == 1 || j == 2 || j == 3 || j == 4 || j == 5 || j == 6); }
        lemma_info_keep((if s2.resource_names().contains_key("scene_shadow"@) { s2.resources()[s2.resource_names()["scene_shadow"@]].info() } else { fresh_info() }), layout_touches(g3), "scene_shadow"@);
        assert(s3.resources()[s3.resource_names()["scene_shadow"@]].info() == AttachmentInfo { size: SizeClass::SwapchainRelative, format: FORMAT_D32_SFLOAT });
        assert forall|j: int| 0 <= j < layout_touches(g3).len() && (#[trigger] layout_touches(g3)[j]).0 == "emissive"@ implies layout_touches(g3)[j].3 is None by { assert(j == 0 || j == 1 || j == 2 || j == 3 || j == 4 || j == 5 || j == 6); }
        lemma_info_keep((if s2.resource_names().contains_key("emissive"@) { s2.resources()[s2.resource_names()["emissive"@]].info() } else { fresh_info() }), layout_touches(g3), "emissive"@);
        assert(s3.resources()[s3.resource_names()["emissive"@]].info() == AttachmentInfo { size: SizeClass::SwapchainRelative, format: DEFERRED_POSITION_FORMAT });
        assert forall|j: int| 0 <= j < layout_touches(g3).len() && (#[trigger] layout_touches(g3)[j]).0 == "normal"@ implies layout_touches(g3)[j].3 is None by { assert(j == 0 || j == 1 || j == 2 || j == 3 || j == 4 || j == 5 || j == 6); }
        lemma_info_keep((if s2.resource_names().contains_key("normal"@) { s2.resources()[s2.resource_names()["normal"@]].info() } else { fresh_info() }), layout_touches(g3), "normal"@);
        assert(s3.resources()[s3.resource_names()["normal"@]].info() == AttachmentInfo { size: SizeClass::SwapchainRelative, format: DEFERRED_NORMAL_FORMAT });
        assert forall|j: int| 0 <= j < layout_touches(g3).len() && (#[trigger] layout_touches(g3)[j]).0 == "color"@ implies layout_touches(g3)[j].3 is None by { assert(j == 0 || j == 1 || j == 2 || j == 3 || j == 4 || j == 5 || j == 6); }
        lemma_info_keep((if s2.resource_names().contains_key("color"@) { s2.resources()[s2.resource_names()["color"@]].info() } else { fresh_info() }), layout_touches(g3), "color"@);
        assert(s3.resources()[s3.resource_names()["color"@]].info() == AttachmentInfo { size: SizeClass::SwapchainRelative, format: DEFERRED_COLOR_FORMAT });
        assert forall|j: int| 0 <= j < layout_touches(g3).len() && (#[trigger] layout_touches(g3)[j]).0 == "depth"@ implies layout_touches(g3)[j].3 is None by { assert(j == 0 || j == 1 || j == 2 || j == 3 || j == 4 || j == 5 || j == 6); }
        lemma_info_keep((if s2.resource_names().contains_key("depth"@) { s2.resources()[s2.resource_names()["depth"@]].info() } else { fresh_info() }), layout_touches(g3), "depth"@);
        assert(s3.resources()[s3.resource_names()["depth"@]].info() == AttachmentInfo { size: SizeClass::SwapchainRelative, format: FORMAT_D32_SFLOAT });
        assert forall|j: int| 0 <= j < layout_touches(g3).len() && (#[trigger] layout_touches(g3)[j]).0 == "forward"@ && layout_touches(g3)[j].3 is Some implies layout_touches(g3)[j].3 == Some(AttachmentInfo { size: SizeClass::SwapchainRelative, format: RENDER_IMAGE_FORMAT }) by { assert(j == 0 || j == 1 || j == 2 || j == 3 || j == 4 || j == 5 || j == 6); }
        lemma_info_set((if s2.resource_names().contains_key("forward"@) { s2.resources()[s2.resource_names()["forward"@]].info() } else { fresh_info() }), layout_touches(g3), "forward"@, AttachmentInfo { size: SizeClass::SwapchainRelative, format: RENDER_IMAGE_FORMAT }, 0);
        assert(s3.resources()[s3.resource_names()["forward"@]].info() == AttachmentInfo { size: SizeClass::SwapchainRelative, format: RENDER_IMAGE_FORMAT });
        assert forall|j: int| 0 <= j < layout_touches(g3).len() && (#[trigger] layout_touches(g3)[j]).0 == "bright"@ && layout_touches(g3)[j].3 is Some implies layout_touches(g3)[j].3 == Some(AttachmentInfo { size: SizeClass::SwapchainRelative, format: RENDER_IMAGE_FORMAT }) by { assert(j == 0 || j == 1 || j == 2 || j == 3 || j == 4 || j == 5 || j == 6); }
        lemma_info_set((if s2.resource_names().contains_key("bright"@) { s2.resources()[s2.resource_names()["bright"@]].info() } else { fresh_info() }), layout_touches(g3), "bright"@, AttachmentInfo { size: SizeClass::SwapchainRelative, format: RENDER_IMAGE_FORMAT }, 1);
        assert(s3.resources()[s3.resource_names()["bright"@]].info() == AttachmentInfo { size: SizeClass::SwapchainRelative, format: RENDER_IMAGE_FORMAT });
        assert(layout_touches(g4) =~= seq![("bloom_horizontal"@, crate::vkflags::USAGE_COLOR_ATTACHMENT, true, Some(AttachmentInfo { size: SizeClass::SwapchainRelative, format: RENDER_IMAGE_FORMAT })), ("bright"@, crate::vkflags::USAGE_SAMPLED, false, None::<AttachmentInfo>), ("bloom_vertical"@, crate::vkflags::USAGE_SAMPLED, false, None::<AttachmentInfo>)]);
        assert forall|j: int| 0 <= j < layout_touches(g4).len() && (#[trigger] layout_touches(g4)[j]).0 == "scene_shadow"@ implies layout_touches(g4)[j].3 is None by { assert(j == 0 || j == 1 || j == 2); }
        lemma_info_keep((if s3.resource_names().contains_key("scene_shadow"@) { s3.resources()[s3.resource_names()["scene_shadow"@]].info() } else { fresh_info() }), layout_touches(g4), "scene_shadow"@);
        assert(s4.resources()[s4.resource_names()["scene_shadow"@]].info() == AttachmentInfo { size: SizeClass::SwapchainRelative, format: FORMAT_D32_SFLOAT });
        assert forall|j: int| 0 <= j < layout_touches(g4).len() && (#[trigger] layout_touches(g4)[j]).0 == "emissive"@ implies layout_touches(g4)[j].3 is None by { assert(j == 0 || j == 1 || j == 2); }
        lemma_info_keep((if s3.resource_names().contains_key("emissive"@) { s3.resources()[s3.resource_names()["emissive"@]].info() } else { fresh_info() }), layout_touches(g4), "emissive"@);
        assert(s4.resources()[s4.resource_names()["emissive"@]].info() == AttachmentInfo { size: SizeClass::SwapchainRelative, format: DEFERRED_POSITION_FORMAT });
        assert forall|j: int| 0 <= j < layout_touches(g4).len() && (#[trigger] layout_touches(g4)[j]).0 == "normal"@ implies layout_touches(g4)[j].3 is None by { assert(j == 0 || j == 1 || j == 2); }
        lemma_info_keep((if s3.resource_names().contains_key("normal"@) { s3.resources()[s3.resource_names()["normal"@]].info() } else { fresh_info() }), layout_touches(g4), "normal"@);
        assert(s4.resources()[s4.resource_names()["normal"@]].info() == AttachmentInfo { size: SizeClass::SwapchainRelative, format: DEFERRED_NORMAL_FORMAT });
        assert forall|j: int| 0 <= j < layout_touches(g4).len() && (#[trigger] layout_touches(g4)[j]).0 == "color"@ implies layout_touches(g4)[j].3 is None by { assert(j == 0 || j == 1 || j == 2); }
        lemma_info_keep((if s3.resource_names().contains_key("color"@) { s3.resources()[s3.resource_names()["color"@]].info() } else { fresh_info() }), layout_touches(g4), "color"@);
        assert(s4.resources()[s4.resource_names()["color"@]].info() == AttachmentInfo { size: SizeClass::SwapchainRelative, format: DEFERRED_COLOR_FORMAT });
        assert forall|j: int| 0 <= j < layout_touches(g4).len() && (#[trigger] layout_touches(g4)[j]).0 == "depth"@ implies layout_touches(g4)[j].3 is None by { assert(j == 0 || j == 1 || j == 2); }
        lemma_info_keep((if s3.resource_names().contains_key("depth"@) { s3.resources()[s3.resource_names()["depth"@]].info() } else { fresh_info() }), layout_touches(g4), "depth"@);
        assert(s4.resources()[s4.resource_names()["depth"@]].info() == AttachmentInfo { size: SizeClass::SwapchainRelative, format: FORMAT_D32_SFLOAT });
        assert forall|j: int| 0 <= j < layout_touches(g4).len() && (#[trigger] layout_touches(g4)[j]).0 == "forward"@ implies layout_touches(g4)[j].3 is None by { assert(j == 0 || j == 1 || j == 2); }
        lemma_info_keep((if s3.resource_names().contains_key("forward"@) { s3.resources()[s3.resource_names()["forward"@]].info() } else { fresh_info() }), layout_touches(g4), "forward"@);
        assert(s4.resources()[s4.resource_names()["forward"@]].info() == AttachmentInfo { size: SizeClass::SwapchainRelative, format: RENDER_IMAGE_FORMAT });
        assert forall|j: int| 0 <= j < layout_touches(g4).len() && (#[trigger] layout_touches(g4)[j]).0 == "bright"@ implies layout_touches(g4)[j].3 is None by { assert(j == 0 || j == 1 || j == 2); }
        lemma_info_keep((if s3.resource_names().contains_key("bright"@) { s3.resources()[s3.resource_names()["bright"@]].info() } else { fresh_info() }), layout_touches(g4), "bright"@);
        assert(s4.resources()[s4.resource_names()["bright"@]].info() == AttachmentInfo { size: SizeClass::SwapchainRelative, format: RENDER_IMAGE_FORMAT });
        assert forall|j: int| 0 <= j < layout_touches(g4).len() && (#[trigger] layout_touches(g4)[j]).0 == "bloom_horizontal"@ && layout_touches(g4)[j].3 is Some implies layout_touches(g4)[j].3 == Some(AttachmentInfo { size: SizeClass::SwapchainRelative, format: RENDER_IMAGE_FORMAT }) by { assert(j == 0 || j == 1 || j == 2); }
        lemma_info_set((if s3.resource_names().contains_key("bloom_horizontal"@) { s3.resources()[s3.resource_names()["bloom_horizontal"@]].info() } else { fresh_info() }), layout_touches(g4), "bloom_horizontal"@, AttachmentInfo { size: SizeClass::SwapchainRelative, format: RENDER_IMAGE_FORMAT }, 0);
        assert(s4.resources()[s4.resource_names()["bloom_horizontal"@]].info() == AttachmentInfo { size: SizeClass::SwapchainRelative, format: RENDER_IMAGE_FORMAT });
        assert forall|j: int| 0 <= j < layout_touches(g4).len() && (#[trigger] layout_touches(g4)[j]).0 == "bloom_vertical"@ implies layout_touches(g4)[j].3 is None by { assert(j == 0 || j == 1 || j == 2); }
        lemma_info_keep((if s3.resource_names().contains_key("bloom_vertical"@) { s3.resources()[s3.resource_names()["bloom_vertical"@]].info() } else { fresh_info() }), layout_touches(g4), "bloom_vertical"@);
        assert(s4.resources()[s4.resource_names()["bloom_vertical"@]].info() == fresh_info());
        assert(layout_touches(g5) =~= seq![("bloom_vertical"@, crate::vkflags::USAGE_COLOR_ATTACHMENT, true, Some(AttachmentInfo { size: SizeClass::SwapchainRelative, format: RENDER_IMAGE_FORMAT })), ("bloom_horizontal"@, crate::vkflags::USAGE_SAMPLED, false, None::<AttachmentInfo>)]);
        assert forall|j: int| 0 <= j < layout_touches(g5).len() && (#[trigger] layout_touches(g5)[j]).0 == "scene_shadow"@ implies layout_touches(g5)[j].3 is None by { assert(j == 0 || j == 1); }
        lemma_info_keep((if s4.resource_names().contains_key("scene_shadow"@) { s4.resources()[s4.resource_names()["scene_shadow"@]].info() } else { fresh_info() }), layout_touches(g5), "scene_shadow"@);
        assert(s5.resources()[s5.resource_names()["scene_shadow"@]].info() == AttachmentInfo { size: SizeClass::SwapchainRelative, format: FORMAT_D32_SFLOAT });
        assert forall|j: int| 0 <= j < layout_touches(g5).len() && (#[trigger] layout_touches(g5)[j]).0 == "emissive"@ implies layout_touches(g5)[j].3 is None by { assert(j == 0 || j == 1); }
        lemma_info_keep((if s4.resource_names().contains_key("emissive"@) { s4.resources()[s4.resource_names()["emissive"@]].info() } else { fresh_info() }), layout_touches(g5), "emissive"@);
        assert(s5.resources()[s5.resource_names()["emissive"@]].info() == AttachmentInfo { size: SizeClass::SwapchainRelative, format: DEFERRED_POSITION_FORMAT });
        assert forall|j: int| 0 <= j < layout_touches(g5).len() && (#[trigger] layout_touches(g5)[j]).0 == "normal"@ implies layout_touches(g5)[j].3 is None by { assert(j == 0 || j == 1); }
        lemma_info_keep((if s4.resource_names().contains_key("normal"@) { s4.resources()[s4.resource_names()["normal"@]].info() } else { fresh_info() }), layout_touches(g5), "normal"@);
        assert(s5.resources()[s5.resource_names()["normal"@]].info() == AttachmentInfo { size: SizeClass::SwapchainRelative, format: DEFERRED_NORMAL_FORMAT });
        assert forall|j: int| 0 <= j < layout_touches(g5).len() && (#[trigger] layout_touches(g5)[j]).0 == "color"@ implies layout_touches(g5)[j].3 is None by { assert(j == 0 || j == 1); }
        lemma_info_keep((if s4.resource_names().contains_key("color"@) { s4.resources()[s4.resource_names()["color"@]].info() } else { fresh_info() }), layout_touches(g5), "color"@);
        assert(s5.resources()[s5.resource_names()["color"@]].info() == AttachmentInfo { size: SizeClass::SwapchainRelative, format: DEFERRED_COLOR_FORMAT });
        assert forall|j: int| 0 <= j < layout_touches(g5).len() && (#[trigger] layout_touches(g5)[j]).0 == "depth"@ implies layout_touches(g5)[j].3 is None by { assert(j == 0 || j == 1); }
        lemma_info_keep((if s4.resource_names().contains_key("depth"@) { s4.resources()[s4.resource_names()["depth"@]].info() } else { fresh_info() }), layout_touches(g5), "depth"@);
        assert(s5.resources()[s5.resource_names()["depth"@]].info() == AttachmentInfo { size: SizeClass::SwapchainRelative, format: FORMAT_D32_SFLOAT });
        assert forall|j: int| 0 <= j < layout_touches(g5).len() && (#[trigger] layout_touches(g5)[j]).0 == "forward"@ implies layout_touches(g5)[j].3 is None by { assert(j == 0 || j == 1); }
        lemma_info_keep((if s4.resource_names().contains_key("forward"@) { s4.resources()[s4.resource_names()["forward"@]].info() } else { fresh_info() }), layout_touches(g5), "forward"@);
        assert(s5.resources()[s5.resource_names()["forward"@]].info() == AttachmentInfo { size: SizeClass::SwapchainRelative, format: RENDER_IMAGE_FORMAT });
        assert forall|j: int| 0 <= j < layout_touches(g5).len() && (#[trigger] layout_touches(g5)[j]).0 == "bright"@ implies layout_touches(g5)[j].3 is None by { assert(j == 0 || j == 1); }
        lemma_info_keep((if s4.resource_names().contains_key("bright"@) { s4.resources()[s4.resource_names()["bright"@]].info() } else { fresh_info() }), layout_touches(g5), "bright"@);
        assert(s5.resources()[s5.resource_names()["bright"@]].info() == AttachmentInfo { size: SizeClass::SwapchainRelative, format: RENDER_IMAGE_FORMAT });
        assert forall|j: int| 0 <= j < layout_touches(g5).len() && (#[trigger] layout_touches(g5)[j]).0 == "bloom_horizontal"@ implies layout_touches(g5)[j].3 is None by { assert(j == 0 || j == 1); }
        lemma_info_keep((if s4.resource_names().contains_key("bloom_horizontal"@) { s4.resources()[s4.resource_names()["bloom_horizontal"@]].info() } else { fresh_info() }), layout_touches(g5), "bloom_horizontal"@);
        assert(s5.resources()[s5.resource_names()["bloom_horizontal"@]].info() == AttachmentInfo { size: SizeClass::SwapchainRelative, format: RENDER_IMAGE_FORMAT });
        assert forall|j: int| 0 <= j < layout_touches(g5).len() && (#[trigger] layout_touches(g5)[j]).0 == "bloom_vertical"@ && layout_touches(g5)[j].3 is Some implies layout_touches(g5)[j].3 == Some(AttachmentInfo { size: SizeClass::SwapchainRelative, format: RENDER_IMAGE_FORMAT }) by { assert(j == 0 || j == 1); }
        lemma_info_set((if s4.resource_names().contains_key("bloom_vertical"@) { s4.resources()[s4.resource_names()["bloom_vertical"@]].info() } else { fresh_info() }), layout_touches(g5), "bloom_vertical"@, AttachmentInfo { size: SizeClass::SwapchainRelative, format: RENDER_IMAGE_FORMAT }, 0);
        assert(s5.resources()[s5.resource_names()["bloom_vertical"@]].info() == AttachmentInfo { size: SizeClass::SwapchainRelative, format: RENDER_IMAGE_FORMAT });
        assert(layout_touches(g6) =~= seq![("bloom_horizontal"@, crate::vkflags::USAGE_COLOR_ATTACHMENT, true, Some(AttachmentInfo { size: SizeClass::SwapchainRelative, format: RENDER_IMAGE_FORMAT })), ("bloom_vertical"@, crate::vkflags::USAGE_SAMPLED, false, None::<AttachmentInfo>)]);
        assert forall|j: int| 0 <= j < layout_touches(g6).len() && (#[trigger] layout_touches(g6)[j]).0 == "scene_shadow"@ implies layout_touches(g6)[j].3 is None by { assert(j == 0 || j == 1); }
        lemma_info_keep((if s5.resource_names().contains_key("scene_shadow"@) { s5.resources()[s5.resource_names()["scene_shadow"@]].info() } else { fresh_info() }), layout_touches(g6), "scene_shadow"@);
        assert(s6.resources()[s6.resource_names()["scene_shadow"@]].info() == AttachmentInfo { size: SizeClass::SwapchainRelative, format: FORMAT_D32_SFLOAT });
        assert forall|j: int| 0 <= j < layout_touches(g6).len() && (#[trigger] layout_touches(g6)[j]).0 == "emissive"@ implies layout_touches(g6)[j].3 is None by { assert(j == 0 || j == 1); }
        lemma_info_keep((if s5.resource_names().contains_key("emissive"@) { s5.resources()[s5.resource_names()["emissive"@]].info() } else { fresh_info() }), layout_touches(g6), "emissive"@);
        assert(s6.resources()[s6.resource_names()["emissive"@]].info() == AttachmentInfo { size: SizeClass::SwapchainRelative, format: DEFERRED_POSITION_FORMAT });
        assert forall|j: int| 0 <= j < layout_touches(g6).len() && (#[trigger] layout_touches(g6)[j]).0 == "normal"@ implies layout_touches(g6)[j].3 is None by { assert(j == 0 || j == 1); }
        lemma_info_keep((if s5.resource_names().contains_key("normal"@) { s5.resources()[s5.resource_names()["normal"@]].info() } else { fresh_info() }), layout_touches(g6), "normal"@);
        assert(s6.resources()[s6.resource_names()["normal"@]].info() == AttachmentInfo { size: SizeClass::SwapchainRelative, format: DEFERRED_NORMAL_FORMAT });
        assert forall|j: int| 0 <= j < layout_touches(g6).len() && (#[trigger] layout_touches(g6)[j]).0 == "color"@ implies layout_touches(g6)[j].3 is None by { assert(j == 0 || j == 1); }
        lemma_info_keep((if s5.resource_names().contains_key("color"@) { s5.resources()[s5.resource_names()["color"@]].info() } else { fresh_info() }), layout_touches(g6), "color"@);
        assert(s6.resources()[s6.resource_names()["color"@]].info() == AttachmentInfo { size: SizeClass::SwapchainRelative, format: DEFERRED_COLOR_FORMAT });
        assert forall|j: int| 0 <= j < layout_touches(g6).len() && (#[trigger] layout_touches(g6)[j]).0 == "depth"@ implies layout_touches(g6)[j].3 is None by { assert(j == 0 || j == 1); }
        lemma_info_keep((if s5.resource_names().contains_key("depth"@) { s5.resources()[s5.resource_names()["depth"@]].info() } else { fresh_info() }), layout_touches(g6), "depth"@);
        assert(s6.resources()[s6.resource_names()["depth"@]].info() == AttachmentInfo { size: SizeClass::SwapchainRelative, format: FORMAT_D32_SFLOAT });
        assert forall|j: int| 0 <= j < layout_touches(g6).len() && (#[trigger] layout_touches(g6)[j]).0 == "forward"@ implies layout_touches(g6)[j].3 is None by { assert(j == 0 || j == 1); }
        lemma_info_keep((if s5.resource_names().contains_key("forward"@) { s5.resources()[s5.resource_names()["forward"@]].info() } else { fresh_info() }), layout_touches(g6), "forward"@);
        assert(s6.resources()[s6.resource_names()["forward"@]].info() == AttachmentInfo { size: SizeClass::SwapchainRelative, format: RENDER_IMAGE_FORMAT });
        assert forall|j: int| 0 <= j < layout_touches(g6).len() && (#[trigger] layout_touches(g6)[j]).0 == "bright"@ implies layout_touches(g6)[j].3 is None by { assert(j == 0 || j == 1); }
        lemma_info_keep((if s5.resource_names().contains_key("bright"@) { s5.resources()[s5.resource_names()["bright"@]].info() } else { fresh_info() }), layout_touches(g6), "bright"@);
        assert(s6.resources()[s6.resource_names()["bright"@]].info() == AttachmentInfo { size: SizeClass::SwapchainRelative, format: RENDER_IMAGE_FORMAT });
        assert forall|j: int| 0 <= j < layout_touches(g6).len() && (#[trigger] layout_touches(g6)[j]).0 == "bloom_horizontal"@ && layout_touches(g6)[j].3 is Some implies layout_touches(g6)[j].3 == Some(AttachmentInfo { size: SizeClass::SwapchainRelative, format: RENDER_IMAGE_FORMAT }) by { assert(j == 0 || j == 1); }
        lemma_info_set((if s5.resource_names().contains_key("bloom_horizontal"@) { s5.resources()[s5.resource_names()["bloom_horizontal"@]].info() } else { fresh_info() }), layout_touches(g6), "bloom_horizontal"@, AttachmentInfo { size: SizeClass::SwapchainRelative, format: RENDER_IMAGE_FORMAT }, 0);
        assert(s6.resources()[s6.resource_names()["bloom_horizontal"@]].info() == AttachmentInfo { size: SizeClass::SwapchainRelative, format: RENDER_IMAGE_FORMAT });
        assert forall|j: int| 0 <= j < layout_touches(g6).len() && (#[trigger] layout_touches(g6)[j]).0 == "bloom_vertical"@ implies layout_touches(g6)[j].3 is None by { assert(j == 0 || j == 1); }
        lemma_info_keep((if s5.resource_names().contains_key("bloom_vertical"@) { s5.resources()[s5.resource_names()["bloom_vertical"@]].info() } else { fresh_info() }), layout_touches(g6), "bloom_vertical"@);
        assert(s6.resources()[s6.resource_names()["bloom_vertical"@]].info() == AttachmentInfo { size: SizeClass::SwapchainRelative, format: RENDER_IMAGE_FORMAT });
        assert(layout_touches(g7) =~= seq![("output"@, crate::vkflags::USAGE_COLOR_ATTACHMENT, true, Some(AttachmentInfo { size: SizeClass::SwapchainRelative, format: RENDER_IMAGE_FORMAT })), ("forward"@, crate::vkflags::USAGE_SAMPLED, false, None::<AttachmentInfo>), ("bloom_vertical"@, crate::vkflags::USAGE_SAMPLED, false, None::<AttachmentInfo>)]);
        assert forall|j: int| 0 <= j < layout_touches(g7).len() && (#[trigger] layout_touches(g7)[j]).0 == "scene_shadow"@ implies layout_touches(g7)[j].3 is None by { assert(j == 0 || j == 1 || j == 2); }
        lemma_info_keep((if s6.resource_names().contains_key("scene_shadow"@) { s6.resources()[s6.resource_names()["scene_shadow"@]].info() } else { fresh_info() }), layout_touches(g7), "scene_shadow"@);
        assert(s7.resources()[s7.resource_names()["scene_shadow"@]].info() == AttachmentInfo { size: SizeClass::SwapchainRelative, format: FORMAT_D32_SFLOAT });
        assert forall|j: int| 0 <= j < layout_touches(g7).len() && (#[trigger] layout_touches(g7)[j]).0 == "emissive"@ implies layout_touches(g7)[j].3 is None by { assert(j == 0 || j == 1 || j == 2); }
        lemma_info_keep((if s6.resource_names().contains_key("emissive"@) { s6.resources()[s6.resource_names()["emissive"@]].info() } else { fresh_info() }), layout_touches(g7), "emissive"@);
        assert(s7.resources()[s7.resource_names()["emissive"@]].info() == AttachmentInfo { size: SizeClass::SwapchainRelative, format: DEFERRED_POSITION_FORMAT });
        assert forall|j: int| 0 <= j < layout_touches(g7).len() && (#[trigger] layout_touches(g7)[j]).0 == "normal"@ implies layout_touches(g7)[j].3 is None by { assert(j == 0 || j == 1 || j == 2); }
        lemma_info_keep((if s6.resource_names().contains_key("normal"@) { s6.resources()[s6.resource_names()["normal"@]].info() } else { fresh_info() }), layout_touches(g7), "normal"@);
        assert(s7.resources()[s7.resource_names()["normal"@]].info() == AttachmentInfo { size: SizeClass::SwapchainRelative, format: DEFERRED_NORMAL_FORMAT });
        assert forall|j: int| 0 <= j < layout_touches(g7).len() && (#[trigger] layout_touches(g7)[j]).0 == "color"@ implies layout_touches(g7)[j].3 is None by { assert(j == 0 || j == 1 || j == 2); }
        lemma_info_keep((if s6.resource_names().contains_key("color"@) { s6.resources()[s6.resource_names()["color"@]].info() } else { fresh_info() }), layout_touches(g7), "color"@);
        assert(s7.resources()[s7.resource_names()["color"@]].info() == AttachmentInfo { size: SizeClass::SwapchainRelative, format: DEFERRED_COLOR_FORMAT });
        assert forall|j: int| 0 <= j < layout_touches(g7).len() && (#[trigger] layout_touches(g7)[j]).0 == "depth"@ implies layout_touches(g7)[j].3 is None by { assert(j == 0 || j == 1 || j == 2); }
        lemma_info_keep((if s6.resource_names().contains_key("depth"@) { s6.resources()[s6.resource_names()["depth"@]].info() } else { fresh_info() }), layout_touches(g7), "depth"@);
        assert(s7.resources()[s7.resource_names()["depth"@]].info() == AttachmentInfo { size: SizeClass::SwapchainRelative, format: FORMAT_D32_SFLOAT });
        assert forall|j: int| 0 <= j < layout_touches(g7).len() && (#[trigger] layout_touches(g7)[j]).0 == "forward"@ implies layout_touches(g7)[j].3 is None by { assert(j == 0 || j == 1 || j == 2); }
        lemma_info_keep((if s6.resource_names().contains_key("forward"@) { s6.resources()[s6.resource_names()["forward"@]].info() } else { fresh_info() }), layout_touches(g7), "forward"@);
        assert(s7.resources()[s7.resource_names()["forward"@]].info() == AttachmentInfo { size: SizeClass::SwapchainRelative, format: RENDER_IMAGE_FORMAT });
        assert forall|j: int| 0 <= j < layout_touches(g7).len() && (#[trigger] layout_touches(g7)[j]).0 == "bright"@ implies layout_touches(g7)[j].3 is None by { assert(j == 0 || j == 1 || j == 2); }
        lemma_info_keep((if s6.resource_names().contains_key("bright"@) { s6.resources()[s6.resource_names()["bright"@]].info() } else { fresh_info() }), layout_touches(g7), "bright"@);
        assert(s7.resources()[s7.resource_names()["bright"@]].info() == AttachmentInfo { size: SizeClass::SwapchainRelative, format: RENDER_IMAGE_FORMAT });
        assert forall|j: int| 0 <= j < layout_touches(g7).len() && (#[trigger] layout_touches(g7)[j]).0 == "bloom_horizontal"@ implies layout_touches(g7)[j].3 is None by { assert(j == 0 || j == 1 || j == 2); }
        lemma_info_keep((if s6.resource_names().contains_key("bloom_horizontal"@) { s6.resources()[s6.resource_names()["bloom_horizontal"@]].info() } else { fresh_info() }), layout_touches(g7), "bloom_horizontal"@);
        assert(s7.resources()[s7.resource_names()["bloom_horizontal"@]].info() == AttachmentInfo { size: SizeClass::SwapchainRelative, format: RENDER_IMAGE_FORMAT });
        assert forall|j: int| 0 <= j < layout_touches(g7).len() && (#[trigger] layout_touches(g7)[j]).0 == "bloom_vertical"@ implies layout_touches(g7)[j].3 is None by { assert(j == 0 || j == 1 || j == 2); }
        lemma_info_keep((if s6.resource_names().contains_key("bloom_vertical"@) { s6.resources()[s6.resource_names()["bloom_vertical"@]].info() } else { fresh_info() }), layout_touches(g7), "bloom_vertical"@);
        assert(s7.resources()[s7.resource_names()["bloom_vertical"@]].info() == AttachmentInfo { size: SizeClass::SwapchainRelative, format: RENDER_IMAGE_FORMAT });
        assert forall|j: int| 0 <= j < layout_touches(g7).len() && (#[trigger] layout_touches(g7)[j]).0 == "output"@ && layout_touches(g7)[j].3 is Some implies layout_touches(g7)[j].3 == Some(AttachmentInfo { size: SizeClass::SwapchainRelative, format: RENDER_IMAGE_FORMAT }) by { assert(j == 0 || j == 1 || j == 2); }
        lemma_info_set((if s6.resource_names().contains_key("output"@) { s6.resources()[s6.resource_names()["output"@]].info() } else { fresh_info() }), layout_touches(g7), "output"@, AttachmentInfo { size: SizeClass::SwapchainRelative, format: RENDER_IMAGE_FORMAT }, 0);
        assert(s7.resources()[s7.resource_names()["output"@]].info() == AttachmentInfo { size: SizeClass::SwapchainRelative, format: RENDER_IMAGE_FORMAT });
        assert(layout_touches(g8) =~= seq![("output"@, crate::vkflags::USAGE_COLOR_ATTACHMENT, true, Some(AttachmentInfo { size: SizeClass::SwapchainRelative, format: RENDER_IMAGE_FORMAT })), ("depth"@, crate::vkflags::USAGE_DEPTH_STENCIL_ATTACHMENT, true, Some(AttachmentInfo { size: SizeClass::SwapchainRelative, format: FORMAT_D32_SFLOAT }))]);
        assert forall|j: int| 0 <= j < layout_touches(g8).len() && (#[trigger] layout_touches(g8)[j]).0 == "scene_shadow"@ implies layout_touches(g8)[j].3 is None by { assert(j == 0 || j == 1); }
        lemma_info_keep((if s7.resource_names().contains_key("scene_shadow"@) { s7.resources()[s7.resource_names()["scene_shadow"@]].info() } else { fresh_info() }), layout_touches(g8), "scene_shadow"@);
        assert(s8.resources()[s8.resource_names()["scene_shadow"@]].info() == AttachmentInfo { size: SizeClass::SwapchainRelative, format: FORMAT_D32_SFLOAT });
        assert forall|j: int| 0 <= j < layout_touches(g8).len() && (#[trigger] layout_touches(g8)[j]).0 == "emissive"@ implies layout_touches(g8)[j].3 is None by { assert(j == 0 || j == 1); }
        lemma_info_keep((if s7.resource_names().contains_key("emissive"@) { s7.resources()[s7.resource_names()["emissive"@]].info() } else { fresh_info() }), layout_touches(g8), "emissive"@);
        assert(s8.resources()[s8.resource_names()["emissive"@]].info() == AttachmentInfo { size: SizeClass::SwapchainRelative, format: DEFERRED_POSITION_FORMAT });
        assert forall|j: int| 0 <= j < layout_touches(g8).len() && (#[trigger] layout_touches(g8)[j]).0 == "normal"@ implies layout_touches(g8)[j].3 is None by { assert(j == 0 || j == 1); }
        lemma_info_keep((if s7.resource_names().contains_key("normal"@) { s7.resources()[s7.resource_names()["normal"@]].info() } else { fresh_info() }), layout_touches(g8), "normal"@);
        assert(s8.resources()[s8.resource_names()["normal"@]].info() == AttachmentInfo { size: SizeClass::SwapchainRelative, format: DEFERRED_NORMAL_FORMAT });
        assert forall|j: int| 0 <= j < layout_touches(g8).len() && (#[trigger] layout_touches(g8)[j]).0 == "color"@ implies layout_touches(g8)[j].3 is None by { assert(j == 0 || j == 1); }
        lemma_info_keep((if s7.resource_names().contains_key("color"@) { s7.resources()[s7.resource_names()["color"@]].info() } else { fresh_info() }), layout_touches(g8), "color"@);
        assert(s8.resources()[s8.resource_names()["color"@]].info() == AttachmentInfo { size: SizeClass::SwapchainRelative, format: DEFERRED_COLOR_FORMAT });
        assert forall|j: int| 0 <= j < layout_touches(g8).len() && (#[trigger] layout_touches(g8)[j]).0 == "depth"@ && layout_touches(g8)[j].3 is Some implies layout_touches(g8)[j].3 == Some(AttachmentInfo { size: SizeClass::SwapchainRelative, format: FORMAT_D32_SFLOAT }) by { assert(j == 0 || j == 1); }
        lemma_info_set((if s7.resource_names().contains_key("depth"@) { s7.resources()[s7.resource_names()["depth"@]].info() } else { fresh_info() }), layout_touches(g8), "depth"@, AttachmentInfo { size: SizeClass::SwapchainRelative, format: FORMAT_D32_SFLOAT }, 1);
        assert(s8.resources()[s8.resource_names()["depth"@]].info() == AttachmentInfo { size: SizeClass::SwapchainRelative, format: FORMAT_D32_SFLOAT });
        assert forall|j: int| 0 <= j < layout_touches(g8).len() && (#[trigger] layout_touches(g8)[j]).0 == "forward"@ implies layout_touches(g8)[j].3 is None by { assert(j == 0 || j == 1); }
        lemma_info_keep((if s7.resource_names().contains_key("forward"@) { s7.resources()[s7.resource_names()["forward"@]].info() } else { fresh_info() }), layout_touches(g8), "forward"@);
        assert(s8.resources()[s8.resource_names()["forward"@]].info() == AttachmentInfo { size: SizeClass::SwapchainRelative, format: RENDER_IMAGE_FORMAT });
        assert forall|j: int| 0 <= j < layout_touches(g8).len() && (#[trigger] layout_touches(g8)[j]).0 == "bright"@ implies layout_touches(g8)[j].3 is None by { assert(j == 0 || j == 1); }
        lemma_info_keep((if s7.resource_names().contains_key("bright"@) { s7.resources()[s7.resource_names()["bright"@]].info() } else { fresh_info() }), layout_touches(g8), "bright"@);
        assert(s8.resources()[s8.resource_names()["bright"@]].info() == AttachmentInfo { size: SizeClass::SwapchainRelative, format: RENDER_IMAGE_FORMAT });
        assert forall|j: int| 0 <= j < layout_touches(g8).len() && (#[trigger] layout_touches(g8)[j]).0 == "bloom_horizontal"@ implies layout_touches(g8)[j].3 is None by { assert(j == 0 || j == 1); }
        lemma_info_keep((if s7.resource_names().contains_key("bloom_horizontal"@) { s7.resources()[s7.resource_names()["bloom_horizontal"@]].info() } else { fresh_info() }), layout_touches(g8), "bloom_horizontal"@);
        assert(s8.resources()[s8.resource_names()["bloom_horizontal"@]].info() == AttachmentInfo { size: SizeClass::SwapchainRelative, format: RENDER_IMAGE_FORMAT });
        assert forall|j: int| 0 <= j < layout_touches(g8).len() && (#[trigger] layout_touches(g8)[j]).0 == "bloom_vertical"@ implies layout_touches(g8)[j].3 is None by { assert(j == 0 || j == 1); }
        lemma_info_keep((if s7.resource_names().contains_key("bloom_vertical"@) { s7.resources()[s7.resource_names()["bloom_vertical"@]].info() } else { fresh_info() }), layout_touches(g8), "bloom_vertical"@);
        assert(s8.resources()[s8.resource_names()["bloom_vertical"@]].info() == AttachmentInfo { size: SizeClass::SwapchainRelative, format: RENDER_IMAGE_FORMAT });
        assert forall|j: int| 0 <= j < layout_touches(g8).len() && (#[trigger] layout_touches(g8)[j]).0 == "output"@ && layout_touches(g8)[j].3 is Some implies layout_touches(g8)[j].3 == Some(AttachmentInfo { size: SizeClass::SwapchainRelative, format: RENDER_IMAGE_FORMAT }) by { assert(j == 0 || j == 1); }
        lemma_info_set((if s7.resource_names().contains_key("output"@) { s7.resources()[s7.resource_names()["output"@]].info() } else { fresh_info() }), layout_touches(g8), "output"@, AttachmentInfo { size: SizeClass::SwapchainRelative, format: RENDER_IMAGE_FORMAT }, 0);
        assert(s8.resources()[s8.resource_names()["output"@]].info() == AttachmentInfo { size: SizeClass::SwapchainRelative, format: RENDER_IMAGE_FORMAT });
        let rn = r.list.resource_names();
        assert(rn["forward"@] != rn["emissive"@]) by { assert(rn.contains_key("forward"@) && rn.contains_key("emissive"@)); }
        assert(rn["forward"@] != rn["normal"@]) by { assert(rn.contains_key("forward"@) && rn.contains_key("normal"@)); }
        assert(rn["forward"@] != rn["color"@]) by { assert(rn.contains_key("forward"@) && rn.contains_key("color"@)); }
        assert(rn["forward"@] != rn["depth"@]) by { assert(rn.contains_key("forward"@) && rn.contains_key("depth"@)); }
        assert(rn["forward"@] != rn["scene_shadow"@]) by { assert(rn.contains_key("forward"@) && rn.contains_key("scene_shadow"@)); }
        assert(rn["bright"@] != rn["emissive"@]) by { assert(rn.contains_key("bright"@) && rn.contains_key("emissive"@)); }
        assert(rn["bright"@] != rn["normal"@]) by { assert(rn.contains_key("bright"@) && rn.contains_key("normal"@)); }
        assert(rn["bright"@] != rn["color"@]) by { assert(rn.contains_key("bright"@) && rn.contains_key("color"@)); }
        assert(rn["bright"@] != rn["depth"@]) by { assert(rn.contains_key("bright"@) && rn.contains_key("depth"@)); }
        assert(rn["bright"@] != rn["scene_shadow"@]) by { assert(rn.contains_key("bright"@) && rn.contains_key("scene_shadow"@)); }
        assert(rn["bloom_horizontal"@] != rn["bright"@]) by { assert(rn.contains_key("bloom_horizontal"@) && rn.contains_key("bright"@)); }
        assert(rn["bloom_horizontal"@] != rn["bloom_vertical"@]) by { assert(rn.contains_key("bloom_horizontal"@) && rn.contains_key("bloom_vertical"@)); }
        assert(rn["bloom_vertical"@] != rn["bloom_horizontal"@]) by { assert(rn.contains_key("bloom_vertical"@) && rn.contains_key("bloom_horizontal"@)); }
        assert(rn["bloom_horizontal"@] != rn["bloom_vertical"@]) by { assert(rn.contains_key("bloom_horizontal"@) && rn.contains_key("bloom_vertical"@)); }
        assert(rn["output"@] != rn["forward"@]) by { assert(rn.contains_key("output"@) && rn.contains_key("forward"@)); }
        assert(rn["output"@] != rn["bloom_vertical"@]) by { assert(rn.contains_key("output"@) && rn.contains_key("bloom_vertical"@)); }
        assert forall|j: int, c: VirtualTextureResourceHandle| 0 <= j < r.list.order().len()
            implies !(#[trigger] renders_to(r.list.passes()[r.list.order()[j].key], c) && samples(r.list.passes()[r.list.order()[j].key], c)) by {
            assert(j == 0 || j == 1 || j == 2 || j == 3 || j == 4 || j == 5 || j == 6 || j == 7);
        }
    }
    r
}

} // verus!
