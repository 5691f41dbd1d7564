//! Render targets: images the renderer draws into, sized either fixed or to
//! the window, recreated when the window is resized.
use vstd::prelude::*;
use slotmap::{DefaultKey, KeyData, SlotMap};
use crate::handles::{ImageHandle, RenderTargetHandle};
use crate::vkflags::{
    USAGE_COLOR_ATTACHMENT, USAGE_DEPTH_STENCIL_ATTACHMENT, USAGE_SAMPLED, USAGE_TRANSFER_SRC,
};

verus! {

/// How large a render target is.
#[derive(Clone, Copy, PartialEq, Eq, Structural, Debug)]
pub enum RenderTargetSize {
    /// A fixed width and height.
    Static(u32, u32),
    /// The size of the window.
    Fullscreen,
}

/// What a render target holds.
#[derive(Clone, Copy, PartialEq, Eq, Structural, Debug)]
pub enum RenderImageType {
    Colour,
    Depth,
}

/// The size of a render target of size `size` for a window of size `device`.
pub open spec fn target_extent(size: RenderTargetSize, device: (u32, u32)) -> (u32, u32) {
    match size {
        RenderTargetSize::Static(w, h) => (w, h),
        RenderTargetSize::Fullscreen => device,
    }
}

/// The image usage of a render target: sampled, copied from, and rendered
/// to as colour or depth.
pub open spec fn target_usage(t: RenderImageType) -> u32 {
    match t {
        RenderImageType::Colour => USAGE_SAMPLED | USAGE_COLOR_ATTACHMENT | USAGE_TRANSFER_SRC,
        RenderImageType::Depth => USAGE_SAMPLED | USAGE_DEPTH_STENCIL_ATTACHMENT | USAGE_TRANSFER_SRC,
    }
}

impl RenderTargetSize {
    /// The width and height for a window of size `device_size`.
    pub fn extent(self, device_size: (u32, u32)) -> (r: (u32, u32))
        ensures
            r == target_extent(self, device_size),
    {
        match self {
            RenderTargetSize::Static(width, height) => (width, height),
            RenderTargetSize::Fullscreen => device_size,
        }
    }
}

impl RenderImageType {
    /// The image usage of a target of this kind.
    pub fn usage(self) -> (r: u32)
        ensures
            r == target_usage(self),
    {
        match self {
            RenderImageType::Colour => USAGE_SAMPLED | USAGE_COLOR_ATTACHMENT | USAGE_TRANSFER_SRC,
            RenderImageType::Depth => USAGE_SAMPLED | USAGE_DEPTH_STENCIL_ATTACHMENT | USAGE_TRANSFER_SRC,
        }
    }
}

/// The image a render target is created as: a single two-dimensional
/// layer with one mip level.
#[derive(Clone, Copy, PartialEq, Eq, Structural, Debug)]
pub struct TargetImageInfo {
    pub format: i32,
    pub usage: u32,
    pub width: u32,
    pub height: u32,
    pub depth: u32,
    pub array_layers: u32,
    pub mip_levels: u32,
}

/// The image of a render target of the given format, size and kind.
pub fn render_target_image_info(format: i32, size: (u32, u32), image_type: RenderImageType) -> (r: TargetImageInfo)
    ensures
        r == (TargetImageInfo {
            format,
            usage: target_usage(image_type),
            width: size.0,
            height: size.1,
            depth: 1,
            array_layers: 1,
            mip_levels: 1,
        }),
{
    TargetImageInfo {
        format,
        usage: image_type.usage(),
        width: size.0,
        height: size.1,
        depth: 1,
        array_layers: 1,
        mip_levels: 1,
    }
}

/// A render target: its current image and how it was made.
#[derive(Clone, Copy, PartialEq, Eq, Structural, Debug)]
pub struct RenderTarget {
    pub image: ImageHandle,
    pub size: RenderTargetSize,
    pub format: i32,
    pub image_type: RenderImageType,
}

impl RenderTarget {
    /// The current image.
    pub fn image(&self) -> (r: ImageHandle)
        ensures
            r == self.image,
    {
        self.image
    }
}

/// The render targets, in a slot map.
#[verifier::external_body]
pub struct TargetSlots {
    inner: SlotMap<DefaultKey, RenderTarget>,
}

/// The render targets held, by key value.
pub uninterp spec fn target_slots(m: TargetSlots) -> Map<u64, RenderTarget>;

/// `SlotMap::new`: an empty map.
#[verifier::external_body]
fn target_slots_new() -> (r: TargetSlots)
    ensures
        target_slots(r) =~= Map::empty(),
{
    TargetSlots { inner: SlotMap::new() }
}

/// `SlotMap::insert`: stores `v` under a key that was not in use, and returns
/// the key's value. It panics only when the map holds `u32::MAX - 1` slots;
/// this map never removes, so its slots are its entries.
#[verifier::external_body]
fn target_slots_insert(m: &mut TargetSlots, v: RenderTarget) -> (k: u64)
    requires
        target_slots(*old(m)).len() + 2 < 0x1_0000_0000,
    ensures
        crate::handles::is_live_key(k),
        !target_slots(*old(m)).contains_key(k),
        target_slots(*final(m)) == target_slots(*old(m)).insert(k, v),
{
    slotmap::Key::data(&m.inner.insert(v)).as_ffi()
}

/// `SlotMap::get`: the target under `key`, copied. A live key that is not
/// in the map finds nothing.
#[verifier::external_body]
fn target_slots_get(m: &TargetSlots, key: u64) -> (r: Option<RenderTarget>)
    ensures
        target_slots(*m).contains_key(key) ==> r == Some(target_slots(*m)[key]),
        !target_slots(*m).contains_key(key) && crate::handles::is_live_key(key) ==> r is None,
{
    m.inner.get(DefaultKey::from(KeyData::from_ffi(key))).copied()
}

/// `SlotMap::get_mut`, then an assignment: replaces the target under `key`.
#[verifier::external_body]
fn target_slots_set(m: &mut TargetSlots, key: u64, v: RenderTarget)
    requires
        target_slots(*old(m)).contains_key(key),
    ensures
        target_slots(*final(m)) == target_slots(*old(m)).insert(key, v),
{
    if let Some(slot) = m.inner.get_mut(DefaultKey::from(KeyData::from_ffi(key))) {
        *slot = v;
    }
}

/// `SlotMap::keys`: the keys of the targets, each once, in increasing slot index
/// (the order in which the map walks its slots).
#[verifier::external_body]
fn target_slots_keys(m: &TargetSlots) -> (r: Vec<u64>)
    ensures
        r@.no_duplicates(),
        r@.to_set() == target_slots(*m).dom(),
        forall|i: int, j: int| 0 <= i < j < r@.len() ==> crate::handles::slot_index(#[trigger] r@[i]) < crate::handles::slot_index(#[trigger] r@[j]),
{
    m.inner.keys().map(|k| slotmap::Key::data(&k).as_ffi()).collect()
}

/// The render targets of the renderer.
pub struct RenderTargets {
    targets: TargetSlots,
}

impl RenderTargets {
    /// The targets, by key.
    pub closed spec fn targets(&self) -> Map<u64, RenderTarget> {
        target_slots(self.targets)
    }

    pub closed spec fn wf(&self) -> bool {
        &&& self.targets().dom().finite()
        &&& forall|k: u64| #[trigger] self.targets().contains_key(k) ==> crate::handles::is_live_key(k)
    }

    /// No render targets.
    pub fn new() -> (r: Self)
        ensures
            r.wf(),
            r.targets() == Map::<u64, RenderTarget>::empty(),
    {
        RenderTargets { targets: target_slots_new() }
    }

    /// Records a target whose image was created for it.
    pub fn insert(&mut self, target: RenderTarget) -> (r: RenderTargetHandle)
        requires
            old(self).wf(),
            old(self).targets().len() + 2 < 0x1_0000_0000,
        ensures
            final(self).wf(),
            !old(self).targets().contains_key(r.key),
            final(self).targets() == old(self).targets().insert(r.key, target),
    {
        let key = target_slots_insert(&mut self.targets, target);
        RenderTargetHandle { key }
    }

    /// The image of the target under `render_target`.
    pub fn get(&self, render_target: RenderTargetHandle) -> (r: Option<ImageHandle>)
        requires
            self.wf(),
        ensures
            self.targets().contains_key(render_target.key) ==> r == Some(self.targets()[render_target.key].image),
            !self.targets().contains_key(render_target.key) && crate::handles::is_live_key(render_target.key) ==> r is None,
    {
        match target_slots_get(&self.targets, render_target.key) {
            Some(t) => Some(t.image),
            None => None,
        }
    }

    /// The target under `render_target`.
    pub fn get_render_target(&self, render_target: RenderTargetHandle) -> (r: Option<RenderTarget>)
        requires
            self.wf(),
        ensures
            self.targets().contains_key(render_target.key) ==> r == Some(self.targets()[render_target.key]),
            !self.targets().contains_key(render_target.key) && crate::handles::is_live_key(render_target.key) ==> r is None,
    {
        target_slots_get(&self.targets, render_target.key)
    }

    /// The targets that follow the window's size, each once: these are the
    /// ones a resize recreates.
    pub fn fullscreen_targets(&self) -> (r: Vec<(RenderTargetHandle, RenderTarget)>)
        requires
            self.wf(),
        ensures
            forall|i: int| 0 <= i < r.len() ==> {
                &&& self.targets().contains_key((#[trigger] r@[i]).0.key)
                &&& r@[i].1 == self.targets()[r@[i].0.key]
                &&& r@[i].1.size == RenderTargetSize::Fullscreen
            },
            forall|k: u64| #[trigger] self.targets().contains_key(k) && self.targets()[k].size == RenderTargetSize::Fullscreen
                ==> exists|i: int| 0 <= i < r.len() && r@[i].0.key == k,
            forall|i: int, j: int| 0 <= i < j < r.len() ==> r@[i].0 != r@[j].0,
            forall|i: int, j: int| 0 <= i < j < r.len() ==> crate::handles::slot_index((#[trigger] r@[i]).0.key) < crate::handles::slot_index((#[trigger] r@[j]).0.key),
    {
        let keys = target_slots_keys(&self.targets);
        let mut out: Vec<(RenderTargetHandle, RenderTarget)> = Vec::new();
        let mut i: usize = 0;
        while i < keys.len()
            invariant
                i <= keys.len(),
                self.wf(),
                keys@.no_duplicates(),
                keys@.to_set() == self.targets().dom(),
                forall|a: int| 0 <= a < out.len() ==> {
                    &&& self.targets().contains_key((#[trigger] out@[a]).0.key)
                    &&& out@[a].1 == self.targets()[out@[a].0.key]
                    &&& out@[a].1.size == RenderTargetSize::Fullscreen
                    &&& exists|b: int| 0 <= b < i && #[trigger] keys@[b] == out@[a].0.key
                },
                forall|b: int| 0 <= b < i && self.targets()[keys@[b]].size == RenderTargetSize::Fullscreen
                    ==> exists|a: int| 0 <= a < out.len() && (#[trigger] out@[a]).0.key == keys@[b],
                forall|a: int, c: int| 0 <= a < c < out.len() ==> out@[a].0 != out@[c].0,
                forall|a: int, c: int| 0 <= a < c < keys.len() ==> crate::handles::slot_index(#[trigger] keys@[a]) < crate::handles::slot_index(#[trigger] keys@[c]),
                forall|a: int, c: int| 0 <= a < c < out.len() ==> crate::handles::slot_index((#[trigger] out@[a]).0.key) < crate::handles::slot_index((#[trigger] out@[c]).0.key),
            decreases keys.len() - i,
        {
            let key = keys[i];
            proof {
                assert(keys@.to_set().contains(key));
            }
            let ghost prev = out@;
            let t = match target_slots_get(&self.targets, key) {
                Some(t) => t,
                None => {
                    assert(false);
                    vstd::pervasive::unreached()
                },
            };
            if t.size == RenderTargetSize::Fullscreen {
                proof {
                    assert forall|a: int| 0 <= a < prev.len() implies prev[a].0.key != key
                        && crate::handles::slot_index(prev[a].0.key) < crate::handles::slot_index(key) by {
                        let b = choose|b: int| 0 <= b < i && #[trigger] keys@[b] == prev[a].0.key;
                        assert(keys@[b] != keys@[i as int]);
                        assert(crate::handles::slot_index(keys@[b]) < crate::handles::slot_index(keys@[i as int]));
                    }
                }
                out.push((RenderTargetHandle { key }, t));
            }
            proof {
                assert forall|b: int| 0 <= b < i + 1 && self.targets()[keys@[b]].size == RenderTargetSize::Fullscreen
                    implies exists|a: int| 0 <= a < out.len() && (#[trigger] out@[a]).0.key == keys@[b] by {
                    if b < i {
                        let a = choose|a: int| 0 <= a < prev.len() && (#[trigger] prev[a]).0.key == keys@[b];
                        assert(out@[a] == prev[a]);
                    } else {
                        assert(out@[out.len() - 1].0.key == keys@[b]);
                    }
                }
                assert forall|a: int| 0 <= a < out.len() implies #[trigger] self.targets().contains_key(out@[a].0.key) && exists|b: int| 0 <= b < i + 1 && #[trigger] keys@[b] == out@[a].0.key by {
                    if a < prev.len() {
                        let b = choose|b: int| 0 <= b < i && #[trigger] keys@[b] == prev[a].0.key;
                        assert(out@[a] == prev[a]);
                    } else {
                        assert(keys@[i as int] == out@[a].0.key);
                    }
                }
            }
            i = i + 1;
        }
        proof {
            assert forall|k: u64| #[trigger] self.targets().contains_key(k) && self.targets()[k].size == RenderTargetSize::Fullscreen
                implies exists|a: int| 0 <= a < out.len() && out@[a].0.key == k by {
                assert(keys@.to_set().contains(k));
                let b = choose|b: int| 0 <= b < keys.len() && keys@[b] == k;
                assert(self.targets()[keys@[b]].size == RenderTargetSize::Fullscreen);
            }
        }
        out
    }

    /// Gives the target under `render_target` a new image.
    pub fn set_image(&mut self, render_target: RenderTargetHandle, image: ImageHandle)
        requires
            old(self).wf(),
            old(self).targets().contains_key(render_target.key),
        ensures
            final(self).wf(),
            final(self).targets() == old(self).targets().insert(
                render_target.key,
                RenderTarget { image, ..old(self).targets()[render_target.key] },
            ),
    {
        let t = match target_slots_get(&self.targets, render_target.key) {
            Some(t) => t,
            None => {
                assert(false);
                vstd::pervasive::unreached()
            },
        };
        let ghost old_t = self.targets();
        target_slots_set(&mut self.targets, render_target.key, RenderTarget { image, ..t });
        proof {
            assert(self.targets().dom() =~= old_t.dom());
        }
    }
}

} // verus!
