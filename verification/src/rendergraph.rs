//! The render graph: passes declared by name with the textures they write
//! and read, baked into the images, attachments and barriers each pass needs.
use vstd::prelude::*;
use slotmap::{DefaultKey, KeyData, SlotMap};
use std::collections::HashMap;
use crate::barrier::ImageBarrier;
use crate::handles::{ImageHandle, VirtualRenderPassHandle, VirtualTextureResourceHandle};
use crate::names::NameTable;
use crate::vkflags::FORMAT_UNDEFINED;

verus! {

/// How large a render-graph texture is.
#[derive(Clone, Copy, PartialEq, Eq, Structural, Debug)]
pub enum SizeClass {
    /// The size of the swapchain.
    SwapchainRelative,
    /// A fixed width and height.
    Custom(u32, u32),
}

impl Default for SizeClass {
    fn default() -> (r: Self)
        ensures
            r == SizeClass::SwapchainRelative,
    {
        SizeClass::SwapchainRelative
    }
}

/// The size of a texture of size class `size` for a swapchain of size
/// `swapchain`.
pub open spec fn resolved_size(size: SizeClass, swapchain: (u32, u32)) -> (u32, u32) {
    match size {
        SizeClass::SwapchainRelative => swapchain,
        SizeClass::Custom(w, h) => (w, h),
    }
}

/// Law: a texture of custom size `(w, h)` is `w` wide and `h` high,
/// whatever the swapchain's size; a swapchain-relative texture takes the
/// swapchain's width and height, in that order.
pub proof fn lemma_resolved_size(w: u32, h: u32, swapchain: (u32, u32))
    ensures
        resolved_size(SizeClass::Custom(w, h), swapchain).0 == w,
        resolved_size(SizeClass::Custom(w, h), swapchain).1 == h,
        resolved_size(SizeClass::SwapchainRelative, swapchain).0 == swapchain.0,
        resolved_size(SizeClass::SwapchainRelative, swapchain).1 == swapchain.1,
{
}

impl SizeClass {
    /// The width and height of a texture of this size class.
    pub fn resolve(self, swapchain_size: (u32, u32)) -> (r: (u32, u32))
        ensures
            r == resolved_size(self, swapchain_size),
            self matches SizeClass::Custom(w, h) ==> r.0 == w && r.1 == h,
            self is SwapchainRelative ==> r.0 == swapchain_size.0 && r.1 == swapchain_size.1,
    {
        match self {
            SizeClass::SwapchainRelative => swapchain_size,
            SizeClass::Custom(width, height) => (width, height),
        }
    }
}

/// The size and format of a render-graph texture.
#[derive(Clone, Copy, PartialEq, Eq, Structural, Debug)]
pub struct AttachmentInfo {
    pub size: SizeClass,
    pub format: i32,
}

impl Default for AttachmentInfo {
    fn default() -> (r: Self)
        ensures
            r.size == SizeClass::SwapchainRelative,
            r.format == FORMAT_UNDEFINED,
    {
        AttachmentInfo { size: SizeClass::SwapchainRelative, format: FORMAT_UNDEFINED }
    }
}

/// A texture declared in the render graph: its name, size and format, the
/// passes that write and read it, and the union of its usages.
pub struct VirtualTextureResource {
    name: String,
    attachment_info: AttachmentInfo,
    written_in_passes: Vec<VirtualRenderPassHandle>,
    read_in_passes: Vec<VirtualRenderPassHandle>,
    usage: u32,
}

/// Access to what the graph records of a resource.
pub trait VirtualResource {
    spec fn resource_name(&self) -> Seq<char>;

    spec fn read_passes(&self) -> Seq<VirtualRenderPassHandle>;

    spec fn write_passes(&self) -> Seq<VirtualRenderPassHandle>;

    fn set_name(&mut self, name: &str)
        ensures
            final(self).resource_name() == name@,
            final(self).read_passes() == old(self).read_passes(),
            final(self).write_passes() == old(self).write_passes(),
    ;

    fn name(&self) -> (r: &str)
        ensures
            r@ == self.resource_name(),
    ;

    fn read_in_pass(&mut self, pass: VirtualRenderPassHandle)
        ensures
            final(self).resource_name() == old(self).resource_name(),
            final(self).read_passes() == old(self).read_passes().push(pass),
            final(self).write_passes() == old(self).write_passes(),
    ;

    fn write_in_pass(&mut self, pass: VirtualRenderPassHandle)
        ensures
            final(self).resource_name() == old(self).resource_name(),
            final(self).read_passes() == old(self).read_passes(),
            final(self).write_passes() == old(self).write_passes().push(pass),
    ;

    fn get_read_passes(&self) -> (r: &[VirtualRenderPassHandle])
        ensures
            r@ == self.read_passes(),
    ;

    fn get_write_passes(&self) -> (r: &[VirtualRenderPassHandle])
        ensures
            r@ == self.write_passes(),
    ;
}

impl VirtualTextureResource {
    /// A resource with no name, the default attachment, no passes and no
    /// usage.
    pub fn new() -> (r: Self)
        ensures
            r.resource_name() == Seq::<char>::empty(),
            r.info() == (AttachmentInfo { size: SizeClass::SwapchainRelative, format: FORMAT_UNDEFINED }),
            r.read_passes() == Seq::<VirtualRenderPassHandle>::empty(),
            r.write_passes() == Seq::<VirtualRenderPassHandle>::empty(),
            r.usage() == 0,
    {
        VirtualTextureResource {
            name: String::new(),
            attachment_info: AttachmentInfo::default(),
            written_in_passes: Vec::new(),
            read_in_passes: Vec::new(),
            usage: 0,
        }
    }

    pub closed spec fn info(&self) -> AttachmentInfo {
        self.attachment_info
    }

    pub closed spec fn usage(&self) -> u32 {
        self.usage
    }

    /// Sets the size and format.
    pub fn set_attachment_info(&mut self, info: AttachmentInfo)
        ensures
            final(self).info() == info,
            final(self).usage() == old(self).usage(),
            final(self).resource_name() == old(self).resource_name(),
            final(self).read_passes() == old(self).read_passes(),
            final(self).write_passes() == old(self).write_passes(),
    {
        self.attachment_info = info;
    }

    /// The size and format.
    pub fn get_attachment_info(&self) -> (r: &AttachmentInfo)
        ensures
            *r == self.info(),
    {
        &self.attachment_info
    }

    /// Adds `usage` to the usages of the resource.
    pub fn set_image_usage(&mut self, usage: u32)
        ensures
            final(self).usage() == old(self).usage() | usage,
            final(self).info() == old(self).info(),
            final(self).resource_name() == old(self).resource_name(),
            final(self).read_passes() == old(self).read_passes(),
            final(self).write_passes() == old(self).write_passes(),
    {
        self.usage = self.usage | usage;
    }

    /// The union of the usages of the resource.
    pub fn get_image_usage(&self) -> (r: u32)
        ensures
            r == self.usage(),
    {
        self.usage
    }
}

impl VirtualResource for VirtualTextureResource {
    closed spec fn resource_name(&self) -> Seq<char> {
        self.name@
    }

    closed spec fn read_passes(&self) -> Seq<VirtualRenderPassHandle> {
        self.read_in_passes@
    }

    closed spec fn write_passes(&self) -> Seq<VirtualRenderPassHandle> {
        self.written_in_passes@
    }

    fn set_name(&mut self, name: &str)
        ensures
            final(self).info() == old(self).info(),
            final(self).usage() == old(self).usage(),
    {
        self.name = name.to_owned();
    }

    fn name(&self) -> (r: &str) {
        self.name.as_str()
    }

    fn read_in_pass(&mut self, pass: VirtualRenderPassHandle)
        ensures
            final(self).info() == old(self).info(),
            final(self).usage() == old(self).usage(),
    {
        self.read_in_passes.push(pass);
    }

    fn write_in_pass(&mut self, pass: VirtualRenderPassHandle)
        ensures
            final(self).info() == old(self).info(),
            final(self).usage() == old(self).usage(),
    {
        self.written_in_passes.push(pass);
    }

    fn get_read_passes(&self) -> (r: &[VirtualRenderPassHandle]) {
        self.read_in_passes.as_slice()
    }

    fn get_write_passes(&self) -> (r: &[VirtualRenderPassHandle]) {
        self.written_in_passes.as_slice()
    }
}

/// A pass declared in the render graph: the textures it renders to and the
/// textures it samples.
pub struct VirtualRenderPass {
    pub name: String,
    pub color_attachments: Vec<VirtualTextureResourceHandle>,
    pub depth_attachment: Option<VirtualTextureResourceHandle>,
    pub texture_inputs: Vec<VirtualTextureResourceHandle>,
}

impl VirtualRenderPass {
    /// A pass with no name and no attachments.
    pub fn new() -> (r: Self)
        ensures
            r.name@ == Seq::<char>::empty(),
            r.color_attachments@ == Seq::<VirtualTextureResourceHandle>::empty(),
            r.depth_attachment is None,
            r.texture_inputs@ == Seq::<VirtualTextureResourceHandle>::empty(),
    {
        VirtualRenderPass {
            name: String::new(),
            color_attachments: Vec::new(),
            depth_attachment: None,
            texture_inputs: Vec::new(),
        }
    }
}

/// The passes of a render graph, in a slot map.
#[verifier::external_body]
pub struct PassSlots {
    inner: SlotMap<DefaultKey, VirtualRenderPass>,
}

/// The passes held, by key value.
pub uninterp spec fn pass_slots(m: PassSlots) -> Map<u64, VirtualRenderPass>;

/// `SlotMap::new`: an empty map.
#[verifier::external_body]
fn pass_slots_new() -> (r: PassSlots)
    ensures
        pass_slots(r) =~= Map::empty(),
{
    PassSlots { inner: SlotMap::new() }
}

/// `SlotMap::insert`: stores `v` under a key that was not in use, and returns
/// the key's value. It panics only when the map holds `u32::MAX - 1` slots;
/// this map never removes, so its slots are its entries.
#[verifier::external_body]
fn pass_slots_insert(m: &mut PassSlots, v: VirtualRenderPass) -> (k: u64)
    requires
        pass_slots(*old(m)).len() + 2 < 0x1_0000_0000,
    ensures
        crate::handles::is_live_key(k),
        !pass_slots(*old(m)).contains_key(k),
        pass_slots(*final(m)) == pass_slots(*old(m)).insert(k, v),
{
    slotmap::Key::data(&m.inner.insert(v)).as_ffi()
}

/// `SlotMap::get`: the pass under `key`. A live key that is not in the map
/// finds nothing.
#[verifier::external_body]
fn pass_slots_get(m: &PassSlots, key: u64) -> (r: Option<&VirtualRenderPass>)
    ensures
        pass_slots(*m).contains_key(key) ==> r == Some(&pass_slots(*m)[key]),
        !pass_slots(*m).contains_key(key) && crate::handles::is_live_key(key) ==> r is None,
{
    m.inner.get(DefaultKey::from(KeyData::from_ffi(key)))
}

/// `SlotMap::get_mut`, then an assignment: replaces the pass under `key`.
#[verifier::external_body]
fn pass_slots_set(m: &mut PassSlots, key: u64, v: VirtualRenderPass)
    requires
        pass_slots(*old(m)).contains_key(key),
    ensures
        pass_slots(*final(m)) == pass_slots(*old(m)).insert(key, v),
{
    if let Some(slot) = m.inner.get_mut(DefaultKey::from(KeyData::from_ffi(key))) {
        *slot = v;
    }
}

/// The textures of a render graph, in a slot map.
#[verifier::external_body]
pub struct ResourceSlots {
    inner: SlotMap<DefaultKey, VirtualTextureResource>,
}

/// The textures held, by key value.
pub uninterp spec fn resource_slots(m: ResourceSlots) -> Map<u64, VirtualTextureResource>;

/// `SlotMap::new`: an empty map.
#[verifier::external_body]
fn resource_slots_new() -> (r: ResourceSlots)
    ensures
        resource_slots(r) =~= Map::empty(),
{
    ResourceSlots { inner: SlotMap::new() }
}

/// `SlotMap::insert`: stores `v` under a key that was not in use, and returns
/// the key's value. It panics only when the map holds `u32::MAX - 1` slots;
/// this map never removes, so its slots are its entries.
#[verifier::external_body]
fn resource_slots_insert(m: &mut ResourceSlots, v: VirtualTextureResource) -> (k: u64)
    requires
        resource_slots(*old(m)).len() + 2 < 0x1_0000_0000,
    ensures
        crate::handles::is_live_key(k),
        !resource_slots(*old(m)).contains_key(k),
        resource_slots(*final(m)) == resource_slots(*old(m)).insert(k, v),
{
    slotmap::Key::data(&m.inner.insert(v)).as_ffi()
}

/// `SlotMap::get`: the texture under `key`. A live key that is not in the
/// map finds nothing.
#[verifier::external_body]
fn resource_slots_get(m: &ResourceSlots, key: u64) -> (r: Option<&VirtualTextureResource>)
    ensures
        resource_slots(*m).contains_key(key) ==> r == Some(&resource_slots(*m)[key]),
        !resource_slots(*m).contains_key(key) && crate::handles::is_live_key(key) ==> r is None,
{
    m.inner.get(DefaultKey::from(KeyData::from_ffi(key)))
}

/// `SlotMap::get_mut`, then an assignment: replaces the texture under `key`.
#[verifier::external_body]
fn resource_slots_set(m: &mut ResourceSlots, key: u64, v: VirtualTextureResource)
    requires
        resource_slots(*old(m)).contains_key(key),
    ensures
        resource_slots(*final(m)) == resource_slots(*old(m)).insert(key, v),
{
    if let Some(slot) = m.inner.get_mut(DefaultKey::from(KeyData::from_ffi(key))) {
        *slot = v;
    }
}

/// `SlotMap::keys`: the keys of the textures, each once, in increasing slot index
/// (the order in which the map walks its slots).
#[verifier::external_body]
fn resource_slots_keys(m: &ResourceSlots) -> (r: Vec<u64>)
    ensures
        r@.no_duplicates(),
        r@.to_set() == resource_slots(*m).dom(),
        forall|i: int, j: int| 0 <= i < j < r@.len() ==> crate::handles::slot_index(#[trigger] r@[i]) < crate::handles::slot_index(#[trigger] r@[j]),
{
    m.inner.keys().map(|k| slotmap::Key::data(&k).as_ffi()).collect()
}

/// A name table whose entries are exactly the keys of `dom`, one key per
/// name.
pub open spec fn table_matches(table: Map<Seq<char>, u64>, dom: Set<u64>) -> bool {
    &&& forall|n: Seq<char>| #[trigger] table.contains_key(n) ==> dom.contains(table[n])
    &&& forall|k: u64| dom.contains(k) ==> exists|n: Seq<char>| #[trigger] table.contains_key(n) && table[n] == k
    &&& forall|n1: Seq<char>, n2: Seq<char>|
        #[trigger] table.contains_key(n1) && #[trigger] table.contains_key(n2) && table[n1] == table[n2] ==> n1 == n2
}

/// The passes of a render graph, found by name.
pub struct RenderPassTracker {
    pass_to_handle: NameTable<u64>,
    passes: PassSlots,
}

impl RenderPassTracker {
    pub closed spec fn names(&self) -> Map<Seq<char>, u64> {
        self.pass_to_handle.view()
    }

    pub closed spec fn passes(&self) -> Map<u64, VirtualRenderPass> {
        pass_slots(self.passes)
    }

    /// Every named pass is held and every held pass is named, once.
    pub closed spec fn wf(&self) -> bool {
        &&& self.pass_to_handle.wf()
        &&& self.passes().dom().finite()
        &&& table_matches(self.names(), self.passes().dom())
        &&& forall|k: u64| #[trigger] self.passes().contains_key(k) ==> crate::handles::is_live_key(k)
    }

    /// A tracker with no pass.
    pub fn new() -> (r: Self)
        ensures
            r.wf(),
            r.names() == Map::<Seq<char>, u64>::empty(),
            r.passes() == Map::<u64, VirtualRenderPass>::empty(),
    {
        RenderPassTracker { pass_to_handle: NameTable::new(), passes: pass_slots_new() }
    }

    /// The handle of the pass named `name`, created empty if there is none.
    pub fn get_render_pass(&mut self, name: &str) -> (r: VirtualRenderPassHandle)
        requires
            old(self).wf(),
            old(self).passes().len() + 2 < 0x1_0000_0000,
        ensures
            final(self).wf(),
            old(self).names().contains_key(name@) ==> {
                &&& r.key == old(self).names()[name@]
                &&& final(self).names() == old(self).names()
                &&& final(self).passes() == old(self).passes()
            },
            !old(self).names().contains_key(name@) ==> {
                &&& !old(self).passes().contains_key(r.key)
                &&& final(self).names() == old(self).names().insert(name@, r.key)
                &&& final(self).passes().len() == old(self).passes().len() + 1
                &&& final(self).passes().contains_key(r.key)
                &&& final(self).passes()[r.key].name@ == Seq::<char>::empty()
                &&& final(self).passes()[r.key].color_attachments@.len() == 0
                &&& final(self).passes()[r.key].depth_attachment is None
                &&& final(self).passes()[r.key].texture_inputs@.len() == 0
                &&& forall|k: u64| old(self).passes().contains_key(k) ==> #[trigger] final(self).passes()[k] == old(self).passes()[k]
                &&& forall|k: u64| #[trigger] final(self).passes().contains_key(k) <==> (old(self).passes().contains_key(k) || k == r.key)
            },
    {
        match self.pass_to_handle.get(name) {
            Some(key) => VirtualRenderPassHandle { key },
            None => {
                let ghost old_names = self.names();
                let ghost old_passes = self.passes();
                let key = pass_slots_insert(&mut self.passes, VirtualRenderPass::new());
                self.pass_to_handle.insert_new(name, key);
                proof {
                    lemma_table_extend(old_names, old_passes.dom(), name@, key);
                    assert(self.passes().dom() =~= old_passes.dom().insert(key));
                }
                VirtualRenderPassHandle { key }
            },
        }
    }

    /// Replaces the pass under `handle`.
    fn store(&mut self, handle: VirtualRenderPassHandle, v: VirtualRenderPass)
        requires
            old(self).wf(),
            old(self).passes().contains_key(handle.key),
        ensures
            final(self).wf(),
            final(self).names() == old(self).names(),
            final(self).passes() == old(self).passes().insert(handle.key, v),
    {
        let ghost old_p = self.passes();
        pass_slots_set(&mut self.passes, handle.key, v);
        proof {
            assert(self.passes().dom() =~= old_p.dom());
        }
    }

    /// The pass under `handle`.
    pub fn retrieve_render_pass(&self, handle: VirtualRenderPassHandle) -> (r: &VirtualRenderPass)
        requires
            self.passes().contains_key(handle.key),
        ensures
            *r == self.passes()[handle.key],
    {
        match pass_slots_get(&self.passes, handle.key) {
            Some(p) => p,
            None => {
                assert(false);
                vstd::pervasive::unreached()
            },
        }
    }
}

proof fn lemma_table_extend(table: Map<Seq<char>, u64>, dom: Set<u64>, n: Seq<char>, k: u64)
    requires
        table_matches(table, dom),
        !table.contains_key(n),
        !dom.contains(k),
    ensures
        table_matches(table.insert(n, k), dom.insert(k)),
{
    let t = table.insert(n, k);
    let d = dom.insert(k);
    assert forall|k2: u64| d.contains(k2) implies exists|n2: Seq<char>| #[trigger] t.contains_key(n2) && t[n2] == k2 by {
        if k2 == k {
            assert(t.contains_key(n) && t[n] == k);
        } else {
            let n2 = choose|n2: Seq<char>| #[trigger] table.contains_key(n2) && table[n2] == k2;
            assert(t.contains_key(n2) && t[n2] == k2);
        }
    }
}

/// The textures of a render graph, found by name.
pub struct RenderResourceTracker {
    resource_to_handle: NameTable<u64>,
    resources: ResourceSlots,
}

impl RenderResourceTracker {
    pub closed spec fn names(&self) -> Map<Seq<char>, u64> {
        self.resource_to_handle.view()
    }

    pub closed spec fn resources(&self) -> Map<u64, VirtualTextureResource> {
        resource_slots(self.resources)
    }

    /// Every named texture is held and carries its name, and every held
    /// texture is named, once.
    pub closed spec fn wf(&self) -> bool {
        &&& self.resource_to_handle.wf()
        &&& self.resources().dom().finite()
        &&& table_matches(self.names(), self.resources().dom())
        &&& forall|n: Seq<char>| #[trigger] self.names().contains_key(n)
            ==> self.resources()[self.names()[n]].resource_name() == n
        &&& forall|k: u64| #[trigger] self.resources().contains_key(k) ==> crate::handles::is_live_key(k)
    }

    /// A tracker with no texture.
    pub fn new() -> (r: Self)
        ensures
            r.wf(),
            r.names() == Map::<Seq<char>, u64>::empty(),
            r.resources() == Map::<u64, VirtualTextureResource>::empty(),
    {
        RenderResourceTracker { resource_to_handle: NameTable::new(), resources: resource_slots_new() }
    }

    /// The handle of the texture named `name`, created with that name and
    /// nothing else if there is none.
    pub fn get_texture_resource(&mut self, name: &str) -> (r: VirtualTextureResourceHandle)
        requires
            old(self).wf(),
            old(self).resources().len() + 2 < 0x1_0000_0000,
        ensures
            final(self).wf(),
            final(self).names() == old(self).names().insert(name@, r.key),
            final(self).names().contains_key(name@),
            old(self).names().contains_key(name@) ==> {
                &&& r.key == old(self).names()[name@]
                &&& final(self).resources() == old(self).resources()
            },
            !old(self).names().contains_key(name@) ==> {
                &&& !old(self).resources().contains_key(r.key)
                &&& final(self).resources() == old(self).resources().insert(r.key, final(self).resources()[r.key])
                &&& final(self).resources().len() == old(self).resources().len() + 1
                &&& final(self).resources()[r.key].resource_name() == name@
                &&& final(self).resources()[r.key].info() == (AttachmentInfo { size: SizeClass::SwapchainRelative, format: FORMAT_UNDEFINED })
                &&& final(self).resources()[r.key].read_passes().len() == 0
                &&& final(self).resources()[r.key].write_passes().len() == 0
                &&& final(self).resources()[r.key].usage() == 0
            },
    {
        match self.resource_to_handle.get(name) {
            Some(key) => {
                proof {
                    assert(self.names().insert(name@, key) =~= self.names());
                }
                VirtualTextureResourceHandle { key }
            },
            None => {
                let ghost old_names = self.names();
                let ghost old_res = self.resources();
                let mut resource = VirtualTextureResource::new();
                resource.set_name(name);
                let key = resource_slots_insert(&mut self.resources, resource);
                self.resource_to_handle.insert_new(name, key);
                proof {
                    lemma_table_extend(old_names, old_res.dom(), name@, key);
                    assert(self.resources().dom() =~= old_res.dom().insert(key));
                    assert forall|n: Seq<char>| #[trigger] self.names().contains_key(n)
                        implies self.resources()[self.names()[n]].resource_name() == n by {
                        if n != name@ {
                            assert(old_names.contains_key(n));
                            assert(old_res.contains_key(old_names[n]));
                        }
                    }
                }
                VirtualTextureResourceHandle { key }
            },
        }
    }

    /// The texture under `handle`.
    pub fn retrieve_resource(&self, handle: VirtualTextureResourceHandle) -> (r: &VirtualTextureResource)
        requires
            self.resources().contains_key(handle.key),
        ensures
            *r == self.resources()[handle.key],
    {
        match resource_slots_get(&self.resources, handle.key) {
            Some(p) => p,
            None => {
                assert(false);
                vstd::pervasive::unreached()
            },
        }
    }

    /// Replaces the texture under `handle`, which keeps its name.
    fn store(&mut self, handle: VirtualTextureResourceHandle, v: VirtualTextureResource)
        requires
            old(self).wf(),
            old(self).resources().contains_key(handle.key),
            v.resource_name() == old(self).resources()[handle.key].resource_name(),
        ensures
            final(self).wf(),
            final(self).names() == old(self).names(),
            final(self).resources() == old(self).resources().insert(handle.key, v),
    {
        let ghost old_res = self.resources();
        resource_slots_set(&mut self.resources, handle.key, v);
        proof {
            assert(self.resources().dom() =~= old_res.dom());
            assert forall|n: Seq<char>| #[trigger] self.names().contains_key(n)
                implies self.resources()[self.names()[n]].resource_name() == n by {
                assert(old_res.contains_key(self.names()[n]));
            }
        }
    }

    /// Applies one touch by pass `pass` to the texture named `name`,
    /// declaring it first if it is new.
    fn touch(
        &mut self,
        name: &str,
        usage: u32,
        write: bool,
        info: Option<AttachmentInfo>,
        pass: VirtualRenderPassHandle,
    ) -> (r: VirtualTextureResourceHandle)
        requires
            old(self).wf(),
            old(self).resources().len() + 2 < 0x1_0000_0000,
        ensures
            final(self).wf(),
            final(self).names() == old(self).names().insert(name@, r.key),
            old(self).names().contains_key(name@) ==> r.key == old(self).names()[name@],
            !old(self).names().contains_key(name@) ==> !old(self).resources().contains_key(r.key),
            final(self).resources().dom() == old(self).resources().dom().insert(r.key),
            final(self).resources()[r.key].resource_name() == name@,
            resource_model(final(self).resources()[r.key]) == apply_touch(
                if old(self).resources().contains_key(r.key) {
                    resource_model(old(self).resources()[r.key])
                } else {
                    fresh_model()
                },
                (name@, usage, write, info),
                pass,
            ),
            forall|k: u64| k != r.key && old(self).resources().contains_key(k)
                ==> #[trigger] final(self).resources()[k] == old(self).resources()[k],
    {
        let handle = self.get_texture_resource(name);
        let mut resource = self.retrieve_resource(handle).duplicate();
        resource.set_image_usage(usage);
        if write {
            resource.write_in_pass(pass);
        } else {
            resource.read_in_pass(pass);
        }
        match info {
            Some(i) => resource.set_attachment_info(i),
            None => {},
        }
        proof {
            assert(self.names().contains_key(name@));
        }
        self.store(handle, resource);
        proof {
            assert(self.resources().dom() =~= old(self).resources().dom().insert(handle.key));
        }
        handle
    }

    /// The handles of all textures, each once, in increasing slot index.
    pub fn handles(&self) -> (r: Vec<VirtualTextureResourceHandle>)
        ensures
            r@.no_duplicates(),
            forall|a: int, b: int| 0 <= a < b < r.len() ==> crate::handles::slot_index(#[trigger] r@[a].key)
                < crate::handles::slot_index(#[trigger] r@[b].key),
            forall|i: int| 0 <= i < r.len() ==> self.resources().contains_key(#[trigger] r@[i].key),
            forall|k: u64| self.resources().contains_key(k) ==> exists|i: int| 0 <= i < r.len() && #[trigger] r@[i].key == k,
    {
        let keys = resource_slots_keys(&self.resources);
        let mut out: Vec<VirtualTextureResourceHandle> = Vec::new();
        let mut i: usize = 0;
        while i < keys.len()
            invariant
                i <= keys.len(),
                out.len() == i,
                forall|j: int| 0 <= j < i ==> #[trigger] out@[j].key == keys@[j],
            decreases keys.len() - i,
        {
            out.push(VirtualTextureResourceHandle { key: keys[i] });
            i = i + 1;
        }
        proof {
            assert forall|a: int, b: int| 0 <= a < out.len() && 0 <= b < out.len() && a != b implies out@[a] != out@[b] by {
                assert(out@[a].key == keys@[a]);
                assert(out@[b].key == keys@[b]);
                assert(keys@[a] != keys@[b]);
            }
            assert forall|i: int| 0 <= i < out.len() implies self.resources().contains_key(#[trigger] out@[i].key) by {
                assert(keys@.to_set().contains(keys@[i]));
            }
            assert forall|a: int, b: int| 0 <= a < b < out.len() implies crate::handles::slot_index(#[trigger] out@[a].key)
                < crate::handles::slot_index(#[trigger] out@[b].key) by {
                assert(out@[a].key == keys@[a]);
                assert(out@[b].key == keys@[b]);
            }
            assert forall|k: u64| self.resources().contains_key(k) implies exists|i: int| 0 <= i < out.len() && #[trigger] out@[i].key == k by {
                assert(keys@.to_set().contains(k));
                let i = choose|i: int| 0 <= i < keys.len() && keys@[i] == k;
                assert(out@[i].key == k);
            }
        }
        out
    }
}

/// A copy of a list of handles.
fn copy_pass_handles(v: &Vec<VirtualRenderPassHandle>) -> (r: Vec<VirtualRenderPassHandle>)
    ensures
        r@ == v@,
{
    let mut out: Vec<VirtualRenderPassHandle> = Vec::new();
    let mut i: usize = 0;
    while i < v.len()
        invariant
            i <= v.len(),
            out@ == v@.take(i as int),
        decreases v.len() - i,
    {
        out.push(v[i]);
        proof {
            assert(v@.take(i as int + 1) =~= v@.take(i as int).push(v@[i as int]));
        }
        i = i + 1;
    }
    proof {
        assert(v@.take(v.len() as int) =~= v@);
    }
    out
}

/// A copy of a list of handles.
fn copy_resource_handles(v: &Vec<VirtualTextureResourceHandle>) -> (r: Vec<VirtualTextureResourceHandle>)
    ensures
        r@ == v@,
{
    let mut out: Vec<VirtualTextureResourceHandle> = Vec::new();
    let mut i: usize = 0;
    while i < v.len()
        invariant
            i <= v.len(),
            out@ == v@.take(i as int),
        decreases v.len() - i,
    {
        out.push(v[i]);
        proof {
            assert(v@.take(i as int + 1) =~= v@.take(i as int).push(v@[i as int]));
        }
        i = i + 1;
    }
    proof {
        assert(v@.take(v.len() as int) =~= v@);
    }
    out
}

impl VirtualTextureResource {
    /// A copy of the resource.
    pub fn duplicate(&self) -> (r: Self)
        ensures
            r.resource_name() == self.resource_name(),
            r.info() == self.info(),
            r.usage() == self.usage(),
            r.read_passes() == self.read_passes(),
            r.write_passes() == self.write_passes(),
    {
        VirtualTextureResource {
            name: self.name.clone(),
            attachment_info: self.attachment_info,
            written_in_passes: copy_pass_handles(&self.written_in_passes),
            read_in_passes: copy_pass_handles(&self.read_in_passes),
            usage: self.usage,
        }
    }
}

impl VirtualRenderPass {
    /// A copy of the pass.
    pub fn duplicate(&self) -> (r: Self)
        ensures
            r.name@ == self.name@,
            r.color_attachments@ == self.color_attachments@,
            r.depth_attachment == self.depth_attachment,
            r.texture_inputs@ == self.texture_inputs@,
    {
        VirtualRenderPass {
            name: self.name.clone(),
            color_attachments: copy_resource_handles(&self.color_attachments),
            depth_attachment: self.depth_attachment,
            texture_inputs: copy_resource_handles(&self.texture_inputs),
        }
    }
}

/// What a pass declares: the textures it renders to, with their size and
/// format, and the textures it samples, all by name.
pub struct RenderPassLayout {
    pub color_attachments: Vec<(String, AttachmentInfo)>,
    pub depth_attachment: Option<(String, AttachmentInfo)>,
    pub texture_inputs: Vec<String>,
}

impl RenderPassLayout {
    /// A layout that declares nothing.
    pub fn new() -> (r: Self)
        ensures
            r.color_attachments@.len() == 0,
            r.depth_attachment is None,
            r.texture_inputs@.len() == 0,
    {
        RenderPassLayout { color_attachments: Vec::new(), depth_attachment: None, texture_inputs: Vec::new() }
    }

    /// Adds a colour attachment after the present ones.
    pub fn add_color_attachment(self, name: &str, info: &AttachmentInfo) -> (r: Self)
        ensures
            r.color_attachments@.len() == self.color_attachments@.len() + 1,
            r.color_attachments@.drop_last() == self.color_attachments@,
            r.color_attachments@.last().0@ == name@,
            r.color_attachments@.last().1 == *info,
            r.depth_attachment == self.depth_attachment,
            r.texture_inputs@ == self.texture_inputs@,
    {
        let mut s = self;
        s.color_attachments.push((name.to_owned(), *info));
        proof {
            assert(s.color_attachments@.drop_last() =~= self.color_attachments@);
        }
        s
    }

    /// Sets the depth attachment.
    pub fn set_depth_stencil_attachment(self, name: &str, info: &AttachmentInfo) -> (r: Self)
        ensures
            r.color_attachments@ == self.color_attachments@,
            r.depth_attachment matches Some(d) && d.0@ == name@ && d.1 == *info,
            r.texture_inputs@ == self.texture_inputs@,
    {
        let mut s = self;
        s.depth_attachment = Some((name.to_owned(), *info));
        s
    }

    /// Adds a sampled texture after the present ones.
    pub fn add_texture_input(self, name: &str) -> (r: Self)
        ensures
            r.color_attachments@ == self.color_attachments@,
            r.depth_attachment == self.depth_attachment,
            r.texture_inputs@.len() == self.texture_inputs@.len() + 1,
            r.texture_inputs@.drop_last() == self.texture_inputs@,
            r.texture_inputs@.last()@ == name@,
    {
        let mut s = self;
        s.texture_inputs.push(name.to_owned());
        proof {
            assert(s.texture_inputs@.drop_last() =~= self.texture_inputs@);
        }
        s
    }
}

/// How a pass touches one texture: its name, the usage it adds, whether the
/// pass writes it (or reads it), and the size and format it sets.
pub type Touch = (Seq<char>, u32, bool, Option<AttachmentInfo>);

/// What the graph records of a texture: writing passes, reading passes,
/// usage and size/format.
pub type ResourceModel = (Seq<VirtualRenderPassHandle>, Seq<VirtualRenderPassHandle>, u32, AttachmentInfo);

/// What the graph records of the texture `r`.
pub open spec fn resource_model(r: VirtualTextureResource) -> ResourceModel {
    (r.write_passes(), r.read_passes(), r.usage(), r.info())
}

/// A texture that has just been declared.
pub open spec fn fresh_model() -> ResourceModel {
    (Seq::empty(), Seq::empty(), 0, AttachmentInfo { size: SizeClass::SwapchainRelative, format: FORMAT_UNDEFINED })
}

/// The effect of one touch by pass `h`.
pub open spec fn apply_touch(m: ResourceModel, t: Touch, h: VirtualRenderPassHandle) -> ResourceModel {
    (
        if t.2 { m.0.push(h) } else { m.0 },
        if t.2 { m.1 } else { m.1.push(h) },
        m.2 | t.1,
        match t.3 {
            Some(info) => info,
            None => m.3,
        },
    )
}

/// The effect of the touches `ts` by pass `h`, in order.
pub open spec fn apply_touches(m: ResourceModel, ts: Seq<Touch>, h: VirtualRenderPassHandle) -> ResourceModel
    decreases ts.len(),
{
    if ts.len() == 0 {
        m
    } else {
        apply_touch(apply_touches(m, ts.drop_last(), h), ts.last(), h)
    }
}

/// The touches of the textures named by `name`.
pub open spec fn touches_of(ts: Seq<Touch>, name: Seq<char>) -> Seq<Touch> {
    ts.filter(names_touch(name))
}

/// Whether a touch is of the texture named `name`.
pub open spec fn names_touch(name: Seq<char>) -> spec_fn(Touch) -> bool {
    |t: Touch| t.0 == name
}

/// The touches a pass declared by `l` makes, in the order they are applied:
/// colour attachments, then the depth attachment, then sampled inputs.
pub open spec fn layout_touches(l: RenderPassLayout) -> Seq<Touch> {
    l.color_attachments@.map_values(|c: (String, AttachmentInfo)| (c.0@, crate::vkflags::USAGE_COLOR_ATTACHMENT, true, Some(c.1)))
        + depth_touches(l)
        + l.texture_inputs@.map_values(|n: String| (n@, crate::vkflags::USAGE_SAMPLED, false, None::<AttachmentInfo>))
}

/// The touch of a layout's depth attachment, if it has one.
pub open spec fn depth_touches(l: RenderPassLayout) -> Seq<Touch> {
    match l.depth_attachment {
        Some(d) => seq![(d.0@, crate::vkflags::USAGE_DEPTH_STENCIL_ATTACHMENT, true, Some(d.1))],
        None => Seq::empty(),
    }
}

/// The handles that `names` gives the names `ns`.
pub open spec fn handles_for(names: Map<Seq<char>, u64>, ns: Seq<Seq<char>>) -> Seq<VirtualTextureResourceHandle> {
    ns.map_values(|n: Seq<char>| VirtualTextureResourceHandle { key: names[n] })
}

/// The names of a layout's colour attachments.
pub open spec fn colour_names(l: RenderPassLayout) -> Seq<Seq<char>> {
    l.color_attachments@.map_values(|c: (String, AttachmentInfo)| c.0@)
}

/// The names of a layout's sampled inputs.
pub open spec fn input_names(l: RenderPassLayout) -> Seq<Seq<char>> {
    l.texture_inputs@.map_values(|n: String| n@)
}

/// No touch of `ts` names `n`.
proof fn lemma_touches_of_absent(ts: Seq<Touch>, n: Seq<char>)
    requires
        forall|j: int| 0 <= j < ts.len() ==> #[trigger] ts[j].0 != n,
    ensures
        touches_of(ts, n) == Seq::<Touch>::empty(),
    decreases ts.len(),
{
    if ts.len() > 0 {
        lemma_touches_of_absent(ts.drop_last(), n);
        ts.drop_last().lemma_filter_push(ts.last(), names_touch(n));
        assert(ts.drop_last().push(ts.last()) =~= ts);
    }
}

/// Taking one more touch adds it to the touches of its name and to no other.
proof fn lemma_touches_of_step(ts: Seq<Touch>, i: int, n: Seq<char>)
    requires
        0 <= i < ts.len(),
    ensures
        touches_of(ts.take(i + 1), n) == (if ts[i].0 == n {
            touches_of(ts.take(i), n).push(ts[i])
        } else {
            touches_of(ts.take(i), n)
        }),
{
    assert(ts.take(i + 1) =~= ts.take(i).push(ts[i]));
    ts.take(i).lemma_filter_push(ts[i], names_touch(n));
}

/// The model a texture of the graph starts from before a pass touches it.
pub open spec fn base_model(old: Map<u64, VirtualTextureResource>, k: u64) -> ResourceModel {
    if old.contains_key(k) {
        resource_model(old[k])
    } else {
        fresh_model()
    }
}

/// A physical pass: the images it renders to, the size of its render area,
/// and the barriers to record before it.
pub struct PhysicalRenderPass {
    pub colour_images: Vec<ImageHandle>,
    pub depth_image: Option<ImageHandle>,
    /// The size of the last attachment, if the pass has any.
    pub extent: Option<(u32, u32)>,
    pub barriers: Vec<ImageBarrier>,
}

/// A render graph: passes in the order they are declared, the textures
/// they use, and once baked, the images and barriers of each pass.
pub struct RenderList {
    passes: RenderPassTracker,
    resource: RenderResourceTracker,
    order_of_passes: Vec<VirtualRenderPassHandle>,
    physical_passes: HashMap<u64, PhysicalRenderPass>,
    physical_images: HashMap<u64, ImageHandle>,
    swapchain_size: (u32, u32),
}

impl RenderList {
    pub closed spec fn pass_names(&self) -> Map<Seq<char>, u64> {
        self.passes.names()
    }

    pub closed spec fn passes(&self) -> Map<u64, VirtualRenderPass> {
        self.passes.passes()
    }

    pub closed spec fn resource_names(&self) -> Map<Seq<char>, u64> {
        self.resource.names()
    }

    pub closed spec fn resources(&self) -> Map<u64, VirtualTextureResource> {
        self.resource.resources()
    }

    pub closed spec fn order(&self) -> Seq<VirtualRenderPassHandle> {
        self.order_of_passes@
    }

    pub closed spec fn swapchain(&self) -> (u32, u32) {
        self.swapchain_size
    }

    pub closed spec fn images(&self) -> Map<u64, ImageHandle> {
        self.physical_images@
    }

    pub closed spec fn physical(&self) -> Map<u64, PhysicalRenderPass> {
        self.physical_passes@
    }

    /// Well-formedness: the passes in order are declared, and every texture
    /// a pass names is declared.
    pub closed spec fn wf(&self) -> bool {
        &&& self.passes.wf()
        &&& self.resource.wf()
        &&& forall|i: int| 0 <= i < self.order_of_passes@.len() ==> self.passes().contains_key(#[trigger] self.order_of_passes@[i].key)
        &&& forall|k: u64| #[trigger] self.passes().contains_key(k) ==> pass_refs_declared(self.passes()[k], self.resources())
    }

    /// An empty graph for a swapchain of the given size.
    pub fn new(swapchain_size: (u32, u32)) -> (r: Self)
        ensures
            r.wf(),
            r.swapchain() == swapchain_size,
            r.passes() == Map::<u64, VirtualRenderPass>::empty(),
            r.resources() == Map::<u64, VirtualTextureResource>::empty(),
            r.order() == Seq::<VirtualRenderPassHandle>::empty(),
            r.pass_names() == Map::<Seq<char>, u64>::empty(),
            r.resource_names() == Map::<Seq<char>, u64>::empty(),
            r.images() == Map::<u64, ImageHandle>::empty(),
            r.physical() == Map::<u64, PhysicalRenderPass>::empty(),
            uses_recorded(r.passes(), r.resources(), r.order()),
            records_declared(r.passes(), r.resources()),
    {
        RenderList {
            passes: RenderPassTracker::new(),
            resource: RenderResourceTracker::new(),
            order_of_passes: Vec::new(),
            physical_passes: HashMap::new(),
            physical_images: HashMap::new(),
            swapchain_size,
        }
    }
}

/// Every texture that pass `p` names is declared in `res`.
pub open spec fn pass_refs_declared(p: VirtualRenderPass, res: Map<u64, VirtualTextureResource>) -> bool {
    &&& forall|i: int| 0 <= i < p.color_attachments@.len() ==> res.contains_key(#[trigger] p.color_attachments@[i].key)
    &&& forall|i: int| 0 <= i < p.texture_inputs@.len() ==> res.contains_key(#[trigger] p.texture_inputs@[i].key)
    &&& match p.depth_attachment {
        Some(d) => res.contains_key(d.key),
        None => true,
    }
}

/// The names of a list of touches.
pub open spec fn touch_name_seq(ts: Seq<Touch>) -> Seq<Seq<char>> {
    ts.map_values(|t: Touch| t.0)
}

/// The colour attachments of pass `k` before a pass adds to it.
pub open spec fn base_colours(p: Map<u64, VirtualRenderPass>, k: u64) -> Seq<VirtualTextureResourceHandle> {
    if p.contains_key(k) { p[k].color_attachments@ } else { Seq::empty() }
}

/// The sampled inputs of pass `k` before a pass adds to it.
pub open spec fn base_inputs(p: Map<u64, VirtualRenderPass>, k: u64) -> Seq<VirtualTextureResourceHandle> {
    if p.contains_key(k) { p[k].texture_inputs@ } else { Seq::empty() }
}

/// The depth attachment of pass `k` before a pass sets it.
pub open spec fn base_depth(p: Map<u64, VirtualRenderPass>, k: u64) -> Option<VirtualTextureResourceHandle> {
    if p.contains_key(k) { p[k].depth_attachment } else { None }
}

/// What the loops of `add_pass` keep of the textures after `g` touches.
spec fn touched_state(
    tracker: RenderResourceTracker,
    old_names: Map<Seq<char>, u64>,
    old_res: Map<u64, VirtualTextureResource>,
    ts: Seq<Touch>,
    g: int,
    h: VirtualRenderPassHandle,
) -> bool {
    &&& tracker.wf()
    &&& 0 <= g <= ts.len()
    &&& tracker.resources().len() <= old_res.len() + g
    &&& forall|n: Seq<char>| #[trigger] tracker.names().contains_key(n) <==> (old_names.contains_key(n) || touch_name_seq(ts.take(g)).contains(n))
    &&& forall|n: Seq<char>| #[trigger] old_names.contains_key(n) ==> tracker.names()[n] == old_names[n]
    &&& forall|k: u64| #[trigger] old_res.contains_key(k) ==> tracker.resources().contains_key(k)
        && tracker.resources()[k].resource_name() == old_res[k].resource_name()
    &&& forall|k: u64| #[trigger] tracker.resources().contains_key(k) ==> resource_model(tracker.resources()[k])
        == apply_touches(base_model(old_res, k), touches_of(ts.take(g), tracker.resources()[k].resource_name()), h)
}

/// One more touch keeps the state of the loops of `add_pass`.
proof fn lemma_touched_step(
    before: RenderResourceTracker,
    after: RenderResourceTracker,
    old_names: Map<Seq<char>, u64>,
    old_res: Map<u64, VirtualTextureResource>,
    ts: Seq<Touch>,
    g: int,
    h: VirtualRenderPassHandle,
    key: u64,
)
    requires
        touched_state(before, old_names, old_res, ts, g, h),
        g < ts.len(),
        after.wf(),
        after.names() == before.names().insert(ts[g].0, key),
        before.names().contains_key(ts[g].0) ==> key == before.names()[ts[g].0],
        !before.names().contains_key(ts[g].0) ==> !before.resources().contains_key(key),
        after.resources().dom() == before.resources().dom().insert(key),
        after.resources()[key].resource_name() == ts[g].0,
        resource_model(after.resources()[key]) == apply_touch(
            if before.resources().contains_key(key) { resource_model(before.resources()[key]) } else { fresh_model() },
            ts[g],
            h,
        ),
        forall|k: u64| k != key && before.resources().contains_key(k) ==> #[trigger] after.resources()[k] == before.resources()[k],
        before.resources().dom().finite(),
    ensures
        touched_state(after, old_names, old_res, ts, g + 1, h),
        forall|n: Seq<char>| #[trigger] before.names().contains_key(n) ==> after.names()[n] == before.names()[n],
{
    let n = ts[g].0;
    assert(ts.take(g + 1) =~= ts.take(g).push(ts[g]));
    assert(touch_name_seq(ts.take(g + 1)) =~= touch_name_seq(ts.take(g)).push(n));
    assert forall|m: Seq<char>| #[trigger] after.names().contains_key(m) <==> (old_names.contains_key(m) || touch_name_seq(ts.take(g + 1)).contains(m)) by {
        if touch_name_seq(ts.take(g)).contains(m) {
            let a = touch_name_seq(ts.take(g));
            let j = choose|j: int| 0 <= j < a.len() && #[trigger] a[j] == m;
            assert(touch_name_seq(ts.take(g + 1))[j] == m);
        }
        if touch_name_seq(ts.take(g + 1)).contains(m) && m != n {
            let b = touch_name_seq(ts.take(g + 1));
            let j = choose|j: int| 0 <= j < b.len() && #[trigger] b[j] == m;
            assert(touch_name_seq(ts.take(g))[j] == m);
        }
        if m == n {
            assert(touch_name_seq(ts.take(g + 1))[g] == m);
        }
    }
    assert forall|m: Seq<char>| #[trigger] before.names().contains_key(m) implies after.names()[m] == before.names()[m] by {
        if m == n {
            assert(key == before.names()[n]);
        }
    }
    assert(after.resources().len() <= old_res.len() + g + 1) by {
        assert(after.resources().dom() == before.resources().dom().insert(key));
    }
    assert forall|k: u64| #[trigger] old_res.contains_key(k) implies after.resources().contains_key(k)
        && after.resources()[k].resource_name() == old_res[k].resource_name() by {
        if k == key {
            // the key was declared before: its name is `n` already
            assert(before.resources().contains_key(k));
            let m = choose|m: Seq<char>| #[trigger] before.names().contains_key(m) && before.names()[m] == k;
            assert(before.resources()[before.names()[m]].resource_name() == m);
            if !before.names().contains_key(n) {
                assert(false);
            }
            assert(before.names()[n] == k);
            assert(m == n);
        }
    }
    assert forall|k: u64| #[trigger] after.resources().contains_key(k) implies resource_model(after.resources()[k])
        == apply_touches(base_model(old_res, k), touches_of(ts.take(g + 1), after.resources()[k].resource_name()), h) by {
        let kn = after.resources()[k].resource_name();
        lemma_touches_of_step(ts, g, kn);
        if k == key {
            if before.resources().contains_key(k) {
                assert(before.names().contains_key(n));
                assert(before.resources()[before.names()[n]].resource_name() == n);
                let prev = touches_of(ts.take(g), n);
                assert(prev.push(ts[g]).drop_last() =~= prev);
                assert(touches_of(ts.take(g + 1), n) == prev.push(ts[g]));
            } else {
                // a new texture: no earlier touch names it
                assert(!before.names().contains_key(n));
                assert forall|j: int| 0 <= j < ts.take(g).len() implies #[trigger] ts.take(g)[j].0 != n by {
                    assert(touch_name_seq(ts.take(g))[j] == ts.take(g)[j].0);
                }
                lemma_touches_of_absent(ts.take(g), n);
                if old_res.contains_key(k) {
                    assert(before.resources().contains_key(k));
                }
                assert(!old_res.contains_key(k));
                assert(Seq::<Touch>::empty().push(ts[g]).drop_last() =~= Seq::<Touch>::empty());
                assert(apply_touches(base_model(old_res, k), Seq::<Touch>::empty().push(ts[g]), h) == apply_touch(
                    apply_touches(base_model(old_res, k), Seq::<Touch>::empty(), h), ts[g], h));
                assert(touches_of(ts.take(g + 1), n) == Seq::<Touch>::empty().push(ts[g]));
            }
        } else {
            assert(before.resources().contains_key(k));
            assert(after.resources()[k] == before.resources()[k]);
            let m = choose|m: Seq<char>| #[trigger] before.names().contains_key(m) && before.names()[m] == k;
            assert(before.resources()[before.names()[m]].resource_name() == m);
            if kn == n {
                assert(m == n);
                assert(before.names().contains_key(n));
                assert(key == k);
            }
        }
    }
}

impl RenderList {
    /// Declares the pass named `name` (or adds to it, if the name is taken):
    /// the pass renders to the colour and depth textures of `pass_layout`
    /// and samples its inputs. Each texture named is declared if new; its
    /// usage, size and format, and the passes that write and read it are
    /// updated, touch by touch. The pass is appended to the order of passes.
    pub fn add_pass(&mut self, name: &str, pass_layout: RenderPassLayout) -> (r: VirtualRenderPassHandle)
        requires
            old(self).wf(),
            old(self).passes().len() + 2 < 0x1_0000_0000,
            old(self).resources().len() + layout_touches(pass_layout).len() + 2 < 0x1_0000_0000,
        ensures
            final(self).wf(),
            old(self).pass_names().contains_key(name@) ==> r.key == old(self).pass_names()[name@],
            !old(self).pass_names().contains_key(name@) ==> !old(self).passes().contains_key(r.key),
            final(self).pass_names() == old(self).pass_names().insert(name@, r.key),
            final(self).order() == old(self).order().push(r),
            final(self).passes().dom() == old(self).passes().dom().insert(r.key),
            final(self).passes().len() <= old(self).passes().len() + 1,
            final(self).resources().len() <= old(self).resources().len() + layout_touches(pass_layout).len(),
            forall|k: u64| k != r.key && old(self).passes().contains_key(k)
                ==> #[trigger] final(self).passes()[k] == old(self).passes()[k],
            final(self).passes()[r.key].name@ == name@,
            final(self).passes()[r.key].color_attachments@ == base_colours(old(self).passes(), r.key)
                + handles_for(final(self).resource_names(), colour_names(pass_layout)),
            final(self).passes()[r.key].depth_attachment == (match pass_layout.depth_attachment {
                Some(d) => Some(VirtualTextureResourceHandle { key: final(self).resource_names()[d.0@] }),
                None => base_depth(old(self).passes(), r.key),
            }),
            final(self).passes()[r.key].texture_inputs@ == base_inputs(old(self).passes(), r.key)
                + handles_for(final(self).resource_names(), input_names(pass_layout)),
            forall|n: Seq<char>| #[trigger] final(self).resource_names().contains_key(n)
                <==> (old(self).resource_names().contains_key(n) || touch_name_seq(layout_touches(pass_layout)).contains(n)),
            forall|n: Seq<char>| #[trigger] old(self).resource_names().contains_key(n)
                ==> final(self).resource_names()[n] == old(self).resource_names()[n],
            forall|k: u64| #[trigger] final(self).resources().contains_key(k) ==> resource_model(final(self).resources()[k])
                == apply_touches(base_model(old(self).resources(), k), touches_of(layout_touches(pass_layout), final(self).resources()[k].resource_name()), r),
            final(self).images() == old(self).images(),
            final(self).physical() == old(self).physical(),
            final(self).swapchain() == old(self).swapchain(),
            uses_recorded(old(self).passes(), old(self).resources(), old(self).order())
                && records_declared(old(self).passes(), old(self).resources())
                && !old(self).pass_names().contains_key(name@)
                ==> uses_recorded(final(self).passes(), final(self).resources(), final(self).order())
                && records_declared(final(self).passes(), final(self).resources()),
    {
        let ghost ts = layout_touches(pass_layout);
        let ghost old_names = self.resource_names();
        let ghost old_res = self.resources();
        let ghost old_passes = self.passes();
        let ghost old_order = self.order_of_passes@;
        let pass_handle = self.passes.get_render_pass(name);
        proof {
            if old(self).passes.names().contains_key(name@) {
                assert(old(self).passes.names().insert(name@, pass_handle.key) =~= old(self).passes.names());
            }
        }
        let mut render_pass = self.passes.retrieve_render_pass(pass_handle).duplicate();
        render_pass.name = name.to_owned();
        let ghost base_col = render_pass.color_attachments@;
        let ghost base_in = render_pass.texture_inputs@;
        proof {
            assert(ts.take(0) =~= Seq::<Touch>::empty());
            assert(touch_name_seq(Seq::<Touch>::empty()) =~= Seq::<Seq<char>>::empty());
            assert forall|k: u64| #[trigger] self.resources().contains_key(k) implies resource_model(self.resources()[k])
                == apply_touches(base_model(old_res, k), touches_of(ts.take(0), self.resources()[k].resource_name()), pass_handle) by {
                assert(touches_of(Seq::<Touch>::empty(), self.resources()[k].resource_name()) =~= Seq::<Touch>::empty());
            }
            assert(base_col == base_colours(old_passes, pass_handle.key));
        }
        let nc = pass_layout.color_attachments.len();
        let mut i: usize = 0;
        while i < nc
            invariant
                nc == pass_layout.color_attachments.len(),
                ts == layout_touches(pass_layout),
                i <= nc,
                touched_state(self.resource, old_names, old_res, ts, i as int, pass_handle),
                old_res.len() + ts.len() + 2 < 0x1_0000_0000,
                old_res.dom().finite(),
                render_pass.color_attachments@ == base_col + handles_for(self.resource_names(), colour_names(pass_layout).take(i as int)),
                render_pass.texture_inputs@ == base_in,
                render_pass.name@ == name@,
                render_pass.depth_attachment == base_depth(old_passes, pass_handle.key),
                pass_refs_declared(render_pass, self.resources()),
                self.passes.wf(),
                self.passes.passes().contains_key(pass_handle.key),
                self.passes.passes() == old_passes.insert(pass_handle.key, self.passes.passes()[pass_handle.key]),
                forall|k: u64| #[trigger] self.passes.passes().contains_key(k) ==> pass_refs_declared(self.passes.passes()[k], self.resources()),
                self.order_of_passes@ == old_order,
                self.physical_images@ == old(self).physical_images@,
                self.physical_passes@ == old(self).physical_passes@,
                self.swapchain_size == old(self).swapchain_size,
                self.passes.names() == old(self).passes.names().insert(name@, pass_handle.key),
            decreases nc - i,
        {
            let ghost before = self.resource;
            assert(ts[i as int] == (pass_layout.color_attachments@[i as int].0@, crate::vkflags::USAGE_COLOR_ATTACHMENT, true, Some(pass_layout.color_attachments@[i as int].1)));
            let h = self.resource.touch(
                pass_layout.color_attachments[i].0.as_str(),
                crate::vkflags::USAGE_COLOR_ATTACHMENT,
                true,
                Some(pass_layout.color_attachments[i].1),
                pass_handle,
            );
            proof {
                lemma_touched_step(before, self.resource, old_names, old_res, ts, i as int, pass_handle, h.key);
                lemma_refs_grow(render_pass, before.resources(), self.resources());
            }
            render_pass.color_attachments.push(h);
            proof {
                let cn = colour_names(pass_layout);
                assert(cn.take(i as int + 1) =~= cn.take(i as int).push(cn[i as int]));
                assert forall|j: int| 0 <= j < i implies #[trigger] before.names().contains_key(cn.take(i as int)[j]) by {
                    assert(touch_name_seq(ts.take(i as int))[j] == cn[j]);
                }
                assert(handles_for(self.resource_names(), cn.take(i as int)) =~= handles_for(before.names(), cn.take(i as int)));
                assert(handles_for(self.resource_names(), cn.take(i as int + 1)) =~= handles_for(self.resource_names(), cn.take(i as int)).push(h));
                assert(render_pass.color_attachments@ =~= base_col + handles_for(self.resource_names(), cn.take(i as int + 1)));
                assert forall|k: u64| #[trigger] self.passes.passes().contains_key(k) implies pass_refs_declared(self.passes.passes()[k], self.resources()) by {
                    lemma_refs_grow(self.passes.passes()[k], before.resources(), self.resources());
                }
            }
            i = i + 1;
        }
        proof {
            assert(colour_names(pass_layout).take(nc as int) =~= colour_names(pass_layout));
        }
        let ghost col_final = render_pass.color_attachments@;
        let ghost names_after_col = self.resource_names();
        let ghost nd: int = if pass_layout.depth_attachment is Some { 1 } else { 0 };
        match &pass_layout.depth_attachment {
            Some(d) => {
                let ghost before = self.resource;
                assert(ts[nc as int] == (d.0@, crate::vkflags::USAGE_DEPTH_STENCIL_ATTACHMENT, true, Some(d.1)));
                let h = self.resource.touch(
                    d.0.as_str(),
                    crate::vkflags::USAGE_DEPTH_STENCIL_ATTACHMENT,
                    true,
                    Some(d.1),
                    pass_handle,
                );
                proof {
                    lemma_touched_step(before, self.resource, old_names, old_res, ts, nc as int, pass_handle, h.key);
                    lemma_refs_grow(render_pass, before.resources(), self.resources());
                    assert forall|k: u64| #[trigger] self.passes.passes().contains_key(k) implies pass_refs_declared(self.passes.passes()[k], self.resources()) by {
                        lemma_refs_grow(self.passes.passes()[k], before.resources(), self.resources());
                    }
                }
                render_pass.depth_attachment = Some(h);
            },
            None => {},
        }
        let ghost names_after_depth = self.resource_names();
        proof {
            let g = nc + nd;
            assert forall|j: int| 0 <= j < nc + nd implies #[trigger] self.resource_names().contains_key(touch_name_seq(ts)[j]) by {
                assert(touch_name_seq(ts.take(g))[j] == touch_name_seq(ts)[j]);
                assert(touch_name_seq(ts.take(g)).contains(touch_name_seq(ts)[j]));
            }
            assert forall|j: int| 0 <= j < nc implies #[trigger] names_after_col.contains_key(colour_names(pass_layout)[j]) by {
                assert(touch_name_seq(ts.take(nc as int))[j] == colour_names(pass_layout)[j]);
            }
            assert(handles_for(names_after_depth, colour_names(pass_layout)) =~= handles_for(names_after_col, colour_names(pass_layout)));
        }
        let ni = pass_layout.texture_inputs.len();
        let mut k: usize = 0;
        while k < ni
            invariant
                ni == pass_layout.texture_inputs.len(),
                nc == pass_layout.color_attachments.len(),
                nd == (if pass_layout.depth_attachment is Some { 1int } else { 0int }),
                ts == layout_touches(pass_layout),
                ts.len() == nc + nd + ni,
                k <= ni,
                touched_state(self.resource, old_names, old_res, ts, nc + nd + k, pass_handle),
                old_res.len() + ts.len() + 2 < 0x1_0000_0000,
                old_res.dom().finite(),
                render_pass.color_attachments@ == base_col + handles_for(self.resource_names(), colour_names(pass_layout)),
                render_pass.texture_inputs@ == base_in + handles_for(self.resource_names(), input_names(pass_layout).take(k as int)),
                render_pass.name@ == name@,
                render_pass.depth_attachment == (match pass_layout.depth_attachment {
                    Some(d) => Some(VirtualTextureResourceHandle { key: self.resource_names()[d.0@] }),
                    None => base_depth(old_passes, pass_handle.key),
                }),
                pass_refs_declared(render_pass, self.resources()),
                self.passes.wf(),
                self.passes.passes().contains_key(pass_handle.key),
                self.passes.passes() == old_passes.insert(pass_handle.key, self.passes.passes()[pass_handle.key]),
                forall|k2: u64| #[trigger] self.passes.passes().contains_key(k2) ==> pass_refs_declared(self.passes.passes()[k2], self.resources()),
                forall|j: int| 0 <= j < nc + nd ==> #[trigger] self.resource_names().contains_key(touch_name_seq(ts)[j]),
                self.order_of_passes@ == old_order,
                self.physical_images@ == old(self).physical_images@,
                self.physical_passes@ == old(self).physical_passes@,
                self.swapchain_size == old(self).swapchain_size,
                self.passes.names() == old(self).passes.names().insert(name@, pass_handle.key),
            decreases ni - k,
        {
            let ghost before = self.resource;
            let g = nc + (if pass_layout.depth_attachment.is_some() { 1usize } else { 0usize }) + k;
            assert(ts[g as int] == (pass_layout.texture_inputs@[k as int]@, crate::vkflags::USAGE_SAMPLED, false, None::<AttachmentInfo>));
            let h = self.resource.touch(
                pass_layout.texture_inputs[k].as_str(),
                crate::vkflags::USAGE_SAMPLED,
                false,
                None,
                pass_handle,
            );
            proof {
                lemma_touched_step(before, self.resource, old_names, old_res, ts, g as int, pass_handle, h.key);
                lemma_refs_grow(render_pass, before.resources(), self.resources());
            }
            render_pass.texture_inputs.push(h);
            proof {
                let inn = input_names(pass_layout);
                let cn = colour_names(pass_layout);
                assert(inn.take(k as int + 1) =~= inn.take(k as int).push(inn[k as int]));
                assert forall|j: int| 0 <= j < k implies #[trigger] before.names().contains_key(inn.take(k as int)[j]) by {
                    assert(touch_name_seq(ts.take(g as int))[nc + nd + j] == inn[j]);
                }
                assert forall|j: int| 0 <= j < nc implies #[trigger] before.names().contains_key(cn[j]) by {
                    assert(touch_name_seq(ts)[j] == cn[j]);
                }
                assert(handles_for(self.resource_names(), inn.take(k as int)) =~= handles_for(before.names(), inn.take(k as int)));
                assert(handles_for(self.resource_names(), cn) =~= handles_for(before.names(), cn));
                assert(handles_for(self.resource_names(), inn.take(k as int + 1)) =~= handles_for(self.resource_names(), inn.take(k as int)).push(h));
                assert(render_pass.texture_inputs@ =~= base_in + handles_for(self.resource_names(), inn.take(k as int + 1)));
                if pass_layout.depth_attachment is Some {
                    let d = pass_layout.depth_attachment->0;
                    assert(touch_name_seq(ts)[nc as int] == d.0@);
                    assert(before.names().contains_key(d.0@));
                }
                assert forall|k2: u64| #[trigger] self.passes.passes().contains_key(k2) implies pass_refs_declared(self.passes.passes()[k2], self.resources()) by {
                    lemma_refs_grow(self.passes.passes()[k2], before.resources(), self.resources());
                }
                assert forall|j: int| 0 <= j < nc + nd implies #[trigger] self.resource_names().contains_key(touch_name_seq(ts)[j]) by {
                    assert(before.names().contains_key(touch_name_seq(ts)[j]));
                }
            }
            k = k + 1;
        }
        proof {
            assert(input_names(pass_layout).take(ni as int) =~= input_names(pass_layout));
            assert(ts.take(ts.len() as int) =~= ts);
        }
        self.passes.store(pass_handle, render_pass);
        self.order_of_passes.push(pass_handle);
        proof {
            assert(self.passes().dom() =~= old_passes.dom().insert(pass_handle.key));
            assert forall|i2: int| 0 <= i2 < self.order_of_passes@.len() implies self.passes().contains_key(#[trigger] self.order_of_passes@[i2].key) by {
                assert(self.order_of_passes@ == old_order.push(pass_handle));
                if i2 < old_order.len() {
                    assert(self.order_of_passes@[i2] == old_order[i2]);
                    assert(old_passes.contains_key(old_order[i2].key));
                }
            }
            assert forall|n: Seq<char>| #[trigger] self.resource_names().contains_key(n)
                <==> (old_names.contains_key(n) || touch_name_seq(ts).contains(n)) by {
                assert(touch_name_seq(ts.take(ts.len() as int)) == touch_name_seq(ts));
            }
            if uses_recorded(old_passes, old_res, old_order) && records_declared(old_passes, old_res)
                && !old(self).pass_names().contains_key(name@) {
                assert(!old_passes.contains_key(pass_handle.key));
                assert(base_colours(old_passes, pass_handle.key) =~= Seq::<VirtualTextureResourceHandle>::empty());
                assert(base_inputs(old_passes, pass_handle.key) =~= Seq::<VirtualTextureResourceHandle>::empty());
                let cn = colour_names(pass_layout);
                let inn = input_names(pass_layout);
                assert(self.passes()[pass_handle.key].color_attachments@ =~= handles_for(self.resource_names(), cn));
                assert(self.passes()[pass_handle.key].texture_inputs@ =~= handles_for(self.resource_names(), inn));
                assert forall|i: int| 0 <= i < cn.len() implies self.resource_names().contains_key(#[trigger] cn[i]) by {
                    assert(touch_name_seq(ts)[i] == cn[i]);
                    assert(touch_name_seq(ts).contains(cn[i]));
                }
                assert forall|i: int| 0 <= i < inn.len() implies self.resource_names().contains_key(#[trigger] inn[i]) by {
                    assert(touch_name_seq(ts)[nc + nd + i] == inn[i]);
                    assert(touch_name_seq(ts).contains(inn[i]));
                }
                if pass_layout.depth_attachment is Some {
                    let d = pass_layout.depth_attachment->0;
                    assert(touch_name_seq(ts)[nc as int] == d.0@);
                    assert(touch_name_seq(ts).contains(d.0@));
                }
                lemma_fresh_pass_records(
                    old_passes,
                    old_res,
                    old_order,
                    self.passes(),
                    self.resources(),
                    self.order(),
                    self.resource_names(),
                    pass_layout,
                    pass_handle,
                );
            }
        }
        pass_handle
    }
}

/// Whether pass `p` renders to `t`, as colour or depth attachment.
pub open spec fn renders_to(p: VirtualRenderPass, t: VirtualTextureResourceHandle) -> bool {
    p.color_attachments@.contains(t) || p.depth_attachment == Some(t)
}

/// Whether pass `p` samples `t`.
pub open spec fn samples(p: VirtualRenderPass, t: VirtualTextureResourceHandle) -> bool {
    p.texture_inputs@.contains(t)
}

/// Whether the passes that the textures record as writing and reading them
/// are exactly the passes of `order` that render to and sample them.
pub open spec fn uses_recorded(
    passes: Map<u64, VirtualRenderPass>,
    res: Map<u64, VirtualTextureResource>,
    order: Seq<VirtualRenderPassHandle>,
) -> bool {
    forall|j: int, c: VirtualTextureResourceHandle|
        #![trigger res[c.key].write_passes().contains(order[j])]
        #![trigger res[c.key].read_passes().contains(order[j])]
        0 <= j < order.len() && res.contains_key(c.key) ==> {
            &&& res[c.key].write_passes().contains(order[j]) == renders_to(passes[order[j].key], c)
            &&& res[c.key].read_passes().contains(order[j]) == samples(passes[order[j].key], c)
        }
}

/// Whether every pass that a texture records as writing or reading it is a
/// declared pass.
pub open spec fn records_declared(passes: Map<u64, VirtualRenderPass>, res: Map<u64, VirtualTextureResource>) -> bool {
    forall|k: u64, x: VirtualRenderPassHandle|
        #![trigger res[k].write_passes().contains(x)]
        #![trigger res[k].read_passes().contains(x)]
        res.contains_key(k) && (res[k].write_passes().contains(x) || res[k].read_passes().contains(x))
            ==> passes.contains_key(x.key)
}

/// Whether some touch of `ts` writes.
pub open spec fn some_write(ts: Seq<Touch>) -> bool {
    exists|i: int| 0 <= i < ts.len() && (#[trigger] ts[i]).2
}

/// Whether some touch of `ts` reads.
pub open spec fn some_read(ts: Seq<Touch>) -> bool {
    exists|i: int| 0 <= i < ts.len() && !(#[trigger] ts[i]).2
}

proof fn lemma_apply_touches_lists(m: ResourceModel, ts: Seq<Touch>, h: VirtualRenderPassHandle)
    ensures
        forall|x: VirtualRenderPassHandle| #[trigger] apply_touches(m, ts, h).0.contains(x)
            == (m.0.contains(x) || (x == h && some_write(ts))),
        forall|x: VirtualRenderPassHandle| #[trigger] apply_touches(m, ts, h).1.contains(x)
            == (m.1.contains(x) || (x == h && some_read(ts))),
    decreases ts.len(),
{
    if ts.len() > 0 {
        let init = ts.drop_last();
        let t = ts.last();
        lemma_apply_touches_lists(m, init, h);
        let prev = apply_touches(m, init, h);
        assert(some_write(ts) == (some_write(init) || t.2)) by {
            if some_write(ts) {
                let i = choose|i: int| 0 <= i < ts.len() && (#[trigger] ts[i]).2;
                if i < ts.len() - 1 {
                    assert(init[i] == ts[i]);
                }
            }
            if some_write(init) {
                let i = choose|i: int| 0 <= i < init.len() && (#[trigger] init[i]).2;
                assert(ts[i] == init[i]);
            }
            if t.2 {
                assert(ts[ts.len() - 1].2);
            }
        }
        assert(some_read(ts) == (some_read(init) || !t.2)) by {
            if some_read(ts) {
                let i = choose|i: int| 0 <= i < ts.len() && !(#[trigger] ts[i]).2;
                if i < ts.len() - 1 {
                    assert(init[i] == ts[i]);
                }
            }
            if some_read(init) {
                let i = choose|i: int| 0 <= i < init.len() && !(#[trigger] init[i]).2;
                assert(ts[i] == init[i]);
            }
            if !t.2 {
                assert(!ts[ts.len() - 1].2);
            }
        }
        assert forall|x: VirtualRenderPassHandle| #[trigger] apply_touches(m, ts, h).0.contains(x)
            == (m.0.contains(x) || (x == h && some_write(ts))) by {
            if t.2 {
                let s = prev.0;
                assert(s.push(h).contains(x) == (s.contains(x) || x == h)) by {
                    if s.push(h).contains(x) && x != h {
                        let i = choose|i: int| 0 <= i < s.push(h).len() && s.push(h)[i] == x;
                        assert(s[i] == x);
                    }
                    if s.contains(x) {
                        let i = choose|i: int| 0 <= i < s.len() && s[i] == x;
                        assert(s.push(h)[i] == x);
                    }
                    if x == h {
                        assert(s.push(h)[s.len() as int] == h);
                    }
                }
            }
        }
        assert forall|x: VirtualRenderPassHandle| #[trigger] apply_touches(m, ts, h).1.contains(x)
            == (m.1.contains(x) || (x == h && some_read(ts))) by {
            if !t.2 {
                let s = prev.1;
                assert(s.push(h).contains(x) == (s.contains(x) || x == h)) by {
                    if s.push(h).contains(x) && x != h {
                        let i = choose|i: int| 0 <= i < s.push(h).len() && s.push(h)[i] == x;
                        assert(s[i] == x);
                    }
                    if s.contains(x) {
                        let i = choose|i: int| 0 <= i < s.len() && s[i] == x;
                        assert(s.push(h)[i] == x);
                    }
                    if x == h {
                        assert(s.push(h)[s.len() as int] == h);
                    }
                }
            }
        }
    }
}

/// Whether some touch of `ts` writes the texture named `n`.
pub open spec fn writes_name(ts: Seq<Touch>, n: Seq<char>) -> bool {
    exists|i: int| 0 <= i < ts.len() && (#[trigger] ts[i]).0 == n && ts[i].2
}

/// Whether some touch of `ts` reads the texture named `n`.
pub open spec fn reads_name(ts: Seq<Touch>, n: Seq<char>) -> bool {
    exists|i: int| 0 <= i < ts.len() && (#[trigger] ts[i]).0 == n && !ts[i].2
}

proof fn lemma_touches_of_kinds(ts: Seq<Touch>, n: Seq<char>)
    ensures
        some_write(touches_of(ts, n)) == writes_name(ts, n),
        some_read(touches_of(ts, n)) == reads_name(ts, n),
{
    let f = ts.filter(names_touch(n));
    if some_write(f) {
        let i = choose|i: int| 0 <= i < f.len() && (#[trigger] f[i]).2;
        ts.lemma_filter_pred(names_touch(n), i);
        assert(f.contains(f[i]));
        ts.lemma_filter_contains_rev(names_touch(n), f[i]);
        let j = choose|j: int| 0 <= j < ts.len() && ts[j] == f[i];
        assert(ts[j].0 == n && ts[j].2);
    }
    if writes_name(ts, n) {
        let j = choose|j: int| 0 <= j < ts.len() && (#[trigger] ts[j]).0 == n && ts[j].2;
        ts.lemma_filter_contains(names_touch(n), j);
        let i = choose|i: int| 0 <= i < f.len() && f[i] == ts[j];
        assert(f[i].2);
    }
    if some_read(f) {
        let i = choose|i: int| 0 <= i < f.len() && !(#[trigger] f[i]).2;
        ts.lemma_filter_pred(names_touch(n), i);
        assert(f.contains(f[i]));
        ts.lemma_filter_contains_rev(names_touch(n), f[i]);
        let j = choose|j: int| 0 <= j < ts.len() && ts[j] == f[i];
        assert(ts[j].0 == n && !ts[j].2);
    }
    if reads_name(ts, n) {
        let j = choose|j: int| 0 <= j < ts.len() && (#[trigger] ts[j]).0 == n && !ts[j].2;
        ts.lemma_filter_contains(names_touch(n), j);
        let i = choose|i: int| 0 <= i < f.len() && f[i] == ts[j];
        assert(!f[i].2);
    }
}

/// The name of the depth attachment a layout declares, if any.
pub open spec fn depth_name(l: RenderPassLayout) -> Option<Seq<char>> {
    match l.depth_attachment {
        Some(d) => Some(d.0@),
        None => None,
    }
}

proof fn lemma_layout_touch_kinds(l: RenderPassLayout, n: Seq<char>)
    ensures
        writes_name(layout_touches(l), n) == (colour_names(l).contains(n) || depth_name(l) == Some(n)),
        reads_name(layout_touches(l), n) == input_names(l).contains(n),
{
    let a = l.color_attachments@.map_values(|c: (String, AttachmentInfo)| (c.0@, crate::vkflags::USAGE_COLOR_ATTACHMENT, true, Some(c.1)));
    let d = depth_touches(l);
    let b = l.texture_inputs@.map_values(|m: String| (m@, crate::vkflags::USAGE_SAMPLED, false, None::<AttachmentInfo>));
    let ts = layout_touches(l);
    assert(ts == a + d + b);
    let na: int = a.len() as int;
    let nd: int = d.len() as int;
    if writes_name(ts, n) {
        let i = choose|i: int| 0 <= i < ts.len() && (#[trigger] ts[i]).0 == n && ts[i].2;
        if i < na {
            assert(ts[i] == a[i]);
            assert(colour_names(l)[i] == n);
        } else if i < na + nd {
            assert(ts[i] == d[i - na]);
        } else {
            assert(ts[i] == b[i - na - nd]);
            assert(!ts[i].2);
        }
    }
    if colour_names(l).contains(n) {
        let i = choose|i: int| 0 <= i < colour_names(l).len() && colour_names(l)[i] == n;
        assert(ts[i] == a[i]);
        assert(ts[i].0 == n && ts[i].2);
    }
    if depth_name(l) == Some(n) {
        assert(ts[na] == d[0]);
        assert(ts[na].0 == n && ts[na].2);
    }
    if reads_name(ts, n) {
        let i = choose|i: int| 0 <= i < ts.len() && (#[trigger] ts[i]).0 == n && !ts[i].2;
        if i < na {
            assert(ts[i] == a[i]);
        } else if i < na + nd {
            assert(ts[i] == d[i - na]);
        } else {
            assert(ts[i] == b[i - na - nd]);
            assert(input_names(l)[i - na - nd] == n);
        }
    }
    if input_names(l).contains(n) {
        let i = choose|i: int| 0 <= i < input_names(l).len() && input_names(l)[i] == n;
        assert(ts[na + nd + i] == b[i]);
        assert(ts[na + nd + i].0 == n && !ts[na + nd + i].2);
    }
}

/// The handles `names` gives a list of names hold a texture exactly when
/// the list holds its name.
proof fn lemma_handles_for_contains(
    names: Map<Seq<char>, u64>,
    res: Map<u64, VirtualTextureResource>,
    ns: Seq<Seq<char>>,
    c: VirtualTextureResourceHandle,
)
    requires
        res.contains_key(c.key),
        forall|n: Seq<char>| #[trigger] names.contains_key(n) ==> res.contains_key(names[n]) && res[names[n]].resource_name() == n,
        exists|n: Seq<char>| #[trigger] names.contains_key(n) && names[n] == c.key,
        forall|i: int| 0 <= i < ns.len() ==> names.contains_key(#[trigger] ns[i]),
    ensures
        handles_for(names, ns).contains(c) == ns.contains(res[c.key].resource_name()),
        names[res[c.key].resource_name()] == c.key,
{
    let w = choose|n: Seq<char>| #[trigger] names.contains_key(n) && names[n] == c.key;
    assert(res[names[w]].resource_name() == w);
    let hs = handles_for(names, ns);
    if hs.contains(c) {
        let i = choose|i: int| 0 <= i < hs.len() && hs[i] == c;
        assert(names.contains_key(ns[i]));
        assert(res[names[ns[i]]].resource_name() == ns[i]);
        assert(ns[i] == res[c.key].resource_name());
    }
    if ns.contains(res[c.key].resource_name()) {
        let i = choose|i: int| 0 <= i < ns.len() && ns[i] == res[c.key].resource_name();
        assert(hs[i] == VirtualTextureResourceHandle { key: names[ns[i]] });
        assert(ns[i] == w);
        assert(hs[i] == c);
    }
}

/// Declaring a pass under a new name keeps the textures' records of the
/// passes that use them exact.
proof fn lemma_fresh_pass_records(
    old_passes: Map<u64, VirtualRenderPass>,
    old_res: Map<u64, VirtualTextureResource>,
    old_order: Seq<VirtualRenderPassHandle>,
    passes: Map<u64, VirtualRenderPass>,
    res: Map<u64, VirtualTextureResource>,
    order: Seq<VirtualRenderPassHandle>,
    names: Map<Seq<char>, u64>,
    l: RenderPassLayout,
    h: VirtualRenderPassHandle,
)
    requires
        uses_recorded(old_passes, old_res, old_order),
        records_declared(old_passes, old_res),
        !old_passes.contains_key(h.key),
        forall|j: int| 0 <= j < old_order.len() ==> old_passes.contains_key(#[trigger] old_order[j].key),
        forall|k: u64| #[trigger] old_passes.contains_key(k) ==> pass_refs_declared(old_passes[k], old_res),
        order == old_order.push(h),
        passes.contains_key(h.key),
        forall|k: u64| k != h.key && old_passes.contains_key(k) ==> passes.contains_key(k) && #[trigger] passes[k] == old_passes[k],
        passes[h.key].color_attachments@ == handles_for(names, colour_names(l)),
        passes[h.key].depth_attachment == (match l.depth_attachment {
            Some(d) => Some(VirtualTextureResourceHandle { key: names[d.0@] }),
            None => None,
        }),
        passes[h.key].texture_inputs@ == handles_for(names, input_names(l)),
        forall|n: Seq<char>| #[trigger] names.contains_key(n) ==> res.contains_key(names[n]) && res[names[n]].resource_name() == n,
        forall|k: u64| #[trigger] res.contains_key(k) ==> exists|n: Seq<char>| #[trigger] names.contains_key(n) && names[n] == k,
        forall|i: int| 0 <= i < colour_names(l).len() ==> names.contains_key(#[trigger] colour_names(l)[i]),
        forall|i: int| 0 <= i < input_names(l).len() ==> names.contains_key(#[trigger] input_names(l)[i]),
        depth_name(l) matches Some(dn) ==> names.contains_key(dn),
        forall|k: u64| #[trigger] old_res.contains_key(k) ==> res.contains_key(k),
        forall|k: u64| #[trigger] res.contains_key(k) ==> resource_model(res[k])
            == apply_touches(base_model(old_res, k), touches_of(layout_touches(l), res[k].resource_name()), h),
    ensures
        uses_recorded(passes, res, order),
        records_declared(passes, res),
{
    assert forall|k: u64, x: VirtualRenderPassHandle|
        #![trigger res[k].write_passes().contains(x)]
        #![trigger res[k].read_passes().contains(x)]
        res.contains_key(k) && (res[k].write_passes().contains(x) || res[k].read_passes().contains(x))
        implies passes.contains_key(x.key) by {
        let t = touches_of(layout_touches(l), res[k].resource_name());
        let b = base_model(old_res, k);
        lemma_apply_touches_lists(b, t, h);
        let m = apply_touches(b, t, h);
        assert(res[k].write_passes() == m.0);
        assert(res[k].read_passes() == m.1);
        if x != h {
            assert(m.0.contains(x) || m.1.contains(x));
            assert(b.0.contains(x) || b.1.contains(x));
            if !old_res.contains_key(k) {
                assert(b == fresh_model());
                assert(b.0.len() == 0 && b.1.len() == 0);
                assert(false);
            }
            assert(old_res[k].write_passes() == b.0);
            assert(old_res[k].read_passes() == b.1);
            assert(old_res[k].write_passes().contains(x) || old_res[k].read_passes().contains(x));
            assert(old_passes.contains_key(x.key));
            if x.key != h.key {
                assert(passes[x.key] == old_passes[x.key]);
            }
        }
    }
    assert forall|j: int, c: VirtualTextureResourceHandle|
        #![trigger res[c.key].write_passes().contains(order[j])]
        #![trigger res[c.key].read_passes().contains(order[j])]
        0 <= j < order.len() && res.contains_key(c.key) implies {
            &&& res[c.key].write_passes().contains(order[j]) == renders_to(passes[order[j].key], c)
            &&& res[c.key].read_passes().contains(order[j]) == samples(passes[order[j].key], c)
        } by {
        let nc = res[c.key].resource_name();
        let t = touches_of(layout_touches(l), nc);
        let b = base_model(old_res, c.key);
        lemma_apply_touches_lists(b, t, h);
        let m = apply_touches(b, t, h);
        assert(res[c.key].write_passes() == m.0);
        assert(res[c.key].read_passes() == m.1);
        if j < old_order.len() {
            let o = old_order[j];
            assert(order[j] == o);
            assert(old_passes.contains_key(o.key));
            assert(o != h);
            assert(o.key != h.key);
            assert(passes[o.key] == old_passes[o.key]);
            if old_res.contains_key(c.key) {
                assert(old_res[c.key].write_passes() == b.0);
                assert(old_res[c.key].read_passes() == b.1);
                assert(old_res[c.key].write_passes().contains(old_order[j]) == renders_to(old_passes[old_order[j].key], c));
                assert(old_res[c.key].read_passes().contains(old_order[j]) == samples(old_passes[old_order[j].key], c));
            } else {
                assert(b == fresh_model());
                assert(b.0.len() == 0 && b.1.len() == 0);
                let p = old_passes[o.key];
                assert(pass_refs_declared(p, old_res));
                if p.color_attachments@.contains(c) {
                    let i = choose|i: int| 0 <= i < p.color_attachments@.len() && p.color_attachments@[i] == c;
                    assert(old_res.contains_key(p.color_attachments@[i].key));
                }
                if p.texture_inputs@.contains(c) {
                    let i = choose|i: int| 0 <= i < p.texture_inputs@.len() && p.texture_inputs@[i] == c;
                    assert(old_res.contains_key(p.texture_inputs@[i].key));
                }
                if p.depth_attachment == Some(c) {
                    assert(old_res.contains_key(c.key));
                }
            }
        } else {
            assert(order[j] == h);
            if old_res.contains_key(c.key) {
                assert(old_res[c.key].write_passes() == b.0);
                assert(old_res[c.key].read_passes() == b.1);
                if old_res[c.key].write_passes().contains(h) || old_res[c.key].read_passes().contains(h) {
                    assert(old_passes.contains_key(h.key));
                }
            } else {
                assert(b == fresh_model());
                assert(b.0.len() == 0 && b.1.len() == 0);
            }
            lemma_touches_of_kinds(layout_touches(l), nc);
            lemma_layout_touch_kinds(l, nc);
            lemma_handles_for_contains(names, res, colour_names(l), c);
            lemma_handles_for_contains(names, res, input_names(l), c);
            match l.depth_attachment {
                Some(d) => {
                    assert(names.contains_key(d.0@));
                    assert(res[names[d.0@]].resource_name() == d.0@);
                    if names[d.0@] == c.key {
                        assert(d.0@ == nc);
                    }
                    if d.0@ == nc {
                        assert(names[nc] == c.key);
                    }
                },
                None => {},
            }
        }
    }
}

/// A pass whose textures are declared stays so when textures are added.
proof fn lemma_refs_grow(p: VirtualRenderPass, a: Map<u64, VirtualTextureResource>, b: Map<u64, VirtualTextureResource>)
    requires
        pass_refs_declared(p, a),
        a.dom().subset_of(b.dom()),
    ensures
        pass_refs_declared(p, b),
{
}

/// The last operation that earlier passes made on a texture.
#[derive(Clone, Copy, PartialEq, Eq, Structural, Debug)]
pub enum LastUsage {
    Write,
    Read,
    Unused,
}

impl LastUsage {
    /// The label the engine logs for the operation.
    pub fn label(&self) -> (r: &'static str)
        ensures
            r@ == (match *self {
                LastUsage::Write => "WRITE"@,
                LastUsage::Read => "READ"@,
                LastUsage::Unused => "NONE"@,
            }),
    {
        proof {
            reveal_strlit("WRITE");
            reveal_strlit("READ");
            reveal_strlit("NONE");
        }
        match self {
            LastUsage::Write => "WRITE",
            LastUsage::Read => "READ",
            LastUsage::Unused => "NONE",
        }
    }
}

/// The last operation among the first `i` passes of `order` on a texture
/// that the passes `reads` read and the passes `writes` write; a pass that
/// does both counts as writing.
pub open spec fn last_rw(
    reads: Seq<VirtualRenderPassHandle>,
    writes: Seq<VirtualRenderPassHandle>,
    order: Seq<VirtualRenderPassHandle>,
    i: int,
) -> LastUsage
    decreases i,
{
    if i <= 0 {
        LastUsage::Unused
    } else {
        let prev = last_rw(reads, writes, order, i - 1);
        let p = order[i - 1];
        if writes.contains(p) {
            LastUsage::Write
        } else if reads.contains(p) {
            LastUsage::Read
        } else {
            prev
        }
    }
}

/// The barrier an attachment of usage `usage` needs after `last`: none
/// after a write, a transition from sampling after a read, and a first
/// transition when nothing used it before.
pub open spec fn attachment_barrier(last: LastUsage, image: ImageHandle, usage: u32) -> Seq<ImageBarrier> {
    match last {
        LastUsage::Write => Seq::empty(),
        LastUsage::Read => seq![crate::barrier::transition(crate::barrier::AttachmentHandle::Image(image), crate::vkflags::USAGE_SAMPLED, usage)],
        LastUsage::Unused => seq![crate::barrier::first_use(crate::barrier::AttachmentHandle::Image(image), usage)],
    }
}

/// The last use, and its usage, that the first `i` passes of `order` make
/// of the texture `t`, judged by the passes' own attachments: as colour
/// attachment, else as depth attachment, else as sampled input.
pub open spec fn last_input_use(
    passes: Map<u64, VirtualRenderPass>,
    order: Seq<VirtualRenderPassHandle>,
    i: int,
    t: VirtualTextureResourceHandle,
) -> (LastUsage, u32)
    decreases i,
{
    if i <= 0 {
        (LastUsage::Unused, crate::vkflags::USAGE_EMPTY)
    } else {
        let prev = last_input_use(passes, order, i - 1, t);
        let pp = passes[order[i - 1].key];
        if pp.color_attachments@.contains(t) {
            (LastUsage::Write, crate::vkflags::USAGE_COLOR_ATTACHMENT)
        } else if pp.depth_attachment == Some(t) {
            (LastUsage::Write, crate::vkflags::USAGE_DEPTH_STENCIL_ATTACHMENT)
        } else if pp.texture_inputs@.contains(t) {
            (LastUsage::Read, crate::vkflags::USAGE_SAMPLED)
        } else {
            prev
        }
    }
}

/// The barrier a sampled input needs after `last`: a transition from the
/// attachment usage after a write, none after a read, and a first
/// transition when nothing used it before.
pub open spec fn input_barrier(last: (LastUsage, u32), image: ImageHandle) -> Seq<ImageBarrier> {
    match last.0 {
        LastUsage::Write => seq![crate::barrier::transition(crate::barrier::AttachmentHandle::Image(image), last.1, crate::vkflags::USAGE_SAMPLED)],
        LastUsage::Read => Seq::empty(),
        LastUsage::Unused => seq![crate::barrier::first_use(crate::barrier::AttachmentHandle::Image(image), crate::vkflags::USAGE_SAMPLED)],
    }
}

/// The barriers for the attachments `cs` of usage `usage` of the `i`-th
/// pass of `order`, in order.
pub open spec fn attachments_barriers(
    cs: Seq<VirtualTextureResourceHandle>,
    res: Map<u64, VirtualTextureResource>,
    images: Map<u64, ImageHandle>,
    order: Seq<VirtualRenderPassHandle>,
    i: int,
    usage: u32,
) -> Seq<ImageBarrier>
    decreases cs.len(),
{
    if cs.len() == 0 {
        Seq::empty()
    } else {
        let c = cs.last();
        attachments_barriers(cs.drop_last(), res, images, order, i, usage) + attachment_barrier(
            last_rw(res[c.key].read_passes(), res[c.key].write_passes(), order, i),
            images[c.key],
            usage,
        )
    }
}

/// The barriers for the sampled inputs `ts` of the `i`-th pass of `order`.
pub open spec fn inputs_barriers(
    ts: Seq<VirtualTextureResourceHandle>,
    passes: Map<u64, VirtualRenderPass>,
    images: Map<u64, ImageHandle>,
    order: Seq<VirtualRenderPassHandle>,
    i: int,
) -> Seq<ImageBarrier>
    decreases ts.len(),
{
    if ts.len() == 0 {
        Seq::empty()
    } else {
        let t = ts.last();
        inputs_barriers(ts.drop_last(), passes, images, order, i) + input_barrier(
            last_input_use(passes, order, i, t),
            images[t.key],
        )
    }
}

/// The barriers recorded before the `i`-th pass of `order`: those of its
/// colour attachments, then of its depth attachment, then of its inputs.
pub open spec fn pass_barriers(
    passes: Map<u64, VirtualRenderPass>,
    res: Map<u64, VirtualTextureResource>,
    images: Map<u64, ImageHandle>,
    order: Seq<VirtualRenderPassHandle>,
    i: int,
) -> Seq<ImageBarrier> {
    let pp = passes[order[i].key];
    attachments_barriers(pp.color_attachments@, res, images, order, i, crate::vkflags::USAGE_COLOR_ATTACHMENT)
        + match pp.depth_attachment {
        Some(d) => attachments_barriers(seq![d], res, images, order, i, crate::vkflags::USAGE_DEPTH_STENCIL_ATTACHMENT),
        None => Seq::empty(),
    } + inputs_barriers(pp.texture_inputs@, passes, images, order, i)
}

/// The render area of a pass: the size of its depth attachment if it has
/// one, else of its last colour attachment.
pub open spec fn pass_extent(pp: VirtualRenderPass, res: Map<u64, VirtualTextureResource>, swapchain: (u32, u32)) -> Option<(u32, u32)> {
    match pp.depth_attachment {
        Some(d) => Some(resolved_size(res[d.key].info().size, swapchain)),
        None => if pp.color_attachments@.len() > 0 {
            Some(resolved_size(res[pp.color_attachments@.last().key].info().size, swapchain))
        } else {
            None
        },
    }
}

/// Every texture of every pass in `order` has an image.
pub open spec fn images_cover(
    passes: Map<u64, VirtualRenderPass>,
    order: Seq<VirtualRenderPassHandle>,
    images: Map<u64, ImageHandle>,
) -> bool {
    forall|i: int| 0 <= i < order.len() ==> refs_have_images(#[trigger] passes[order[i].key], images)
}

/// Every texture that pass `p` names has an image.
pub open spec fn refs_have_images(p: VirtualRenderPass, images: Map<u64, ImageHandle>) -> bool {
    &&& forall|i: int| 0 <= i < p.color_attachments@.len() ==> images.contains_key(#[trigger] p.color_attachments@[i].key)
    &&& forall|i: int| 0 <= i < p.texture_inputs@.len() ==> images.contains_key(#[trigger] p.texture_inputs@[i].key)
    &&& match p.depth_attachment {
        Some(d) => images.contains_key(d.key),
        None => true,
    }
}

/// Whether `h` occurs in `s`.
fn contains_pass(s: &[VirtualRenderPassHandle], h: VirtualRenderPassHandle) -> (r: bool)
    ensures
        r == s@.contains(h),
{
    let mut i: usize = 0;
    while i < s.len()
        invariant
            i <= s.len(),
            forall|j: int| 0 <= j < i ==> s@[j] != h,
        decreases s.len() - i,
    {
        if s[i] == h {
            return true;
        }
        i = i + 1;
    }
    false
}

/// Whether `h` occurs in `s`.
fn contains_resource(s: &Vec<VirtualTextureResourceHandle>, h: VirtualTextureResourceHandle) -> (r: bool)
    ensures
        r == s@.contains(h),
{
    let mut i: usize = 0;
    while i < s.len()
        invariant
            i <= s.len(),
            forall|j: int| 0 <= j < i ==> s@[j] != h,
        decreases s.len() - i,
    {
        if s[i] == h {
            return true;
        }
        i = i + 1;
    }
    false
}

/// An image the graph needs: the texture it backs and what to create it with.
pub struct ImageRequest {
    pub resource: VirtualTextureResourceHandle,
    pub name: String,
    pub format: i32,
    pub usage: u32,
    pub width: u32,
    pub height: u32,
}

impl RenderList {
    /// One request per declared texture, in increasing slot index: its
    /// format and usage, and its size for the current swapchain.
    pub fn image_requests(&self) -> (r: Vec<ImageRequest>)
        requires
            self.wf(),
        ensures
            r@.len() == self.resources().len(),
            forall|k: u64| #[trigger] self.resources().contains_key(k) ==> exists|i: int| 0 <= i < r@.len() && r@[i].resource.key == k,
            forall|i: int, j: int| 0 <= i < j < r@.len() ==> r@[i].resource != r@[j].resource,
            forall|i: int, j: int| 0 <= i < j < r@.len() ==> crate::handles::slot_index(#[trigger] r@[i].resource.key)
                < crate::handles::slot_index(#[trigger] r@[j].resource.key),
            forall|i: int| 0 <= i < r@.len() ==> {
                let q = #[trigger] r@[i];
                let t = self.resources()[q.resource.key];
                &&& self.resources().contains_key(q.resource.key)
                &&& q.name@ == t.resource_name()
                &&& q.format == t.info().format
                &&& q.usage == t.usage()
                &&& (q.width, q.height) == resolved_size(t.info().size, self.swapchain())
            },
            forall|i: int| 0 <= i < r@.len() ==> {
                let t = self.resources()[(#[trigger] r@[i]).resource.key];
                &&& (t.info().size matches SizeClass::Custom(w, h) ==> r@[i].width == w && r@[i].height == h)
                &&& (t.info().size is SwapchainRelative ==> r@[i].width == self.swapchain().0 && r@[i].height == self.swapchain().1)
            },
    {
        let handles = self.resource.handles();
        let mut out: Vec<ImageRequest> = Vec::new();
        let mut i: usize = 0;
        while i < handles.len()
            invariant
                i <= handles.len(),
                self.wf(),
                out@.len() == i,
                forall|j: int| 0 <= j < handles.len() ==> self.resources().contains_key(#[trigger] handles@[j].key),
                forall|j: int| 0 <= j < i ==> #[trigger] out@[j].resource == handles@[j],
                forall|j: int| 0 <= j < i ==> {
                    let q = #[trigger] out@[j];
                    let t = self.resources()[q.resource.key];
                    &&& q.name@ == t.resource_name()
                    &&& q.format == t.info().format
                    &&& q.usage == t.usage()
                    &&& (q.width, q.height) == resolved_size(t.info().size, self.swapchain())
                },
            decreases handles.len() - i,
        {
            let h = handles[i];
            let t = self.resource.retrieve_resource(h);
            let info = t.get_attachment_info();
            let size = info.size.resolve(self.swapchain_size);
            out.push(ImageRequest {
                resource: h,
                name: t.name().to_owned(),
                format: info.format,
                usage: t.get_image_usage(),
                width: size.0,
                height: size.1,
            });
            i = i + 1;
        }
        proof {
            let ks = handles@.map_values(|h: VirtualTextureResourceHandle| h.key);
            assert(handles@.no_duplicates());
            assert forall|a: int, b: int| 0 <= a < b < out@.len() implies out@[a].resource != out@[b].resource by {
                assert(out@[a].resource == handles@[a]);
                assert(out@[b].resource == handles@[b]);
            }
            assert forall|a: int, b: int| 0 <= a < b < out@.len() implies crate::handles::slot_index(#[trigger] out@[a].resource.key)
                < crate::handles::slot_index(#[trigger] out@[b].resource.key) by {
                assert(out@[a].resource == handles@[a]);
                assert(out@[b].resource == handles@[b]);
            }
            assert(ks.no_duplicates()) by {
                assert forall|a: int, b: int| 0 <= a < ks.len() && 0 <= b < ks.len() && a != b implies ks[a] != ks[b] by {
                    if ks[a] == ks[b] {
                        assert(handles@[a] == handles@[b]);
                    }
                }
            }
            assert(ks.to_set() =~= self.resources().dom()) by {
                assert forall|k: u64| ks.to_set().contains(k) implies self.resources().dom().contains(k) by {
                    let j = choose|j: int| 0 <= j < ks.len() && ks[j] == k;
                    assert(self.resources().contains_key(handles@[j].key));
                }
                assert forall|k: u64| self.resources().dom().contains(k) implies ks.to_set().contains(k) by {
                    let j = choose|j: int| 0 <= j < handles@.len() && #[trigger] handles@[j].key == k;
                    assert(ks[j] == k);
                }
            }
            ks.unique_seq_to_set();
            assert forall|k: u64| #[trigger] self.resources().contains_key(k) implies exists|i: int| 0 <= i < out@.len() && out@[i].resource.key == k by {
                let j = choose|j: int| 0 <= j < handles@.len() && #[trigger] handles@[j].key == k;
                assert(out@[j].resource == handles@[j]);
            }
        }
        out
    }

    /// Records `image` as the image of `resource`.
    pub fn set_physical_image(&mut self, resource: VirtualTextureResourceHandle, image: ImageHandle)
        requires
            old(self).wf(),
        ensures
            final(self).wf(),
            final(self).images() == old(self).images().insert(resource.key, image),
            final(self).passes() == old(self).passes(),
            final(self).resources() == old(self).resources(),
            final(self).pass_names() == old(self).pass_names(),
            final(self).resource_names() == old(self).resource_names(),
            final(self).order() == old(self).order(),
            final(self).physical() == old(self).physical(),
            final(self).swapchain() == old(self).swapchain(),
    {
        insert_image(&mut self.physical_images, resource.key, image);
        assert(self.passes() == old(self).passes());
        assert(self.resources() == old(self).resources());
    }

    /// The image of the texture under `key`.
    fn image_of(&self, key: u64) -> (r: ImageHandle)
        requires
            self.images().contains_key(key),
        ensures
            r == self.images()[key],
    {
        broadcast use vstd::std_specs::hash::group_hash_axioms;
        match self.physical_images.get(&key) {
            Some(image) => *image,
            None => {
                assert(false);
                vstd::pervasive::unreached()
            },
        }
    }

    /// The last operation of the first `i` passes on a texture read by
    /// `reads` and written by `writes`.
    fn last_operation(&self, reads: &[VirtualRenderPassHandle], writes: &[VirtualRenderPassHandle], i: usize) -> (r: LastUsage)
        requires
            i <= self.order().len(),
        ensures
            r == last_rw(reads@, writes@, self.order(), i as int),
    {
        let mut last = LastUsage::Unused;
        let mut j: usize = 0;
        while j < i
            invariant
                j <= i,
                i <= self.order_of_passes@.len(),
                last == last_rw(reads@, writes@, self.order_of_passes@, j as int),
            decreases i - j,
        {
            let previous_pass = self.order_of_passes[j];
            if contains_pass(reads, previous_pass) {
                last = LastUsage::Read;
            }
            if contains_pass(writes, previous_pass) {
                last = LastUsage::Write;
            }
            j = j + 1;
        }
        last
    }

    /// The last use the first `i` passes make of texture `t`.
    fn last_input_operation(&self, i: usize, t: VirtualTextureResourceHandle) -> (r: (LastUsage, u32))
        requires
            self.wf(),
            i <= self.order().len(),
        ensures
            r == last_input_use(self.passes(), self.order(), i as int, t),
    {
        let mut last = (LastUsage::Unused, crate::vkflags::USAGE_EMPTY);
        let mut j: usize = 0;
        while j < i
            invariant
                self.wf(),
                j <= i,
                i <= self.order_of_passes@.len(),
                last == last_input_use(self.passes(), self.order_of_passes@, j as int, t),
            decreases i - j,
        {
            let previous_pass = self.passes.retrieve_render_pass(self.order_of_passes[j]);
            if contains_resource(&previous_pass.color_attachments, t) {
                last = (LastUsage::Write, crate::vkflags::USAGE_COLOR_ATTACHMENT);
            } else if previous_pass.depth_attachment == Some(t) {
                last = (LastUsage::Write, crate::vkflags::USAGE_DEPTH_STENCIL_ATTACHMENT);
            } else if contains_resource(&previous_pass.texture_inputs, t) {
                last = (LastUsage::Read, crate::vkflags::USAGE_SAMPLED);
            }
            j = j + 1;
        }
        last
    }
}

/// Inserts into a map keyed by an integer.
fn insert_image(m: &mut HashMap<u64, ImageHandle>, k: u64, v: ImageHandle)
    ensures
        final(m)@ == old(m)@.insert(k, v),
{
    broadcast use vstd::std_specs::hash::group_hash_axioms;
    m.insert(k, v);
}

/// Inserts into a map keyed by an integer.
fn insert_physical(m: &mut HashMap<u64, PhysicalRenderPass>, k: u64, v: PhysicalRenderPass)
    ensures
        final(m)@ == old(m)@.insert(k, v),
{
    broadcast use vstd::std_specs::hash::group_hash_axioms;
    m.insert(k, v);
}

/// The images of the textures `cs`.
pub open spec fn images_for(cs: Seq<VirtualTextureResourceHandle>, images: Map<u64, ImageHandle>) -> Seq<ImageHandle> {
    cs.map_values(|c: VirtualTextureResourceHandle| images[c.key])
}

/// Whether `p` is what baking makes of the `i`-th pass of the graph.
pub open spec fn is_baked_pass(
    p: PhysicalRenderPass,
    passes: Map<u64, VirtualRenderPass>,
    res: Map<u64, VirtualTextureResource>,
    images: Map<u64, ImageHandle>,
    order: Seq<VirtualRenderPassHandle>,
    swapchain: (u32, u32),
    i: int,
) -> bool {
    let pp = passes[order[i].key];
    &&& p.colour_images@ == images_for(pp.color_attachments@, images)
    &&& p.depth_image == (match pp.depth_attachment {
        Some(d) => Some(images[d.key]),
        None => None,
    })
    &&& p.extent == pass_extent(pp, res, swapchain)
    &&& p.barriers@ == pass_barriers(passes, res, images, order, i)
}

impl RenderList {
    /// What baking makes of the `i`-th pass.
    fn physical_pass_for(&self, i: usize) -> (r: PhysicalRenderPass)
        requires
            self.wf(),
            i < self.order().len(),
            images_cover(self.passes(), self.order(), self.images()),
        ensures
            is_baked_pass(r, self.passes(), self.resources(), self.images(), self.order(), self.swapchain(), i as int),
    {
        let handle = self.order_of_passes[i];
        let pp = self.passes.retrieve_render_pass(handle);
        assert(refs_have_images(self.passes()[self.order()[i as int].key], self.images()));
        assert(pass_refs_declared(self.passes()[handle.key], self.resources()));
        let ghost cs = pp.color_attachments@;
        let mut colour_images: Vec<ImageHandle> = Vec::new();
        let mut barriers: Vec<ImageBarrier> = Vec::new();
        let mut extent: Option<(u32, u32)> = None;
        let nc = pp.color_attachments.len();
        let mut a: usize = 0;
        while a < nc
            invariant
                self.wf(),
                i < self.order().len(),
                *pp == self.passes()[handle.key],
                handle == self.order()[i as int],
                nc == pp.color_attachments@.len(),
                cs == pp.color_attachments@,
                a <= nc,
                refs_have_images(*pp, self.images()),
                pass_refs_declared(*pp, self.resources()),
                colour_images@ == images_for(cs.take(a as int), self.images()),
                barriers@ == attachments_barriers(cs.take(a as int), self.resources(), self.images(), self.order(), i as int, crate::vkflags::USAGE_COLOR_ATTACHMENT),
                extent == (if a > 0 {
                    Some(resolved_size(self.resources()[cs[a - 1].key].info().size, self.swapchain()))
                } else {
                    None::<(u32, u32)>
                }),
            decreases nc - a,
        {
            let c = pp.color_attachments[a];
            let image = self.image_of(c.key);
            colour_images.push(image);
            let resource = self.resource.retrieve_resource(c);
            extent = Some(resource.get_attachment_info().size.resolve(self.swapchain_size));
            let last = self.last_operation(resource.get_read_passes(), resource.get_write_passes(), i);
            let ghost prev = barriers@;
            match last {
                LastUsage::Write => {},
                LastUsage::Read => {
                    barriers.push(
                        ImageBarrier::new(crate::barrier::AttachmentHandle::Image(image)).old_usage(
                            crate::vkflags::USAGE_SAMPLED,
                        ).new_usage(crate::vkflags::USAGE_COLOR_ATTACHMENT),
                    );
                },
                LastUsage::Unused => {
                    barriers.push(
                        ImageBarrier::new(crate::barrier::AttachmentHandle::Image(image)).new_usage(
                            crate::vkflags::USAGE_COLOR_ATTACHMENT,
                        ),
                    );
                },
            }
            proof {
                assert(cs.take(a as int + 1).drop_last() =~= cs.take(a as int));
                assert(cs.take(a as int + 1).last() == c);
                assert(barriers@ =~= prev + attachment_barrier(last, image, crate::vkflags::USAGE_COLOR_ATTACHMENT));
                assert(images_for(cs.take(a as int + 1), self.images()) =~= images_for(cs.take(a as int), self.images()).push(image));
            }
            a = a + 1;
        }
        proof {
            assert(cs.take(nc as int) =~= cs);
        }
        let ghost colour_part = barriers@;
        let depth_image = match pp.depth_attachment {
            Some(d) => {
                let image = self.image_of(d.key);
                let resource = self.resource.retrieve_resource(d);
                extent = Some(resource.get_attachment_info().size.resolve(self.swapchain_size));
                let last = self.last_operation(resource.get_read_passes(), resource.get_write_passes(), i);
                match last {
                    LastUsage::Write => {},
                    LastUsage::Read => {
                        barriers.push(
                            ImageBarrier::new(crate::barrier::AttachmentHandle::Image(image)).old_usage(
                                crate::vkflags::USAGE_SAMPLED,
                            ).new_usage(crate::vkflags::USAGE_DEPTH_STENCIL_ATTACHMENT),
                        );
                    },
                    LastUsage::Unused => {
                        barriers.push(
                            ImageBarrier::new(crate::barrier::AttachmentHandle::Image(image)).new_usage(
                                crate::vkflags::USAGE_DEPTH_STENCIL_ATTACHMENT,
                            ),
                        );
                    },
                }
                proof {
                    let ds = seq![d];
                    assert(ds.drop_last() =~= Seq::<VirtualTextureResourceHandle>::empty());
                    let x = attachment_barrier(last, image, crate::vkflags::USAGE_DEPTH_STENCIL_ATTACHMENT);
                    assert(barriers@ =~= colour_part + x);
                    assert(ds.last() == d);
                    assert(attachments_barriers(Seq::<VirtualTextureResourceHandle>::empty(), self.resources(), self.images(), self.order(), i as int, crate::vkflags::USAGE_DEPTH_STENCIL_ATTACHMENT) == Seq::<ImageBarrier>::empty());
                    assert(attachments_barriers(ds, self.resources(), self.images(), self.order(), i as int, crate::vkflags::USAGE_DEPTH_STENCIL_ATTACHMENT) =~= x);
                }
                Some(image)
            },
            None => {
                proof {
                    assert(barriers@ =~= colour_part + Seq::<ImageBarrier>::empty());
                }
                None
            },
        };
        let ghost before_inputs = barriers@;
        let ts = &pp.texture_inputs;
        let ni = ts.len();
        let mut k: usize = 0;
        while k < ni
            invariant
                self.wf(),
                i < self.order().len(),
                *pp == self.passes()[handle.key],
                handle == self.order()[i as int],
                ts == &pp.texture_inputs,
                ni == ts@.len(),
                k <= ni,
                refs_have_images(*pp, self.images()),
                pass_refs_declared(*pp, self.resources()),
                barriers@ == before_inputs + inputs_barriers(ts@.take(k as int), self.passes(), self.images(), self.order(), i as int),
            decreases ni - k,
        {
            let t = ts[k];
            let image = self.image_of(t.key);
            let last = self.last_input_operation(i, t);
            let ghost prev = barriers@;
            match last.0 {
                LastUsage::Write => {
                    barriers.push(
                        ImageBarrier::new(crate::barrier::AttachmentHandle::Image(image)).old_usage(last.1).new_usage(
                            crate::vkflags::USAGE_SAMPLED,
                        ),
                    );
                },
                LastUsage::Read => {},
                LastUsage::Unused => {
                    barriers.push(
                        ImageBarrier::new(crate::barrier::AttachmentHandle::Image(image)).new_usage(
                            crate::vkflags::USAGE_SAMPLED,
                        ),
                    );
                },
            }
            proof {
                assert(ts@.take(k as int + 1).drop_last() =~= ts@.take(k as int));
                assert(ts@.take(k as int + 1).last() == t);
                assert(barriers@ =~= prev + input_barrier(last, image));
                assert(barriers@ =~= before_inputs + inputs_barriers(ts@.take(k as int + 1), self.passes(), self.images(), self.order(), i as int));
            }
            k = k + 1;
        }
        proof {
            assert(ts@.take(ni as int) =~= ts@);
        }
        PhysicalRenderPass { colour_images, depth_image, extent, barriers }
    }

    /// Bakes the graph once every texture has its image: each pass in order
    /// gets its images, its render area and the barriers that bring its
    /// textures from their last use in earlier passes to this pass's use. A
    /// pass that occurs more than once keeps what its last occurrence gets.
    pub fn bake_passes(&mut self)
        requires
            old(self).wf(),
            images_cover(old(self).passes(), old(self).order(), old(self).images()),
        ensures
            final(self).wf(),
            final(self).passes() == old(self).passes(),
            final(self).resources() == old(self).resources(),
            final(self).pass_names() == old(self).pass_names(),
            final(self).resource_names() == old(self).resource_names(),
            final(self).order() == old(self).order(),
            final(self).images() == old(self).images(),
            final(self).swapchain() == old(self).swapchain(),
            forall|i: int| 0 <= i < old(self).order().len() && (forall|j: int| i < j < old(self).order().len() ==> old(self).order()[j] != old(self).order()[i])
                ==> final(self).physical().contains_key(old(self).order()[i].key)
                && is_baked_pass(#[trigger] final(self).physical()[old(self).order()[i].key], old(self).passes(), old(self).resources(), old(self).images(), old(self).order(), old(self).swapchain(), i),
            forall|k: u64| #[trigger] final(self).physical().contains_key(k) <==> (old(self).physical().contains_key(k)
                || exists|j: int| 0 <= j < old(self).order().len() && old(self).order()[j].key == k),
            forall|k: u64| old(self).physical().contains_key(k)
                && (forall|j: int| 0 <= j < old(self).order().len() ==> old(self).order()[j].key != k)
                ==> #[trigger] final(self).physical()[k] == old(self).physical()[k],
    {
        let n = self.order_of_passes.len();
        let mut i: usize = 0;
        while i < n
            invariant
                self.wf(),
                n == self.order().len(),
                i <= n,
                self.passes() == old(self).passes(),
                self.resources() == old(self).resources(),
                self.pass_names() == old(self).pass_names(),
                self.resource_names() == old(self).resource_names(),
                self.order() == old(self).order(),
                self.images() == old(self).images(),
                self.swapchain() == old(self).swapchain(),
                images_cover(self.passes(), self.order(), self.images()),
                forall|i2: int| 0 <= i2 < i && (forall|j: int| i2 < j < i ==> self.order()[j] != self.order()[i2])
                    ==> self.physical().contains_key(self.order()[i2].key)
                    && is_baked_pass(#[trigger] self.physical()[self.order()[i2].key], self.passes(), self.resources(), self.images(), self.order(), self.swapchain(), i2),
                forall|k: u64| #[trigger] self.physical().contains_key(k) <==> (old(self).physical().contains_key(k)
                    || exists|j: int| 0 <= j < i && self.order()[j].key == k),
                forall|k: u64| old(self).physical().contains_key(k)
                    && (forall|j: int| 0 <= j < i ==> self.order()[j].key != k)
                    ==> #[trigger] self.physical()[k] == old(self).physical()[k],
            decreases n - i,
        {
            let p = self.physical_pass_for(i);
            let key = self.order_of_passes[i].key;
            let ghost before = self.physical();
            insert_physical(&mut self.physical_passes, key, p);
            proof {
                assert(self.passes() == old(self).passes());
                assert(self.resources() == old(self).resources());
                assert(self.order() == old(self).order());
                assert(self.images() == old(self).images());
                assert forall|i2: int| 0 <= i2 < i + 1 && (forall|j: int| i2 < j < i + 1 ==> self.order()[j] != self.order()[i2])
                    implies self.physical().contains_key(self.order()[i2].key)
                    && is_baked_pass(#[trigger] self.physical()[self.order()[i2].key], self.passes(), self.resources(), self.images(), self.order(), self.swapchain(), i2) by {
                    if i2 < i {
                        assert(self.order()[i as int] != self.order()[i2]);
                        assert(self.order()[i as int].key != self.order()[i2].key);
                    }
                }
                assert forall|k: u64| old(self).physical().contains_key(k)
                    && (forall|j: int| 0 <= j < i + 1 ==> self.order()[j].key != k)
                    implies #[trigger] self.physical()[k] == old(self).physical()[k] by {
                    assert(self.order()[i as int].key != k);
                    assert(self.physical() == before.insert(key, p));
                }
                assert forall|k: u64| #[trigger] self.physical().contains_key(k) <==> (old(self).physical().contains_key(k)
                    || exists|j: int| 0 <= j < i + 1 && self.order()[j].key == k) by {
                    assert(self.physical() == before.insert(key, p));
                    assert(before.contains_key(k) <==> (old(self).physical().contains_key(k)
                        || exists|j: int| 0 <= j < i && self.order()[j].key == k));
                    if k == key {
                        assert(self.order()[i as int].key == k);
                        assert(self.physical().contains_key(k));
                    } else {
                        assert(self.physical().contains_key(k) == before.contains_key(k));
                        if exists|j: int| 0 <= j < i + 1 && self.order()[j].key == k {
                            let j = choose|j: int| 0 <= j < i + 1 && self.order()[j].key == k;
                            assert(j != i);
                            assert(exists|j2: int| 0 <= j2 < i && self.order()[j2].key == k);
                        }
                        if exists|j: int| 0 <= j < i && self.order()[j].key == k {
                            let j = choose|j: int| 0 <= j < i && self.order()[j].key == k;
                            assert(exists|j2: int| 0 <= j2 < i + 1 && self.order()[j2].key == k);
                        }
                    }
                }
            }
            i = i + 1;
        }
    }

    /// The baked form of the pass under `handle`.
    pub fn get_physical_pass(&self, handle: VirtualRenderPassHandle) -> (r: &PhysicalRenderPass)
        requires
            self.physical().contains_key(handle.key),
        ensures
            *r == self.physical()[handle.key],
    {
        broadcast use vstd::std_specs::hash::group_hash_axioms;
        match self.physical_passes.get(&handle.key) {
            Some(p) => p,
            None => {
                assert(false);
                vstd::pervasive::unreached()
            },
        }
    }

    /// The image of the texture named `name`.
    pub fn get_physical_resource(&self, name: &str) -> (r: ImageHandle)
        requires
            self.wf(),
            self.resource_names().contains_key(name@),
            self.images().contains_key(self.resource_names()[name@]),
        ensures
            r == self.images()[self.resource_names()[name@]],
    {
        let key = match self.resource.resource_to_handle.get(name) {
            Some(k) => k,
            None => {
                assert(false);
                vstd::pervasive::unreached()
            },
        };
        self.image_of(key)
    }
}


/// Whether `b` brings one of the images of `cs` into usage `usage`.
pub open spec fn barrier_targets(
    b: ImageBarrier,
    cs: Seq<VirtualTextureResourceHandle>,
    images: Map<u64, ImageHandle>,
    usage: u32,
) -> bool {
    &&& b.new_layout == crate::vkflags::layout_for_usage(usage)
    &&& b.dst_access_mask == crate::vkflags::access_for_usage(usage)
    &&& b.dst_stage_mask == crate::vkflags::stage_for_usage(usage)
    &&& exists|j: int| 0 <= j < cs.len() && b.image == crate::barrier::AttachmentHandle::Image(images[cs[j].key])
}

/// Law: each attachment gets at most one barrier, and every barrier brings
/// one of the attachments into the attachments' usage.
pub proof fn lemma_attachment_barriers_target(
    cs: Seq<VirtualTextureResourceHandle>,
    res: Map<u64, VirtualTextureResource>,
    images: Map<u64, ImageHandle>,
    order: Seq<VirtualRenderPassHandle>,
    i: int,
    usage: u32,
)
    ensures
        attachments_barriers(cs, res, images, order, i, usage).len() <= cs.len(),
        forall|k: int| 0 <= k < attachments_barriers(cs, res, images, order, i, usage).len() ==>
            barrier_targets(#[trigger] attachments_barriers(cs, res, images, order, i, usage)[k], cs, images, usage),
    decreases cs.len(),
{
    if cs.len() > 0 {
        let rest = cs.drop_last();
        lemma_attachment_barriers_target(rest, res, images, order, i, usage);
        let bs = attachments_barriers(cs, res, images, order, i, usage);
        let front = attachments_barriers(rest, res, images, order, i, usage);
        let c = cs.last();
        let tail = attachment_barrier(last_rw(res[c.key].read_passes(), res[c.key].write_passes(), order, i), images[c.key], usage);
        assert(bs == front + tail);
        assert forall|k: int| 0 <= k < bs.len() implies barrier_targets(#[trigger] bs[k], cs, images, usage) by {
            if k < front.len() {
                assert(bs[k] == front[k]);
                assert(barrier_targets(front[k], rest, images, usage));
                let j = choose|j: int| 0 <= j < rest.len() && front[k].image == crate::barrier::AttachmentHandle::Image(images[rest[j].key]);
                assert(rest[j] == cs[j]);
            } else {
                assert(bs[k] == tail[k - front.len()]);
                assert(bs[k].image == crate::barrier::AttachmentHandle::Image(images[cs[cs.len() - 1].key]));
            }
        }
    }
}

/// Law: each sampled input gets at most one barrier, and every barrier
/// brings one of the inputs into sampled use.
pub proof fn lemma_input_barriers_target(
    ts: Seq<VirtualTextureResourceHandle>,
    passes: Map<u64, VirtualRenderPass>,
    images: Map<u64, ImageHandle>,
    order: Seq<VirtualRenderPassHandle>,
    i: int,
)
    ensures
        inputs_barriers(ts, passes, images, order, i).len() <= ts.len(),
        forall|k: int| 0 <= k < inputs_barriers(ts, passes, images, order, i).len() ==>
            barrier_targets(#[trigger] inputs_barriers(ts, passes, images, order, i)[k], ts, images, crate::vkflags::USAGE_SAMPLED),
    decreases ts.len(),
{
    if ts.len() > 0 {
        let rest = ts.drop_last();
        lemma_input_barriers_target(rest, passes, images, order, i);
        let bs = inputs_barriers(ts, passes, images, order, i);
        let front = inputs_barriers(rest, passes, images, order, i);
        let t = ts.last();
        let tail = input_barrier(last_input_use(passes, order, i, t), images[t.key]);
        assert(bs == front + tail);
        assert forall|k: int| 0 <= k < bs.len() implies barrier_targets(#[trigger] bs[k], ts, images, crate::vkflags::USAGE_SAMPLED) by {
            if k < front.len() {
                assert(bs[k] == front[k]);
                assert(barrier_targets(front[k], rest, images, crate::vkflags::USAGE_SAMPLED));
                let j = choose|j: int| 0 <= j < rest.len() && front[k].image == crate::barrier::AttachmentHandle::Image(images[rest[j].key]);
                assert(rest[j] == ts[j]);
            } else {
                assert(bs[k] == tail[k - front.len()]);
                assert(bs[k].image == crate::barrier::AttachmentHandle::Image(images[ts[ts.len() - 1].key]));
            }
        }
    }
}

/// The number of textures a pass uses: its colour attachments, its depth
/// attachment and its sampled inputs.
pub open spec fn pass_texture_count(pp: VirtualRenderPass) -> int {
    pp.color_attachments@.len() + (if pp.depth_attachment is Some { 1int } else { 0int }) + pp.texture_inputs@.len()
}

/// Law: a baked pass records at most one barrier per texture it uses.
pub proof fn lemma_pass_barriers_bounded(
    passes: Map<u64, VirtualRenderPass>,
    res: Map<u64, VirtualTextureResource>,
    images: Map<u64, ImageHandle>,
    order: Seq<VirtualRenderPassHandle>,
    i: int,
)
    ensures
        pass_barriers(passes, res, images, order, i).len() <= pass_texture_count(passes[order[i].key]),
{
    let pp = passes[order[i].key];
    lemma_attachment_barriers_target(pp.color_attachments@, res, images, order, i, crate::vkflags::USAGE_COLOR_ATTACHMENT);
    if let Some(d) = pp.depth_attachment {
        lemma_attachment_barriers_target(seq![d], res, images, order, i, crate::vkflags::USAGE_DEPTH_STENCIL_ATTACHMENT);
    }
    lemma_input_barriers_target(pp.texture_inputs@, passes, images, order, i);
}

/// A well-formed graph holds finitely many passes and textures; every name
/// in its tables names a held pass or texture, each held one is named,
/// distinct names name distinct passes and distinct textures, and each
/// texture carries the name it is found under.
pub proof fn lemma_render_list_wf(list: RenderList)
    requires
        list.wf(),
    ensures
        list.passes().dom().finite(),
        list.resources().dom().finite(),
        table_matches(list.pass_names(), list.passes().dom()),
        table_matches(list.resource_names(), list.resources().dom()),
        forall|n: Seq<char>| #[trigger] list.resource_names().contains_key(n)
            ==> list.resources()[list.resource_names()[n]].resource_name() == n,
{
}

/// Law: passes are keyed by name. Of two passes added one after the other,
/// the handles are equal exactly when the names are.
pub proof fn lemma_pass_handles_by_name(
    l0: RenderList,
    l1: RenderList,
    l2: RenderList,
    n1: Seq<char>,
    n2: Seq<char>,
    h1: VirtualRenderPassHandle,
    h2: VirtualRenderPassHandle,
)
    requires
        l0.wf(),
        l1.wf(),
        l2.wf(),
        l0.pass_names().contains_key(n1) ==> h1.key == l0.pass_names()[n1],
        !l0.pass_names().contains_key(n1) ==> !l0.passes().contains_key(h1.key),
        l1.pass_names() == l0.pass_names().insert(n1, h1.key),
        l1.pass_names().contains_key(n2) ==> h2.key == l1.pass_names()[n2],
        !l1.pass_names().contains_key(n2) ==> !l1.passes().contains_key(h2.key),
        l2.pass_names() == l1.pass_names().insert(n2, h2.key),
    ensures
        (h1 == h2) <==> (n1 == n2),
{
    assert(l1.pass_names().contains_key(n1));
    assert(l1.passes().contains_key(h1.key));
    if n1 != n2 && l1.pass_names().contains_key(n2) {
        assert(l1.pass_names()[n1] == h1.key);
        assert(l1.pass_names()[n2] == h2.key);
    }
}

/// Law: before the first pass nothing has used any texture, so every
/// barrier of the first pass starts from the undefined layout with an empty
/// source side.
pub proof fn lemma_first_pass_from_undefined(
    passes: Map<u64, VirtualRenderPass>,
    res: Map<u64, VirtualTextureResource>,
    images: Map<u64, ImageHandle>,
    order: Seq<VirtualRenderPassHandle>,
)
    requires
        order.len() > 0,
    ensures
        forall|k: int| 0 <= k < pass_barriers(passes, res, images, order, 0).len() ==> {
            let b = #[trigger] pass_barriers(passes, res, images, order, 0)[k];
            &&& b.old_layout == crate::vkflags::LAYOUT_UNDEFINED
            &&& b.src_access_mask == crate::vkflags::ACCESS_NONE
            &&& b.src_stage_mask == crate::vkflags::STAGE_NONE
        },
{
    let pp = passes[order[0].key];
    lemma_attachments_first_use(pp.color_attachments@, res, images, order, crate::vkflags::USAGE_COLOR_ATTACHMENT);
    match pp.depth_attachment {
        Some(d) => lemma_attachments_first_use(seq![d], res, images, order, crate::vkflags::USAGE_DEPTH_STENCIL_ATTACHMENT),
        None => {},
    }
    lemma_inputs_first_use(pp.texture_inputs@, passes, images, order);
}

/// Whether a barrier starts from no known use.
pub open spec fn from_undefined(b: ImageBarrier) -> bool {
    &&& b.old_layout == crate::vkflags::LAYOUT_UNDEFINED
    &&& b.src_access_mask == crate::vkflags::ACCESS_NONE
    &&& b.src_stage_mask == crate::vkflags::STAGE_NONE
}

proof fn lemma_attachments_first_use(
    cs: Seq<VirtualTextureResourceHandle>,
    res: Map<u64, VirtualTextureResource>,
    images: Map<u64, ImageHandle>,
    order: Seq<VirtualRenderPassHandle>,
    usage: u32,
)
    ensures
        forall|k: int| 0 <= k < attachments_barriers(cs, res, images, order, 0, usage).len() ==>
            from_undefined(#[trigger] attachments_barriers(cs, res, images, order, 0, usage)[k]),
    decreases cs.len(),
{
    if cs.len() > 0 {
        let rest = cs.drop_last();
        lemma_attachments_first_use(rest, res, images, order, usage);
        let bs = attachments_barriers(cs, res, images, order, 0, usage);
        let front = attachments_barriers(rest, res, images, order, 0, usage);
        let c = cs.last();
        assert(last_rw(res[c.key].read_passes(), res[c.key].write_passes(), order, 0) == LastUsage::Unused);
        let tail = attachment_barrier(LastUsage::Unused, images[c.key], usage);
        assert(bs == front + tail);
        assert forall|k: int| 0 <= k < bs.len() implies from_undefined(#[trigger] bs[k]) by {
            if k < front.len() {
                assert(bs[k] == front[k]);
            } else {
                assert(bs[k] == tail[k - front.len()]);
            }
        }
    }
}

proof fn lemma_inputs_first_use(
    ts: Seq<VirtualTextureResourceHandle>,
    passes: Map<u64, VirtualRenderPass>,
    images: Map<u64, ImageHandle>,
    order: Seq<VirtualRenderPassHandle>,
)
    ensures
        forall|k: int| 0 <= k < inputs_barriers(ts, passes, images, order, 0).len() ==>
            from_undefined(#[trigger] inputs_barriers(ts, passes, images, order, 0)[k]),
    decreases ts.len(),
{
    if ts.len() > 0 {
        let rest = ts.drop_last();
        lemma_inputs_first_use(rest, passes, images, order);
        let bs = inputs_barriers(ts, passes, images, order, 0);
        let front = inputs_barriers(rest, passes, images, order, 0);
        let t = ts.last();
        assert(last_input_use(passes, order, 0, t).0 == LastUsage::Unused);
        let tail = input_barrier(last_input_use(passes, order, 0, t), images[t.key]);
        assert(bs == front + tail);
        assert forall|k: int| 0 <= k < bs.len() implies from_undefined(#[trigger] bs[k]) by {
            if k < front.len() {
                assert(bs[k] == front[k]);
            } else {
                assert(bs[k] == tail[k - front.len()]);
            }
        }
    }
}

} // verus!
