use vstd::prelude::*;

verus! {

/// The 64-bit value of the null slot-map key (index `u32::MAX`, version 1).
/// A default-constructed handle holds it; no slot map ever hands it out.
pub const NULL_KEY: u64 = 0x1_ffff_ffffu64;

/// A slot-map key value as handed out by an insertion: its version (the upper
/// 32 bits) is odd.
pub open spec fn is_live_key(k: u64) -> bool {
    (k / 0x1_0000_0000) % 2 == 1
}

/// The slot index part of a key value (its lower 32 bits).
pub open spec fn slot_index(k: u64) -> int {
    k as int % 0x1_0000_0000
}

/// Handle of an image owned by the resource manager.
#[derive(Clone, Copy, PartialEq, Eq, Structural, Hash, Debug)]
pub struct ImageHandle {
    pub key: u64,
}

/// Handle of a buffer owned by the resource manager.
#[derive(Clone, Copy, PartialEq, Eq, Structural, Hash, Debug)]
pub struct BufferHandle {
    pub key: u64,
}

/// Handle of a mesh stored in the mesh pool.
#[derive(Clone, Copy, PartialEq, Eq, Structural, Hash, Debug)]
pub struct MeshHandle {
    pub key: u64,
}

/// Handle of a render target.
#[derive(Clone, Copy, PartialEq, Eq, Structural, Hash, Debug)]
pub struct RenderTargetHandle {
    pub key: u64,
}

/// Handle of a material instance held by the renderer.
#[derive(Clone, Copy, PartialEq, Eq, Structural, Hash, Debug)]
pub struct MaterialInstanceHandle {
    pub key: u64,
}

/// Handle of a render model held by the renderer.
#[derive(Clone, Copy, PartialEq, Eq, Structural, Hash, Debug)]
pub struct RenderModelHandle {
    pub key: u64,
}

/// Handle of a render pass declared in a render graph.
#[derive(Clone, Copy, PartialEq, Eq, Structural, Hash, Debug)]
pub struct VirtualRenderPassHandle {
    pub key: u64,
}

/// Handle of a texture resource declared in a render graph.
#[derive(Clone, Copy, PartialEq, Eq, Structural, Hash, Debug)]
pub struct VirtualTextureResourceHandle {
    pub key: u64,
}

/// Handle of a light held by the renderer.
#[derive(Clone, Copy, PartialEq, Eq, Structural, Hash, Debug)]
pub struct LightHandle {
    pub key: u64,
}

impl Default for ImageHandle {
    fn default() -> (r: Self)
        ensures
            r.key == NULL_KEY,
    {
        ImageHandle { key: NULL_KEY }
    }
}

} // verus!
