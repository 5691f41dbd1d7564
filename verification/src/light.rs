//! The renderer's store of point lights: which lights exist and the cap on
//! their number. A light's position, colour and intensity are
//! floating-point values kept beside this store, by handle, by the code that
//! uploads them.
use vstd::prelude::*;
use slotmap::{DefaultKey, KeyData, SlotMap};
use crate::handles::{LightHandle, is_live_key};

verus! {

/// The most lights the light buffer holds.
pub const MAX_LIGHTS: usize = 64usize;

/// The lights, in a slot map that holds no data of its own.
#[verifier::external_body]
pub struct LightSlots {
    inner: SlotMap<DefaultKey, ()>,
}

/// The key values of the lights held.
pub uninterp spec fn light_slots(m: LightSlots) -> Set<u64>;

/// `SlotMap::new`: an empty map.
#[verifier::external_body]
fn light_slots_new() -> (r: LightSlots)
    ensures
        light_slots(r) =~= Set::empty(),
{
    LightSlots { inner: SlotMap::new() }
}

/// `SlotMap::insert`: takes a key that is not in use and returns its value.
/// A new slot is only made when every slot is occupied, and that panics at
/// `u32::MAX` slots, so it cannot panic below that many entries.
#[verifier::external_body]
fn light_slots_insert(m: &mut LightSlots) -> (k: u64)
    requires
        light_slots(*old(m)).len() + 2 < 0x1_0000_0000,
    ensures
        is_live_key(k),
        !light_slots(*old(m)).contains(k),
        light_slots(*final(m)) == light_slots(*old(m)).insert(k),
{
    slotmap::Key::data(&m.inner.insert(())).as_ffi()
}

/// `SlotMap::contains_key`: for a key value that the map hands out, whether
/// it names a light held.
#[verifier::external_body]
fn light_slots_contains(m: &LightSlots, key: u64) -> (r: bool)
    ensures
        is_live_key(key) ==> r == light_slots(*m).contains(key),
{
    m.inner.contains_key(DefaultKey::from(KeyData::from_ffi(key)))
}

/// `SlotMap::len`: the number of lights held.
#[verifier::external_body]
fn light_slots_len(m: &LightSlots) -> (r: usize)
    ensures
        r == light_slots(*m).len(),
{
    m.inner.len()
}

/// Why a light operation was refused.
#[derive(Clone, Copy, PartialEq, Eq, Structural, Debug)]
pub enum LightError {
    /// The handle named no light.
    NoLight,
}

/// The lights of the renderer.
pub struct LightStore {
    lights: LightSlots,
}

impl LightStore {
    /// The key values of the lights.
    pub closed spec fn lights(&self) -> Set<u64> {
        light_slots(self.lights)
    }

    /// Well-formedness: finitely many lights, at most the cap.
    pub closed spec fn wf(&self) -> bool {
        &&& self.lights().finite()
        &&& self.lights().len() <= MAX_LIGHTS
    }

    /// No light.
    pub fn new() -> (r: Self)
        ensures
            r.wf(),
            r.lights() == Set::<u64>::empty(),
    {
        LightStore { lights: light_slots_new() }
    }

    /// Creates a light, unless the store already holds `MAX_LIGHTS` of them:
    /// then nothing changes and there is no handle.
    pub fn create_light(&mut self) -> (r: Option<LightHandle>)
        requires
            old(self).wf(),
        ensures
            final(self).wf(),
            old(self).lights().len() >= MAX_LIGHTS ==> r is None && final(self).lights() == old(self).lights(),
            old(self).lights().len() < MAX_LIGHTS ==> (r matches Some(h) && {
                &&& is_live_key(h.key)
                &&& !old(self).lights().contains(h.key)
                &&& final(self).lights() == old(self).lights().insert(h.key)
                &&& final(self).lights().len() == old(self).lights().len() + 1
            }),
    {
        if light_slots_len(&self.lights) >= MAX_LIGHTS {
            return None;
        }
        let key = light_slots_insert(&mut self.lights);
        Some(LightHandle { key })
    }

    /// Checks that `light_handle` names a light, before its data is
    /// replaced: `Ok` exactly when it does.
    pub fn set_light(&self, light_handle: LightHandle) -> (r: Result<(), LightError>)
        requires
            is_live_key(light_handle.key),
        ensures
            r is Ok <==> self.lights().contains(light_handle.key),
            r matches Err(e) ==> e == LightError::NoLight,
    {
        if light_slots_contains(&self.lights, light_handle.key) {
            Ok(())
        } else {
            Err(LightError::NoLight)
        }
    }

    /// The number of lights, which the light count of the camera uniform
    /// takes.
    pub fn light_count(&self) -> (r: usize)
        ensures
            r == self.lights().len(),
    {
        light_slots_len(&self.lights)
    }
}

/// Law: creating lights stops at the cap. A store holding `MAX_LIGHTS`
/// lights refuses a new one and stays as it is; below the cap, a new light
/// is created and found.
pub proof fn lemma_light_cap(before: Set<u64>, after: Set<u64>, created: Option<LightHandle>)
    requires
        before.finite(),
        before.len() <= MAX_LIGHTS,
        before.len() >= MAX_LIGHTS ==> created is None && after == before,
        before.len() < MAX_LIGHTS ==> (created matches Some(h) && !before.contains(h.key) && after == before.insert(h.key)),
    ensures
        after.len() <= MAX_LIGHTS,
        created is Some <==> before.len() < MAX_LIGHTS,
        created matches Some(h) ==> after.contains(h.key) && after.len() == before.len() + 1,
{
}

} // verus!
