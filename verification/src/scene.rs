//! The renderer's scene: the render models it draws and the material
//! instances they use.
//!
//! A model's transform and a material's colours are floating-point values
//! that only the GPU reads; they are kept beside these records, by handle,
//! by the code that uploads them. The records hold what the renderer's
//! decisions read: which mesh and material a model uses and which textures a
//! material samples.
use vstd::prelude::*;
use slotmap::{DefaultKey, KeyData, SlotMap};
use crate::draw::MaterialTextures;
use crate::handles::{MaterialInstanceHandle, MeshHandle, RenderModelHandle, is_live_key, slot_index};

verus! {

/// The most material instances the material buffer holds.
pub const MAX_MATERIAL_INSTANCES: usize = 128usize;

/// A model the renderer draws: its mesh and its material instance.
#[derive(Clone, Copy, PartialEq, Eq, Structural, Debug)]
pub struct RenderModel {
    pub mesh_handle: MeshHandle,
    pub material_instance: MaterialInstanceHandle,
}

/// Why a scene operation was refused.
#[derive(Clone, Copy, PartialEq, Eq, Structural, Debug)]
pub enum SceneError {
    /// A render model handle named no model.
    UnknownRenderModel,
    /// A material instance handle named no material instance.
    UnknownMaterial,
}

/// The render models, in a slot map.
#[verifier::external_body]
pub struct ModelSlots {
    inner: SlotMap<DefaultKey, RenderModel>,
}

/// The render models held, by key value.
pub uninterp spec fn model_slots(m: ModelSlots) -> Map<u64, RenderModel>;

/// `SlotMap::new`: an empty map.
#[verifier::external_body]
fn model_slots_new() -> (r: ModelSlots)
    ensures
        model_slots(r) =~= Map::empty(),
{
    ModelSlots { inner: SlotMap::new() }
}

/// `SlotMap::insert`: stores `v` under a key that is not in use, and returns
/// the key's value. A new slot is only made when every slot is occupied, and
/// that panics at `u32::MAX` slots, so it cannot panic below that many
/// entries.
#[verifier::external_body]
fn model_slots_insert(m: &mut ModelSlots, v: RenderModel) -> (k: u64)
    requires
        model_slots(*old(m)).len() + 2 < 0x1_0000_0000,
    ensures
        is_live_key(k),
        !model_slots(*old(m)).contains_key(k),
        model_slots(*final(m)) == model_slots(*old(m)).insert(k, v),
{
    slotmap::Key::data(&m.inner.insert(v)).as_ffi()
}

/// `SlotMap::remove`: takes out the model under `key`, if there is one.
#[verifier::external_body]
fn model_slots_remove(m: &mut ModelSlots, key: u64) -> (r: Option<RenderModel>)
    requires
        is_live_key(key),
    ensures
        model_slots(*old(m)).contains_key(key) ==> r == Some(model_slots(*old(m))[key]),
        !model_slots(*old(m)).contains_key(key) ==> r is None,
        model_slots(*final(m)) == model_slots(*old(m)).remove(key),
{
    m.inner.remove(DefaultKey::from(KeyData::from_ffi(key)))
}

/// `SlotMap::get`: the model under `key`, copied. A live key that is not in
/// the map finds nothing.
#[verifier::external_body]
fn model_slots_get(m: &ModelSlots, key: u64) -> (r: Option<RenderModel>)
    ensures
        model_slots(*m).contains_key(key) ==> r == Some(model_slots(*m)[key]),
        !model_slots(*m).contains_key(key) && is_live_key(key) ==> r is None,
{
    m.inner.get(DefaultKey::from(KeyData::from_ffi(key))).copied()
}

/// `SlotMap::get_mut`, then an assignment: replaces the model under `key`.
#[verifier::external_body]
fn model_slots_set(m: &mut ModelSlots, key: u64, v: RenderModel)
    requires
        model_slots(*old(m)).contains_key(key),
    ensures
        model_slots(*final(m)) == model_slots(*old(m)).insert(key, v),
{
    if let Some(slot) = m.inner.get_mut(DefaultKey::from(KeyData::from_ffi(key))) {
        *slot = v;
    }
}

/// `SlotMap::iter`: every model with its key, each once, in increasing
/// slot index (the order in which the map walks its slots).
#[verifier::external_body]
fn model_slots_entries(m: &ModelSlots) -> (r: Vec<(u64, RenderModel)>)
    ensures
        forall|i: int| 0 <= i < r@.len() ==> model_slots(*m).contains_key(#[trigger] r@[i].0)
            && model_slots(*m)[r@[i].0] == r@[i].1,
        forall|k: u64| #[trigger] model_slots(*m).contains_key(k) ==> exists|i: int| 0 <= i < r@.len() && r@[i].0 == k,
        forall|i: int, j: int| 0 <= i < j < r@.len() ==> slot_index(#[trigger] r@[i].0) < slot_index(#[trigger] r@[j].0),
{
    m.inner.iter().map(|(k, v)| (slotmap::Key::data(&k).as_ffi(), *v)).collect()
}

/// The material instances, in a slot map.
#[verifier::external_body]
pub struct MaterialSlots {
    inner: SlotMap<DefaultKey, MaterialTextures>,
}

/// The material instances held, by key value.
pub uninterp spec fn material_slots(m: MaterialSlots) -> Map<u64, MaterialTextures>;

/// `SlotMap::new`: an empty map.
#[verifier::external_body]
fn material_slots_new() -> (r: MaterialSlots)
    ensures
        material_slots(r) =~= Map::empty(),
{
    MaterialSlots { inner: SlotMap::new() }
}

/// `SlotMap::insert`: stores `v` under a key that is not in use, and returns
/// the key's value. It panics only when the map holds `u32::MAX - 1` slots;
/// this map never removes, so its slots are its entries.
#[verifier::external_body]
fn material_slots_insert(m: &mut MaterialSlots, v: MaterialTextures) -> (k: u64)
    requires
        material_slots(*old(m)).len() + 2 < 0x1_0000_0000,
    ensures
        is_live_key(k),
        !material_slots(*old(m)).contains_key(k),
        material_slots(*final(m)) == material_slots(*old(m)).insert(k, v),
{
    slotmap::Key::data(&m.inner.insert(v)).as_ffi()
}

/// `SlotMap::get`: the material under `key`, copied. A live key that is not
/// in the map finds nothing.
#[verifier::external_body]
fn material_slots_get(m: &MaterialSlots, key: u64) -> (r: Option<MaterialTextures>)
    ensures
        material_slots(*m).contains_key(key) ==> r == Some(material_slots(*m)[key]),
        !material_slots(*m).contains_key(key) && is_live_key(key) ==> r is None,
{
    m.inner.get(DefaultKey::from(KeyData::from_ffi(key))).copied()
}

/// `SlotMap::get_mut`, then an assignment: replaces the material under
/// `key`.
#[verifier::external_body]
fn material_slots_set(m: &mut MaterialSlots, key: u64, v: MaterialTextures)
    requires
        material_slots(*old(m)).contains_key(key),
    ensures
        material_slots(*final(m)) == material_slots(*old(m)).insert(key, v),
{
    if let Some(slot) = m.inner.get_mut(DefaultKey::from(KeyData::from_ffi(key))) {
        *slot = v;
    }
}

/// `SlotMap::len`: the number of materials held.
#[verifier::external_body]
fn material_slots_len(m: &MaterialSlots) -> (r: usize)
    ensures
        r == material_slots(*m).len(),
{
    m.inner.len()
}

/// `SlotMap::keys`: the key of every material, each once, in increasing
/// slot index (the order in which the map walks its slots).
#[verifier::external_body]
fn material_slots_keys(m: &MaterialSlots) -> (r: Vec<u64>)
    ensures
        r@.no_duplicates(),
        r@.to_set() == material_slots(*m).dom(),
        forall|i: int, j: int| 0 <= i < j < r@.len() ==> slot_index(#[trigger] r@[i]) < slot_index(#[trigger] r@[j]),
{
    m.inner.keys().map(|k| slotmap::Key::data(&k).as_ffi()).collect()
}

/// Whether every handle of `hs` names a model of `models`.
pub open spec fn all_present(models: Map<u64, RenderModel>, hs: Seq<RenderModelHandle>) -> bool {
    forall|i: int| 0 <= i < hs.len() ==> models.contains_key(#[trigger] hs[i].key)
}

/// `models` with the material of each model named by `hs` set to
/// `material`.
pub open spec fn with_material(
    models: Map<u64, RenderModel>,
    hs: Seq<RenderModelHandle>,
    material: MaterialInstanceHandle,
) -> Map<u64, RenderModel>
    decreases hs.len(),
{
    if hs.len() == 0 {
        models
    } else {
        let m = with_material(models, hs.drop_last(), material);
        let k = hs.last().key;
        if m.contains_key(k) {
            m.insert(k, RenderModel { material_instance: material, ..m[k] })
        } else {
            m
        }
    }
}

/// The index of the first handle of `hs` that names no model, when all
/// before it do.
pub open spec fn is_first_missing(models: Map<u64, RenderModel>, hs: Seq<RenderModelHandle>, i: int) -> bool {
    &&& 0 <= i < hs.len()
    &&& !models.contains_key(hs[i].key)
    &&& all_present(models, hs.take(i))
}

/// The render models and material instances of the renderer.
pub struct Scene {
    render_models: ModelSlots,
    material_instances: MaterialSlots,
}

impl Scene {
    /// The render models, by key.
    pub closed spec fn models(&self) -> Map<u64, RenderModel> {
        model_slots(self.render_models)
    }

    /// The material instances, by key.
    pub closed spec fn materials(&self) -> Map<u64, MaterialTextures> {
        material_slots(self.material_instances)
    }

    /// Well-formedness: the scene holds finitely many models and materials.
    pub closed spec fn wf(&self) -> bool {
        &&& self.models().dom().finite()
        &&& self.materials().dom().finite()
    }

    /// An empty scene.
    pub fn new() -> (r: Self)
        ensures
            r.wf(),
            r.models() =~= Map::empty(),
            r.materials() =~= Map::empty(),
    {
        Scene { render_models: model_slots_new(), material_instances: material_slots_new() }
    }

    /// Adds a model that draws `handle` with `material_handle`.
    pub fn add_render_model(&mut self, handle: MeshHandle, material_handle: MaterialInstanceHandle) -> (r: RenderModelHandle)
        requires
            old(self).wf(),
            old(self).models().len() + 2 < 0x1_0000_0000,
        ensures
            final(self).wf(),
            is_live_key(r.key),
            !old(self).models().contains_key(r.key),
            final(self).models() == old(self).models().insert(
                r.key,
                RenderModel { mesh_handle: handle, material_instance: material_handle },
            ),
            final(self).models().len() == old(self).models().len() + 1,
            final(self).materials() == old(self).materials(),
    {
        let key = model_slots_insert(
            &mut self.render_models,
            RenderModel { mesh_handle: handle, material_instance: material_handle },
        );
        RenderModelHandle { key }
    }

    /// Removes the model `handle` names, if it names one.
    pub fn remove_render_model(&mut self, handle: RenderModelHandle)
        requires
            old(self).wf(),
            is_live_key(handle.key),
        ensures
            final(self).wf(),
            final(self).models() == old(self).models().remove(handle.key),
            old(self).models().contains_key(handle.key) ==> final(self).models().len() == old(self).models().len() - 1,
            !old(self).models().contains_key(handle.key) ==> final(self).models().len() == old(self).models().len(),
            final(self).materials() == old(self).materials(),
    {
        let _ = model_slots_remove(&mut self.render_models, handle.key);
    }

    /// The model `handle` names, if any.
    pub fn render_model(&self, handle: RenderModelHandle) -> (r: Option<RenderModel>)
        requires
            is_live_key(handle.key),
        ensures
            r == (if self.models().contains_key(handle.key) {
                Some(self.models()[handle.key])
            } else {
                None::<RenderModel>
            }),
    {
        model_slots_get(&self.render_models, handle.key)
    }

    /// Checks the handles of `handles` in order, as setting a transform on
    /// each does: `Ok` when every one names a model, else the position of
    /// the first that does not (the handles before it have had the
    /// transform set when the error is reported).
    pub fn check_render_models(&self, handles: &[RenderModelHandle]) -> (r: Result<(), usize>)
        requires
            forall|i: int| 0 <= i < handles@.len() ==> is_live_key(#[trigger] handles@[i].key),
        ensures
            r is Ok <==> all_present(self.models(), handles@),
            r matches Err(i) ==> is_first_missing(self.models(), handles@, i as int),
    {
        let mut i: usize = 0;
        while i < handles.len()
            invariant
                i <= handles@.len(),
                forall|j: int| 0 <= j < handles@.len() ==> is_live_key(#[trigger] handles@[j].key),
                all_present(self.models(), handles@.take(i as int)),
            decreases handles@.len() - i,
        {
            let h = handles[i];
            match model_slots_get(&self.render_models, h.key) {
                Some(_) => {},
                None => {
                    return Err(i);
                },
            }
            proof {
                assert forall|j: int| 0 <= j < i + 1 implies self.models().contains_key(#[trigger] handles@.take(i + 1)[j].key) by {
                    if j < i {
                        assert(handles@.take(i + 1)[j] == handles@.take(i as int)[j]);
                    }
                }
            }
            i = i + 1;
        }
        proof {
            assert(handles@.take(i as int) =~= handles@);
        }
        Ok(())
    }

    /// Sets the material of each model of `handles`, in order. The first
    /// handle that names no model stops it with an error; the models before
    /// it keep their new material.
    pub fn set_render_model_material(
        &mut self,
        handles: &[RenderModelHandle],
        material_instance: MaterialInstanceHandle,
    ) -> (r: Result<(), SceneError>)
        requires
            old(self).wf(),
            forall|i: int| 0 <= i < handles@.len() ==> is_live_key(#[trigger] handles@[i].key),
        ensures
            final(self).wf(),
            final(self).materials() == old(self).materials(),
            r is Ok <==> all_present(old(self).models(), handles@),
            r is Ok ==> final(self).models() == with_material(old(self).models(), handles@, material_instance),
            r is Err ==> r == Err::<(), SceneError>(SceneError::UnknownRenderModel)
                && exists|i: int| is_first_missing(old(self).models(), handles@, i)
                && final(self).models() == with_material(old(self).models(), handles@.take(i), material_instance),
    {
        let mut i: usize = 0;
        while i < handles.len()
            invariant
                i <= handles@.len(),
                forall|j: int| 0 <= j < handles@.len() ==> is_live_key(#[trigger] handles@[j].key),
                all_present(old(self).models(), handles@.take(i as int)),
                self.models() == with_material(old(self).models(), handles@.take(i as int), material_instance),
                self.models().dom() == old(self).models().dom(),
                self.materials() == old(self).materials(),
                self.wf(),
            decreases handles@.len() - i,
        {
            let h = handles[i];
            proof {
                assert(handles@.take(i + 1).drop_last() =~= handles@.take(i as int));
                assert(handles@.take(i + 1).last() == h);
            }
            match model_slots_get(&self.render_models, h.key) {
                Some(model) => {
                    model_slots_set(
                        &mut self.render_models,
                        h.key,
                        RenderModel { material_instance, ..model },
                    );
                    proof {
                        assert(self.models().dom() =~= old(self).models().dom());
                        assert forall|j: int| 0 <= j < i + 1 implies old(self).models().contains_key(#[trigger] handles@.take(i + 1)[j].key) by {
                            if j < i {
                                assert(handles@.take(i + 1)[j] == handles@.take(i as int)[j]);
                            }
                        }
                    }
                },
                None => {
                    proof {
                        assert(is_first_missing(old(self).models(), handles@, i as int));
                        assert(!all_present(old(self).models(), handles@));
                    }
                    return Err(SceneError::UnknownRenderModel);
                },
            }
            i = i + 1;
        }
        proof {
            assert(handles@.take(i as int) =~= handles@);
        }
        Ok(())
    }

    /// The models in the order the renderer walks them, each with its
    /// handle; a model's position in it is the index of its transform.
    pub fn render_models_in_order(&self) -> (r: Vec<(RenderModelHandle, RenderModel)>)
        ensures
            forall|i: int| 0 <= i < r@.len() ==> self.models().contains_key(#[trigger] r@[i].0.key)
                && self.models()[r@[i].0.key] == r@[i].1,
            forall|k: u64| #[trigger] self.models().contains_key(k) ==> exists|i: int| 0 <= i < r@.len() && r@[i].0.key == k,
            forall|i: int, j: int| 0 <= i < j < r@.len() ==> slot_index(#[trigger] r@[i].0.key) < slot_index(#[trigger] r@[j].0.key),
    {
        let entries = model_slots_entries(&self.render_models);
        let mut out: Vec<(RenderModelHandle, RenderModel)> = Vec::new();
        let mut i: usize = 0;
        while i < entries.len()
            invariant
                i <= entries@.len(),
                out@.len() == i,
                forall|j: int| 0 <= j < i ==> (#[trigger] out@[j]).0.key == entries@[j].0 && out@[j].1 == entries@[j].1,
            decreases entries@.len() - i,
        {
            let (k, m) = entries[i];
            out.push((RenderModelHandle { key: k }, m));
            i = i + 1;
        }
        proof {
            assert forall|k: u64| #[trigger] self.models().contains_key(k) implies exists|i: int| 0 <= i < out@.len() && out@[i].0.key == k by {
                let j = choose|j: int| 0 <= j < entries@.len() && entries@[j].0 == k;
                assert(out@[j].0.key == k);
            }
            assert forall|a: int, b: int| 0 <= a < b < out@.len() implies slot_index(#[trigger] out@[a].0.key) < slot_index(#[trigger] out@[b].0.key) by {
                assert(out@[a].0.key == entries@[a].0);
                assert(out@[b].0.key == entries@[b].0);
            }
        }
        out
    }

    /// Adds a material instance sampling `textures`. The material buffer
    /// holds a fixed number of them; adding to a scene that already holds
    /// more than that stops the engine.
    pub fn add_material_instance(&mut self, textures: MaterialTextures) -> (r: MaterialInstanceHandle)
        requires
            old(self).wf(),
            old(self).materials().len() <= MAX_MATERIAL_INSTANCES,
        ensures
            final(self).wf(),
            is_live_key(r.key),
            !old(self).materials().contains_key(r.key),
            final(self).materials() == old(self).materials().insert(r.key, textures),
            final(self).materials().len() == old(self).materials().len() + 1,
            final(self).models() == old(self).models(),
    {
        let key = material_slots_insert(&mut self.material_instances, textures);
        MaterialInstanceHandle { key }
    }

    /// The number of material instances.
    pub fn material_count(&self) -> (r: usize)
        ensures
            r == self.materials().len(),
    {
        material_slots_len(&self.material_instances)
    }

    /// The textures of the material `handle` names, if any.
    pub fn material_instance(&self, handle: MaterialInstanceHandle) -> (r: Option<MaterialTextures>)
        requires
            is_live_key(handle.key),
        ensures
            r == (if self.materials().contains_key(handle.key) {
                Some(self.materials()[handle.key])
            } else {
                None::<MaterialTextures>
            }),
    {
        material_slots_get(&self.material_instances, handle.key)
    }

    /// Replaces the textures of the material `handle` names; it is an error
    /// when it names none, and nothing changes then.
    pub fn set_material_instance(&mut self, handle: MaterialInstanceHandle, textures: MaterialTextures) -> (r: Result<(), SceneError>)
        requires
            old(self).wf(),
            is_live_key(handle.key),
        ensures
            final(self).wf(),
            final(self).models() == old(self).models(),
            old(self).materials().contains_key(handle.key) ==> r is Ok
                && final(self).materials() == old(self).materials().insert(handle.key, textures),
            !old(self).materials().contains_key(handle.key) ==> r == Err::<(), SceneError>(SceneError::UnknownMaterial)
                && final(self).materials() == old(self).materials(),
    {
        match material_slots_get(&self.material_instances, handle.key) {
            Some(_) => {
                material_slots_set(&mut self.material_instances, handle.key, textures);
                Ok(())
            },
            None => Err(SceneError::UnknownMaterial),
        }
    }

    /// The material handles in the order the renderer walks them; a
    /// material's position in it is its index in the material buffer.
    pub fn material_order(&self) -> (r: Vec<MaterialInstanceHandle>)
        ensures
            r@.len() == self.materials().len(),
            forall|i: int| 0 <= i < r@.len() ==> self.materials().contains_key(#[trigger] r@[i].key),
            forall|k: u64| #[trigger] self.materials().contains_key(k) ==> exists|i: int| 0 <= i < r@.len() && r@[i].key == k,
            forall|i: int, j: int| 0 <= i < j < r@.len() ==> slot_index(#[trigger] r@[i].key) < slot_index(#[trigger] r@[j].key),
    {
        let keys = material_slots_keys(&self.material_instances);
        let mut out: Vec<MaterialInstanceHandle> = Vec::new();
        let mut i: usize = 0;
        while i < keys.len()
            invariant
                i <= keys@.len(),
                out@.len() == i,
                forall|j: int| 0 <= j < i ==> (#[trigger] out@[j]).key == keys@[j],
            decreases keys@.len() - i,
        {
            out.push(MaterialInstanceHandle { key: keys[i] });
            i = i + 1;
        }
        proof {
            keys@.unique_seq_to_set();
            assert forall|k: u64| #[trigger] self.materials().contains_key(k) implies exists|i: int| 0 <= i < out@.len() && out@[i].key == k by {
                assert(keys@.to_set().contains(k));
                let j = choose|j: int| 0 <= j < keys@.len() && keys@[j] == k;
                assert(out@[j].key == k);
            }
            assert forall|i: int| 0 <= i < out@.len() implies self.materials().contains_key(#[trigger] out@[i].key) by {
                assert(keys@.to_set().contains(keys@[i]));
            }
            assert forall|a: int, b: int| 0 <= a < b < out@.len() implies slot_index(#[trigger] out@[a].key) < slot_index(#[trigger] out@[b].key) by {
                assert(out@[a].key == keys@[a]);
                assert(out@[b].key == keys@[b]);
            }
        }
        out
    }
}

/// A well-formed scene holds finitely many models and materials.
pub proof fn lemma_scene_finite(scene: Scene)
    requires
        scene.wf(),
    ensures
        scene.models().dom().finite(),
        scene.materials().dom().finite(),
{
}

/// Law: a model added under a new handle is found under it, the models
/// already there keep their handles and contents, and removing the new
/// model again leaves the models as they were.
pub proof fn lemma_add_then_remove(models: Map<u64, RenderModel>, key: u64, model: RenderModel)
    requires
        !models.contains_key(key),
    ensures
        models.insert(key, model).contains_key(key),
        models.insert(key, model)[key] == model,
        forall|k: u64| #[trigger] models.contains_key(k)
            ==> models.insert(key, model).contains_key(k) && models.insert(key, model)[k] == models[k],
        models.insert(key, model).remove(key) == models,
{
    assert(models.insert(key, model).remove(key) =~= models);
}

} // verus!
