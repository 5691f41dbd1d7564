//! What the renderer records for each model and each UI mesh: draw data,
//! draw commands, and material texture slots.
use vstd::prelude::*;
use crate::bindless::{BindlessImage, BindlessManager};
use crate::handles::{ImageHandle, MaterialInstanceHandle, MeshHandle};
use crate::mesh_pool::{MeshPool, PooledMesh};

verus! {

/// One model to draw: where its mesh lies in the pool and which transform
/// and material it uses.
#[derive(Clone, Copy, PartialEq, Eq, Structural, Debug)]
pub struct DrawData {
    pub vertex_offset: usize,
    pub vertex_count: usize,
    pub index_offset: usize,
    pub index_count: usize,
    pub transform_index: usize,
    pub material_index: usize,
}

/// The draw for model number `i` on `mesh` with material number `material`.
pub open spec fn draw_for(mesh: PooledMesh, i: int, material: int) -> DrawData {
    DrawData {
        vertex_offset: mesh.vertex_offset,
        vertex_count: mesh.vertex_count,
        index_offset: mesh.index_offset,
        index_count: mesh.index_count,
        transform_index: i as usize,
        material_index: material as usize,
    }
}

/// The position of `h` in `keys`.
pub open spec fn first_index_of(keys: Seq<MaterialInstanceHandle>, h: MaterialInstanceHandle) -> int {
    choose|i: int| 0 <= i < keys.len() && keys[i] == h && forall|j: int| 0 <= j < i ==> keys[j] != h
}

/// The draws of `models` (mesh, material), in order: a model whose mesh
/// the pool does not hold is skipped; the others are drawn with their own
/// transform index and the position of their material among `materials`.
pub open spec fn draws_for(
    models: Seq<(MeshHandle, MaterialInstanceHandle)>,
    meshes: Map<u64, PooledMesh>,
    materials: Seq<MaterialInstanceHandle>,
) -> Seq<DrawData>
    decreases models.len(),
{
    if models.len() == 0 {
        Seq::empty()
    } else {
        let prev = draws_for(models.drop_last(), meshes, materials);
        let m = models.last();
        if meshes.contains_key(m.0.key) {
            prev.push(draw_for(meshes[m.0.key], models.len() - 1, first_index_of(materials, m.1)))
        } else {
            prev
        }
    }
}

/// The position of `h` in `keys`, which must hold it.
fn position_of(keys: &Vec<MaterialInstanceHandle>, h: MaterialInstanceHandle) -> (r: usize)
    requires
        keys@.contains(h),
    ensures
        r == first_index_of(keys@, h),
{
    let mut i: usize = 0;
    while i < keys.len()
        invariant
            i <= keys.len(),
            keys@.contains(h),
            forall|j: int| 0 <= j < i ==> keys@[j] != h,
        decreases keys.len() - i,
    {
        if keys[i] == h {
            proof {
                let c = first_index_of(keys@, h);
                assert(0 <= c < keys@.len() && keys@[c] == h && forall|j: int| 0 <= j < c ==> keys@[j] != h);
                if c < i {
                    assert(keys@[c] != h);
                } else if c > i {
                    assert(keys@[i as int] != h);
                }
            }
            return i;
        }
        i = i + 1;
    }
    proof {
        let j = choose|j: int| 0 <= j < keys@.len() && keys@[j] == h;
        assert(keys@[j] != h);
    }
    0
}

/// Builds the draws of the renderer's models. `models` holds the mesh and
/// material of each model in order, `materials` the material handles in
/// order; the material of every model whose mesh is pooled must be there
/// (the engine stops otherwise).
pub fn build_draw_data(
    models: &Vec<(MeshHandle, MaterialInstanceHandle)>,
    pool: &MeshPool,
    materials: &Vec<MaterialInstanceHandle>,
) -> (r: Vec<DrawData>)
    requires
        pool.wf(),
        forall|i: int| 0 <= i < models.len() ==> crate::handles::is_live_key(#[trigger] models@[i].0.key),
        forall|i: int| 0 <= i < models.len() && pool.meshes().contains_key(#[trigger] models@[i].0.key)
            ==> materials@.contains(models@[i].1),
    ensures
        r@ == draws_for(models@, pool.meshes(), materials@),
{
    let mut out: Vec<DrawData> = Vec::new();
    let mut i: usize = 0;
    while i < models.len()
        invariant
            i <= models.len(),
            pool.wf(),
            forall|k: int| 0 <= k < models.len() ==> crate::handles::is_live_key(#[trigger] models@[k].0.key),
            forall|k: int| 0 <= k < models.len() && pool.meshes().contains_key(#[trigger] models@[k].0.key)
                ==> materials@.contains(models@[k].1),
            out@ == draws_for(models@.take(i as int), pool.meshes(), materials@),
        decreases models.len() - i,
    {
        let (mesh_handle, material) = models[i];
        proof {
            assert(models@.take(i as int + 1).drop_last() =~= models@.take(i as int));
            assert(models@.take(i as int + 1).last() == models@[i as int]);
        }
        match pool.get(mesh_handle) {
            Some(mesh) => {
                let material_index = position_of(materials, material);
                out.push(
                    DrawData {
                        vertex_offset: mesh.vertex_offset,
                        vertex_count: mesh.vertex_count,
                        index_offset: mesh.index_offset,
                        index_count: mesh.index_count,
                        transform_index: i,
                        material_index,
                    },
                );
            },
            None => {},
        }
        i = i + 1;
    }
    proof {
        assert(models@.take(models.len() as int) =~= models@);
    }
    out
}

/// What a draw records: its push constants (transform and material index),
/// how many indices it draws, from which index, with which vertex offset.
#[derive(Clone, Copy, Debug)]
pub struct DrawCommand {
    pub push_constants: [i32; 4],
    pub index_count: u32,
    pub first_index: u32,
    pub vertex_offset: i32,
}

/// The command for `draw`: a mesh without indices draws as many indices as
/// it has vertices.
pub fn draw_command(draw: &DrawData) -> (r: DrawCommand)
    ensures
        r.push_constants@ == seq![draw.transform_index as i32, draw.material_index as i32, 0i32, 0i32],
        r.index_count == (if draw.index_count == 0 { draw.vertex_count as u32 } else { draw.index_count as u32 }),
        r.first_index == draw.index_offset as u32,
        r.vertex_offset == draw.vertex_offset as i32,
{
    let index_count = if draw.index_count == 0 {
        draw.vertex_count
    } else {
        draw.index_count
    };
    let r = DrawCommand {
        push_constants: [draw.transform_index as i32, draw.material_index as i32, 0, 0],
        index_count: index_count as u32,
        first_index: draw.index_offset as u32,
        vertex_offset: draw.vertex_offset as i32,
    };
    assert(r.push_constants@ =~= seq![draw.transform_index as i32, draw.material_index as i32, 0i32, 0i32]);
    r
}

/// Where a UI mesh goes in the frame's UI buffers.
#[derive(Clone, Copy, PartialEq, Eq, Structural, Debug)]
pub struct UIDrawCall {
    pub vertex_offset: usize,
    pub index_offset: usize,
    pub amount: usize,
}

/// Gap left after the indices of each UI mesh.
pub const UI_INDEX_GAP: usize = 16000usize;

/// The sum of the first `n` vertex counts.
pub open spec fn vertex_prefix(vs: Seq<usize>, n: int) -> int
    decreases n,
{
    if n <= 0 { 0 } else { vertex_prefix(vs, n - 1) + vs[n - 1] }
}

/// The sum of the first `n` index counts, each followed by the gap.
pub open spec fn index_prefix(is: Seq<usize>, n: int) -> int
    decreases n,
{
    if n <= 0 { 0 } else { index_prefix(is, n - 1) + is[n - 1] + UI_INDEX_GAP }
}

/// The draw calls of UI meshes with the given vertex and index counts, in
/// order: each starts after the vertices of the meshes before it, and after
/// their indices plus a gap after each.
pub fn ui_draw_calls(vertex_counts: &Vec<usize>, index_counts: &Vec<usize>) -> (r: Vec<UIDrawCall>)
    requires
        vertex_counts.len() == index_counts.len(),
        vertex_prefix(vertex_counts@, vertex_counts.len() as int) <= usize::MAX,
        index_prefix(index_counts@, index_counts.len() as int) <= usize::MAX,
    ensures
        r.len() == vertex_counts.len(),
        forall|i: int| 0 <= i < r.len() ==> #[trigger] r@[i] == (UIDrawCall {
            vertex_offset: vertex_prefix(vertex_counts@, i) as usize,
            index_offset: index_prefix(index_counts@, i) as usize,
            amount: index_counts@[i],
        }),
{
    let mut out: Vec<UIDrawCall> = Vec::new();
    let mut vertex_offset: usize = 0;
    let mut index_offset: usize = 0;
    let mut i: usize = 0;
    while i < vertex_counts.len()
        invariant
            vertex_counts.len() == index_counts.len(),
            i <= vertex_counts.len(),
            vertex_prefix(vertex_counts@, vertex_counts.len() as int) <= usize::MAX,
            index_prefix(index_counts@, index_counts.len() as int) <= usize::MAX,
            out.len() == i,
            vertex_offset == vertex_prefix(vertex_counts@, i as int),
            index_offset == index_prefix(index_counts@, i as int),
            forall|j: int| 0 <= j < i ==> #[trigger] out@[j] == (UIDrawCall {
                vertex_offset: vertex_prefix(vertex_counts@, j) as usize,
                index_offset: index_prefix(index_counts@, j) as usize,
                amount: index_counts@[j],
            }),
        decreases vertex_counts.len() - i,
    {
        out.push(UIDrawCall { vertex_offset, index_offset, amount: index_counts[i] });
        proof {
            lemma_prefix_mono(vertex_counts@, index_counts@, i as int + 1, vertex_counts.len() as int);
        }
        vertex_offset = vertex_offset + vertex_counts[i];
        index_offset = index_offset + index_counts[i] + UI_INDEX_GAP;
        i = i + 1;
    }
    out
}

proof fn lemma_prefix_mono(vs: Seq<usize>, is: Seq<usize>, a: int, b: int)
    requires
        0 <= a <= b,
    ensures
        vertex_prefix(vs, a) <= vertex_prefix(vs, b),
        index_prefix(is, a) <= index_prefix(is, b),
    decreases b - a,
{
    if a < b {
        lemma_prefix_mono(vs, is, a, b - 1);
    }
}

/// The textures a material samples, each optional.
#[derive(Clone, Copy, PartialEq, Eq, Structural, Debug)]
pub struct MaterialTextures {
    pub diffuse: Option<ImageHandle>,
    pub normal: Option<ImageHandle>,
    pub metallic_roughness: Option<ImageHandle>,
    pub emissive: Option<ImageHandle>,
    pub occlusion: Option<ImageHandle>,
}

/// A texture is either absent or registered for bindless access.
pub open spec fn slot_known(m: Map<BindlessImage, usize>, t: Option<ImageHandle>) -> bool {
    match t {
        Some(h) => m.contains_key(BindlessImage::Image(h)),
        None => true,
    }
}

/// The shader slot of a texture: its bindless index, or 0 for none.
pub open spec fn slot_of(m: Map<BindlessImage, usize>, t: Option<ImageHandle>) -> i32 {
    match t {
        Some(h) => m[BindlessImage::Image(h)] as i32,
        None => 0,
    }
}

fn texture_slot(bindless: &BindlessManager, t: Option<ImageHandle>) -> (r: i32)
    requires
        bindless.wf(),
        slot_known(bindless.indexes(), t),
    ensures
        r == slot_of(bindless.indexes(), t),
{
    match t {
        Some(h) => match bindless.get_bindless_index(&BindlessImage::Image(h)) {
            Some(index) => index as i32,
            None => 0,
        },
        None => 0,
    }
}

/// The texture slots a material's shader data carries: diffuse, normal,
/// metallic-roughness, occlusion and emissive, then three unused slots.
/// Every texture the material has must be registered (the engine stops
/// otherwise).
pub fn material_texture_slots(bindless: &BindlessManager, textures: &MaterialTextures) -> (r: [i32; 8])
    requires
        bindless.wf(),
        slot_known(bindless.indexes(), textures.diffuse),
        slot_known(bindless.indexes(), textures.normal),
        slot_known(bindless.indexes(), textures.metallic_roughness),
        slot_known(bindless.indexes(), textures.emissive),
        slot_known(bindless.indexes(), textures.occlusion),
    ensures
        r@ == seq![
            slot_of(bindless.indexes(), textures.diffuse),
            slot_of(bindless.indexes(), textures.normal),
            slot_of(bindless.indexes(), textures.metallic_roughness),
            slot_of(bindless.indexes(), textures.occlusion),
            slot_of(bindless.indexes(), textures.emissive),
            0i32,
            0i32,
            0i32
        ],
{
    let diffuse = texture_slot(bindless, textures.diffuse);
    let normal = texture_slot(bindless, textures.normal);
    let metallic_roughness = texture_slot(bindless, textures.metallic_roughness);
    let emissive = texture_slot(bindless, textures.emissive);
    let occlusion = texture_slot(bindless, textures.occlusion);
    let r = [diffuse, normal, metallic_roughness, occlusion, emissive, 0, 0, 0];
    assert(r@ =~= seq![diffuse, normal, metallic_roughness, occlusion, emissive, 0i32, 0i32, 0i32]);
    r
}

} // verus!
