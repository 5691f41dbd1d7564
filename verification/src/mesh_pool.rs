//! The mesh pool: one large vertex buffer and one large index buffer that
//! meshes are packed into, one after the other.
use vstd::prelude::*;
use slotmap::{DefaultKey, KeyData, SlotMap};
use crate::handles::{BufferHandle, MeshHandle};

verus! {

/// Capacity of each of the pool's buffers, in bytes.
pub const LARGE_BUFFER_SIZE: u32 = 16000000u32;

/// Size of a vertex in bytes (position, texture coordinates, normal, colour
/// and tangent: fifteen 32-bit floats).
pub const VERTEX_SIZE: usize = 60usize;

/// Size of an index in bytes.
pub const INDEX_SIZE: usize = 4usize;

/// Where a mesh lives in the pool's buffers, in vertices and indices.
#[derive(Clone, Copy, PartialEq, Eq, Structural, Debug)]
pub struct PooledMesh {
    pub vertex_offset: usize,
    pub vertex_count: usize,
    pub index_offset: usize,
    pub index_count: usize,
}

/// The meshes of a pool, in a slot map.
#[verifier::external_body]
pub struct MeshSlots {
    inner: SlotMap<DefaultKey, PooledMesh>,
}

/// The meshes held, by key value.
pub uninterp spec fn mesh_slots(m: MeshSlots) -> Map<u64, PooledMesh>;

/// `SlotMap::new`: an empty map.
#[verifier::external_body]
fn mesh_slots_new() -> (r: MeshSlots)
    ensures
        mesh_slots(r) =~= Map::empty(),
{
    MeshSlots { inner: SlotMap::new() }
}

/// `SlotMap::insert`: stores `v` under a key that was not in use, and returns
/// the key's value. It panics only when the map holds `u32::MAX - 1` slots;
/// this map never removes, so its slots are its entries.
#[verifier::external_body]
fn mesh_slots_insert(m: &mut MeshSlots, v: PooledMesh) -> (k: u64)
    requires
        mesh_slots(*old(m)).len() + 2 < 0x1_0000_0000,
    ensures
        crate::handles::is_live_key(k),
        !mesh_slots(*old(m)).contains_key(k),
        mesh_slots(*final(m)) == mesh_slots(*old(m)).insert(k, v),
{
    slotmap::Key::data(&m.inner.insert(v)).as_ffi()
}

/// `SlotMap::get`: the mesh under `key`, copied. A live key that is not in
/// the map finds nothing.
#[verifier::external_body]
fn mesh_slots_get(m: &MeshSlots, key: u64) -> (r: Option<PooledMesh>)
    ensures
        mesh_slots(*m).contains_key(key) ==> r == Some(mesh_slots(*m)[key]),
        !mesh_slots(*m).contains_key(key) && crate::handles::is_live_key(key) ==> r is None,
{
    m.inner.get(DefaultKey::from(KeyData::from_ffi(key))).copied()
}

/// Total vertex count of a list of meshes.
pub open spec fn vertex_sum(ms: Seq<PooledMesh>) -> nat
    decreases ms.len(),
{
    if ms.len() == 0 {
        0
    } else {
        vertex_sum(ms.drop_last()) + ms.last().vertex_count as nat
    }
}

/// Total index count of a list of meshes.
pub open spec fn index_sum(ms: Seq<PooledMesh>) -> nat
    decreases ms.len(),
{
    if ms.len() == 0 {
        0
    } else {
        index_sum(ms.drop_last()) + ms.last().index_count as nat
    }
}

/// Meshes packed one after the other: each starts where the meshes before
/// it end, in vertices, and, when it has indices, in indices.
pub open spec fn packed(ms: Seq<PooledMesh>) -> bool {
    forall|i: int| 0 <= i < ms.len() ==> {
        &&& (#[trigger] ms[i]).vertex_offset == vertex_sum(ms.take(i))
        &&& ms[i].index_count > 0 ==> ms[i].index_offset == index_sum(ms.take(i))
    }
}

/// The mesh pool: the two buffers and the meshes placed in them.
pub struct MeshPool {
    vertex_buffer: BufferHandle,
    index_buffer: BufferHandle,
    meshes: MeshSlots,
    vertex_total: usize,
    index_total: usize,
    /// The keys of the meshes in the order they were added.
    order: Ghost<Seq<u64>>,
}

impl MeshPool {
    /// The meshes, by key.
    pub closed spec fn meshes(&self) -> Map<u64, PooledMesh> {
        mesh_slots(self.meshes)
    }

    /// The meshes in the order they were added.
    pub closed spec fn in_order(&self) -> Seq<PooledMesh> {
        self.order@.map_values(|k: u64| mesh_slots(self.meshes)[k])
    }

    /// The keys of the meshes in the order they were added.
    pub closed spec fn keys_in_order(&self) -> Seq<u64> {
        self.order@
    }

    pub closed spec fn vertex_buffer_handle(&self) -> BufferHandle {
        self.vertex_buffer
    }

    pub closed spec fn index_buffer_handle(&self) -> BufferHandle {
        self.index_buffer
    }

    /// Well-formedness: the meshes are those of the order, packed, within
    /// the buffers.
    pub closed spec fn wf(&self) -> bool {
        &&& self.order@.no_duplicates()
        &&& self.order@.to_set() == self.meshes().dom()
        &&& self.meshes().dom().finite()
        &&& self.meshes().len() == self.order@.len()
        &&& packed(self.in_order())
        &&& self.vertex_total == vertex_sum(self.in_order())
        &&& self.index_total == index_sum(self.in_order())
        &&& VERTEX_SIZE * self.vertex_total <= LARGE_BUFFER_SIZE
        &&& INDEX_SIZE * self.index_total <= LARGE_BUFFER_SIZE
        &&& forall|i: int| 0 <= i < self.order@.len() ==> crate::handles::is_live_key(#[trigger] self.order@[i])
    }

    /// An empty pool over the two buffers.
    pub fn new(vertex_buffer: BufferHandle, index_buffer: BufferHandle) -> (r: Self)
        ensures
            r.wf(),
            r.in_order() == Seq::<PooledMesh>::empty(),
            r.vertex_buffer_handle() == vertex_buffer,
            r.index_buffer_handle() == index_buffer,
    {
        let r = MeshPool {
            vertex_buffer,
            index_buffer,
            meshes: mesh_slots_new(),
            vertex_total: 0,
            index_total: 0,
            order: Ghost(Seq::empty()),
        };
        proof {
            assert(r.in_order() =~= Seq::<PooledMesh>::empty());
            assert(r.order@.to_set() =~= Set::<u64>::empty());
        }
        r
    }

    /// The vertex buffer.
    pub fn vertex_buffer(&self) -> (r: BufferHandle)
        ensures
            r == self.vertex_buffer_handle(),
    {
        self.vertex_buffer
    }

    /// The index buffer.
    pub fn index_buffer(&self) -> (r: BufferHandle)
        ensures
            r == self.index_buffer_handle(),
    {
        self.index_buffer
    }

    /// Total vertices placed so far: where the next mesh's vertices go.
    pub fn vertex_total(&self) -> (r: usize)
        requires
            self.wf(),
        ensures
            r == vertex_sum(self.in_order()),
    {
        self.vertex_total
    }

    /// Total indices placed so far: where the next mesh's indices go.
    pub fn index_total(&self) -> (r: usize)
        requires
            self.wf(),
        ensures
            r == index_sum(self.in_order()),
    {
        self.index_total
    }

    /// Whether a mesh of `vertex_count` vertices and, if it has them,
    /// `index_count` indices fits after the meshes already placed.
    pub fn fits(&self, vertex_count: usize, index_count: Option<usize>) -> (r: bool)
        requires
            self.wf(),
        ensures
            r == (VERTEX_SIZE * (vertex_sum(self.in_order()) + vertex_count) <= LARGE_BUFFER_SIZE
                && match index_count {
                Some(n) => INDEX_SIZE * (index_sum(self.in_order()) + n) <= LARGE_BUFFER_SIZE,
                None => true,
            }),
    {
        let cap = LARGE_BUFFER_SIZE as usize / VERTEX_SIZE;
        if vertex_count > cap || self.vertex_total > cap - vertex_count {
            return false;
        }
        match index_count {
            Some(n) => {
                let icap = LARGE_BUFFER_SIZE as usize / INDEX_SIZE;
                !(n > icap || self.index_total > icap - n)
            },
            None => true,
        }
    }

    /// The mesh under `handle`.
    pub fn get(&self, handle: MeshHandle) -> (r: Option<PooledMesh>)
        requires
            self.wf(),
        ensures
            self.meshes().contains_key(handle.key) ==> r == Some(self.meshes()[handle.key]),
            !self.meshes().contains_key(handle.key) && crate::handles::is_live_key(handle.key) ==> r is None,
    {
        mesh_slots_get(&self.meshes, handle.key)
    }

    /// Places a mesh of `vertex_count` vertices and, if it has them,
    /// `index_count` indices after the meshes already in the pool: its
    /// vertices start at the total vertex count so far and its indices at
    /// the total index count so far; a mesh without indices records none.
    /// The mesh must fit (the engine stops otherwise).
    pub fn add_mesh(&mut self, vertex_count: usize, index_count: Option<usize>) -> (r: (MeshHandle, PooledMesh))
        requires
            old(self).wf(),
            old(self).in_order().len() + 2 < 0x1_0000_0000,
            VERTEX_SIZE * (vertex_sum(old(self).in_order()) + vertex_count) <= LARGE_BUFFER_SIZE,
            match index_count {
                Some(n) => INDEX_SIZE * (index_sum(old(self).in_order()) + n) <= LARGE_BUFFER_SIZE,
                None => true,
            },
        ensures
            final(self).wf(),
            r.1.vertex_offset == vertex_sum(old(self).in_order()),
            r.1.vertex_count == vertex_count,
            r.1.index_offset == (match index_count {
                Some(_) => index_sum(old(self).in_order()),
                None => 0,
            }),
            r.1.index_count == (match index_count {
                Some(n) => n,
                None => 0,
            }),
            !old(self).meshes().contains_key(r.0.key),
            crate::handles::is_live_key(r.0.key),
            final(self).meshes() == old(self).meshes().insert(r.0.key, r.1),
            final(self).in_order() == old(self).in_order().push(r.1),
            final(self).keys_in_order() == old(self).keys_in_order().push(r.0.key),
            final(self).vertex_buffer_handle() == old(self).vertex_buffer_handle(),
            final(self).index_buffer_handle() == old(self).index_buffer_handle(),
    {
        let ghost old_order = self.order@;
        let ghost old_in = self.in_order();
        let mesh = match index_count {
            Some(n) => PooledMesh {
                vertex_offset: self.vertex_total,
                vertex_count,
                index_offset: self.index_total,
                index_count: n,
            },
            None => PooledMesh {
                vertex_offset: self.vertex_total,
                vertex_count,
                index_offset: 0,
                index_count: 0,
            },
        };
        let key = mesh_slots_insert(&mut self.meshes, mesh);
        self.vertex_total = self.vertex_total + vertex_count;
        self.index_total = self.index_total + mesh.index_count;
        self.order = Ghost(self.order@.push(key));
        proof {
            let ni = self.in_order();
            assert(!old_order.contains(key)) by {
                if old_order.contains(key) {
                    assert(old_order.to_set().contains(key));
                }
            }
            assert forall|i: int| 0 <= i < old_order.len() implies #[trigger] ni[i] == old_in[i] by {
                assert(old_order[i] != key);
            }
            assert(ni =~= old_in.push(mesh));
            assert(ni.drop_last() =~= old_in);
            assert forall|x: u64| self.order@.to_set().contains(x) <==> old_order.to_set().insert(key).contains(x) by {
                if old_order.contains(x) {
                    let j = choose|j: int| 0 <= j < old_order.len() && old_order[j] == x;
                    assert(self.order@[j] == x);
                }
                if self.order@.contains(x) && x != key {
                    let j = choose|j: int| 0 <= j < self.order@.len() && self.order@[j] == x;
                    assert(old_order[j] == x);
                }
                if x == key {
                    assert(self.order@[old_order.len() as int] == x);
                }
            }
            assert(self.order@.to_set() =~= old_order.to_set().insert(key));
            assert(self.order@.no_duplicates()) by {
                assert forall|a: int, b: int| 0 <= a < self.order@.len() && 0 <= b < self.order@.len() && a != b implies self.order@[a] != self.order@[b] by {
                    if a < old_order.len() && b < old_order.len() {
                        assert(old_order[a] != old_order[b]);
                    } else if a < old_order.len() {
                        assert(old_order.contains(old_order[a]));
                    } else if b < old_order.len() {
                        assert(old_order.contains(old_order[b]));
                    }
                }
            }
            assert(self.meshes().dom() =~= old(self).meshes().dom().insert(key));
            assert forall|i: int| 0 <= i < ni.len() implies {
                &&& (#[trigger] ni[i]).vertex_offset == vertex_sum(ni.take(i))
                &&& ni[i].index_count > 0 ==> ni[i].index_offset == index_sum(ni.take(i))
            } by {
                if i < old_in.len() {
                    assert(ni.take(i) =~= old_in.take(i));
                    assert(old_in[i] == ni[i]);
                } else {
                    assert(ni.take(i) =~= old_in);
                }
            }
            assert forall|i: int| 0 <= i < self.order@.len() implies crate::handles::is_live_key(#[trigger] self.order@[i]) by {
                if i < old_order.len() {
                    assert(self.order@[i] == old_order[i]);
                }
            }
        }
        (MeshHandle { key }, mesh)
    }
}

/// Law: two different meshes of the pool use disjoint vertex ranges, and
/// two different meshes with indices use disjoint index ranges.
pub proof fn lemma_pooled_ranges_disjoint(ms: Seq<PooledMesh>, i: int, j: int)
    requires
        packed(ms),
        0 <= i < j < ms.len(),
    ensures
        ms[i].vertex_offset + ms[i].vertex_count <= ms[j].vertex_offset,
        ms[i].index_count > 0 && ms[j].index_count > 0 ==> ms[i].index_offset + ms[i].index_count <= ms[j].index_offset,
{
    lemma_sums_prefix_grow(ms, i + 1, j);
    assert(ms.take(i + 1).drop_last() =~= ms.take(i));
    assert(ms.take(i + 1).last() == ms[i]);
}

/// Sums over a longer prefix are no smaller.
proof fn lemma_sums_prefix_grow(ms: Seq<PooledMesh>, a: int, b: int)
    requires
        0 <= a <= b <= ms.len(),
    ensures
        vertex_sum(ms.take(a)) <= vertex_sum(ms.take(b)),
        index_sum(ms.take(a)) <= index_sum(ms.take(b)),
    decreases b - a,
{
    if a < b {
        lemma_sums_prefix_grow(ms, a, b - 1);
        assert(ms.take(b).drop_last() =~= ms.take(b - 1));
    }
}

/// Law: every mesh of a pool lies within the pool's buffers.
pub proof fn lemma_pooled_within_buffers(pool: MeshPool, i: int)
    requires
        pool.wf(),
        0 <= i < pool.in_order().len(),
    ensures
        VERTEX_SIZE * (pool.in_order()[i].vertex_offset + pool.in_order()[i].vertex_count) <= LARGE_BUFFER_SIZE,
        pool.in_order()[i].index_count > 0 ==> INDEX_SIZE * (pool.in_order()[i].index_offset
            + pool.in_order()[i].index_count) <= LARGE_BUFFER_SIZE,
{
    let ms = pool.in_order();
    lemma_sums_prefix_grow(ms, i + 1, ms.len() as int);
    assert(ms.take(i + 1).drop_last() =~= ms.take(i));
    assert(ms.take(i + 1).last() == ms[i]);
    assert(ms.take(ms.len() as int) =~= ms);
    assert(VERTEX_SIZE * (ms[i].vertex_offset + ms[i].vertex_count) <= VERTEX_SIZE * vertex_sum(ms)) by (nonlinear_arith)
        requires
            ms[i].vertex_offset + ms[i].vertex_count <= vertex_sum(ms),
    ;
    if ms[i].index_count > 0 {
        assert(INDEX_SIZE * (ms[i].index_offset + ms[i].index_count) <= INDEX_SIZE * index_sum(ms)) by (nonlinear_arith)
            requires
                ms[i].index_offset + ms[i].index_count <= index_sum(ms),
        ;
    }
}

} // verus!
