//! Descriptor pools and layouts: which pool a descriptor set is allocated
//! from, and which layouts are already created.
use vstd::prelude::*;

verus! {

/// The Vulkan result code for a descriptor pool that has run out of memory.
pub const ERROR_OUT_OF_POOL_MEMORY: i32 = -1_000_069_000i32;

/// How many sets a new pool holds.
pub const POOL_SET_COUNT: i32 = 1000i32;

/// Hands out descriptor sets from a growing list of pools; pools are reset
/// together at the start of a frame and then reused.
pub struct DescriptorAllocator {
    used_pools: Vec<u64>,
    free_pools: Vec<u64>,
    current_pool: Option<u64>,
}

/// What to do with the result of allocating a set from the current pool.
#[derive(Clone, Copy, PartialEq, Eq, Structural, Debug)]
pub enum AllocDecision {
    /// The set was allocated.
    Done(u64),
    /// The pool is full: take a new pool and allocate again.
    NewPoolAndRetry,
    /// Allocation failed.
    Fail,
}

/// The decision after the allocation from the current pool returned
/// `result`: a full pool is replaced once, any other failure fails.
pub open spec fn decide(result: Result<u64, i32>, retried: bool) -> AllocDecision {
    match result {
        Ok(set) => AllocDecision::Done(set),
        Err(code) => if code == ERROR_OUT_OF_POOL_MEMORY && !retried {
            AllocDecision::NewPoolAndRetry
        } else {
            AllocDecision::Fail
        },
    }
}

impl DescriptorAllocator {
    pub closed spec fn used(&self) -> Seq<u64> {
        self.used_pools@
    }

    pub closed spec fn free(&self) -> Seq<u64> {
        self.free_pools@
    }

    pub closed spec fn current(&self) -> Option<u64> {
        self.current_pool
    }

    /// An allocator with no pools.
    pub fn new() -> (r: Self)
        ensures
            r.used() == Seq::<u64>::empty(),
            r.free() == Seq::<u64>::empty(),
            r.current() is None,
    {
        DescriptorAllocator { used_pools: Vec::new(), free_pools: Vec::new(), current_pool: None }
    }

    /// The pool sets are allocated from, if there is one.
    pub fn current_pool(&self) -> (r: Option<u64>)
        ensures
            r == self.current(),
    {
        self.current_pool
    }

    /// The pools in use this frame.
    pub fn used_pools(&self) -> (r: &Vec<u64>)
        ensures
            r@ == self.used(),
    {
        &self.used_pools
    }

    /// The pools waiting for reuse.
    pub fn free_pools(&self) -> (r: &Vec<u64>)
        ensures
            r@ == self.free(),
    {
        &self.free_pools
    }

    /// Whether a pool must be grabbed before a set can be allocated.
    pub fn needs_pool(&self) -> (r: bool)
        ensures
            r == (self.current() is None),
    {
        self.current_pool.is_none()
    }

    /// Where a grabbed pool comes from: taking one of the free pools is
    /// attempted at the index one past the last, which is out of bounds
    /// (the engine stops there), so a new pool of `POOL_SET_COUNT` sets is
    /// created. Returns that set count.
    pub fn grab_pool(&self) -> (r: i32)
        requires
            self.free().len() == 0,
        ensures
            r == POOL_SET_COUNT,
    {
        POOL_SET_COUNT
    }

    /// Makes `pool` the current pool and counts it as used.
    pub fn use_pool(&mut self, pool: u64)
        ensures
            final(self).current() == Some(pool),
            final(self).used() == old(self).used().push(pool),
            final(self).free() == old(self).free(),
    {
        self.current_pool = Some(pool);
        self.used_pools.push(pool);
    }

    /// The decision after allocating from the current pool gave `result`;
    /// `retried` tells whether this was already the attempt in a new pool.
    pub fn allocation_decision(result: Result<u64, i32>, retried: bool) -> (r: AllocDecision)
        ensures
            r == decide(result, retried),
    {
        match result {
            Ok(set) => AllocDecision::Done(set),
            Err(code) => {
                if code == ERROR_OUT_OF_POOL_MEMORY && !retried {
                    AllocDecision::NewPoolAndRetry
                } else {
                    AllocDecision::Fail
                }
            },
        }
    }

    /// Records that `pool`, a used pool, was reset: it can be reused.
    pub fn mark_reset(&mut self, pool: u64)
        ensures
            final(self).free() == old(self).free().push(pool),
            final(self).used() == old(self).used(),
            final(self).current() == old(self).current(),
    {
        self.free_pools.push(pool);
    }

    /// Ends a reset of all used pools: none is in use and there is no
    /// current pool.
    pub fn finish_reset(&mut self)
        ensures
            final(self).used() == Seq::<u64>::empty(),
            final(self).free() == old(self).free(),
            final(self).current() is None,
    {
        self.used_pools.clear();
        self.current_pool = None;
    }
}

/// One binding of a descriptor set layout.
#[derive(Clone, Copy, PartialEq, Eq, Structural, Debug)]
pub struct LayoutBinding {
    pub binding: u32,
    pub descriptor_type: i32,
    pub descriptor_count: u32,
    pub stage_flags: u32,
}

/// The value a binding contributes to a layout's hash: its binding number,
/// type, count and stages packed into one word.
pub open spec fn binding_word(b: LayoutBinding) -> i64 {
    (b.binding as i64) | (((b.descriptor_type as i64) << 8i64) | (((b.descriptor_count << 16u32) as i64)
        | ((b.stage_flags as i64) << 24i64)))
}

/// A descriptor set layout, as the cache keys it.
pub struct DescriptorLayoutInfo {
    pub bindings: Vec<LayoutBinding>,
}

impl DescriptorLayoutInfo {
    /// Two layouts are equal when their bindings are, one by one.
    pub fn eq(&self, other: &DescriptorLayoutInfo) -> (r: bool)
        ensures
            r == (self.bindings@ == other.bindings@),
    {
        if self.bindings.len() != other.bindings.len() {
            return false;
        }
        let mut i: usize = 0;
        while i < self.bindings.len()
            invariant
                i <= self.bindings.len(),
                self.bindings.len() == other.bindings.len(),
                forall|j: int| 0 <= j < i ==> self.bindings@[j] == other.bindings@[j],
            decreases self.bindings.len() - i,
        {
            let a = self.bindings[i];
            let b = other.bindings[i];
            if b.binding != a.binding {
                return false;
            }
            if b.descriptor_type != a.descriptor_type {
                return false;
            }
            if b.descriptor_count != a.descriptor_count {
                return false;
            }
            if b.stage_flags != a.stage_flags {
                return false;
            }
            i = i + 1;
        }
        assert(self.bindings@ =~= other.bindings@);
        true
    }

    /// What the layout feeds its hash: the number of bindings, then one
    /// word per binding.
    pub fn hash_words(&self) -> (r: (usize, Vec<i64>))
        ensures
            r.0 == self.bindings.len(),
            r.1@.len() == self.bindings@.len(),
            forall|i: int| 0 <= i < r.1@.len() ==> #[trigger] r.1@[i] == binding_word(self.bindings@[i]),
    {
        let mut words: Vec<i64> = Vec::new();
        let mut i: usize = 0;
        while i < self.bindings.len()
            invariant
                i <= self.bindings.len(),
                words@.len() == i,
                forall|j: int| 0 <= j < i ==> #[trigger] words@[j] == binding_word(self.bindings@[j]),
            decreases self.bindings.len() - i,
        {
            let b = self.bindings[i];
            let word: i64 = (b.binding as i64) | (((b.descriptor_type as i64) << 8i64) | (((b.descriptor_count
                << 16u32) as i64) | ((b.stage_flags as i64) << 24i64)));
            words.push(word);
            i = i + 1;
        }
        (self.bindings.len(), words)
    }
}

/// A copy of a list of bindings.
fn copy_bindings(v: &Vec<LayoutBinding>) -> (r: Vec<LayoutBinding>)
    ensures
        r@ == v@,
{
    let mut out: Vec<LayoutBinding> = Vec::new();
    let mut i: usize = 0;
    while i < v.len()
        invariant
            i <= v.len(),
            out@ == v@.take(i as int),
        decreases v.len() - i,
    {
        out.push(v[i]);
        proof {
            assert(v@.take(i as int + 1) =~= v@.take(i as int).push(v@[i as int]));
        }
        i = i + 1;
    }
    proof {
        assert(v@.take(v.len() as int) =~= v@);
    }
    out
}

/// Descriptor set layouts already created, by their bindings.
pub struct DescriptorLayoutCache {
    layout_cache: Vec<(DescriptorLayoutInfo, u64)>,
}

/// The map that a list of (layout, handle) entries with distinct layouts
/// stands for.
pub open spec fn layout_map(s: Seq<(DescriptorLayoutInfo, u64)>) -> Map<Seq<LayoutBinding>, u64> {
    Map::new(
        |k: Seq<LayoutBinding>| exists|i: int| 0 <= i < s.len() && s[i].0.bindings@ == k,
        |k: Seq<LayoutBinding>| s[choose|i: int| 0 <= i < s.len() && s[i].0.bindings@ == k].1,
    )
}

impl DescriptorLayoutCache {
    /// The created layouts, by bindings.
    pub closed spec fn view(&self) -> Map<Seq<LayoutBinding>, u64> {
        layout_map(self.layout_cache@)
    }

    pub closed spec fn wf(&self) -> bool {
        forall|i: int, j: int| 0 <= i < j < self.layout_cache@.len() ==> self.layout_cache@[i].0.bindings@
            != self.layout_cache@[j].0.bindings@
    }

    /// An empty cache.
    pub fn new() -> (r: Self)
        ensures
            r.wf(),
            r.view() == Map::<Seq<LayoutBinding>, u64>::empty(),
    {
        let r = DescriptorLayoutCache { layout_cache: Vec::new() };
        assert(r.view() =~= Map::<Seq<LayoutBinding>, u64>::empty());
        r
    }

    /// The layout created for `info`'s bindings, if there is one.
    pub fn get(&self, info: &DescriptorLayoutInfo) -> (r: Option<u64>)
        requires
            self.wf(),
        ensures
            r == (if self.view().contains_key(info.bindings@) {
                Some(self.view()[info.bindings@])
            } else {
                None::<u64>
            }),
    {
        let mut i: usize = 0;
        while i < self.layout_cache.len()
            invariant
                i <= self.layout_cache.len(),
                self.wf(),
                forall|j: int| 0 <= j < i ==> self.layout_cache@[j].0.bindings@ != info.bindings@,
            decreases self.layout_cache.len() - i,
        {
            if self.layout_cache[i].0.eq(info) {
                proof {
                    let s = self.layout_cache@;
                    let k = info.bindings@;
                    assert(s[i as int].0.bindings@ == k);
                    let c = choose|j: int| 0 <= j < s.len() && s[j].0.bindings@ == k;
                    assert(c == i);
                }
                return Some(self.layout_cache[i].1);
            }
            i = i + 1;
        }
        None
    }

    /// Records `layout` as created for `info`'s bindings, which have none.
    pub fn insert(&mut self, info: &DescriptorLayoutInfo, layout: u64)
        requires
            old(self).wf(),
            !old(self).view().contains_key(info.bindings@),
        ensures
            final(self).wf(),
            final(self).view() == old(self).view().insert(info.bindings@, layout),
    {
        let ghost s = self.layout_cache@;
        let key = DescriptorLayoutInfo { bindings: copy_bindings(&info.bindings) };
        self.layout_cache.push((key, layout));
        proof {
            let t = self.layout_cache@;
            let k = info.bindings@;
            assert(t == s.push((t[t.len() - 1].0, layout)));
            assert forall|a: int, b: int| 0 <= a < b < t.len() implies t[a].0.bindings@ != t[b].0.bindings@ by {
                if b == t.len() - 1 {
                    assert(t[a] == s[a]);
                    if s[a].0.bindings@ == k {
                        assert(exists|j: int| 0 <= j < s.len() && s[j].0.bindings@ == k);
                    }
                }
            }
            let m = layout_map(s).insert(k, layout);
            assert forall|x: Seq<LayoutBinding>| layout_map(t).contains_key(x) implies m.contains_key(x) by {
                let j = choose|j: int| 0 <= j < t.len() && t[j].0.bindings@ == x;
                if j < s.len() {
                    assert(t[j] == s[j]);
                }
            }
            assert forall|x: Seq<LayoutBinding>| m.contains_key(x) implies layout_map(t).contains_key(x) by {
                if x == k {
                    assert(t[t.len() - 1].0.bindings@ == x);
                } else {
                    let j = choose|j: int| 0 <= j < s.len() && s[j].0.bindings@ == x;
                    assert(t[j] == s[j]);
                }
            }
            assert forall|x: Seq<LayoutBinding>| m.contains_key(x) implies layout_map(t)[x] == m[x] by {
                let j = choose|j: int| 0 <= j < t.len() && t[j].0.bindings@ == x;
                if j < s.len() {
                    assert(t[j] == s[j]);
                    let c = choose|c: int| 0 <= c < s.len() && s[c].0.bindings@ == x;
                    assert(c == j);
                } else {
                    assert(x == k);
                }
            }
            assert(layout_map(t) =~= m);
        }
    }
}

/// Law: after a layout is recorded for some bindings, looking up equal
/// bindings finds it.
pub proof fn lemma_layout_cache_hit(
    before: Map<Seq<LayoutBinding>, u64>,
    after: Map<Seq<LayoutBinding>, u64>,
    bindings: Seq<LayoutBinding>,
    layout: u64,
)
    requires
        after == before.insert(bindings, layout),
    ensures
        after.contains_key(bindings),
        after[bindings] == layout,
        forall|other: Seq<LayoutBinding>| other != bindings ==> (#[trigger] after.contains_key(other)
            == before.contains_key(other)),
{
}

/// The cache after a layout is asked for by bindings `b`: as it was when it
/// holds one for `b`, else with `created`, newly made, recorded for `b`.
pub open spec fn after_layout_request(cache: Map<Seq<LayoutBinding>, u64>, b: Seq<LayoutBinding>, created: u64) -> Map<
    Seq<LayoutBinding>,
    u64,
> {
    if cache.contains_key(b) {
        cache
    } else {
        cache.insert(b, created)
    }
}

/// Law: layouts are made once per binding list. After a layout is asked
/// for by bindings `b1` (found in the cache, or made and recorded), asking
/// again by an equal binding list finds the same layout without making
/// one; a binding list that differs finds a layout only if it already had
/// one, and otherwise a new one is made for it.
pub proof fn lemma_layout_memoised(
    before: Map<Seq<LayoutBinding>, u64>,
    b1: Seq<LayoutBinding>,
    created: u64,
    b2: Seq<LayoutBinding>,
)
    ensures
        after_layout_request(before, b1, created).contains_key(b1),
        before.contains_key(b1) ==> after_layout_request(before, b1, created) == before,
        b2 == b1 ==> after_layout_request(after_layout_request(before, b1, created), b2, created)
            == after_layout_request(before, b1, created),
        b2 != b1 ==> (after_layout_request(before, b1, created).contains_key(b2) <==> before.contains_key(b2)),
        b2 != b1 && before.contains_key(b2) ==> after_layout_request(before, b1, created)[b2] == before[b2],
{
}

/// A range of a buffer that a descriptor points at.
#[derive(Clone, Copy, PartialEq, Eq, Structural, Debug)]
pub struct DescriptorBufferRange {
    pub buffer: u64,
    pub offset: u64,
    pub range: u64,
}

/// A pending write of buffer descriptors into one binding of the set being
/// built.
#[derive(Clone, Debug)]
pub struct BufferWrite {
    pub binding: u32,
    pub descriptor_type: i32,
    pub buffers: Vec<DescriptorBufferRange>,
}

fn copy_ranges(v: &Vec<DescriptorBufferRange>) -> (r: Vec<DescriptorBufferRange>)
    ensures
        r@ == v@,
{
    let mut out: Vec<DescriptorBufferRange> = Vec::new();
    let mut i: usize = 0;
    while i < v.len()
        invariant
            i <= v.len(),
            out@ == v@.take(i as int),
        decreases v.len() - i,
    {
        out.push(v[i]);
        proof {
            assert(v@.take(i as int + 1) =~= v@.take(i as int).push(v@[i as int]));
        }
        i = i + 1;
    }
    proof {
        assert(v@.take(v.len() as int) =~= v@);
    }
    out
}

/// Gathers the bindings of a descriptor set and the buffer writes that fill
/// it: the layout is then found in (or added to) the layout cache, a set is
/// allocated and the writes are applied to it.
pub struct DescriptorBuilder {
    pub bindings: Vec<LayoutBinding>,
    pub writes: Vec<BufferWrite>,
}

impl DescriptorBuilder {
    /// A builder with no bindings.
    pub fn new() -> (r: Self)
        ensures
            r.bindings@ == Seq::<LayoutBinding>::empty(),
            r.writes@ == Seq::<BufferWrite>::empty(),
    {
        DescriptorBuilder { bindings: Vec::new(), writes: Vec::new() }
    }

    /// Adds binding `binding`, one descriptor of `desc_type` seen by
    /// `stage_flags`, and the write that points it at `buffer_info`.
    pub fn bind_buffer(
        self,
        binding: u32,
        buffer_info: &Vec<DescriptorBufferRange>,
        desc_type: i32,
        stage_flags: u32,
    ) -> (r: Self)
        ensures
            r.bindings@ == self.bindings@.push(
                LayoutBinding { binding, descriptor_type: desc_type, descriptor_count: 1, stage_flags },
            ),
            r.writes@.len() == self.writes@.len() + 1,
            forall|i: int| 0 <= i < self.writes@.len() ==> #[trigger] r.writes@[i] == self.writes@[i],
            r.writes@.last().binding == binding,
            r.writes@.last().descriptor_type == desc_type,
            r.writes@.last().buffers@ == buffer_info@,
    {
        let mut b = self;
        b.bindings.push(LayoutBinding { binding, descriptor_type: desc_type, descriptor_count: 1, stage_flags });
        b.writes.push(BufferWrite { binding, descriptor_type: desc_type, buffers: copy_ranges(buffer_info) });
        b
    }

    /// The layout the set needs: the bindings in the order they were added.
    pub fn layout_info(&self) -> (r: DescriptorLayoutInfo)
        ensures
            r.bindings@ == self.bindings@,
    {
        DescriptorLayoutInfo { bindings: copy_bindings(&self.bindings) }
    }
}

} // verus!
