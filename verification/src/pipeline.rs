//! Pipeline layouts and colour attachments of pipelines.
use vstd::prelude::*;

verus! {

/// A push-constant range of a pipeline layout.
#[derive(Clone, Copy, PartialEq, Eq, Structural, Debug)]
pub struct PushRange {
    pub stage_flags: u32,
    pub offset: u32,
    pub size: u32,
}

/// A pipeline layout, as the cache keys it: its descriptor set layouts and
/// push-constant ranges.
pub struct PipelineLayoutInfo {
    pub descriptor_sets: Vec<u64>,
    pub push_constant_range: Vec<PushRange>,
}

/// The comparison of layouts stops when `other` has fewer push-constant
/// ranges than `self` and all of those match: it then looks past the end of
/// `other`'s ranges.
pub open spec fn eq_stops(a: PipelineLayoutInfo, b: PipelineLayoutInfo) -> bool {
    &&& a.descriptor_sets@ == b.descriptor_sets@
    &&& a.push_constant_range@.len() > b.push_constant_range@.len()
    &&& a.push_constant_range@.take(b.push_constant_range@.len() as int) == b.push_constant_range@
}

/// The value a push-constant range contributes to a layout's hash.
pub open spec fn push_word(p: PushRange) -> i64 {
    (p.offset as i64) | (((p.size as i64) << 8i64) | ((p.stage_flags << 16u32) as i64))
}

impl PipelineLayoutInfo {
    /// Whether `other` has the same set layouts as `self`, and each of
    /// `self`'s push-constant ranges in the same place (extra ranges of
    /// `other` are not looked at).
    pub fn eq(&self, other: &PipelineLayoutInfo) -> (r: bool)
        requires
            !eq_stops(*self, *other),
        ensures
            r == (self.descriptor_sets@ == other.descriptor_sets@
                && self.push_constant_range@.len() <= other.push_constant_range@.len()
                && self.push_constant_range@ == other.push_constant_range@.take(self.push_constant_range@.len() as int)),
    {
        if self.descriptor_sets.len() != other.descriptor_sets.len() {
            return false;
        }
        let mut i: usize = 0;
        while i < self.descriptor_sets.len()
            invariant
                i <= self.descriptor_sets.len(),
                self.descriptor_sets.len() == other.descriptor_sets.len(),
                forall|j: int| 0 <= j < i ==> self.descriptor_sets@[j] == other.descriptor_sets@[j],
            decreases self.descriptor_sets.len() - i,
        {
            if other.descriptor_sets[i] != self.descriptor_sets[i] {
                return false;
            }
            i = i + 1;
        }
        assert(self.descriptor_sets@ =~= other.descriptor_sets@);
        let mut k: usize = 0;
        while k < self.push_constant_range.len()
            invariant
                k <= self.push_constant_range.len(),
                self.descriptor_sets@ == other.descriptor_sets@,
                !eq_stops(*self, *other),
                k <= other.push_constant_range.len(),
                forall|j: int| 0 <= j < k ==> self.push_constant_range@[j] == other.push_constant_range@[j],
            decreases self.push_constant_range.len() - k,
        {
            if k >= other.push_constant_range.len() {
                proof {
                    assert(self.push_constant_range@.take(other.push_constant_range@.len() as int)
                        =~= other.push_constant_range@);
                }
                assert(false);
                return false;
            }
            let a = self.push_constant_range[k];
            let b = other.push_constant_range[k];
            if b.stage_flags != a.stage_flags || b.size != a.size || b.offset != a.offset {
                proof {
                    if self.push_constant_range@.len() <= other.push_constant_range@.len() {
                        assert(other.push_constant_range@.take(self.push_constant_range@.len() as int)[k as int] == b);
                    }
                }
                return false;
            }
            k = k + 1;
        }
        proof {
            if self.push_constant_range@.len() > other.push_constant_range@.len() {
                assert(self.push_constant_range@.take(other.push_constant_range@.len() as int) =~= other.push_constant_range@);
            }
        }
        assert(self.push_constant_range@ =~= other.push_constant_range@.take(self.push_constant_range@.len() as int));
        true
    }

    /// Whether both layouts have exactly the same set layouts and
    /// push-constant ranges: the equality under which the cache finds a
    /// layout (layouts with different ranges hash apart).
    pub fn same_as(&self, other: &PipelineLayoutInfo) -> (r: bool)
        ensures
            r == (self.descriptor_sets@ == other.descriptor_sets@
                && self.push_constant_range@ == other.push_constant_range@),
    {
        if self.push_constant_range.len() != other.push_constant_range.len() {
            return false;
        }
        let r = self.eq(other);
        proof {
            assert(other.push_constant_range@.take(self.push_constant_range@.len() as int) =~= other.push_constant_range@);
        }
        r
    }

    /// What the layout feeds its hash: the number of set layouts, then each
    /// set layout's raw handle, then one word per push-constant range.
    pub fn hash_words(&self) -> (r: (usize, Vec<i64>))
        ensures
            r.0 == self.descriptor_sets.len(),
            r.1@.len() == self.descriptor_sets@.len() + self.push_constant_range@.len(),
            forall|i: int| 0 <= i < self.descriptor_sets@.len() ==> #[trigger] r.1@[i] == self.descriptor_sets@[i] as i64,
            forall|i: int| 0 <= i < self.push_constant_range@.len() ==> #[trigger] r.1@[self.descriptor_sets@.len() + i]
                == push_word(self.push_constant_range@[i]),
    {
        let mut words: Vec<i64> = Vec::new();
        let mut i: usize = 0;
        while i < self.descriptor_sets.len()
            invariant
                i <= self.descriptor_sets.len(),
                words@.len() == i,
                forall|j: int| 0 <= j < i ==> #[trigger] words@[j] == self.descriptor_sets@[j] as i64,
            decreases self.descriptor_sets.len() - i,
        {
            words.push(self.descriptor_sets[i] as i64);
            i = i + 1;
        }
        let n = self.descriptor_sets.len();
        let mut k: usize = 0;
        while k < self.push_constant_range.len()
            invariant
                k <= self.push_constant_range.len(),
                n == self.descriptor_sets@.len(),
                words@.len() == n + k,
                forall|j: int| 0 <= j < n ==> #[trigger] words@[j] == self.descriptor_sets@[j] as i64,
                forall|j: int| 0 <= j < k ==> #[trigger] words@[n + j] == push_word(self.push_constant_range@[j]),
            decreases self.push_constant_range.len() - k,
        {
            let p = self.push_constant_range[k];
            let word: i64 = (p.offset as i64) | (((p.size as i64) << 8i64) | ((p.stage_flags << 16u32) as i64));
            words.push(word);
            k = k + 1;
        }
        (n, words)
    }
}

/// The key of a pipeline layout in the cache.
pub type LayoutKey = (Seq<u64>, Seq<PushRange>);

/// Pipeline layouts already created.
pub struct PipelineLayoutCache {
    layout_cache: Vec<(PipelineLayoutInfo, u64)>,
}

/// The map that a list of (layout, handle) entries with distinct keys
/// stands for.
pub open spec fn pipeline_layout_map(s: Seq<(PipelineLayoutInfo, u64)>) -> Map<LayoutKey, u64> {
    Map::new(
        |k: LayoutKey| exists|i: int| 0 <= i < s.len() && key_of(s[i].0) == k,
        |k: LayoutKey| s[choose|i: int| 0 <= i < s.len() && key_of(s[i].0) == k].1,
    )
}

/// What the cache keys a layout by: its set layouts and its ranges.
pub open spec fn key_of(l: PipelineLayoutInfo) -> LayoutKey {
    (l.descriptor_sets@, l.push_constant_range@)
}

fn copy_u64s(v: &Vec<u64>) -> (r: Vec<u64>)
    ensures
        r@ == v@,
{
    let mut out: Vec<u64> = Vec::new();
    let mut i: usize = 0;
    while i < v.len()
        invariant
            i <= v.len(),
            out@ == v@.take(i as int),
        decreases v.len() - i,
    {
        out.push(v[i]);
        proof {
            assert(v@.take(i as int + 1) =~= v@.take(i as int).push(v@[i as int]));
        }
        i = i + 1;
    }
    proof {
        assert(v@.take(v.len() as int) =~= v@);
    }
    out
}

fn copy_ranges(v: &Vec<PushRange>) -> (r: Vec<PushRange>)
    ensures
        r@ == v@,
{
    let mut out: Vec<PushRange> = Vec::new();
    let mut i: usize = 0;
    while i < v.len()
        invariant
            i <= v.len(),
            out@ == v@.take(i as int),
        decreases v.len() - i,
    {
        out.push(v[i]);
        proof {
            assert(v@.take(i as int + 1) =~= v@.take(i as int).push(v@[i as int]));
        }
        i = i + 1;
    }
    proof {
        assert(v@.take(v.len() as int) =~= v@);
    }
    out
}

impl PipelineLayoutCache {
    pub closed spec fn view(&self) -> Map<LayoutKey, u64> {
        pipeline_layout_map(self.layout_cache@)
    }

    pub closed spec fn wf(&self) -> bool {
        forall|i: int, j: int| 0 <= i < j < self.layout_cache@.len() ==> key_of(self.layout_cache@[i].0)
            != key_of(self.layout_cache@[j].0)
    }

    /// An empty cache.
    pub fn new() -> (r: Self)
        ensures
            r.wf(),
            r.view() == Map::<LayoutKey, u64>::empty(),
    {
        let r = PipelineLayoutCache { layout_cache: Vec::new() };
        assert(r.view() =~= Map::<LayoutKey, u64>::empty());
        r
    }

    /// The layout created for `info`, if there is one.
    pub fn get(&self, info: &PipelineLayoutInfo) -> (r: Option<u64>)
        requires
            self.wf(),
        ensures
            r == (if self.view().contains_key(key_of(*info)) {
                Some(self.view()[key_of(*info)])
            } else {
                None::<u64>
            }),
    {
        let mut i: usize = 0;
        while i < self.layout_cache.len()
            invariant
                i <= self.layout_cache.len(),
                self.wf(),
                forall|j: int| 0 <= j < i ==> key_of(self.layout_cache@[j].0) != key_of(*info),
            decreases self.layout_cache.len() - i,
        {
            if info.same_as(&self.layout_cache[i].0) {
                proof {
                    let s = self.layout_cache@;
                    let k = key_of(*info);
                    assert(key_of(s[i as int].0) == k);
                    let c = choose|j: int| 0 <= j < s.len() && key_of(s[j].0) == k;
                    assert(c == i);
                }
                return Some(self.layout_cache[i].1);
            }
            i = i + 1;
        }
        None
    }

    /// Records `layout` as created for `info`, which has none.
    pub fn insert(&mut self, info: &PipelineLayoutInfo, layout: u64)
        requires
            old(self).wf(),
            !old(self).view().contains_key(key_of(*info)),
        ensures
            final(self).wf(),
            final(self).view() == old(self).view().insert(key_of(*info), layout),
    {
        let ghost s = self.layout_cache@;
        let key = PipelineLayoutInfo {
            descriptor_sets: copy_u64s(&info.descriptor_sets),
            push_constant_range: copy_ranges(&info.push_constant_range),
        };
        self.layout_cache.push((key, layout));
        proof {
            let t = self.layout_cache@;
            let k = key_of(*info);
            assert forall|a: int, b: int| 0 <= a < b < t.len() implies key_of(t[a].0) != key_of(t[b].0) by {
                if b == t.len() - 1 {
                    assert(t[a] == s[a]);
                    if key_of(s[a].0) == k {
                        assert(exists|j: int| 0 <= j < s.len() && key_of(s[j].0) == k);
                    }
                }
            }
            let m = pipeline_layout_map(s).insert(k, layout);
            assert forall|x: LayoutKey| pipeline_layout_map(t).contains_key(x) implies m.contains_key(x) by {
                let j = choose|j: int| 0 <= j < t.len() && key_of(t[j].0) == x;
                if j < s.len() {
                    assert(t[j] == s[j]);
                }
            }
            assert forall|x: LayoutKey| m.contains_key(x) implies pipeline_layout_map(t).contains_key(x) by {
                if x == k {
                    assert(key_of(t[t.len() - 1].0) == x);
                } else {
                    let j = choose|j: int| 0 <= j < s.len() && key_of(s[j].0) == x;
                    assert(t[j] == s[j]);
                }
            }
            assert forall|x: LayoutKey| m.contains_key(x) implies pipeline_layout_map(t)[x] == m[x] by {
                let j = choose|j: int| 0 <= j < t.len() && key_of(t[j].0) == x;
                if j < s.len() {
                    assert(t[j] == s[j]);
                    let c = choose|c: int| 0 <= c < s.len() && key_of(s[c].0) == x;
                    assert(c == j);
                } else {
                    assert(x == k);
                }
            }
            assert(pipeline_layout_map(t) =~= m);
        }
    }
}

/// Law: after a layout is recorded for a set of set layouts and ranges,
/// looking up an equal one finds it, and no other entry changes.
pub proof fn lemma_pipeline_layout_cache_hit(
    before: Map<LayoutKey, u64>,
    after: Map<LayoutKey, u64>,
    key: LayoutKey,
    layout: u64,
)
    requires
        after == before.insert(key, layout),
    ensures
        after.contains_key(key),
        after[key] == layout,
        forall|other: LayoutKey| other != key ==> (#[trigger] after.contains_key(other) == before.contains_key(other))
            && (after.contains_key(other) ==> after[other] == before[other]),
{
}

// Blend operations and factors (`VkBlendOp`, `VkBlendFactor`).
pub const BLEND_OP_ADD: i32 = 0i32;
pub const BLEND_FACTOR_ONE: i32 = 1i32;

/// How a pipeline writes one colour attachment.
#[derive(Clone, Copy, PartialEq, Eq, Structural, Debug)]
pub struct PipelineColorAttachment {
    pub format: i32,
    pub blend: bool,
    pub blend_op_color: i32,
    pub blend_op_alpha: i32,
    pub src_blend_factor_color: i32,
    pub dst_blend_factor_color: i32,
    pub src_blend_factor_alpha: i32,
    pub dst_blend_factor_alpha: i32,
}

impl Default for PipelineColorAttachment {
    /// No blending; should blending be switched on, it adds source and
    /// destination with factor one.
    fn default() -> (r: Self)
        ensures
            r == (PipelineColorAttachment {
                format: crate::vkflags::FORMAT_UNDEFINED,
                blend: false,
                blend_op_color: BLEND_OP_ADD,
                blend_op_alpha: BLEND_OP_ADD,
                src_blend_factor_color: BLEND_FACTOR_ONE,
                dst_blend_factor_color: BLEND_FACTOR_ONE,
                src_blend_factor_alpha: BLEND_FACTOR_ONE,
                dst_blend_factor_alpha: BLEND_FACTOR_ONE,
            }),
    {
        PipelineColorAttachment {
            format: crate::vkflags::FORMAT_UNDEFINED,
            blend: false,
            blend_op_color: BLEND_OP_ADD,
            blend_op_alpha: BLEND_OP_ADD,
            src_blend_factor_color: BLEND_FACTOR_ONE,
            dst_blend_factor_color: BLEND_FACTOR_ONE,
            src_blend_factor_alpha: BLEND_FACTOR_ONE,
            dst_blend_factor_alpha: BLEND_FACTOR_ONE,
        }
    }
}

/// How many of the reloads succeeded.
pub fn count_successes(reloaded: &Vec<bool>) -> (r: usize)
    ensures
        r == reloaded@.filter(|b: bool| b).len(),
{
    let mut n: usize = 0;
    let mut i: usize = 0;
    while i < reloaded.len()
        invariant
            i <= reloaded.len(),
            n == reloaded@.take(i as int).filter(|b: bool| b).len(),
            n <= i,
        decreases reloaded.len() - i,
    {
        proof {
            assert(reloaded@.take(i as int + 1) =~= reloaded@.take(i as int).push(reloaded@[i as int]));
            reloaded@.take(i as int).lemma_filter_push(reloaded@[i as int], |b: bool| b);
        }
        if reloaded[i] {
            n = n + 1;
        }
        i = i + 1;
    }
    proof {
        assert(reloaded@.take(reloaded.len() as int) =~= reloaded@);
    }
    n
}

/// The pipelines after a reload: each takes its rebuilt pipeline when the
/// rebuild succeeded and keeps its own when it failed.
pub open spec fn reloaded_pipelines(psos: Seq<u64>, results: Seq<Option<u64>>) -> Seq<u64> {
    Seq::new(psos.len(), |i: int| match results[i] {
        Some(p) => p,
        None => psos[i],
    })
}

/// The pipelines that the first `n` rebuilds replace, in order.
pub open spec fn replaced_pipelines(psos: Seq<u64>, results: Seq<Option<u64>>, n: nat) -> Seq<u64>
    decreases n,
{
    if n == 0 {
        Seq::empty()
    } else {
        let prev = replaced_pipelines(psos, results, (n - 1) as nat);
        if results[n - 1] is Some {
            prev.push(psos[n - 1])
        } else {
            prev
        }
    }
}

/// Applies the results of rebuilding every pipeline (`None` for a rebuild
/// that failed): a pipeline whose rebuild succeeded takes the new one, and
/// the one it replaces joins `old_pipelines`, to be destroyed at shutdown;
/// a pipeline whose rebuild failed is kept.
pub fn apply_reloads(psos: &mut Vec<u64>, old_pipelines: &mut Vec<u64>, results: &Vec<Option<u64>>)
    requires
        old(psos)@.len() == results@.len(),
    ensures
        final(psos)@ == reloaded_pipelines(old(psos)@, results@),
        final(old_pipelines)@ == old(old_pipelines)@ + replaced_pipelines(old(psos)@, results@, results@.len()),
{
    let ghost orig = psos@;
    let ghost start = old_pipelines@;
    let mut i: usize = 0;
    while i < results.len()
        invariant
            i <= results@.len(),
            orig.len() == results@.len(),
            psos@.len() == orig.len(),
            forall|j: int| 0 <= j < i ==> psos@[j] == reloaded_pipelines(orig, results@)[j],
            forall|j: int| i <= j < orig.len() ==> psos@[j] == orig[j],
            old_pipelines@ == start + replaced_pipelines(orig, results@, i as nat),
        decreases results@.len() - i,
    {
        match results[i] {
            Some(new_pipeline) => {
                old_pipelines.push(psos[i]);
                psos.set(i, new_pipeline);
                proof {
                    assert(old_pipelines@ =~= start + replaced_pipelines(orig, results@, (i + 1) as nat));
                }
            },
            None => {
                proof {
                    assert(old_pipelines@ =~= start + replaced_pipelines(orig, results@, (i + 1) as nat));
                }
            },
        }
        i = i + 1;
    }
    proof {
        assert(psos@ =~= reloaded_pipelines(orig, results@));
    }
}

} // verus!
