//! Tracks the last usage of each image within a frame.
use vstd::prelude::*;
use crate::barrier::AttachmentHandle;
use crate::vkflags::USAGE_EMPTY;

verus! {

/// The map that an association list with distinct keys stands for.
pub open spec fn assoc_map(s: Seq<(AttachmentHandle, u32)>) -> Map<AttachmentHandle, u32> {
    Map::new(
        |k: AttachmentHandle| exists|i: int| 0 <= i < s.len() && s[i].0 == k,
        |k: AttachmentHandle| s[choose|i: int| 0 <= i < s.len() && s[i].0 == k].1,
    )
}

/// No key occurs twice in the association list.
pub open spec fn keys_distinct(s: Seq<(AttachmentHandle, u32)>) -> bool {
    forall|i: int, j: int| 0 <= i < j < s.len() ==> s[i].0 != s[j].0
}

/// The usage recorded for `h`, or the empty usage if none was.
pub open spec fn last_or_empty(m: Map<AttachmentHandle, u32>, h: AttachmentHandle) -> u32 {
    if m.contains_key(h) {
        m[h]
    } else {
        USAGE_EMPTY
    }
}

/// The last usage of each image seen in the current frame.
pub struct ImageUsageTracker {
    usages: Vec<(AttachmentHandle, u32)>,
}

impl ImageUsageTracker {
    /// The tracker as a map from image to last usage.
    pub closed spec fn view(&self) -> Map<AttachmentHandle, u32> {
        assoc_map(self.usages@)
    }

    /// Well-formedness: each image has one entry.
    pub closed spec fn wf(&self) -> bool {
        keys_distinct(self.usages@)
    }

    /// A tracker that knows no usage.
    pub fn new() -> (r: Self)
        ensures
            r.wf(),
            r.view() == Map::<AttachmentHandle, u32>::empty(),
    {
        let r = ImageUsageTracker { usages: Vec::new() };
        assert(r.view() =~= Map::<AttachmentHandle, u32>::empty());
        r
    }

    fn find(&self, handle: AttachmentHandle) -> (r: Option<usize>)
        requires
            self.wf(),
        ensures
            match r {
                Some(i) => i < self.usages.len() && self.usages@[i as int].0 == handle,
                None => !self.view().contains_key(handle),
            },
    {
        let mut i: usize = 0;
        while i < self.usages.len()
            invariant
                i <= self.usages.len(),
                forall|j: int| 0 <= j < i ==> self.usages@[j].0 != handle,
            decreases self.usages.len() - i,
        {
            if self.usages[i].0 == handle {
                return Some(i);
            }
            i = i + 1;
        }
        None
    }

    /// The last usage recorded for `handle`.
    pub fn get_last_usage(&self, handle: AttachmentHandle) -> (r: Option<u32>)
        requires
            self.wf(),
        ensures
            r == (if self.view().contains_key(handle) {
                Some(self.view()[handle])
            } else {
                None::<u32>
            }),
    {
        match self.find(handle) {
            Some(i) => {
                proof {
                    lemma_assoc_value(self.usages@, i as int);
                }
                Some(self.usages[i].1)
            },
            None => None,
        }
    }

    /// Records `usage` as the last usage of `handle`.
    pub fn set_last_usage(&mut self, handle: AttachmentHandle, usage: u32)
        requires
            old(self).wf(),
        ensures
            final(self).wf(),
            final(self).view() == old(self).view().insert(handle, usage),
    {
        let ghost old_s = self.usages@;
        match self.find(handle) {
            Some(i) => {
                self.usages.set(i, (handle, usage));
                proof {
                    lemma_assoc_update(old_s, i as int, usage);
                }
            },
            None => {
                self.usages.push((handle, usage));
                proof {
                    lemma_assoc_push(old_s, handle, usage);
                }
            },
        }
    }
}

proof fn lemma_assoc_value(s: Seq<(AttachmentHandle, u32)>, i: int)
    requires
        keys_distinct(s),
        0 <= i < s.len(),
    ensures
        assoc_map(s).contains_key(s[i].0),
        assoc_map(s)[s[i].0] == s[i].1,
{
    let k = s[i].0;
    assert(exists|j: int| 0 <= j < s.len() && s[j].0 == k);
    let c = choose|j: int| 0 <= j < s.len() && s[j].0 == k;
    assert(c == i);
}

proof fn lemma_assoc_push(s: Seq<(AttachmentHandle, u32)>, h: AttachmentHandle, u: u32)
    requires
        keys_distinct(s),
        !assoc_map(s).contains_key(h),
    ensures
        keys_distinct(s.push((h, u))),
        assoc_map(s.push((h, u))) == assoc_map(s).insert(h, u),
{
    let t = s.push((h, u));
    assert forall|a: int, b: int| 0 <= a < b < t.len() implies t[a].0 != t[b].0 by {
        if b == t.len() - 1 {
            assert(t[a].0 == s[a].0);
            if s[a].0 == h {
                assert(exists|j: int| 0 <= j < s.len() && s[j].0 == h);
            }
        }
    }
    let m = assoc_map(s).insert(h, u);
    assert forall|k: AttachmentHandle| assoc_map(t).contains_key(k) implies m.contains_key(k) by {
        let j = choose|j: int| 0 <= j < t.len() && t[j].0 == k;
        if j < s.len() {
            assert(s[j].0 == k);
        }
    }
    assert forall|k: AttachmentHandle| m.contains_key(k) implies assoc_map(t).contains_key(k) by {
        if k == h {
            assert(t[t.len() - 1].0 == k);
        } else {
            let j = choose|j: int| 0 <= j < s.len() && s[j].0 == k;
            assert(t[j].0 == k);
        }
    }
    assert forall|k: AttachmentHandle| m.contains_key(k) implies assoc_map(t)[k] == m[k] by {
        let j = choose|j: int| 0 <= j < t.len() && t[j].0 == k;
        lemma_assoc_value(t, j);
        if j < s.len() {
            lemma_assoc_value(s, j);
        }
    }
    assert(assoc_map(t) =~= m);
}

proof fn lemma_assoc_update(s: Seq<(AttachmentHandle, u32)>, i: int, u: u32)
    requires
        keys_distinct(s),
        0 <= i < s.len(),
    ensures
        keys_distinct(s.update(i, (s[i].0, u))),
        assoc_map(s.update(i, (s[i].0, u))) == assoc_map(s).insert(s[i].0, u),
{
    let h = s[i].0;
    let t = s.update(i, (h, u));
    assert forall|a: int, b: int| 0 <= a < b < t.len() implies t[a].0 != t[b].0 by {
        assert(t[a].0 == s[a].0);
        assert(t[b].0 == s[b].0);
    }
    let m = assoc_map(s).insert(h, u);
    assert forall|k: AttachmentHandle| assoc_map(t).contains_key(k) implies m.contains_key(k) by {
        let j = choose|j: int| 0 <= j < t.len() && t[j].0 == k;
        assert(s[j].0 == k);
    }
    assert forall|k: AttachmentHandle| m.contains_key(k) implies assoc_map(t).contains_key(k) by {
        if k == h {
            assert(t[i].0 == k);
        } else {
            let j = choose|j: int| 0 <= j < s.len() && s[j].0 == k;
            assert(t[j].0 == k);
        }
    }
    assert forall|k: AttachmentHandle| m.contains_key(k) implies assoc_map(t)[k] == m[k] by {
        let j = choose|j: int| 0 <= j < t.len() && t[j].0 == k;
        lemma_assoc_value(t, j);
        lemma_assoc_value(s, j);
    }
    assert(assoc_map(t) =~= m);
}

} // verus!
