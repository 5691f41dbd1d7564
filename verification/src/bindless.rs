//! Bindless texture indices: every image the shaders sample gets a slot in
//! one large descriptor array.
use vstd::prelude::*;
use crate::handles::{ImageHandle, RenderTargetHandle};

verus! {

/// An image that can be given a bindless slot.
#[derive(Clone, Copy, PartialEq, Eq, Structural, Hash, Debug)]
pub enum BindlessImage {
    RenderTarget(RenderTargetHandle),
    Image(ImageHandle),
}

/// The map that a list of (image, index) entries with distinct images stands for.
pub open spec fn index_map(s: Seq<(BindlessImage, usize)>) -> Map<BindlessImage, usize> {
    Map::new(
        |k: BindlessImage| exists|i: int| 0 <= i < s.len() && s[i].0 == k,
        |k: BindlessImage| s[choose|i: int| 0 <= i < s.len() && s[i].0 == k].1,
    )
}

/// No image occurs twice.
pub open spec fn images_distinct(s: Seq<(BindlessImage, usize)>) -> bool {
    forall|i: int, j: int| 0 <= i < j < s.len() ==> s[i].0 != s[j].0
}

/// The images registered for bindless access, in order, and the index each
/// was given.
pub struct BindlessManager {
    bindless_textures: Vec<BindlessImage>,
    bindless_indexes: Vec<(BindlessImage, usize)>,
}

impl BindlessManager {
    /// The registered images, in order of registration.
    pub closed spec fn textures(&self) -> Seq<BindlessImage> {
        self.bindless_textures@
    }

    /// The index of each registered image.
    pub closed spec fn indexes(&self) -> Map<BindlessImage, usize> {
        index_map(self.bindless_indexes@)
    }

    pub closed spec fn wf(&self) -> bool {
        images_distinct(self.bindless_indexes@)
    }

    /// A manager with nothing registered.
    pub fn new() -> (r: Self)
        ensures
            r.wf(),
            r.textures() == Seq::<BindlessImage>::empty(),
            r.indexes() == Map::<BindlessImage, usize>::empty(),
    {
        let r = BindlessManager { bindless_textures: Vec::new(), bindless_indexes: Vec::new() };
        assert(r.indexes() =~= Map::<BindlessImage, usize>::empty());
        r
    }

    /// The bindless index of `image`, if it is registered.
    pub fn get_bindless_index(&self, image: &BindlessImage) -> (r: Option<usize>)
        requires
            self.wf(),
        ensures
            r == (if self.indexes().contains_key(*image) {
                Some(self.indexes()[*image])
            } else {
                None::<usize>
            }),
    {
        let mut i: usize = 0;
        while i < self.bindless_indexes.len()
            invariant
                i <= self.bindless_indexes.len(),
                self.wf(),
                forall|j: int| 0 <= j < i ==> self.bindless_indexes@[j].0 != *image,
            decreases self.bindless_indexes.len() - i,
        {
            if self.bindless_indexes[i].0 == *image {
                proof {
                    lemma_index_value(self.bindless_indexes@, i as int);
                }
                return Some(self.bindless_indexes[i].1);
            }
            i = i + 1;
        }
        None
    }

    fn find(&self, image: &BindlessImage) -> (r: Option<usize>)
        requires
            self.wf(),
        ensures
            match r {
                Some(i) => i < self.bindless_indexes.len() && self.bindless_indexes@[i as int].0 == *image,
                None => !self.indexes().contains_key(*image),
            },
    {
        let mut i: usize = 0;
        while i < self.bindless_indexes.len()
            invariant
                i <= self.bindless_indexes.len(),
                forall|j: int| 0 <= j < i ==> self.bindless_indexes@[j].0 != *image,
            decreases self.bindless_indexes.len() - i,
        {
            if self.bindless_indexes[i].0 == *image {
                return Some(i);
            }
            i = i + 1;
        }
        None
    }

    /// Registers `image`: it is appended to the registered images and its
    /// index becomes their number, so indices start at 1 (slot 0 is the
    /// default texture). Returns the array element its descriptor is
    /// written to: the index minus one.
    pub fn add_image_to_bindless(&mut self, image: &BindlessImage) -> (r: u32)
        requires
            old(self).wf(),
            old(self).textures().len() + 1 <= u32::MAX,
        ensures
            final(self).wf(),
            final(self).textures() == old(self).textures().push(*image),
            final(self).indexes() == old(self).indexes().insert(*image, final(self).textures().len() as usize),
            r as nat == old(self).textures().len(),
    {
        self.bindless_textures.push(*image);
        let bindless_index = self.bindless_textures.len();
        let ghost s = self.bindless_indexes@;
        match self.find(image) {
            Some(i) => {
                self.bindless_indexes.set(i, (*image, bindless_index));
                proof {
                    lemma_index_update(s, i as int, bindless_index);
                }
            },
            None => {
                self.bindless_indexes.push((*image, bindless_index));
                proof {
                    lemma_index_push(s, *image, bindless_index);
                }
            },
        }
        (bindless_index - 1) as u32
    }
}

proof fn lemma_index_value(s: Seq<(BindlessImage, usize)>, i: int)
    requires
        images_distinct(s),
        0 <= i < s.len(),
    ensures
        index_map(s).contains_key(s[i].0),
        index_map(s)[s[i].0] == s[i].1,
{
    let k = s[i].0;
    assert(exists|j: int| 0 <= j < s.len() && s[j].0 == k);
    let c = choose|j: int| 0 <= j < s.len() && s[j].0 == k;
    assert(c == i);
}

proof fn lemma_index_push(s: Seq<(BindlessImage, usize)>, h: BindlessImage, u: usize)
    requires
        images_distinct(s),
        !index_map(s).contains_key(h),
    ensures
        images_distinct(s.push((h, u))),
        index_map(s.push((h, u))) == index_map(s).insert(h, u),
{
    let t = s.push((h, u));
    assert forall|a: int, b: int| 0 <= a < b < t.len() implies t[a].0 != t[b].0 by {
        if b == t.len() - 1 {
            assert(t[a].0 == s[a].0);
            if s[a].0 == h {
                assert(exists|j: int| 0 <= j < s.len() && s[j].0 == h);
            }
        }
    }
    let m = index_map(s).insert(h, u);
    assert forall|k: BindlessImage| index_map(t).contains_key(k) implies m.contains_key(k) by {
        let j = choose|j: int| 0 <= j < t.len() && t[j].0 == k;
        if j < s.len() {
            assert(s[j].0 == k);
        }
    }
    assert forall|k: BindlessImage| m.contains_key(k) implies index_map(t).contains_key(k) by {
        if k == h {
            assert(t[t.len() - 1].0 == k);
        } else {
            let j = choose|j: int| 0 <= j < s.len() && s[j].0 == k;
            assert(t[j].0 == k);
        }
    }
    assert forall|k: BindlessImage| m.contains_key(k) implies index_map(t)[k] == m[k] by {
        let j = choose|j: int| 0 <= j < t.len() && t[j].0 == k;
        lemma_index_value(t, j);
        if j < s.len() {
            lemma_index_value(s, j);
        }
    }
    assert(index_map(t) =~= m);
}

proof fn lemma_index_update(s: Seq<(BindlessImage, usize)>, i: int, u: usize)
    requires
        images_distinct(s),
        0 <= i < s.len(),
    ensures
        images_distinct(s.update(i, (s[i].0, u))),
        index_map(s.update(i, (s[i].0, u))) == index_map(s).insert(s[i].0, u),
{
    let h = s[i].0;
    let t = s.update(i, (h, u));
    assert forall|a: int, b: int| 0 <= a < b < t.len() implies t[a].0 != t[b].0 by {
        assert(t[a].0 == s[a].0);
        assert(t[b].0 == s[b].0);
    }
    let m = index_map(s).insert(h, u);
    assert forall|k: BindlessImage| index_map(t).contains_key(k) implies m.contains_key(k) by {
        let j = choose|j: int| 0 <= j < t.len() && t[j].0 == k;
        assert(s[j].0 == k);
    }
    assert forall|k: BindlessImage| m.contains_key(k) implies index_map(t).contains_key(k) by {
        if k == h {
            assert(t[i].0 == k);
        } else {
            let j = choose|j: int| 0 <= j < s.len() && s[j].0 == k;
            assert(t[j].0 == k);
        }
    }
    assert forall|k: BindlessImage| m.contains_key(k) implies index_map(t)[k] == m[k] by {
        let j = choose|j: int| 0 <= j < t.len() && t[j].0 == k;
        lemma_index_value(t, j);
        lemma_index_value(s, j);
    }
    assert(index_map(t) =~= m);
}

/// Law: after an image is registered, looking it up gives the number of
/// images registered so far, which is one more than its descriptor's array
/// element.
pub proof fn lemma_registered_index(before: BindlessManager, after: BindlessManager, image: BindlessImage, element: u32)
    requires
        before.wf(),
        before.textures().len() + 1 <= u32::MAX,
        after.wf(),
        after.textures() == before.textures().push(image),
        after.indexes() == before.indexes().insert(image, after.textures().len() as usize),
        element as nat == before.textures().len(),
    ensures
        after.indexes().contains_key(image),
        after.indexes()[image] == element + 1,
        after.indexes()[image] == after.textures().len(),
{
}

} // verus!
