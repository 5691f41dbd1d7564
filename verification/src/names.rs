//! A table from names to values.
use vstd::prelude::*;

verus! {

/// The map that a list of (name, key) entries with distinct names stands for.
pub open spec fn names_map<V>(s: Seq<(String, V)>) -> Map<Seq<char>, V> {
    Map::new(
        |n: Seq<char>| exists|i: int| 0 <= i < s.len() && s[i].0@ == n,
        |n: Seq<char>| s[choose|i: int| 0 <= i < s.len() && s[i].0@ == n].1,
    )
}

/// No name occurs twice.
pub open spec fn names_distinct<V>(s: Seq<(String, V)>) -> bool {
    forall|i: int, j: int| 0 <= i < j < s.len() ==> s[i].0@ != s[j].0@
}

/// Maps names to values; each name has at most one value.
pub struct NameTable<V> {
    entries: Vec<(String, V)>,
}

impl<V: Copy> NameTable<V> {
    /// The table as a map from name to value.
    pub closed spec fn view(&self) -> Map<Seq<char>, V> {
        names_map(self.entries@)
    }

    /// Well-formedness: each name has one entry.
    pub closed spec fn wf(&self) -> bool {
        names_distinct(self.entries@)
    }

    /// An empty table.
    pub fn new() -> (r: Self)
        ensures
            r.wf(),
            r.view() =~= Map::empty(),
    {
        let r = NameTable { entries: Vec::new() };
        assert(r.view() =~= Map::<Seq<char>, V>::empty());
        r
    }

    /// The value of `name`, if it has one.
    pub fn get(&self, name: &str) -> (r: Option<V>)
        requires
            self.wf(),
        ensures
            r == (if self.view().contains_key(name@) {
                Some(self.view()[name@])
            } else {
                None::<V>
            }),
    {
        let owned = name.to_owned();
        let mut i: usize = 0;
        while i < self.entries.len()
            invariant
                i <= self.entries.len(),
                self.wf(),
                owned@ == name@,
                forall|j: int| 0 <= j < i ==> self.entries@[j].0@ != name@,
            decreases self.entries.len() - i,
        {
            if self.entries[i].0 == owned {
                proof {
                    lemma_names_value(self.entries@, i as int);
                }
                return Some(self.entries[i].1);
            }
            i = i + 1;
        }
        None
    }

    /// Gives `name`, which has no value yet, the value `key`.
    pub fn insert_new(&mut self, name: &str, key: V)
        requires
            old(self).wf(),
            !old(self).view().contains_key(name@),
        ensures
            final(self).wf(),
            final(self).view() == old(self).view().insert(name@, key),
    {
        let ghost s = self.entries@;
        let owned = name.to_owned();
        self.entries.push((owned, key));
        proof {
            lemma_names_push(s, owned, key);
        }
    }

    /// Sets the value of `name` to `value`, replacing the one it had.
    pub fn insert(&mut self, name: &str, value: V)
        requires
            old(self).wf(),
        ensures
            final(self).wf(),
            final(self).view() == old(self).view().insert(name@, value),
    {
        let owned = name.to_owned();
        let mut i: usize = 0;
        while i < self.entries.len()
            invariant
                i <= self.entries.len(),
                self.wf(),
                self.entries@ == old(self).entries@,
                owned@ == name@,
                forall|j: int| 0 <= j < i ==> self.entries@[j].0@ != name@,
            decreases self.entries.len() - i,
        {
            if self.entries[i].0 == owned {
                let ghost s = self.entries@;
                self.entries.set(i, (owned, value));
                proof {
                    lemma_names_update(s, i as int, self.entries@[i as int].0, value);
                }
                return;
            }
            i = i + 1;
        }
        proof {
            if names_map(self.entries@).contains_key(name@) {
                let j = choose|j: int| 0 <= j < self.entries@.len() && self.entries@[j].0@ == name@;
                assert(self.entries@[j].0@ != name@);
            }
        }
        self.insert_new(name, value);
    }
}

proof fn lemma_names_update<V>(s: Seq<(String, V)>, i: int, name: String, value: V)
    requires
        names_distinct(s),
        0 <= i < s.len(),
        s[i].0@ == name@,
    ensures
        names_distinct(s.update(i, (name, value))),
        names_map(s.update(i, (name, value))) == names_map(s).insert(name@, value),
{
    let t = s.update(i, (name, value));
    assert forall|a: int, b: int| 0 <= a < b < t.len() implies t[a].0@ != t[b].0@ by {
        assert(s[a].0@ != s[b].0@);
    }
    let m = names_map(s).insert(name@, value);
    lemma_names_value(s, i);
    assert forall|n: Seq<char>| names_map(t).contains_key(n) implies m.contains_key(n) by {
        let j = choose|j: int| 0 <= j < t.len() && t[j].0@ == n;
        if j != i {
            assert(s[j] == t[j]);
            lemma_names_value(s, j);
        }
    }
    assert forall|n: Seq<char>| m.contains_key(n) implies names_map(t).contains_key(n) by {
        if n == name@ {
            assert(t[i].0@ == n);
        } else {
            let j = choose|j: int| 0 <= j < s.len() && s[j].0@ == n;
            assert(t[j] == s[j]);
        }
    }
    assert forall|n: Seq<char>| m.contains_key(n) implies names_map(t)[n] == m[n] by {
        let j = choose|j: int| 0 <= j < t.len() && t[j].0@ == n;
        lemma_names_value(t, j);
        if j != i {
            assert(s[j] == t[j]);
            lemma_names_value(s, j);
        }
    }
    assert(names_map(t) =~= m);
}

proof fn lemma_names_value<V>(s: Seq<(String, V)>, i: int)
    requires
        names_distinct(s),
        0 <= i < s.len(),
    ensures
        names_map(s).contains_key(s[i].0@),
        names_map(s)[s[i].0@] == s[i].1,
{
    let n = s[i].0@;
    assert(exists|j: int| 0 <= j < s.len() && s[j].0@ == n);
    let c = choose|j: int| 0 <= j < s.len() && s[j].0@ == n;
    assert(c == i);
}

proof fn lemma_names_push<V>(s: Seq<(String, V)>, name: String, key: V)
    requires
        names_distinct(s),
        !names_map(s).contains_key(name@),
    ensures
        names_distinct(s.push((name, key))),
        names_map(s.push((name, key))) == names_map(s).insert(name@, key),
{
    let t = s.push((name, key));
    assert forall|a: int, b: int| 0 <= a < b < t.len() implies t[a].0@ != t[b].0@ by {
        if b == t.len() - 1 {
            assert(t[a] == s[a]);
            if s[a].0@ == name@ {
                assert(exists|j: int| 0 <= j < s.len() && s[j].0@ == name@);
            }
        }
    }
    let m = names_map(s).insert(name@, key);
    assert forall|n: Seq<char>| names_map(t).contains_key(n) implies m.contains_key(n) by {
        let j = choose|j: int| 0 <= j < t.len() && t[j].0@ == n;
        if j < s.len() {
            assert(s[j] == t[j]);
        }
    }
    assert forall|n: Seq<char>| m.contains_key(n) implies names_map(t).contains_key(n) by {
        if n == name@ {
            assert(t[t.len() - 1].0@ == n);
        } else {
            let j = choose|j: int| 0 <= j < s.len() && s[j].0@ == n;
            assert(t[j] == s[j]);
        }
    }
    assert forall|n: Seq<char>| m.contains_key(n) implies names_map(t)[n] == m[n] by {
        let j = choose|j: int| 0 <= j < t.len() && t[j].0@ == n;
        lemma_names_value(t, j);
        if j < s.len() {
            assert(s[j] == t[j]);
            lemma_names_value(s, j);
        }
    }
    assert(names_map(t) =~= m);
}

} // verus!
