//! A small map from text keys to values, held in insertion order.
use vstd::prelude::*;

use crate::text::str_eq;

verus! {

pub struct KeyedMap<V> {
    entries: Vec<(String, V)>,
}

impl<V> KeyedMap<V> {
    pub closed spec fn wf(&self) -> bool {
        forall|i: int, j: int|
            0 <= i < j < self.entries@.len() ==> self.entries@[i].0@ != self.entries@[j].0@
    }

    pub closed spec fn has(&self, k: Seq<char>) -> bool {
        exists|i: int| 0 <= i < self.entries@.len() && self.entries@[i].0@ == k
    }

    pub closed spec fn at(&self, k: Seq<char>) -> V {
        let i = choose|i: int| 0 <= i < self.entries@.len() && self.entries@[i].0@ == k;
        self.entries@[i].1
    }

    /// The mapping, as a map from key text to value.
    pub closed spec fn map(&self) -> Map<Seq<char>, V> {
        Map::new(|k: Seq<char>| self.has(k), |k: Seq<char>| self.at(k))
    }

    pub closed spec fn size(&self) -> nat {
        self.entries@.len()
    }

    proof fn lemma_at(&self, i: int)
        requires
            self.wf(),
            0 <= i < self.entries@.len(),
        ensures
            self.has(self.entries@[i].0@),
            self.at(self.entries@[i].0@) == self.entries@[i].1,
            self.map().contains_key(self.entries@[i].0@),
            self.map()[self.entries@[i].0@] == self.entries@[i].1,
    {
        let k = self.entries@[i].0@;
        let j = choose|j: int| 0 <= j < self.entries@.len() && self.entries@[j].0@ == k;
        if j < i {
            assert(self.entries@[j].0@ != self.entries@[i].0@);
        }
        if j > i {
            assert(self.entries@[i].0@ != self.entries@[j].0@);
        }
    }

    pub fn new() -> (r: Self)
        ensures
            r.wf(),
            r.map() == Map::<Seq<char>, V>::empty(),
            r.size() == 0,
    {
        let r = KeyedMap { entries: Vec::new() };
        assert(r.map() =~= Map::<Seq<char>, V>::empty());
        r
    }

    pub fn len(&self) -> (n: usize)
        ensures
            n == self.size(),
    {
        self.entries.len()
    }

    fn index_of(&self, key: &str) -> (r: Option<usize>)
        requires
            self.wf(),
        ensures
            r matches Some(i) ==> i < self.entries@.len() && self.entries@[i as int].0@ == key@,
            r is None ==> !self.has(key@),
    {
        let mut i: usize = 0;
        while i < self.entries.len()
            invariant
                i <= self.entries@.len(),
                forall|j: int| 0 <= j < i ==> self.entries@[j].0@ != key@,
            decreases self.entries.len() - i,
        {
            if str_eq(self.entries[i].0.as_str(), key) {
                return Some(i);
            }
            i = i + 1;
        }
        None
    }

    pub fn contains_key(&self, key: &str) -> (r: bool)
        requires
            self.wf(),
        ensures
            r == self.map().contains_key(key@),
    {
        self.index_of(key).is_some()
    }

    pub fn get(&self, key: &str) -> (r: Option<&V>)
        requires
            self.wf(),
        ensures
            r matches Some(v) ==> self.map().contains_key(key@) && self.map()[key@] == *v,
            r is None ==> !self.map().contains_key(key@),
    {
        match self.index_of(key) {
            Some(i) => {
                proof {
                    self.lemma_at(i as int);
                }
                Some(&self.entries[i].1)
            },
            None => None,
        }
    }

    pub fn insert(&mut self, key: String, value: V)
        requires
            old(self).wf(),
        ensures
            final(self).wf(),
            final(self).map() == old(self).map().insert(key@, value),
    {
        let ghost old_map = self.map();
        let ghost old_entries = self.entries@;
        let ghost k = key@;
        match self.index_of(key.as_str()) {
            Some(i) => {
                self.entries.set(i, (key, value));
                proof {
                    assert forall|a: int, b: int|
                        0 <= a < b < self.entries@.len() implies self.entries@[a].0@
                        != self.entries@[b].0@ by {
                        assert(old_entries[a].0@ == self.entries@[a].0@);
                        assert(old_entries[b].0@ == self.entries@[b].0@);
                    }
                    assert forall|x: Seq<char>| #[trigger]
                        self.map().contains_key(x) == old_map.insert(k, value).contains_key(x)
                        && (self.map().contains_key(x) ==> self.map()[x] == old_map.insert(
                        k,
                        value,
                    )[x]) by {
                        if self.has(x) {
                            let j = choose|j: int|
                                0 <= j < self.entries@.len() && self.entries@[j].0@ == x;
                            self.lemma_at(j);
                            assert(old_entries[j].0@ == x);
                            if j != i {
                                assert(old_entries[j] == self.entries@[j]);
                                old(self).lemma_at(j);
                            }
                        }
                        if old_map.insert(k, value).contains_key(x) && x != k {
                            let j = choose|j: int|
                                0 <= j < old_entries.len() && old_entries[j].0@ == x;
                            assert(self.entries@[j].0@ == x);
                        }
                        if x == k {
                            self.lemma_at(i as int);
                        }
                    }
                    assert(self.map() =~= old_map.insert(k, value));
                }
            },
            None => {
                self.entries.push((key, value));
                proof {
                    let n = old_entries.len() as int;
                    assert forall|a: int, b: int|
                        0 <= a < b < self.entries@.len() implies self.entries@[a].0@
                        != self.entries@[b].0@ by {
                        if b == n {
                            assert(self.entries@[a] == old_entries[a]);
                            assert(!old(self).has(k));
                        } else {
                            assert(self.entries@[a] == old_entries[a]);
                            assert(self.entries@[b] == old_entries[b]);
                        }
                    }
                    assert forall|x: Seq<char>| #[trigger]
                        self.map().contains_key(x) == old_map.insert(k, value).contains_key(x)
                        && (self.map().contains_key(x) ==> self.map()[x] == old_map.insert(
                        k,
                        value,
                    )[x]) by {
                        if self.has(x) {
                            let j = choose|j: int|
                                0 <= j < self.entries@.len() && self.entries@[j].0@ == x;
                            self.lemma_at(j);
                            if j < n {
                                assert(old_entries[j] == self.entries@[j]);
                                old(self).lemma_at(j);
                            }
                        }
                        if old_map.insert(k, value).contains_key(x) && x != k {
                            let j = choose|j: int|
                                0 <= j < old_entries.len() && old_entries[j].0@ == x;
                            assert(self.entries@[j].0@ == x);
                        }
                        if x == k {
                            self.lemma_at(n);
                        }
                    }
                    assert(self.map() =~= old_map.insert(k, value));
                }
            },
        }
    }

    pub fn remove(&mut self, key: &str) -> (r: Option<V>)
        requires
            old(self).wf(),
        ensures
            final(self).wf(),
            final(self).map() == old(self).map().remove(key@),
            old(self).map().contains_key(key@) ==> r == Some(old(self).map()[key@]),
            !old(self).map().contains_key(key@) ==> r is None,
    {
        let ghost old_map = self.map();
        let ghost old_entries = self.entries@;
        match self.index_of(key) {
            None => {
                assert(self.map() =~= old_map.remove(key@));
                None
            },
            Some(i) => {
                proof {
                    self.lemma_at(i as int);
                }
                let (_, v) = self.entries.remove(i);
                proof {
                    let e = self.entries@;
                    assert forall|a: int, b: int| 0 <= a < b < e.len() implies e[a].0@ != e[b].0@ by {
                        let oa = if a < i { a } else { a + 1 };
                        let ob = if b < i { b } else { b + 1 };
                        assert(e[a] == old_entries[oa]);
                        assert(e[b] == old_entries[ob]);
                    }
                    assert forall|x: Seq<char>| #[trigger]
                        self.map().contains_key(x) == old_map.remove(key@).contains_key(x)
                        && (self.map().contains_key(x) ==> self.map()[x] == old_map[x]) by {
                        if self.has(x) {
                            let j = choose|j: int| 0 <= j < e.len() && e[j].0@ == x;
                            self.lemma_at(j);
                            let oj = if j < i { j } else { j + 1 };
                            assert(e[j] == old_entries[oj]);
                            old(self).lemma_at(oj);
                            assert(oj != i);
                        }
                        if old_map.remove(key@).contains_key(x) {
                            let j = choose|j: int|
                                0 <= j < old_entries.len() && old_entries[j].0@ == x;
                            assert(j != i);
                            let nj = if j < i { j } else { j - 1 };
                            assert(e[nj] == old_entries[j]);
                        }
                    }
                    assert(self.map() =~= old_map.remove(key@));
                }
                Some(v)
            },
        }
    }

    pub fn clear(&mut self)
        ensures
            final(self).wf(),
            final(self).map() == Map::<Seq<char>, V>::empty(),
    {
        self.entries.clear();
        assert(self.map() =~= Map::<Seq<char>, V>::empty());
    }

    /// The keys, in insertion order.
    pub fn keys(&self) -> (r: Vec<String>)
        requires
            self.wf(),
        ensures
            forall|k: Seq<char>| self.map().contains_key(k) <==> exists|i: int|
                0 <= i < r@.len() && #[trigger] r@[i]@ == k,
            forall|a: int, b: int| 0 <= a < b < r@.len() ==> r@[a]@ != r@[b]@,
            r@.len() == self.size(),
    {
        let mut r: Vec<String> = Vec::new();
        let mut i: usize = 0;
        while i < self.entries.len()
            invariant
                i <= self.entries@.len(),
                r@.len() == i,
                forall|j: int| 0 <= j < i ==> #[trigger] r@[j]@ == self.entries@[j].0@,
            decreases self.entries.len() - i,
        {
            r.push(self.entries[i].0.clone());
            i = i + 1;
        }
        proof {
            assert forall|k: Seq<char>| self.map().contains_key(k) <==> exists|j: int|
                0 <= j < r@.len() && #[trigger] r@[j]@ == k by {
                if self.has(k) {
                    let j = choose|j: int| 0 <= j < self.entries@.len() && self.entries@[j].0@ == k;
                    assert(r@[j]@ == k);
                }
                if exists|j: int| 0 <= j < r@.len() && #[trigger] r@[j]@ == k {
                    let j = choose|j: int| 0 <= j < r@.len() && #[trigger] r@[j]@ == k;
                    assert(self.entries@[j].0@ == k);
                }
            }
        }
        r
    }

    /// Keeps exactly the entries whose value satisfies `keep`.
    pub fn retain<F: Fn(&V) -> bool>(&mut self, keep: F, Ghost(pred): Ghost<spec_fn(V) -> bool>)
        requires
            old(self).wf(),
            forall|v: &V| #[trigger] keep.requires((v,)),
            forall|v: &V, b: bool| keep.ensures((v,), b) ==> b == pred(*v),
        ensures
            final(self).wf(),
            final(self).map() == old(self).map().restrict(
                old(self).map().dom().filter(|k: Seq<char>| pred(old(self).map()[k])),
            ),
    {
        let ghost old_map = self.map();
        let keys = self.keys();
        let mut i: usize = 0;
        while i < keys.len()
            invariant
                self.wf(),
                i <= keys@.len(),
                forall|k: Seq<char>| old_map.contains_key(k) <==> exists|j: int|
                    0 <= j < keys@.len() && #[trigger] keys@[j]@ == k,
                forall|k: Seq<char>| #[trigger] self.map().contains_key(k) ==> old_map.contains_key(k)
                    && self.map()[k] == old_map[k],
                forall|k: Seq<char>| #[trigger] old_map.contains_key(k) ==> ((exists|j: int|
                    0 <= j < i && #[trigger] keys@[j]@ == k) ==> (self.map().contains_key(k)
                    <==> pred(old_map[k]))) && (!(exists|j: int| 0 <= j < i && #[trigger] keys@[j]@ == k)
                    ==> self.map().contains_key(k)),
                forall|v: &V| #[trigger] keep.requires((v,)),
                forall|v: &V, b: bool| keep.ensures((v,), b) ==> b == pred(*v),
            decreases keys.len() - i,
        {
            let key = &keys[i];
            let ghost k = key@;
            let ghost before = self.map();
            let drop = match self.get(key.as_str()) {
                Some(v) => !keep(v),
                None => false,
            };
            if drop {
                self.remove(key.as_str());
            }
            proof {
                assert forall|x: Seq<char>| #[trigger] old_map.contains_key(x) implies ((exists|j: int|
                    0 <= j < i + 1 && #[trigger] keys@[j]@ == x) ==> (self.map().contains_key(x)
                    <==> pred(old_map[x]))) && (!(exists|j: int| 0 <= j < i + 1 && #[trigger] keys@[j]@ == x)
                    ==> self.map().contains_key(x)) by {
                    if x == k {
                        assert(keys@[i as int]@ == x);
                    } else {
                        if exists|j: int| 0 <= j < i + 1 && #[trigger] keys@[j]@ == x {
                            let j = choose|j: int| 0 <= j < i + 1 && #[trigger] keys@[j]@ == x;
                            assert(j < i);
                        }
                    }
                }
            }
            i = i + 1;
        }
        proof {
            let target = old_map.restrict(old_map.dom().filter(|k: Seq<char>| pred(old_map[k])));
            assert forall|x: Seq<char>| #[trigger] self.map().contains_key(x) == target.contains_key(x) by {
                if old_map.contains_key(x) {
                    let j = choose|j: int| 0 <= j < keys@.len() && #[trigger] keys@[j]@ == x;
                }
            }
            assert(self.map() =~= target);
        }
    }
}

} // verus!
