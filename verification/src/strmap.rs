use vstd::prelude::*;

verus! {

/// A finite map from strings to values, kept as a list of entries in insertion
/// order with no key occurring twice.
#[derive(Debug, Clone)]
pub struct StrMap<V> {
    entries: Vec<(String, V)>,
}

impl<V> StrMap<V> {
    /// No two entries share a key.
    pub closed spec fn wf(&self) -> bool {
        forall|i: int, j: int|
            0 <= i < j < self.entries@.len() ==> #[trigger] self.entries@[i].0@
                != #[trigger] self.entries@[j].0@
    }

    /// The number of entries.
    pub closed spec fn size(&self) -> nat {
        self.entries@.len()
    }

    /// The key of the `i`-th entry, in insertion order.
    pub closed spec fn key_at(&self, i: int) -> Seq<char> {
        self.entries@[i].0@
    }

    /// The value of the `i`-th entry, in insertion order.
    pub closed spec fn value_at(&self, i: int) -> V {
        self.entries@[i].1
    }

    /// Whether some entry has key `k`.
    pub closed spec fn has(&self, k: Seq<char>) -> bool {
        exists|i: int| 0 <= i < self.entries@.len() && #[trigger] self.entries@[i].0@ == k
    }

    spec fn index_of(&self, k: Seq<char>) -> int {
        choose|i: int| 0 <= i < self.entries@.len() && #[trigger] self.entries@[i].0@ == k
    }

    /// The map that the entries describe.
    pub closed spec fn view(&self) -> Map<Seq<char>, V> {
        Map::new(|k: Seq<char>| self.has(k), |k: Seq<char>| self.entries@[self.index_of(k)].1)
    }

    /// How the entries and the map relate: every entry is in the map with its
    /// value, every key of the map is the key of an entry, and no key repeats.
    pub proof fn lemma_entries(&self)
        requires
            self.wf(),
        ensures
            forall|i: int|
                0 <= i < self.size() ==> #[trigger] self.view().dom().contains(self.key_at(i))
                    && self.view()[self.key_at(i)] == self.value_at(i),
            forall|k: Seq<char>|
                #[trigger] self.view().dom().contains(k) ==> exists|i: int|
                    0 <= i < self.size() && #[trigger] self.key_at(i) == k,
            forall|i: int, j: int|
                0 <= i < j < self.size() ==> #[trigger] self.key_at(i) != #[trigger] self.key_at(
                    j,
                ),
    {
        assert forall|i: int| 0 <= i < self.size() implies #[trigger] self.view().dom().contains(
            self.key_at(i),
        ) && self.view()[self.key_at(i)] == self.value_at(i) by {
            let k = self.key_at(i);
            assert(self.entries@[i].0@ == k);
            assert(self.has(k));
            let j = self.index_of(k);
            if j != i {
                if j < i {
                    assert(self.entries@[j].0@ != self.entries@[i].0@);
                } else {
                    assert(self.entries@[i].0@ != self.entries@[j].0@);
                }
            }
        }
        assert forall|k: Seq<char>| #[trigger] self.view().dom().contains(k) implies exists|i: int|
            0 <= i < self.size() && #[trigger] self.key_at(i) == k by {
            let i = self.index_of(k);
            assert(self.key_at(i) == k);
        }
    }

    /// An empty map.
    pub fn new() -> (m: Self)
        ensures
            m.wf(),
            m.size() == 0,
            m.view() == Map::<Seq<char>, V>::empty(),
    {
        let m = StrMap { entries: Vec::new() };
        assert(m.view() =~= Map::<Seq<char>, V>::empty());
        m
    }

    /// The number of entries.
    pub fn len(&self) -> (n: usize)
        ensures
            n == self.size(),
    {
        self.entries.len()
    }

    /// The key of the `i`-th entry.
    pub fn key(&self, i: usize) -> (k: &String)
        requires
            i < self.size(),
        ensures
            k@ == self.key_at(i as int),
    {
        &self.entries[i].0
    }

    /// The value of the `i`-th entry.
    pub fn value(&self, i: usize) -> (v: &V)
        requires
            i < self.size(),
        ensures
            *v == self.value_at(i as int),
    {
        &self.entries[i].1
    }

    /// The keys, in insertion order.
    pub fn key_strs(&self) -> (keys: Vec<&str>)
        requires
            self.wf(),
        ensures
            forall|i: int|
                0 <= i < keys@.len() ==> self.view().dom().contains(#[trigger] keys@[i]@),
            forall|k: Seq<char>|
                #[trigger] self.view().dom().contains(k) ==> exists|i: int|
                    0 <= i < keys@.len() && #[trigger] keys@[i]@ == k,
            forall|i: int, j: int|
                0 <= i < j < keys@.len() ==> #[trigger] keys@[i]@ != #[trigger] keys@[j]@,
    {
        proof {
            self.lemma_entries();
        }
        let mut keys: Vec<&str> = Vec::new();
        let n = self.entries.len();
        let mut i: usize = 0;
        while i < n
            invariant
                n == self.size(),
                i <= n,
                keys@.len() == i,
                forall|j: int| 0 <= j < i ==> #[trigger] keys@[j]@ == self.key_at(j),
            decreases n - i,
        {
            keys.push(self.entries[i].0.as_str());
            i = i + 1;
        }
        proof {
            assert forall|k: Seq<char>| #[trigger] self.view().dom().contains(k) implies exists|i: int|
                0 <= i < keys@.len() && #[trigger] keys@[i]@ == k by {
                let i = choose|i: int| 0 <= i < self.size() && #[trigger] self.key_at(i) == k;
                assert(keys@[i]@ == k);
            }
            assert forall|i: int| 0 <= i < keys@.len() implies self.view().dom().contains(#[trigger] keys@[i]@) by {
                assert(self.view().dom().contains(self.key_at(i)));
            }
            assert forall|i: int, j: int| 0 <= i < j < keys@.len() implies #[trigger] keys@[i]@ != #[trigger] keys@[j]@ by {
                assert(self.key_at(i) != self.key_at(j));
            }
        }
        keys
    }

    fn find(&self, key: &String) -> (r: Option<usize>)
        requires
            self.wf(),
        ensures
            match r {
                Some(i) => i < self.size() && self.key_at(i as int) == key@,
                None => !self.has(key@),
            },
    {
        let n = self.entries.len();
        let mut i: usize = 0;
        while i < n
            invariant
                n == self.entries@.len(),
                i <= n,
                forall|j: int| 0 <= j < i ==> self.entries@[j].0@ != key@,
            decreases n - i,
        {
            if self.entries[i].0 == *key {
                return Some(i);
            }
            i = i + 1;
        }
        None
    }

    /// The value stored under `key`, if any.
    pub fn get(&self, key: &String) -> (r: Option<&V>)
        requires
            self.wf(),
        ensures
            r is Some <==> self.view().dom().contains(key@),
            r matches Some(v) ==> *v == self.view()[key@],
    {
        proof {
            self.lemma_entries();
        }
        match self.find(key) {
            Some(i) => Some(&self.entries[i].1),
            None => None,
        }
    }

    /// Stores `value` under `key` and gives back the value that was stored
    /// there before, if any. A new key goes after all others.
    pub fn insert(&mut self, key: String, value: V) -> (prev: Option<V>)
        requires
            old(self).wf(),
        ensures
            final(self).wf(),
            final(self).view() == old(self).view().insert(key@, value),
            prev is Some <==> old(self).view().dom().contains(key@),
            prev matches Some(p) ==> p == old(self).view()[key@],
            old(self).view().dom().contains(key@) ==> final(self).size() == old(self).size()
                && forall|i: int|
                0 <= i < old(self).size() ==> #[trigger] final(self).key_at(i) == old(
                    self,
                ).key_at(i),
            !old(self).view().dom().contains(key@) ==> final(self).size() == old(self).size() + 1
                && final(self).key_at(old(self).size() as int) == key@ && forall|i: int|
                0 <= i < old(self).size() ==> #[trigger] final(self).key_at(i) == old(
                    self,
                ).key_at(i) && final(self).value_at(i) == old(self).value_at(i),
    {
        proof {
            self.lemma_entries();
        }
        let ghost k = key@;
        match self.find(&key) {
            Some(i) => {
                let ghost pre = *self;
                let mut v = value;
                std::mem::swap(&mut self.entries[i].1, &mut v);
                proof {
                    assert(self.entries@ =~= pre.entries@.update(i as int, (pre.entries@[i as int].0, value)));
                    assert(self.wf());
                    self.lemma_entries();
                    assert(pre.view()[k] == pre.value_at(i as int));
                    assert forall|x: Seq<char>| #[trigger] self.view().dom().contains(x) <==> pre.view().insert(k, value).dom().contains(x) by {
                        if x == k {
                            assert(self.key_at(i as int) == k);
                            assert(self.view().dom().contains(self.key_at(i as int)));
                        }
                        if self.view().dom().contains(x) {
                            let j = choose|j: int| 0 <= j < self.size() && #[trigger] self.key_at(j) == x;
                            if j != i {
                                assert(pre.key_at(j) == x);
                                assert(pre.view().dom().contains(pre.key_at(j)));
                            }
                        }
                        if pre.view().dom().contains(x) && x != k {
                            let j = choose|j: int| 0 <= j < pre.size() && #[trigger] pre.key_at(j) == x;
                            assert(self.key_at(j) == x);
                            assert(self.view().dom().contains(self.key_at(j)));
                        }
                    }
                    assert forall|x: Seq<char>| #[trigger] self.view().dom().contains(x) implies self.view()[x] == pre.view().insert(k, value)[x] by {
                        let j = choose|j: int| 0 <= j < self.size() && #[trigger] self.key_at(j) == x;
                        if j != i {
                            assert(pre.key_at(j) == x);
                            assert(pre.view()[x] == pre.value_at(j));
                        }
                    }
                    assert(self.view() =~= pre.view().insert(k, value));
                }
                Some(v)
            },
            None => {
                let ghost pre = *self;
                self.entries.push((key, value));
                proof {
                    assert(self.entries@ =~= pre.entries@.push((self.entries@.last().0, value)));
                    assert(self.wf());
                    self.lemma_entries();
                    let n = pre.size() as int;
                    assert(self.key_at(n) == k);
                    assert forall|x: Seq<char>| #[trigger] self.view().dom().contains(x) <==> pre.view().insert(k, value).dom().contains(x) by {
                        if x == k {
                            assert(self.view().dom().contains(self.key_at(n)));
                        }
                        if self.view().dom().contains(x) && x != k {
                            let j = choose|j: int| 0 <= j < self.size() && #[trigger] self.key_at(j) == x;
                            assert(j != n);
                            assert(pre.key_at(j) == x);
                            assert(pre.view().dom().contains(pre.key_at(j)));
                        }
                        if pre.view().dom().contains(x) {
                            let j = choose|j: int| 0 <= j < pre.size() && #[trigger] pre.key_at(j) == x;
                            assert(self.key_at(j) == x);
                            assert(self.view().dom().contains(self.key_at(j)));
                        }
                    }
                    assert forall|x: Seq<char>| #[trigger] self.view().dom().contains(x) implies self.view()[x] == pre.view().insert(k, value)[x] by {
                        let j = choose|j: int| 0 <= j < self.size() && #[trigger] self.key_at(j) == x;
                        if j != n {
                            assert(pre.key_at(j) == x);
                            assert(pre.view()[x] == pre.value_at(j));
                        }
                    }
                    assert(self.view() =~= pre.view().insert(k, value));
                }
                None
            },
        }
    }
}

} // verus!
