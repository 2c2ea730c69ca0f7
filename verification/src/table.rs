//! A finite map kept as a vector of entries with distinct keys, viewed as a `Map`.
use vstd::prelude::*;

verus! {

/// A key of a table: compared and copied by its plain value.
pub trait TableKey: View + Sized {
    fn key_eq(&self, other: &Self) -> (r: bool)
        ensures
            r == (self@ == other@),
    ;

    fn key_clone(&self) -> (r: Self)
        ensures
            r@ == self@,
    ;
}

impl TableKey for String {
    fn key_eq(&self, other: &Self) -> (r: bool) {
        *self == *other
    }

    fn key_clone(&self) -> (r: Self) {
        self.clone()
    }
}

/// A finite map from keys to values.
pub struct Table<K, V> {
    entries: Vec<(K, V)>,
}

impl<K: View, V: View> View for Table<K, V> {
    type V = Map<K::V, V::V>;

    closed spec fn view(&self) -> Map<K::V, V::V> {
        Map::new(
            |k: K::V| exists|i: int| 0 <= i < self.entries@.len() && self.entries@[i].0@ == k,
            |k: K::V|
                self.entries@[choose|i: int|
                    0 <= i < self.entries@.len() && self.entries@[i].0@ == k].1@,
        )
    }
}

impl<K: TableKey, V: View> Table<K, V> {
    /// No key occurs twice.
    pub closed spec fn wf(&self) -> bool {
        forall|i: int, j: int|
            0 <= i < self.entries@.len() && 0 <= j < self.entries@.len() && i != j
                ==> self.entries@[i].0@ != self.entries@[j].0@
    }

    /// The number of entries.
    pub closed spec fn spec_len(&self) -> nat {
        self.entries@.len()
    }

    /// The key of the entry at position `i`.
    pub closed spec fn spec_key_at(&self, i: int) -> K::V {
        self.entries@[i].0@
    }

    /// The value of the entry at position `i`.
    pub closed spec fn spec_value_at(&self, i: int) -> V {
        self.entries@[i].1
    }

    proof fn lemma_view_at(&self, i: int)
        requires
            self.wf(),
            0 <= i < self.entries@.len(),
        ensures
            self@.contains_key(self.entries@[i].0@),
            self@[self.entries@[i].0@] == self.entries@[i].1@,
    {
        let k = self.entries@[i].0@;
        let j = choose|j: int| 0 <= j < self.entries@.len() && self.entries@[j].0@ == k;
        assert(0 <= j < self.entries@.len() && self.entries@[j].0@ == k);
        assert(j == i);
    }

    /// The positions describe the map: a key is present exactly at some position,
    /// with that position's value.
    pub proof fn lemma_positions(&self)
        requires
            self.wf(),
        ensures
            forall|i: int|
                #![trigger self.spec_key_at(i)]
                0 <= i < self.spec_len() ==> self@.contains_key(self.spec_key_at(i))
                    && self@[self.spec_key_at(i)] == self.spec_value_at(i)@,
            forall|k: K::V|
                self@.contains_key(k) ==> exists|i: int|
                    0 <= i < self.spec_len() && self.spec_key_at(i) == k,
            self@.dom().finite(),
            self@.dom().len() == self.spec_len(),
            forall|i: int, j: int|
                0 <= i < self.spec_len() && 0 <= j < self.spec_len() && i != j
                    ==> #[trigger] self.spec_key_at(i) != #[trigger] self.spec_key_at(j),
    {
        assert forall|i: int|
            #![trigger self.spec_key_at(i)]
            0 <= i < self.spec_len() implies self@.contains_key(self.spec_key_at(i))
                && self@[self.spec_key_at(i)] == self.spec_value_at(i)@ by {
            self.lemma_view_at(i);
        }
        assert forall|k: K::V| self@.contains_key(k) implies exists|i: int|
            0 <= i < self.spec_len() && self.spec_key_at(i) == k by {
            let i = choose|i: int| 0 <= i < self.entries@.len() && self.entries@[i].0@ == k;
            assert(self.spec_key_at(i) == k);
        }
        self.lemma_dom_len(self.entries@.len() as int);
    }

    proof fn lemma_dom_len(&self, n: int)
        requires
            self.wf(),
            0 <= n <= self.entries@.len(),
        ensures
            Set::new(|k: K::V| exists|i: int| 0 <= i < n && self.entries@[i].0@ == k).finite(),
            Set::new(|k: K::V| exists|i: int| 0 <= i < n && self.entries@[i].0@ == k).len() == n,
            n == self.entries@.len() ==> self@.dom() == Set::new(
                |k: K::V| exists|i: int| 0 <= i < n && self.entries@[i].0@ == k,
            ),
        decreases n,
    {
        let s = Set::new(|k: K::V| exists|i: int| 0 <= i < n && self.entries@[i].0@ == k);
        if n == 0 {
            assert(s =~= Set::empty());
        } else {
            self.lemma_dom_len(n - 1);
            let t = Set::new(|k: K::V| exists|i: int| 0 <= i < n - 1 && self.entries@[i].0@ == k);
            let last = self.entries@[n - 1].0@;
            assert(!t.contains(last));
            assert(s =~= t.insert(last));
        }
        if n == self.entries@.len() {
            assert(self@.dom() =~= s);
        }
    }

    /// The number of positions before `n` whose key satisfies `p`.
    pub open spec fn count_keys_before(&self, p: spec_fn(K::V) -> bool, n: int) -> nat
        decreases n,
    {
        if n <= 0 {
            0
        } else {
            self.count_keys_before(p, n - 1) + if p(self.spec_key_at(n - 1)) {
                1nat
            } else {
                0nat
            }
        }
    }

    /// The keys at positions before `n` that satisfy `p`.
    pub open spec fn keys_before(&self, p: spec_fn(K::V) -> bool, n: int) -> Set<K::V> {
        Set::new(|k: K::V| exists|j: int| 0 <= j < n && self.spec_key_at(j) == k && p(k))
    }

    /// Counting the positions whose key satisfies `p` counts the keys of the map
    /// that satisfy `p`.
    pub proof fn lemma_count_keys(&self, p: spec_fn(K::V) -> bool)
        requires
            self.wf(),
        ensures
            self.count_keys_before(p, self.spec_len() as int) == self@.dom().filter(p).len(),
            self@.dom().filter(p).finite(),
    {
        self.lemma_keys_before(p, self.spec_len() as int);
        self.lemma_positions();
        assert(self.keys_before(p, self.spec_len() as int) =~= self@.dom().filter(p));
    }

    proof fn lemma_keys_before(&self, p: spec_fn(K::V) -> bool, n: int)
        requires
            self.wf(),
            0 <= n <= self.spec_len(),
        ensures
            self.keys_before(p, n).finite(),
            self.keys_before(p, n).len() == self.count_keys_before(p, n),
        decreases n,
    {
        if n == 0 {
            assert(self.keys_before(p, n) =~= Set::empty());
        } else {
            self.lemma_keys_before(p, n - 1);
            let k = self.spec_key_at(n - 1);
            let prev = self.keys_before(p, n - 1);
            if p(k) {
                assert(!prev.contains(k)) by {
                    if prev.contains(k) {
                        let j = choose|j: int| 0 <= j < n - 1 && self.spec_key_at(j) == k && p(k);
                        assert(self.entries@[j].0@ == self.entries@[n - 1].0@);
                    }
                }
                assert(self.keys_before(p, n) =~= prev.insert(k));
            } else {
                assert(self.keys_before(p, n) =~= prev);
            }
        }
    }

    /// The keys, in position order.
    pub fn keys(&self) -> (r: Vec<K>)
        ensures
            r@.len() == self.spec_len(),
            forall|j: int| 0 <= j < r@.len() ==> #[trigger] r@[j]@ == self.spec_key_at(j),
    {
        let mut r: Vec<K> = Vec::new();
        let mut i: usize = 0;
        while i < self.entries.len()
            invariant
                i <= self.entries@.len(),
                r@.len() == i,
                forall|j: int| 0 <= j < i ==> #[trigger] r@[j]@ == self.spec_key_at(j),
            decreases self.entries.len() - i,
        {
            r.push(self.entries[i].0.key_clone());
            i = i + 1;
        }
        r
    }

    /// An empty table.
    pub fn new() -> (r: Self)
        ensures
            r.wf(),
            r@ == Map::<K::V, V::V>::empty(),
            r.spec_len() == 0,
    {
        let r = Table { entries: Vec::new() };
        assert(r@ =~= Map::<K::V, V::V>::empty());
        r
    }

    /// The number of entries.
    pub fn len(&self) -> (r: usize)
        ensures
            r == self.spec_len(),
    {
        self.entries.len()
    }

    /// The key at position `i`.
    pub fn key_at(&self, i: usize) -> (r: &K)
        requires
            i < self.spec_len(),
        ensures
            r@ == self.spec_key_at(i as int),
    {
        &self.entries[i].0
    }

    /// The value at position `i`.
    pub fn value_at(&self, i: usize) -> (r: &V)
        requires
            i < self.spec_len(),
        ensures
            *r == self.spec_value_at(i as int),
    {
        &self.entries[i].1
    }

    /// The position of key `k`, if present.
    pub fn index_of(&self, k: &K) -> (r: Option<usize>)
        requires
            self.wf(),
        ensures
            r matches Some(i) ==> i < self.spec_len() && self.spec_key_at(i as int) == k@,
            r is None ==> !self@.contains_key(k@),
            r is Some == self@.contains_key(k@),
    {
        let mut i: usize = 0;
        while i < self.entries.len()
            invariant
                self.wf(),
                i <= self.entries@.len(),
                forall|j: int| 0 <= j < i ==> self.entries@[j].0@ != k@,
            decreases self.entries.len() - i,
        {
            if self.entries[i].0.key_eq(k) {
                proof {
                    self.lemma_view_at(i as int);
                }
                return Some(i);
            }
            i = i + 1;
        }
        None
    }

    /// The value of key `k`, if present.
    pub fn get(&self, k: &K) -> (r: Option<&V>)
        requires
            self.wf(),
        ensures
            r is Some == self@.contains_key(k@),
            r matches Some(v) ==> v@ == self@[k@],
    {
        match self.index_of(k) {
            Some(i) => {
                proof {
                    self.lemma_view_at(i as int);
                }
                Some(&self.entries[i].1)
            },
            None => None,
        }
    }

    /// Whether key `k` is present.
    pub fn contains_key(&self, k: &K) -> (r: bool)
        requires
            self.wf(),
        ensures
            r == self@.contains_key(k@),
    {
        self.index_of(k).is_some()
    }

    /// Replaces the value at position `i`.
    pub fn set_value_at(&mut self, i: usize, v: V)
        requires
            old(self).wf(),
            i < old(self).spec_len(),
        ensures
            final(self).wf(),
            final(self).spec_len() == old(self).spec_len(),
            final(self)@ == old(self)@.insert(old(self).spec_key_at(i as int), v@),
            forall|j: int|
                0 <= j < old(self).spec_len() ==> final(self).spec_key_at(j) == old(
                    self,
                ).spec_key_at(j),
            final(self).spec_value_at(i as int) == v,
            forall|j: int|
                0 <= j < old(self).spec_len() && j != i ==> final(self).spec_value_at(j) == old(
                    self,
                ).spec_value_at(j),
    {
        let ghost old_self = *self;
        let k = self.entries[i].0.key_clone();
        let ghost kv = self.entries@[i as int].0@;
        let (key, _) = self.entries.remove(i);
        self.entries.insert(i, (key, v));
        proof {
            assert forall|j: int| 0 <= j < self.entries@.len() && j != i implies self.entries@[j]
                == old_self.entries@[j] by {}
            assert forall|x: K::V| #![auto] self@.contains_key(x) == old_self@.insert(kv, v@).contains_key(x)
                by {
                if old_self@.contains_key(x) {
                    let j = choose|j: int| 0 <= j < old_self.entries@.len() && old_self.entries@[j].0@ == x;
                    assert(self.entries@[j].0@ == x);
                }
                if self@.contains_key(x) {
                    let j = choose|j: int| 0 <= j < self.entries@.len() && self.entries@[j].0@ == x;
                    assert(old_self.entries@[j].0@ == x);
                }
            }
            assert forall|x: K::V| #![auto] self@.contains_key(x) implies self@[x] == old_self@.insert(kv, v@)[x]
                by {
                let j = choose|j: int| 0 <= j < self.entries@.len() && self.entries@[j].0@ == x;
                self.lemma_view_at(j);
                if j != i {
                    old_self.lemma_view_at(j);
                }
            }
            assert(self@ =~= old_self@.insert(kv, v@));
        }
    }

    /// Replaces the value at position `i`, returning the value it had.
    pub fn replace_value_at(&mut self, i: usize, v: V) -> (r: V)
        requires
            old(self).wf(),
            i < old(self).spec_len(),
        ensures
            r == old(self).spec_value_at(i as int),
            final(self).wf(),
            final(self).spec_len() == old(self).spec_len(),
            final(self)@ == old(self)@.insert(old(self).spec_key_at(i as int), v@),
            forall|j: int|
                0 <= j < old(self).spec_len() ==> final(self).spec_key_at(j) == old(
                    self,
                ).spec_key_at(j),
            final(self).spec_value_at(i as int) == v,
            forall|j: int|
                0 <= j < old(self).spec_len() && j != i ==> final(self).spec_value_at(j) == old(
                    self,
                ).spec_value_at(j),
    {
        let ghost old_self = *self;
        let (key, old_v) = self.entries.remove(i);
        self.entries.insert(i, (key, v));
        proof {
            assert forall|j: int| 0 <= j < self.entries@.len() && j != i implies self.entries@[j]
                == old_self.entries@[j] by {}
            let kv = old_self.entries@[i as int].0@;
            assert forall|x: K::V| #![auto] self@.contains_key(x) == old_self@.insert(kv, v@).contains_key(x)
                by {
                if old_self@.contains_key(x) {
                    let j = choose|j: int| 0 <= j < old_self.entries@.len() && old_self.entries@[j].0@ == x;
                    assert(self.entries@[j].0@ == x);
                }
                if self@.contains_key(x) {
                    let j = choose|j: int| 0 <= j < self.entries@.len() && self.entries@[j].0@ == x;
                    assert(old_self.entries@[j].0@ == x);
                }
            }
            assert forall|x: K::V| #![auto] self@.contains_key(x) implies self@[x] == old_self@.insert(kv, v@)[x]
                by {
                let j = choose|j: int| 0 <= j < self.entries@.len() && self.entries@[j].0@ == x;
                self.lemma_view_at(j);
                if j != i {
                    old_self.lemma_view_at(j);
                }
            }
            assert(self@ =~= old_self@.insert(kv, v@));
        }
        old_v
    }

    /// Every value is `v` or a value that was there before.
    pub open spec fn values_from(&self, before: &Self, v: Option<V>) -> bool {
        forall|j: int|
            #![trigger self.spec_value_at(j)]
            0 <= j < self.spec_len() ==> Some(self.spec_value_at(j)) == v || exists|i: int|
                0 <= i < before.spec_len() && self.spec_value_at(j) == before.spec_value_at(i)
    }

    /// Maps key `k` to value `v`, replacing any value it had.
    pub fn insert(&mut self, k: K, v: V)
        requires
            old(self).wf(),
        ensures
            final(self).wf(),
            final(self)@ == old(self)@.insert(k@, v@),
            final(self).values_from(old(self), Some(v)),
    {
        let ghost gv = v;
        match self.index_of(&k) {
            Some(i) => {
                let ghost before = *self;
                self.set_value_at(i, v);
                assert forall|j: int|
                    #![trigger self.spec_value_at(j)]
                    0 <= j < self.spec_len() implies Some(self.spec_value_at(j)) == Some(gv) || exists|i2: int|
                        0 <= i2 < before.spec_len() && self.spec_value_at(j) == before.spec_value_at(i2) by {
                    if j != i {
                        assert(self.spec_value_at(j) == before.spec_value_at(j));
                    }
                }
            },
            None => {
                let ghost old_self = *self;
                let ghost kv = k@;
                self.entries.push((k, v));
                proof {
                    let n = old_self.entries@.len() as int;
                    assert forall|j: int| 0 <= j < n implies self.entries@[j] == old_self.entries@[j] by {}
                    assert forall|j: int| 0 <= j < n implies old_self.entries@[j].0@ != kv by {
                        if old_self.entries@[j].0@ == kv {
                            old_self.lemma_view_at(j);
                        }
                    }
                    assert forall|x: K::V| #![auto] self@.contains_key(x) == old_self@.insert(kv, v@).contains_key(x)
                        by {
                        if old_self@.contains_key(x) {
                            let j = choose|j: int| 0 <= j < old_self.entries@.len() && old_self.entries@[j].0@ == x;
                            assert(self.entries@[j].0@ == x);
                        }
                        if x == kv {
                            assert(self.entries@[n].0@ == x);
                        }
                        if self@.contains_key(x) && x != kv {
                            let j = choose|j: int| 0 <= j < self.entries@.len() && self.entries@[j].0@ == x;
                            assert(old_self.entries@[j].0@ == x);
                        }
                    }
                    assert forall|x: K::V| #![auto] self@.contains_key(x) implies self@[x] == old_self@.insert(kv, v@)[x]
                        by {
                        let j = choose|j: int| 0 <= j < self.entries@.len() && self.entries@[j].0@ == x;
                        self.lemma_view_at(j);
                        if j != n {
                            old_self.lemma_view_at(j);
                        }
                    }
                    assert(self@ =~= old_self@.insert(kv, v@));
                    assert forall|j: int|
                        #![trigger self.spec_value_at(j)]
                        0 <= j < self.spec_len() implies Some(self.spec_value_at(j)) == Some(gv) || exists|i2: int|
                            0 <= i2 < old_self.spec_len() && self.spec_value_at(j) == old_self.spec_value_at(i2) by {
                        if j < n {
                            assert(self.spec_value_at(j) == old_self.spec_value_at(j));
                        }
                    }
                }
            },
        }
    }

    /// Removes key `k`, returning its value if it was present.
    pub fn remove(&mut self, k: &K) -> (r: Option<V>)
        requires
            old(self).wf(),
        ensures
            final(self).wf(),
            final(self)@ == old(self)@.remove(k@),
            final(self).values_from(old(self), None),
            r is Some == old(self)@.contains_key(k@),
            r matches Some(v) ==> v@ == old(self)@[k@],
    {
        match self.index_of(k) {
            Some(i) => {
                let ghost old_self = *self;
                let ghost kv = k@;
                proof {
                    old_self.lemma_view_at(i as int);
                }
                let (_, v) = self.entries.remove(i);
                proof {
                    let n = old_self.entries@.len() as int;
                    assert forall|j: int| 0 <= j < n - 1 implies self.entries@[j] == (if j < i {
                        old_self.entries@[j]
                    } else {
                        old_self.entries@[j + 1]
                    }) by {}
                    assert forall|x: K::V| #![auto] self@.contains_key(x) == old_self@.remove(kv).contains_key(x)
                        by {
                        if old_self@.contains_key(x) && x != kv {
                            let j = choose|j: int| 0 <= j < old_self.entries@.len() && old_self.entries@[j].0@ == x;
                            assert(j != i);
                            if j < i {
                                assert(self.entries@[j].0@ == x);
                            } else {
                                assert(self.entries@[j - 1].0@ == x);
                            }
                        }
                        if self@.contains_key(x) {
                            let j = choose|j: int| 0 <= j < self.entries@.len() && self.entries@[j].0@ == x;
                            if j < i {
                                assert(old_self.entries@[j].0@ == x);
                            } else {
                                assert(old_self.entries@[j + 1].0@ == x);
                            }
                        }
                    }
                    assert forall|x: K::V| #![auto] self@.contains_key(x) implies self@[x] == old_self@.remove(kv)[x]
                        by {
                        let j = choose|j: int| 0 <= j < self.entries@.len() && self.entries@[j].0@ == x;
                        self.lemma_view_at(j);
                        if j < i {
                            old_self.lemma_view_at(j);
                        } else {
                            old_self.lemma_view_at(j + 1);
                        }
                    }
                    assert(self@ =~= old_self@.remove(kv));
                    assert forall|j: int|
                        #![trigger self.spec_value_at(j)]
                        0 <= j < self.spec_len() implies Some(self.spec_value_at(j)) == None::<V> || exists|i2: int|
                            0 <= i2 < old_self.spec_len() && self.spec_value_at(j) == old_self.spec_value_at(i2) by {
                        if j < i {
                            assert(self.spec_value_at(j) == old_self.spec_value_at(j));
                        } else {
                            assert(self.spec_value_at(j) == old_self.spec_value_at(j + 1));
                        }
                    }
                }
                Some(v)
            },
            None => {
                assert(self@ =~= self@.remove(k@));
                assert forall|j: int|
                    #![trigger self.spec_value_at(j)]
                    0 <= j < self.spec_len() implies Some(self.spec_value_at(j)) == None::<V> || exists|i2: int|
                        0 <= i2 < self.spec_len() && self.spec_value_at(j) == self.spec_value_at(i2) by {}
                None
            },
        }
    }
}

/// Adds one to the count of `k`, starting from one when it has none.
pub fn increment<K: TableKey>(t: &mut Table<K, u32>, k: K)
    requires
        old(t).wf(),
        old(t)@.contains_key(k@) ==> old(t)@[k@] < u32::MAX,
    ensures
        final(t).wf(),
        final(t)@ == old(t)@.insert(k@, if old(t)@.contains_key(k@) { (old(t)@[k@] + 1) as u32 } else { 1u32 }),
{
    let n: u32 = match t.get(&k) {
        Some(c) => *c + 1,
        None => 1,
    };
    t.insert(k, n);
}

} // verus!
