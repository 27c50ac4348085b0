//! A small map keyed by actor id that remembers insertion order, so walking
//! over its entries is deterministic.

use vstd::prelude::*;

verus! {

/// Entries keyed by a `u32` id, kept in insertion order.
pub struct IdMap<V> {
    keys: Vec<u32>,
    vals: Vec<V>,
}

impl<V> View for IdMap<V> {
    type V = Map<u32, V>;

    closed spec fn view(&self) -> Map<u32, V> {
        Map::new(|k: u32| self.keys@.contains(k), |k: u32| self.vals@[self.keys@.index_of(k)])
    }
}

impl<V> IdMap<V> {
    /// The ids, in insertion order.
    pub closed spec fn order(self) -> Seq<u32> {
        self.keys@
    }

    /// Each id appears once and has a value.
    pub closed spec fn wf(self) -> bool {
        &&& self.keys@.len() == self.vals@.len()
        &&& self.keys@.no_duplicates()
    }

    proof fn lemma_slot(self, i: int)
        requires
            self.wf(),
            0 <= i < self.keys@.len(),
        ensures
            self.keys@.index_of(self.keys@[i]) == i,
            self@.contains_key(self.keys@[i]),
            self@[self.keys@[i]] == self.vals@[i],
    {
        let k = self.keys@[i];
        assert(self.keys@.contains(k));
        let j = self.keys@.index_of(k);
        assert(0 <= j < self.keys@.len() && self.keys@[j] == k);
    }

    /// The ids in the order, and the map's domain, are the same ids.
    pub proof fn lemma_order_is_domain(self)
        requires
            self.wf(),
        ensures
            forall|k: u32| #[trigger] self@.contains_key(k) <==> self.order().contains(k),
            self.order().no_duplicates(),
    {
    }

    pub fn new() -> (m: IdMap<V>)
        ensures
            m.wf(),
            m@ == Map::<u32, V>::empty(),
            m.order() == Seq::<u32>::empty(),
    {
        let m = IdMap { keys: Vec::new(), vals: Vec::new() };
        assert(m@ =~= Map::<u32, V>::empty());
        m
    }

    pub fn len(&self) -> (n: usize)
        requires
            self.wf(),
        ensures
            n == self.order().len(),
    {
        self.keys.len()
    }

    /// The id at position `i` of the order.
    pub fn key_at(&self, i: usize) -> (k: u32)
        requires
            self.wf(),
            i < self.order().len(),
        ensures
            k == self.order()[i as int],
            self@.contains_key(k),
    {
        proof { self.lemma_slot(i as int); }
        self.keys[i]
    }

    /// The value stored for the id at position `i` of the order.
    pub fn value_at(&self, i: usize) -> (v: &V)
        requires
            self.wf(),
            i < self.order().len(),
        ensures
            v == self@[self.order()[i as int]],
    {
        proof { self.lemma_slot(i as int); }
        &self.vals[i]
    }

    /// Replaces the value of the id at position `i` of the order.
    pub fn update_at(&mut self, i: usize, v: V)
        requires
            old(self).wf(),
            i < old(self).order().len(),
        ensures
            final(self).wf(),
            final(self)@ == old(self)@.insert(old(self).order()[i as int], v),
            final(self).order() == old(self).order(),
    {
        let ghost k = self.keys@[i as int];
        let ghost old_map = self@;
        proof { self.lemma_slot(i as int); }
        self.vals.set(i, v);
        proof {
            assert forall|x: u32| #[trigger] self@.contains_key(x) implies self@[x] == old_map.insert(k, v)[x] by {
                let j = self.keys@.index_of(x);
                self.lemma_slot(j);
                old(self).lemma_slot(j);
                if x == k {
                    assert(j == i);
                }
            }
            assert(self@ =~= old_map.insert(k, v));
        }
    }

    fn position(&self, k: u32) -> (r: Option<usize>)
        requires
            self.wf(),
        ensures
            match r {
                Some(i) => i < self.keys@.len() && self.keys@[i as int] == k,
                None => !self.keys@.contains(k),
            },
    {
        let mut i: usize = 0;
        while i < self.keys.len()
            invariant
                i <= self.keys@.len(),
                forall|j: int| 0 <= j < i ==> self.keys@[j] != k,
            decreases self.keys@.len() - i,
        {
            if self.keys[i] == k {
                return Some(i);
            }
            i = i + 1;
        }
        None
    }

    /// The value of the id at position `i` of the order, to change in place.
    pub fn value_mut_at(&mut self, i: usize) -> (v: &mut V)
        requires
            old(self).wf(),
            i < old(self).order().len(),
        ensures
            *v == old(self)@[old(self).order()[i as int]],
            final(self).wf(),
            final(self)@ == old(self)@.insert(old(self).order()[i as int], *final(v)),
            final(self).order() == old(self).order(),
    {
        proof { self.lemma_slot(i as int); }
        let ghost k = self.keys@[i as int];
        let ghost old_map = self@;
        let ghost old_keys = self.keys@;
        let ghost old_vals = self.vals@;
        let v = &mut self.vals[i];
        v
    }

    /// The position of `k` in the order.
    pub fn position_of(&self, k: u32) -> (i: usize)
        requires
            self.wf(),
            self@.contains_key(k),
        ensures
            i < self.order().len(),
            self.order()[i as int] == k,
    {
        match self.position(k) {
            Some(i) => i,
            None => 0,
        }
    }

    /// The value stored for `k`, if any.
    pub fn get(&self, k: u32) -> (r: Option<&V>)
        requires
            self.wf(),
        ensures
            self@.contains_key(k) ==> r == Some(&self@[k]),
            !self@.contains_key(k) ==> r is None,
    {
        match self.position(k) {
            Some(i) => {
                proof { self.lemma_slot(i as int); }
                Some(&self.vals[i])
            },
            None => None,
        }
    }

    pub fn contains_key(&self, k: u32) -> (b: bool)
        requires
            self.wf(),
        ensures
            b == self@.contains_key(k),
    {
        self.position(k).is_some()
    }

    /// Stores `v` for `k`: in place when `k` is present, at the end otherwise.
    pub fn insert(&mut self, k: u32, v: V)
        requires
            old(self).wf(),
        ensures
            final(self).wf(),
            final(self)@ == old(self)@.insert(k, v),
            final(self).order() == if old(self)@.contains_key(k) { old(self).order() } else { old(self).order().push(k) },
    {
        let ghost old_map = self@;
        match self.position(k) {
            Some(i) => {
                self.vals.set(i, v);
                proof {
                    assert forall|x: u32| #[trigger] self@.contains_key(x) == old_map.insert(k, v).contains_key(x) by {}
                    assert forall|x: u32| #[trigger] self@.contains_key(x) implies self@[x] == old_map.insert(k, v)[x] by {
                        let j = self.keys@.index_of(x);
                        self.lemma_slot(j);
                        old(self).lemma_slot(j);
                        if x == k {
                            assert(j == i);
                        }
                    }
                    assert(self@ =~= old_map.insert(k, v));
                }
            },
            None => {
                self.keys.push(k);
                self.vals.push(v);
                proof {
                    let n = old(self).keys@.len();
                    assert forall|a: int, b: int| 0 <= a < self.keys@.len() && 0 <= b < self.keys@.len() && a != b
                        implies self.keys@[a] != self.keys@[b] by {
                        if a == n {
                            assert(old(self).keys@.contains(self.keys@[b]));
                        } else if b == n {
                            assert(old(self).keys@.contains(self.keys@[a]));
                        }
                    }
                    assert(self.keys@[n as int] == k);
                    assert forall|x: u32| #[trigger] self@.contains_key(x) == old_map.insert(k, v).contains_key(x) by {
                        if self.keys@.contains(x) && x != k {
                            let j = self.keys@.index_of(x);
                            assert(old(self).keys@[j] == x);
                        }
                        if old(self).keys@.contains(x) {
                            let j = old(self).keys@.index_of(x);
                            assert(self.keys@[j] == x);
                        }
                    }
                    assert forall|x: u32| #[trigger] self@.contains_key(x) implies self@[x] == old_map.insert(k, v)[x] by {
                        let j = self.keys@.index_of(x);
                        self.lemma_slot(j);
                        if x != k {
                            assert(j < n);
                            old(self).lemma_slot(j);
                        }
                    }
                    assert(self@ =~= old_map.insert(k, v));
                }
            },
        }
    }

    /// Removes `k` and its value, keeping the order of the other ids.
    pub fn remove(&mut self, k: u32) -> (r: Option<V>)
        requires
            old(self).wf(),
        ensures
            final(self).wf(),
            final(self)@ == old(self)@.remove(k),
            r == if old(self)@.contains_key(k) { Some(old(self)@[k]) } else { None::<V> },
            old(self)@.contains_key(k) ==> exists|i: int| 0 <= i < old(self).order().len()
                && old(self).order()[i] == k && final(self).order() == old(self).order().remove(i),
            !old(self)@.contains_key(k) ==> final(self).order() == old(self).order(),
    {
        let ghost old_map = self@;
        match self.position(k) {
            Some(i) => {
                proof { self.lemma_slot(i as int); }
                self.keys.remove(i);
                let v = self.vals.remove(i);
                proof {
                    let ok = old(self).keys@;
                    assert forall|a: int, b: int| 0 <= a < self.keys@.len() && 0 <= b < self.keys@.len() && a != b
                        implies self.keys@[a] != self.keys@[b] by {
                        let a2 = if a < i { a } else { a + 1 };
                        let b2 = if b < i { b } else { b + 1 };
                        assert(self.keys@[a] == ok[a2] && self.keys@[b] == ok[b2]);
                    }
                    assert forall|x: u32| #[trigger] self@.contains_key(x) == old_map.remove(k).contains_key(x) by {
                        if self.keys@.contains(x) {
                            let j = self.keys@.index_of(x);
                            let j2 = if j < i { j } else { j + 1 };
                            assert(ok[j2] == x);
                            assert(j2 != i);
                        }
                        if old(self).keys@.contains(x) && x != k {
                            let j = ok.index_of(x);
                            old(self).lemma_slot(j);
                            assert(j != i);
                            let j1 = if j < i { j } else { j - 1 };
                            assert(self.keys@[j1] == x);
                        }
                    }
                    assert forall|x: u32| #[trigger] self@.contains_key(x) implies self@[x] == old_map.remove(k)[x] by {
                        let j = self.keys@.index_of(x);
                        self.lemma_slot(j);
                        let j2 = if j < i { j } else { j + 1 };
                        assert(ok[j2] == x);
                        old(self).lemma_slot(j2);
                    }
                    assert(self@ =~= old_map.remove(k));
                    assert(old(self).order()[i as int] == k && self.order() == old(self).order().remove(i as int));
                }
                Some(v)
            },
            None => {
                proof {
                    assert(self@ =~= old_map.remove(k));
                }
                None
            },
        }
    }

    /// Stores `v` for `k`; a new id goes in front of the first larger id, so
    /// an order sorted by id stays sorted.
    pub fn insert_sorted(&mut self, k: u32, v: V)
        requires
            old(self).wf(),
        ensures
            final(self).wf(),
            final(self)@ == old(self)@.insert(k, v),
            increasing(old(self).order()) ==> increasing(final(self).order()),
    {
        let ghost old_map = self@;
        match self.position(k) {
            Some(i) => {
                self.vals.set(i, v);
                proof {
                    assert forall|x: u32| #[trigger] self@.contains_key(x) implies self@[x] == old_map.insert(k, v)[x] by {
                        let j = self.keys@.index_of(x);
                        self.lemma_slot(j);
                        old(self).lemma_slot(j);
                        if x == k {
                            assert(j == i);
                        }
                    }
                    assert(self@ =~= old_map.insert(k, v));
                }
            },
            None => {
                let mut p: usize = 0;
                while p < self.keys.len() && self.keys[p] < k
                    invariant
                        p <= self.keys@.len(),
                        self.keys@ == old(self).keys@,
                        self.vals@ == old(self).vals@,
                        increasing(self.keys@) ==> forall|j: int| 0 <= j < p ==> #[trigger] self.keys@[j] < k,
                    decreases self.keys@.len() - p,
                {
                    p = p + 1;
                }
                let ghost ok = self.keys@;
                let ghost ov = self.vals@;
                self.keys.insert(p, k);
                self.vals.insert(p, v);
                proof {
                    let n = ok.len();
                    assert(!ok.contains(k));
                    assert forall|a: int| 0 <= a < self.keys@.len() implies
                        #[trigger] self.keys@[a] == (if a < p { ok[a] } else if a == p { k } else { ok[a - 1] }) by {}
                    assert forall|a: int, b: int| 0 <= a < self.keys@.len() && 0 <= b < self.keys@.len() && a != b
                        implies self.keys@[a] != self.keys@[b] by {
                        if a == p {
                            let b2 = if b < p { b } else { b - 1 };
                            assert(ok[b2] == self.keys@[b]);
                        } else if b == p {
                            let a2 = if a < p { a } else { a - 1 };
                            assert(ok[a2] == self.keys@[a]);
                        } else {
                            let a2 = if a < p { a } else { a - 1 };
                            let b2 = if b < p { b } else { b - 1 };
                            assert(ok[a2] == self.keys@[a] && ok[b2] == self.keys@[b]);
                        }
                    }
                    assert(self.keys@[p as int] == k);
                    assert forall|x: u32| #[trigger] self@.contains_key(x) == old_map.insert(k, v).contains_key(x) by {
                        if self.keys@.contains(x) && x != k {
                            let j = self.keys@.index_of(x);
                            let j2 = if j < p { j } else { j - 1 };
                            assert(ok[j2] == x);
                        }
                        if ok.contains(x) {
                            let j = ok.index_of(x);
                            let j1 = if j < p { j } else { j + 1 };
                            assert(self.keys@[j1] == x);
                        }
                    }
                    assert forall|x: u32| #[trigger] self@.contains_key(x) implies self@[x] == old_map.insert(k, v)[x] by {
                        let j = self.keys@.index_of(x);
                        self.lemma_slot(j);
                        if x != k {
                            assert(j != p);
                            let j2 = if j < p { j } else { j - 1 };
                            assert(ok[j2] == x);
                            old(self).lemma_slot(j2);
                        }
                    }
                    assert(self@ =~= old_map.insert(k, v));
                    if increasing(ok) {
                        assert forall|a: int, b: int| 0 <= a < b < self.keys@.len() implies
                            #[trigger] self.keys@[a] < #[trigger] self.keys@[b] by {
                            if b == p {
                                assert(self.keys@[a] == ok[a]);
                            } else if a == p {
                                assert(self.keys@[b] == ok[b - 1]);
                                if (p as int) < n {
                                    assert(!(ok[p as int] < k));
                                    assert(ok[p as int] != k);
                                    if b - 1 > p {
                                        assert(ok[p as int] < ok[b - 1]);
                                    }
                                }
                            } else {
                                let a2 = if a < p { a } else { a - 1 };
                                let b2 = if b < p { b } else { b - 1 };
                                assert(ok[a2] == self.keys@[a] && ok[b2] == self.keys@[b]);
                            }
                        }
                    }
                }
            },
        }
    }
}

/// The ids are strictly increasing.
pub open spec fn increasing(s: Seq<u32>) -> bool {
    forall|a: int, b: int| 0 <= a < b < s.len() ==> #[trigger] s[a] < #[trigger] s[b]
}

} // verus!
