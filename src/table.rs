use vstd::prelude::*;

verus! {

/// A small map from text keys to values, kept as a vector of entries whose
/// keys are pairwise distinct.
pub struct KeyedTable<V> {
    items: Vec<(String, V)>,
    contents: Ghost<Map<Seq<char>, V>>,
}

impl<V> View for KeyedTable<V> {
    type V = Map<Seq<char>, V>;

    closed spec fn view(&self) -> Map<Seq<char>, V> {
        self.contents@
    }
}

impl<V> KeyedTable<V> {
    /// The keys in storage order.
    pub closed spec fn keys(self) -> Seq<Seq<char>> {
        self.items@.map_values(|p: (String, V)| p.0@)
    }

    #[verifier::type_invariant]
    closed spec fn inv(self) -> bool {
        &&& self.keys().no_duplicates()
        &&& forall|i: int|
            0 <= i < self.items@.len() ==> {
                &&& #[trigger] self.contents@.contains_key(self.items@[i].0@)
                &&& self.contents@[self.items@[i].0@] == self.items@[i].1
            }
        &&& forall|k: Seq<char>| #[trigger]
            self.contents@.contains_key(k) ==> self.keys().contains(k)
    }

    proof fn lemma_keys(self)
        requires
            self.inv(),
        ensures
            self.keys().no_duplicates(),
            self.keys().to_set() == self@.dom(),
            self.keys().len() == self@.len(),
    {
        let ks = self.keys();
        assert(ks.to_set() =~= self@.dom()) by {
            assert forall|k: Seq<char>| ks.to_set().contains(k) implies self@.dom().contains(k) by {
                let i = choose|i: int| 0 <= i < ks.len() && ks[i] == k;
                assert(self.contents@.contains_key(self.items@[i].0@));
            }
        }
        ks.unique_seq_to_set();
    }

    pub fn new() -> (r: Self)
        ensures
            r@ == Map::<Seq<char>, V>::empty(),
            r.keys() == Seq::<Seq<char>>::empty(),
    {
        let r = KeyedTable { items: Vec::new(), contents: Ghost(Map::empty()) };
        assert(r.keys() =~= Seq::<Seq<char>>::empty());
        r
    }

    /// Number of entries; the keys listed by `keys` are distinct and are
    /// exactly the domain.
    pub fn len(&self) -> (r: usize)
        ensures
            r == self@.len(),
            r == self.keys().len(),
            self.keys().no_duplicates(),
            self.keys().to_set() == self@.dom(),
    {
        proof {
            use_type_invariant(self);
            self.lemma_keys();
        }
        self.items.len()
    }

    /// The entry stored at position `i` of `keys`.
    pub fn entry_at(&self, i: usize) -> (r: (&String, &V))
        requires
            i < self.keys().len(),
        ensures
            r.0@ == self.keys()[i as int],
            self@.contains_key(r.0@),
            self@[r.0@] == *r.1,
    {
        proof {
            use_type_invariant(self);
        }
        let e = &self.items[i];
        (&e.0, &e.1)
    }

    /// Position of `key` among the stored entries.
    fn find(&self, key: &String) -> (r: Option<usize>)
        ensures
            match r {
                Some(i) => i < self.items@.len() && self.items@[i as int].0@ == key@,
                None => !self@.contains_key(key@),
            },
    {
        proof {
            use_type_invariant(self);
        }
        let mut i: usize = 0;
        while i < self.items.len()
            invariant
                i <= self.items@.len(),
                forall|j: int| 0 <= j < i ==> self.items@[j].0@ != key@,
            decreases self.items@.len() - i,
        {
            if self.items[i].0 == *key {
                return Some(i);
            }
            i += 1;
        }
        proof {
            if self@.contains_key(key@) {
                let j = choose|j: int| 0 <= j < self.keys().len() && self.keys()[j] == key@;
                assert(self.items@[j].0@ == key@);
            }
        }
        None
    }

    pub fn get(&self, key: &String) -> (r: Option<&V>)
        ensures
            match r {
                Some(v) => self@.contains_key(key@) && *v == self@[key@],
                None => !self@.contains_key(key@),
            },
    {
        proof {
            use_type_invariant(self);
        }
        match self.find(key) {
            Some(i) => Some(&self.items[i].1),
            None => None,
        }
    }

    pub fn contains_key(&self, key: &String) -> (r: bool)
        ensures
            r == self@.contains_key(key@),
    {
        proof {
            use_type_invariant(self);
        }
        match self.find(key) {
            Some(i) => true,
            None => false,
        }
    }

    /// Sets the value of `key`, replacing any earlier value.
    pub fn insert(&mut self, key: String, value: V)
        ensures
            final(self)@ == old(self)@.insert(key@, value),
    {
        proof {
            use_type_invariant(&*self);
        }
        let pos = self.find(&key);
        let mut t = KeyedTable::new();
        std::mem::swap(self, &mut t);
        let KeyedTable { items, contents } = t;
        let mut items = items;
        let ghost old_items = items@;
        let ghost new_map = contents@.insert(key@, value);
        match pos {
            Some(i) => {
                items.set(i, (key, value));
                proof {
                    let ks = items@.map_values(|p: (String, V)| p.0@);
                    let oks = old_items.map_values(|p: (String, V)| p.0@);
                    assert(ks =~= oks);
                    assert forall|k: Seq<char>| #[trigger] new_map.contains_key(k) implies ks.contains(k) by {
                        if k != key@ {
                            assert(contents@.contains_key(k));
                        } else {
                            assert(ks[i as int] == k);
                        }
                    }
                    assert forall|j: int| 0 <= j < items@.len() implies {
                        &&& #[trigger] new_map.contains_key(items@[j].0@)
                        &&& new_map[items@[j].0@] == items@[j].1
                    } by {
                        if j != i {
                            assert(items@[j] == old_items[j]);
                            assert(oks[j] != oks[i as int]);
                            assert(contents@.contains_key(old_items[j].0@));
                        } else {
                            assert(items@[j] == (key, value));
                        }
                    }
                }
            },
            None => {
                items.push((key, value));
                proof {
                    let ks = items@.map_values(|p: (String, V)| p.0@);
                    let oks = old_items.map_values(|p: (String, V)| p.0@);
                    assert(ks =~= oks.push(key@));
                    assert forall|j: int| 0 <= j < oks.len() implies oks[j] != key@ by {
                        assert(contents@.contains_key(oks[j]));
                    }
                    assert forall|a: int, b: int| 0 <= a < ks.len() && 0 <= b < ks.len() && a != b
                        implies ks[a] != ks[b] by {
                        if a < oks.len() && b < oks.len() {
                            assert(oks[a] != oks[b]);
                        }
                    }
                    assert forall|k: Seq<char>| #[trigger] new_map.contains_key(k) implies ks.contains(k) by {
                        if k != key@ {
                            assert(contents@.contains_key(k));
                            let j = choose|j: int| 0 <= j < oks.len() && oks[j] == k;
                            assert(ks[j] == k);
                        } else {
                            assert(ks[oks.len() as int] == k);
                        }
                    }
                    assert forall|j: int| 0 <= j < items@.len() implies {
                        &&& #[trigger] new_map.contains_key(items@[j].0@)
                        &&& new_map[items@[j].0@] == items@[j].1
                    } by {
                        if j < oks.len() {
                            assert(ks[j] == oks[j]);
                        }
                    }
                }
            },
        }
        *self = KeyedTable { items, contents: Ghost(new_map) };
    }

    /// Removes every entry.
    pub fn clear(&mut self)
        ensures
            final(self)@ == Map::<Seq<char>, V>::empty(),
    {
        *self = KeyedTable::new();
    }

    /// Keeps the entry at position `i` of `keys` exactly when `keep[i]` holds.
    pub fn retain_flags(&mut self, keep: &Vec<bool>)
        requires
            keep@.len() == old(self).keys().len(),
        ensures
            final(self)@ == old(self)@.restrict(flagged_keys(old(self).keys(), keep@)),
    {
        proof {
            use_type_invariant(&*self);
        }
        let ghost old_map = self@;
        let ghost old_keys = self.keys();
        let ghost kept = flagged_keys(old_keys, keep@);
        let mut t = KeyedTable::new();
        std::mem::swap(self, &mut t);
        let KeyedTable { items, contents } = t;
        let mut items = items;
        let ghost orig = items@;
        let mut out: Vec<(String, V)> = Vec::new();
        let ghost mut out_map: Map<Seq<char>, V> = Map::empty();
        let mut n: usize = items.len();
        while n > 0
            invariant
                n <= orig.len(),
                items@ == orig.subrange(0, n as int),
                keep@.len() == orig.len(),
                old_keys == orig.map_values(|p: (String, V)| p.0@),
                old_keys.no_duplicates(),
                forall|i: int|
                    0 <= i < orig.len() ==> {
                        &&& #[trigger] old_map.contains_key(orig[i].0@)
                        &&& old_map[orig[i].0@] == orig[i].1
                    },
                out_map == old_map.restrict(
                    Set::new(|k: Seq<char>| exists|i: int| n <= i < orig.len() && old_keys[i] == k && keep@[i]),
                ),
                out@.map_values(|p: (String, V)| p.0@).no_duplicates(),
                forall|i: int|
                    0 <= i < out@.len() ==> {
                        &&& out_map.contains_key(#[trigger] out@[i].0@)
                        &&& out_map[out@[i].0@] == out@[i].1
                        &&& exists|j: int| n <= j < orig.len() && old_keys[j] == out@[i].0@
                    },
                forall|k: Seq<char>| #[trigger]
                    out_map.contains_key(k) ==> out@.map_values(|p: (String, V)| p.0@).contains(k),
            decreases n,
        {
            let e = items.pop().unwrap();
            n -= 1;
            let ghost k = e.0@;
            assert(orig[n as int] == e);
            assert(old_keys[n as int] == k);
            if keep[n] {
                let ghost prev_out = out@;
                let ghost prev_map = out_map;
                out.push(e);
                proof {
                    out_map = old_map.restrict(
                        Set::new(|kk: Seq<char>| exists|i: int| n <= i < orig.len() && old_keys[i] == kk && keep@[i]),
                    );
                    let pks = prev_out.map_values(|p: (String, V)| p.0@);
                    let ks = out@.map_values(|p: (String, V)| p.0@);
                    assert(ks =~= pks.push(k));
                    assert forall|i: int| 0 <= i < pks.len() implies pks[i] != k by {
                        assert(pks[i] == prev_out[i].0@);
                        let j = choose|j: int| n + 1 <= j < orig.len() && old_keys[j] == prev_out[i].0@;
                        assert(old_keys[j] != old_keys[n as int]);
                    }
                    assert forall|a: int, b: int| 0 <= a < ks.len() && 0 <= b < ks.len() && a != b
                        implies ks[a] != ks[b] by {
                        if a < pks.len() && b < pks.len() {
                            assert(pks[a] != pks[b]);
                        }
                    }
                    assert(out_map =~= prev_map.insert(k, e.1)) by {
                        assert(old_map.contains_key(k));
                        assert forall|kk: Seq<char>| #[trigger] out_map.contains_key(kk) <==> prev_map.insert(k, e.1).contains_key(kk) by {
                            if kk != k && out_map.contains_key(kk) {
                                let j = choose|j: int| n <= j < orig.len() && old_keys[j] == kk && keep@[j];
                                assert(j != n);
                            }
                        }
                    }
                    assert forall|kk: Seq<char>| #[trigger] out_map.contains_key(kk) implies ks.contains(kk) by {
                        if kk != k {
                            assert(prev_map.contains_key(kk));
                            let j = choose|j: int| 0 <= j < pks.len() && pks[j] == kk;
                            assert(ks[j] == kk);
                        } else {
                            assert(ks[pks.len() as int] == kk);
                        }
                    }
                    assert forall|i: int| 0 <= i < out@.len() implies {
                        &&& out_map.contains_key(#[trigger] out@[i].0@)
                        &&& out_map[out@[i].0@] == out@[i].1
                        &&& exists|j: int| n <= j < orig.len() && old_keys[j] == out@[i].0@
                    } by {
                        if i < prev_out.len() {
                            assert(ks[i] == pks[i]);
                            assert(pks[i] != k);
                        } else {
                            assert(old_keys[n as int] == out@[i].0@);
                        }
                    }
                }
            } else {
                proof {
                    let prev_map = out_map;
                    out_map = old_map.restrict(
                        Set::new(|kk: Seq<char>| exists|i: int| n <= i < orig.len() && old_keys[i] == kk && keep@[i]),
                    );
                    assert(out_map =~= prev_map) by {
                        assert forall|kk: Seq<char>| #[trigger] out_map.contains_key(kk) <==> prev_map.contains_key(kk) by {
                            if out_map.contains_key(kk) {
                                let j = choose|j: int| n <= j < orig.len() && old_keys[j] == kk && keep@[j];
                                assert(j != n);
                            }
                        }
                    }
                    assert forall|i: int| 0 <= i < out@.len() implies
                        exists|j: int| n <= j < orig.len() && old_keys[j] == #[trigger] out@[i].0@ by {
                        let j = choose|j: int| n + 1 <= j < orig.len() && old_keys[j] == out@[i].0@;
                        assert(n <= j);
                    }
                }
            }
        }
        proof {
            assert(out_map =~= old_map.restrict(kept)) by {
                assert forall|kk: Seq<char>| #[trigger] kept.contains(kk) <==>
                    (exists|i: int| 0 <= i < orig.len() && old_keys[i] == kk && keep@[i]) by {}
            }
        }
        *self = KeyedTable { items: out, contents: Ghost(out_map) };
    }
}

/// The keys at the positions whose flag is set.
pub open spec fn flagged_keys(keys: Seq<Seq<char>>, keep: Seq<bool>) -> Set<Seq<char>> {
    Set::new(|k: Seq<char>| exists|i: int| 0 <= i < keys.len() && keys[i] == k && keep[i])
}

} // verus!
