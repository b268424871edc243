//! A table from names to values that keeps its entries in insertion order.
//! It stands wherever the framework keys objects by their name.
use vstd::prelude::*;

verus! {

/// Entries keyed by name; no name occurs twice.
pub struct NameMap<V> {
    entries: Vec<(String, V)>,
}

impl<V> NameMap<V> {
    /// The names, in the order in which they were first inserted.
    pub closed spec fn keys_seq(&self) -> Seq<Seq<char>> {
        self.entries@.map_values(|e: (String, V)| e.0@)
    }

    /// The values, in the order of `keys_seq`.
    pub closed spec fn vals_seq(&self) -> Seq<V> {
        self.entries@.map_values(|e: (String, V)| e.1)
    }

    #[verifier::type_invariant]
    closed spec fn distinct_keys(&self) -> bool {
        self.keys_distinct()
    }

    /// No name occurs twice.
    pub closed spec fn keys_distinct(&self) -> bool {
        forall|i: int, j: int|
            0 <= i < self.entries@.len() && 0 <= j < self.entries@.len() && i != j
                ==> self.entries@[i].0@ != self.entries@[j].0@
    }

    /// Position of a name among the entries.
    pub open spec fn index_of(&self, k: Seq<char>) -> int {
        choose|i: int| 0 <= i < self.keys_seq().len() && self.keys_seq()[i] == k
    }

    /// Whether the table holds `k`.
    pub open spec fn has(&self, k: Seq<char>) -> bool {
        self.keys_seq().contains(k)
    }

    /// The value that the table holds for `k`.
    pub open spec fn lookup(&self, k: Seq<char>) -> V {
        self.vals_seq()[self.index_of(k)]
    }

    /// Number of entries.
    pub open spec fn size(&self) -> nat {
        self.keys_seq().len()
    }

    /// The table as a map from names to values.
    pub open spec fn as_map(&self) -> Map<Seq<char>, V> {
        Map::new(|k: Seq<char>| self.has(k), |k: Seq<char>| self.lookup(k))
    }

    /// There are as many values as names.
    pub proof fn lemma_lengths(&self)
        ensures
            self.keys_seq().len() == self.vals_seq().len(),
    {
    }

    /// The position of a held name is the one entry that carries it.
    pub proof fn lemma_index_of(&self, i: int)
        requires
            self.keys_distinct(),
            0 <= i < self.keys_seq().len(),
        ensures
            self.has(self.keys_seq()[i]),
            self.index_of(self.keys_seq()[i]) == i,
            self.lookup(self.keys_seq()[i]) == self.vals_seq()[i],
    {
        let k = self.keys_seq()[i];
        assert(self.keys_seq().contains(k));
        let j = self.index_of(k);
        assert(0 <= j < self.keys_seq().len() && self.keys_seq()[j] == k);
        assert(j == i);
    }

    /// An empty table.
    pub fn new() -> (r: Self)
        ensures
            r.keys_seq() == Seq::<Seq<char>>::empty(),
            r.vals_seq() == Seq::<V>::empty(),
            r.as_map() == Map::<Seq<char>, V>::empty(),
    {
        let r = NameMap { entries: Vec::new() };
        assert(r.keys_seq() =~= Seq::<Seq<char>>::empty());
        assert(r.vals_seq() =~= Seq::<V>::empty());
        assert(r.as_map() =~= Map::<Seq<char>, V>::empty());
        r
    }

    /// Number of entries.
    pub fn len(&self) -> (r: usize)
        ensures
            r == self.size(),
            r == self.vals_seq().len(),
    {
        self.entries.len()
    }

    /// Position of `k`, or `None`.
    pub fn find(&self, k: &str) -> (r: Option<usize>)
        ensures
            match r {
                Some(i) => i < self.size() && self.keys_seq()[i as int] == k@ && self.index_of(k@)
                    == i,
                None => !self.has(k@),
            },
    {
        proof {
            use_type_invariant(self);
        }
        let mut i: usize = 0;
        while i < self.entries.len()
            invariant
                i <= self.entries@.len(),
                self.keys_distinct(),
                forall|j: int| 0 <= j < i ==> self.keys_seq()[j] != k@,
            decreases self.entries@.len() - i,
        {
            if crate::text::str_eq(self.entries[i].0.as_str(), k) {
                proof {
                    self.lemma_index_of(i as int);
                }
                return Some(i);
            }
            i = i + 1;
        }
        proof {
            if self.keys_seq().contains(k@) {
                let j = choose|j: int| 0 <= j < self.keys_seq().len() && self.keys_seq()[j] == k@;
                assert(self.keys_seq()[j] != k@);
            }
        }
        None
    }

    /// Whether the table holds `k`.
    pub fn contains_key(&self, k: &str) -> (r: bool)
        ensures
            r == self.has(k@),
    {
        self.find(k).is_some()
    }

    /// The value held for `k`, or `None`.
    pub fn get(&self, k: &str) -> (r: Option<&V>)
        ensures
            r == (if self.has(k@) {
                Some(&self.lookup(k@))
            } else {
                None
            }),
    {
        match self.find(k) {
            Some(i) => Some(&self.entries[i].1),
            None => None,
        }
    }

    /// The name at position `i`.
    pub fn key_at(&self, i: usize) -> (r: &String)
        requires
            i < self.size(),
        ensures
            r@ == self.keys_seq()[i as int],
    {
        &self.entries[i].0
    }

    /// The value at position `i`.
    pub fn value_at(&self, i: usize) -> (r: &V)
        requires
            i < self.size(),
        ensures
            *r == self.vals_seq()[i as int],
            self.has(self.keys_seq()[i as int]),
            *r == self.lookup(self.keys_seq()[i as int]),
    {
        proof {
            use_type_invariant(self);
            self.lemma_index_of(i as int);
        }
        &self.entries[i].1
    }

    /// Sets the value of `k`: an entry already there keeps its position, a new
    /// one comes last.
    pub fn insert(&mut self, k: String, v: V)
        ensures
            old(self).has(k@) ==> final(self).keys_seq() == old(self).keys_seq(),
            old(self).has(k@) ==> final(self).vals_seq() == old(self).vals_seq().update(
                old(self).index_of(k@),
                v,
            ),
            !old(self).has(k@) ==> final(self).keys_seq() == old(self).keys_seq().push(k@),
            !old(self).has(k@) ==> final(self).vals_seq() == old(self).vals_seq().push(v),
            final(self).has(k@),
            final(self).lookup(k@) == v,
            forall|q: Seq<char>| q != k@ ==> (#[trigger] final(self).has(q)) == old(self).has(q),
            forall|q: Seq<char>|
                q != k@ && old(self).has(q) ==> #[trigger] final(self).lookup(q) == old(self).lookup(
                    q,
                ),
    {
        proof {
            use_type_invariant(&*self);
        }
        let ghost old_keys = self.keys_seq();
        let ghost old_vals = self.vals_seq();
        match self.find(k.as_str()) {
            Some(i) => {
                let ghost key = self.entries@[i as int].0;
                let mut entries = Vec::new();
                std::mem::swap(&mut entries, &mut self.entries);
                entries.set(i, (k, v));
                self.entries = entries;
                assert(self.keys_seq() =~= old_keys);
                assert(self.vals_seq() =~= old_vals.update(i as int, v));
                proof {
                    self.lemma_index_of(i as int);
                    assert forall|q: Seq<char>|
                        q != self.keys_seq()[i as int] && old_keys.contains(q) implies #[trigger] self.lookup(q)
                        == old_vals[choose|j: int| 0 <= j < old_keys.len() && old_keys[j] == q] by {
                        let j = choose|j: int| 0 <= j < old_keys.len() && old_keys[j] == q;
                        self.lemma_index_of(j);
                    }
                }
            },
            None => {
                let mut entries = Vec::new();
                std::mem::swap(&mut entries, &mut self.entries);
                let ghost kv = k@;
                entries.push((k, v));
                assert forall|a: int, b: int|
                    0 <= a < entries@.len() && 0 <= b < entries@.len() && a != b
                        implies entries@[a].0@ != entries@[b].0@ by {
                    if a == old_keys.len() {
                        assert(old_keys[b] == entries@[b].0@);
                    } else if b == old_keys.len() {
                        assert(old_keys[a] == entries@[a].0@);
                    } else {
                        assert(old_keys[a] == entries@[a].0@);
                        assert(old_keys[b] == entries@[b].0@);
                    }
                }
                self.entries = entries;
                assert(self.keys_seq() =~= old_keys.push(k@));
                assert(self.vals_seq() =~= old_vals.push(v));
                proof {
                    self.lemma_index_of(old_keys.len() as int);
                    assert forall|q: Seq<char>|
                        q != k@ && old_keys.contains(q) implies #[trigger] self.lookup(q)
                        == old_vals[choose|j: int| 0 <= j < old_keys.len() && old_keys[j] == q] by {
                        let j = choose|j: int| 0 <= j < old_keys.len() && old_keys[j] == q;
                        assert(self.keys_seq()[j] == q);
                        self.lemma_index_of(j);
                    }
                    assert forall|q: Seq<char>| q != k@ implies (#[trigger] self.has(q)) == old_keys.contains(q) by {
                        if self.has(q) {
                            let j = choose|j: int| 0 <= j < self.keys_seq().len() && self.keys_seq()[j] == q;
                            assert(j < old_keys.len());
                            assert(old_keys[j] == q);
                        }
                        if old_keys.contains(q) {
                            let j = choose|j: int| 0 <= j < old_keys.len() && old_keys[j] == q;
                            assert(self.keys_seq()[j] == q);
                        }
                    }
                }
            },
        }
    }

    /// Takes `k` out of the table and gives back its value; the other entries
    /// keep their order.
    pub fn remove(&mut self, k: &str) -> (r: Option<V>)
        ensures
            r == (if old(self).has(k@) {
                Some(old(self).lookup(k@))
            } else {
                None
            }),
            old(self).has(k@) ==> final(self).keys_seq() == old(self).keys_seq().remove(
                old(self).index_of(k@),
            ),
            old(self).has(k@) ==> final(self).vals_seq() == old(self).vals_seq().remove(
                old(self).index_of(k@),
            ),
            !old(self).has(k@) ==> final(self).keys_seq() == old(self).keys_seq(),
            !old(self).has(k@) ==> final(self).vals_seq() == old(self).vals_seq(),
            !final(self).has(k@),
            forall|q: Seq<char>| q != k@ ==> (#[trigger] final(self).has(q)) == old(self).has(q),
            forall|q: Seq<char>|
                q != k@ && old(self).has(q) ==> #[trigger] final(self).lookup(q) == old(self).lookup(
                    q,
                ),
    {
        proof {
            use_type_invariant(&*self);
        }
        let ghost old_keys = self.keys_seq();
        let ghost old_vals = self.vals_seq();
        match self.find(k) {
            Some(i) => {
                proof {
                    self.lemma_index_of(i as int);
                }
                let mut entries = Vec::new();
                std::mem::swap(&mut entries, &mut self.entries);
                let e = entries.remove(i);
                assert forall|a: int, b: int|
                    0 <= a < entries@.len() && 0 <= b < entries@.len() && a != b
                        implies entries@[a].0@ != entries@[b].0@ by {
                    let a0 = if a < i { a } else { a + 1 };
                    let b0 = if b < i { b } else { b + 1 };
                    assert(old_keys[a0] == entries@[a].0@);
                    assert(old_keys[b0] == entries@[b].0@);
                }
                self.entries = entries;
                assert(self.keys_seq() =~= old_keys.remove(i as int));
                assert(self.vals_seq() =~= old_vals.remove(i as int));
                proof {
                    assert forall|q: Seq<char>| q != k@ implies (#[trigger] self.has(q)) == old_keys.contains(q) by {
                        if self.has(q) {
                            let j = choose|j: int| 0 <= j < self.keys_seq().len() && self.keys_seq()[j] == q;
                            let j0 = if j < i { j } else { j + 1 };
                            assert(old_keys[j0] == q);
                        }
                        if old_keys.contains(q) {
                            let j = choose|j: int| 0 <= j < old_keys.len() && old_keys[j] == q;
                            assert(j != i);
                            let j1 = if j < i { j } else { j - 1 };
                            assert(self.keys_seq()[j1] == q);
                        }
                    }
                    assert forall|q: Seq<char>|
                        q != k@ && old_keys.contains(q) implies #[trigger] self.lookup(q)
                        == old_vals[choose|j: int| 0 <= j < old_keys.len() && old_keys[j] == q] by {
                        let j = choose|j: int| 0 <= j < old_keys.len() && old_keys[j] == q;
                        assert(j != i);
                        let j1 = if j < i { j } else { j - 1 };
                        assert(self.keys_seq()[j1] == q);
                        self.lemma_index_of(j1);
                    }
                    if self.has(k@) {
                        let j = choose|j: int| 0 <= j < self.keys_seq().len() && self.keys_seq()[j] == k@;
                        let j0 = if j < i { j } else { j + 1 };
                        assert(old_keys[j0] == k@);
                    }
                }
                Some(e.1)
            },
            None => None,
        }
    }

    /// Puts `v` at position `i` and gives back the value that was there; the
    /// names stay as they are.
    pub fn swap_value(&mut self, i: usize, v: V) -> (r: V)
        requires
            i < old(self).size(),
        ensures
            r == old(self).vals_seq()[i as int],
            final(self).keys_seq() == old(self).keys_seq(),
            final(self).vals_seq() == old(self).vals_seq().update(i as int, v),
            old(self).index_of(old(self).keys_seq()[i as int]) == i,
            forall|j: int| 0 <= j < old(self).size() && j != i ==> old(self).keys_seq()[j] != old(self).keys_seq()[i as int],
            r == old(self).lookup(old(self).keys_seq()[i as int]),
            final(self).as_map() == old(self).as_map().insert(old(self).keys_seq()[i as int], v),
    {
        proof {
            use_type_invariant(&*self);
            self.lemma_index_of(i as int);
        }
        let ghost old_keys = self.keys_seq();
        let ghost old_vals = self.vals_seq();
        let mut entries = Vec::new();
        std::mem::swap(&mut entries, &mut self.entries);
        let (k, old_v) = entries.remove(i);
        entries.insert(i, (k, v));
        assert forall|a: int, b: int|
            0 <= a < entries@.len() && 0 <= b < entries@.len() && a != b
                implies entries@[a].0@ != entries@[b].0@ by {
            assert(old_keys[a] == entries@[a].0@);
            assert(old_keys[b] == entries@[b].0@);
        }
        self.entries = entries;
        assert(self.keys_seq() =~= old_keys);
        assert(self.vals_seq() =~= old_vals.update(i as int, v));
        proof {
            let k = old_keys[i as int];
            self.lemma_index_of(i as int);
            assert forall|q: Seq<char>| #[trigger] self.has(q) && q != k implies self.lookup(q)
                == old(self).lookup(q) by {
                let j = choose|j: int| 0 <= j < old_keys.len() && old_keys[j] == q;
                self.lemma_index_of(j);
                old(self).lemma_index_of(j);
            }
            assert(self.as_map() =~= old(self).as_map().insert(k, v));
        }
        old_v
    }

    /// The names, in order.
    pub fn keys(&self) -> (r: Vec<String>)
        ensures
            r.deep_view() == self.keys_seq(),
            self.keys_seq().no_duplicates(),
    {
        proof {
            use_type_invariant(self);
        }
        let mut r: Vec<String> = Vec::new();
        let mut i: usize = 0;
        while i < self.entries.len()
            invariant
                i <= self.entries@.len(),
                r.deep_view() == self.keys_seq().take(i as int),
            decreases self.entries@.len() - i,
        {
            let key = self.entries[i].0.clone();
            let ghost prev = r.deep_view();
            r.push(key);
            assert(r.deep_view() =~= prev.push(self.keys_seq()[i as int]));
            assert(self.keys_seq().take(i + 1) =~= self.keys_seq().take(i as int).push(
                self.keys_seq()[i as int],
            ));
            i = i + 1;
        }
        assert(self.keys_seq().take(i as int) =~= self.keys_seq());
        r
    }
}

impl NameMap<String> {
    /// A copy of the table.
    pub fn duplicate(&self) -> (r: Self)
        ensures
            r.keys_seq() == self.keys_seq(),
            r.vals_seq() == self.vals_seq(),
    {
        proof {
            use_type_invariant(self);
        }
        let mut entries: Vec<(String, String)> = Vec::new();
        let mut i: usize = 0;
        while i < self.entries.len()
            invariant
                i <= self.entries@.len(),
                self.keys_distinct(),
                entries@.len() == i,
                forall|j: int| 0 <= j < i ==> #[trigger] entries@[j] == self.entries@[j],
            decreases self.entries@.len() - i,
        {
            let k = self.entries[i].0.clone();
            let v = self.entries[i].1.clone();
            entries.push((k, v));
            i = i + 1;
        }
        assert(entries@ =~= self.entries@);
        let r = NameMap { entries };
        assert(r.keys_seq() =~= self.keys_seq());
        assert(r.vals_seq() =~= self.vals_seq());
        r
    }
    /// The first name, in table order, whose value is `v`; `None` when no
    /// value is `v`.
    pub fn key_of_value(&self, v: &str) -> (r: Option<String>)
        ensures
            match r {
                Some(k) => self.has(k@) && self.lookup(k@)@ == v@,
                None => forall|k: Seq<char>| self.has(k) ==> self.lookup(k)@ != v@,
            },
    {
        proof {
            use_type_invariant(self);
        }
        let mut i: usize = 0;
        while i < self.entries.len()
            invariant
                i <= self.entries@.len(),
                self.keys_distinct(),
                forall|j: int| 0 <= j < i ==> (#[trigger] self.vals_seq()[j])@ != v@,
            decreases self.entries@.len() - i,
        {
            if crate::text::str_eq(self.entries[i].1.as_str(), v) {
                proof {
                    self.lemma_index_of(i as int);
                }
                return Some(self.entries[i].0.clone());
            }
            i = i + 1;
        }
        proof {
            assert forall|k: Seq<char>| self.has(k) implies self.lookup(k)@ != v@ by {
                let j = choose|j: int| 0 <= j < self.keys_seq().len() && self.keys_seq()[j] == k;
                self.lemma_index_of(j);
            }
        }
        None
    }
}

} // verus!