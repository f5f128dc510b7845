//! A small map from names to values, kept as a list of entries with distinct names.
use vstd::prelude::*;
use crate::text::same_text;

verus! {

/// A table from names to values; it behaves as a map (`@`) from the names' characters
/// to the values' deep views, and a later insert under a name replaces the earlier one.
pub struct Table<V> {
    entries: Vec<(String, V)>,
}

impl<V: DeepView> Table<V> {
    /// The names of the entries are distinct.
    pub closed spec fn wf(&self) -> bool {
        forall|i: int, j: int|
            0 <= i < self.entries@.len() && 0 <= j < self.entries@.len() && i != j
                ==> #[trigger] self.entries@[i].0@ != #[trigger] self.entries@[j].0@
    }

    /// The number of entries.
    pub closed spec fn size(&self) -> nat {
        self.entries@.len()
    }

    /// The name of entry `i`.
    pub closed spec fn key_at(&self, i: int) -> Seq<char> {
        self.entries@[i].0@
    }

    /// The value of entry `i`.
    pub closed spec fn value_at(&self, i: int) -> V::V {
        self.entries@[i].1.deep_view()
    }

    /// The value of entry `i` itself.
    pub closed spec fn item_at(&self, i: int) -> V {
        self.entries@[i].1
    }

    /// The table as a map.
    pub closed spec fn view(&self) -> Map<Seq<char>, V::V> {
        Map::new(
            |k: Seq<char>| exists|i: int| 0 <= i < self.entries@.len() && self.entries@[i].0@ == k,
            |k: Seq<char>|
                {
                    let i = choose|i: int| 0 <= i < self.entries@.len() && self.entries@[i].0@ == k;
                    self.entries@[i].1.deep_view()
                },
        )
    }

    /// Entry `i` is what the map holds under its name.
    pub proof fn lemma_entry(&self, i: int)
        requires
            self.wf(),
            0 <= i < self.size(),
        ensures
            self.view().dom().contains(self.key_at(i)),
            self.view()[self.key_at(i)] == self.value_at(i),
    {
        let k = self.key_at(i);
        assert(self.entries@[i].0@ == k);
        let j = choose|j: int| 0 <= j < self.entries@.len() && self.entries@[j].0@ == k;
        assert(j == i);
    }

    /// Two entries have different names.
    pub proof fn lemma_distinct(&self, a: int, b: int)
        requires
            self.wf(),
            0 <= a < self.size(),
            0 <= b < self.size(),
            a != b,
        ensures
            self.key_at(a) != self.key_at(b),
    {
    }

    /// Every name in the map is the name of some entry.
    pub proof fn lemma_key(&self, k: Seq<char>) -> (i: int)
        requires
            self.wf(),
            self.view().dom().contains(k),
        ensures
            0 <= i < self.size(),
            self.key_at(i) == k,
    {
        let i = choose|i: int| 0 <= i < self.entries@.len() && self.entries@[i].0@ == k;
        i
    }

    /// An empty table.
    pub fn new() -> (r: Self)
        ensures
            r.wf(),
            r.view() == Map::<Seq<char>, V::V>::empty(),
            r.size() == 0,
    {
        let r = Table { entries: Vec::new() };
        assert(r.view() =~= Map::<Seq<char>, V::V>::empty());
        r
    }

    /// The number of entries.
    pub fn len(&self) -> (n: usize)
        ensures
            n == self.size(),
    {
        self.entries.len()
    }

    /// The position of the entry named `key`, if there is one.
    pub fn find(&self, key: &String) -> (r: Option<usize>)
        requires
            self.wf(),
        ensures
            r is None <==> !self.view().dom().contains(key@),
            r matches Some(i) ==> i < self.size() && self.key_at(i as int) == key@,
    {
        let mut i: usize = 0;
        while i < self.entries.len()
            invariant
                i <= self.entries@.len(),
                forall|j: int| 0 <= j < i ==> self.entries@[j].0@ != key@,
            decreases self.entries@.len() - i,
        {
            if same_text(&self.entries[i].0, key) {
                return Some(i);
            }
            i = i + 1;
        }
        proof {
            if self.view().dom().contains(key@) {
                let j = self.lemma_key(key@);
                assert(self.entries@[j].0@ != key@);
            }
        }
        None
    }

    /// The name of entry `i`.
    pub fn key(&self, i: usize) -> (r: &String)
        requires
            i < self.size(),
        ensures
            r@ == self.key_at(i as int),
    {
        &self.entries[i].0
    }

    /// The value of entry `i`.
    pub fn value(&self, i: usize) -> (r: &V)
        requires
            i < self.size(),
        ensures
            r.deep_view() == self.value_at(i as int),
            *r == self.item_at(i as int),
    {
        &self.entries[i].1
    }

    /// Whether the table has an entry named `key`.
    pub fn contains(&self, key: &String) -> (r: bool)
        requires
            self.wf(),
        ensures
            r == self.view().dom().contains(key@),
    {
        self.find(key).is_some()
    }

    /// Sets the value under `key`, replacing any earlier one.
    pub fn insert(&mut self, key: String, v: V)
        requires
            old(self).wf(),
        ensures
            final(self).wf(),
            final(self).view() == old(self).view().insert(key@, v.deep_view()),
            forall|i: int|
                0 <= i < final(self).size() ==> #[trigger] final(self).item_at(i) == v || exists|j: int|
                    0 <= j < old(self).size() && final(self).item_at(i) == old(self).item_at(j),
    {
        let ghost kv = key@;
        let ghost vx = v;
        let ghost vv = v.deep_view();
        match self.find(&key) {
            Some(i) => {
                self.entries.set(i, (key, v));
                proof {
                    assert forall|k: int| 0 <= k < self.size() implies #[trigger] self.item_at(k) == vx || exists|j: int|
                        0 <= j < old(self).size() && self.item_at(k) == old(self).item_at(j) by {
                        if k != i {
                            assert(self.item_at(k) == old(self).item_at(k));
                        }
                    }
                    assert forall|k: Seq<char>|
                        #![trigger self.view().dom().contains(k)]
                        self.view().dom().contains(k) <==> old(self).view().insert(kv, vv).dom().contains(k) by {
                        if old(self).view().dom().contains(k) {
                            let j = old(self).lemma_key(k);
                            assert(self.entries@[j].0@ == k);
                        }
                        if self.view().dom().contains(k) {
                            let j = self.lemma_key(k);
                            if j != i {
                                assert(old(self).entries@[j].0@ == k);
                            }
                        }
                    }
                    assert forall|k: Seq<char>| #[trigger] self.view().dom().contains(k) implies
                        self.view()[k] == old(self).view().insert(kv, vv)[k] by {
                        let j = self.lemma_key(k);
                        self.lemma_entry(j);
                        if j != i {
                            old(self).lemma_entry(j);
                        }
                    }
                    assert(self.view() =~= old(self).view().insert(kv, vv));
                }
            },
            None => {
                self.entries.push((key, v));
                proof {
                    assert forall|k: int| 0 <= k < self.size() implies #[trigger] self.item_at(k) == vx || exists|j: int|
                        0 <= j < old(self).size() && self.item_at(k) == old(self).item_at(j) by {
                        if k < old(self).size() {
                            assert(self.item_at(k) == old(self).item_at(k));
                        }
                    }
                    let n = old(self).entries@.len() as int;
                    assert forall|k: Seq<char>|
                        #![trigger self.view().dom().contains(k)]
                        self.view().dom().contains(k) <==> old(self).view().insert(kv, vv).dom().contains(k) by {
                        if old(self).view().dom().contains(k) {
                            let j = old(self).lemma_key(k);
                            assert(self.entries@[j].0@ == k);
                        }
                        if k == kv {
                            assert(self.entries@[n].0@ == k);
                        }
                        if self.view().dom().contains(k) {
                            let j = self.lemma_key(k);
                            if j != n {
                                assert(old(self).entries@[j].0@ == k);
                            }
                        }
                    }
                    assert forall|k: Seq<char>| #[trigger] self.view().dom().contains(k) implies
                        self.view()[k] == old(self).view().insert(kv, vv)[k] by {
                        let j = self.lemma_key(k);
                        self.lemma_entry(j);
                        if j != n {
                            old(self).lemma_entry(j);
                        }
                    }
                    assert(self.view() =~= old(self).view().insert(kv, vv));
                }
            },
        }
    }

    /// Removes the entry named `key`, if there is one.
    pub fn remove(&mut self, key: &String)
        requires
            old(self).wf(),
        ensures
            final(self).wf(),
            final(self).view() == old(self).view().remove(key@),
    {
        match self.find(key) {
            Some(i) => {
                let _ = self.entries.remove(i);
                proof {
                    let kv = key@;
                    assert forall|k: Seq<char>|
                        #![trigger self.view().dom().contains(k)]
                        self.view().dom().contains(k) <==> old(self).view().remove(kv).dom().contains(k) by {
                        if old(self).view().dom().contains(k) && k != kv {
                            let j = old(self).lemma_key(k);
                            if j < i {
                                assert(self.entries@[j].0@ == k);
                            } else {
                                assert(j != i);
                                assert(self.entries@[j - 1].0@ == k);
                            }
                        }
                        if self.view().dom().contains(k) {
                            let j = self.lemma_key(k);
                            if j < i {
                                assert(old(self).entries@[j].0@ == k);
                            } else {
                                assert(old(self).entries@[j + 1].0@ == k);
                            }
                        }
                    }
                    assert forall|k: Seq<char>| #[trigger] self.view().dom().contains(k) implies
                        self.view()[k] == old(self).view().remove(kv)[k] by {
                        let j = self.lemma_key(k);
                        self.lemma_entry(j);
                        if j < i {
                            old(self).lemma_entry(j);
                        } else {
                            old(self).lemma_entry(j + 1);
                        }
                    }
                    assert(self.view() =~= old(self).view().remove(kv));
                }
            },
            None => {
                assert(self.view() =~= old(self).view().remove(key@));
            },
        }
    }

    /// Replaces the value of entry `i`, keeping its name.
    pub fn set_value(&mut self, i: usize, v: V)
        requires
            old(self).wf(),
            i < old(self).size(),
        ensures
            final(self).wf(),
            final(self).view() == old(self).view().insert(old(self).key_at(i as int), v.deep_view()),
    {
        let key = self.entries[i].0.clone();
        self.insert(key, v);
    }

}

impl<V: DeepView> DeepView for Table<V> {
    type V = Map<Seq<char>, V::V>;

    open spec fn deep_view(&self) -> Map<Seq<char>, V::V> {
        self.view()
    }
}

} // verus!
