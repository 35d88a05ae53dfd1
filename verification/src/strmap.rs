//! A small map from strings to values, kept as a list without repeated keys.
//! It stands in for a hash map where the contracts have to speak of the
//! contents: its view is a mathematical map from the text of a key to the
//! value. Of a standard hash map Verus knows the contents only for keys
//! whose hashing vstd models, which are integers and not strings.

use vstd::prelude::*;

verus! {

/// A map keyed by strings. No key occurs twice.
pub struct StrMap<V> {
    keys: Vec<String>,
    values: Vec<V>,
}

impl<V> StrMap<V> {
    /// The invariant: one value per key, and no key twice.
    pub closed spec fn wf(&self) -> bool {
        &&& self.keys@.len() == self.values@.len()
        &&& forall|i: int, j: int|
            0 <= i < j < self.keys@.len() ==> (#[trigger] self.keys@[i])@ != (
            #[trigger] self.keys@[j])@
    }

    spec fn has(&self, k: Seq<char>) -> bool {
        exists|i: int| 0 <= i < self.keys@.len() && (#[trigger] self.keys@[i])@ == k
    }

    spec fn slot(&self, k: Seq<char>) -> int {
        choose|i: int| 0 <= i < self.keys@.len() && (#[trigger] self.keys@[i])@ == k
    }

    /// The contents as a mathematical map.
    pub closed spec fn view(&self) -> Map<Seq<char>, V> {
        Map::new(|k: Seq<char>| self.has(k), |k: Seq<char>| self.values@[self.slot(k)])
    }

    proof fn lemma_slot(&self, i: int)
        requires
            self.wf(),
            0 <= i < self.keys@.len(),
        ensures
            self.has(self.keys@[i]@),
            self.slot(self.keys@[i]@) == i,
            self@.contains_key(self.keys@[i]@),
            self@[self.keys@[i]@] == self.values@[i],
    {
        let k = self.keys@[i]@;
        assert(self.has(k));
        let j = self.slot(k);
        if j < i {
            assert(self.keys@[j]@ != self.keys@[i]@);
        }
        if i < j {
            assert(self.keys@[i]@ != self.keys@[j]@);
        }
    }

    /// An empty map.
    pub fn new() -> (m: Self)
        ensures
            m.wf(),
            m@ == Map::<Seq<char>, V>::empty(),
    {
        let m = StrMap { keys: Vec::new(), values: Vec::new() };
        assert(m@ =~= Map::<Seq<char>, V>::empty());
        m
    }

    /// The number of entries.
    pub fn len(&self) -> (n: usize)
        requires
            self.wf(),
        ensures
            n == self@.dom().len(),
            self@.dom().finite(),
    {
        proof {
            self.lemma_dom_len(self.keys@.len() as int);
            assert(self.prefix_dom(self.keys@.len() as int) =~= self@.dom()) by {
                assert forall|k: Seq<char>| self@.dom().contains(k) implies self.prefix_dom(
                    self.keys@.len() as int,
                ).contains(k) by {
                    let i = self.slot(k);
                    assert(self.keys@[i]@ == k);
                }
                assert forall|k: Seq<char>|
                    self.prefix_dom(self.keys@.len() as int).contains(k) implies self@.dom().contains(
                    k,
                ) by {
                    let i = choose|i: int|
                        0 <= i < self.keys@.len() && (#[trigger] self.keys@[i])@ == k;
                    assert(self.has(k));
                }
            }
        }
        self.keys.len()
    }

    spec fn prefix_dom(&self, n: int) -> Set<Seq<char>> {
        Set::new(|k: Seq<char>| exists|i: int| 0 <= i < n && (#[trigger] self.keys@[i])@ == k)
    }

    proof fn lemma_dom_len(&self, n: int)
        requires
            self.wf(),
            0 <= n <= self.keys@.len(),
        ensures
            self.prefix_dom(n).finite(),
            self.prefix_dom(n).len() == n,
        decreases n,
    {
        if n == 0 {
            assert(self.prefix_dom(0) =~= Set::<Seq<char>>::empty());
        } else {
            self.lemma_dom_len(n - 1);
            let k = self.keys@[n - 1]@;
            assert(!self.prefix_dom(n - 1).contains(k)) by {
                if self.prefix_dom(n - 1).contains(k) {
                    let i = choose|i: int| 0 <= i < n - 1 && (#[trigger] self.keys@[i])@ == k;
                    assert(self.keys@[i]@ != self.keys@[n - 1]@);
                }
            }
            assert(self.prefix_dom(n) =~= self.prefix_dom(n - 1).insert(k)) by {
                assert forall|x: Seq<char>| self.prefix_dom(n - 1).insert(k).contains(
                    x,
                ) implies self.prefix_dom(n).contains(x) by {
                    if x == k {
                        assert(self.keys@[n - 1]@ == x);
                    } else {
                        let i = choose|i: int| 0 <= i < n - 1 && (#[trigger] self.keys@[i])@ == x;
                        assert(self.keys@[i]@ == x);
                    }
                }
            }
        }
    }

    fn find(&self, key: &String) -> (r: Option<usize>)
        requires
            self.wf(),
        ensures
            match r {
                Some(i) => i < self.keys@.len() && self.keys@[i as int]@ == key@,
                None => !self.has(key@),
            },
    {
        let mut i: usize = 0;
        while i < self.keys.len()
            invariant
                i <= self.keys@.len(),
                forall|j: int| 0 <= j < i ==> (#[trigger] self.keys@[j])@ != key@,
            decreases self.keys@.len() - i,
        {
            if self.keys[i] == *key {
                return Some(i);
            }
            i = i + 1;
        }
        None
    }

    /// Whether `key` has a value.
    pub fn contains_key(&self, key: &String) -> (r: bool)
        requires
            self.wf(),
        ensures
            r == self@.contains_key(key@),
    {
        match self.find(key) {
            Some(i) => {
                proof {
                    self.lemma_slot(i as int);
                }
                true
            },
            None => false,
        }
    }

    /// The value of `key`, if it has one.
    pub fn get(&self, key: &String) -> (r: Option<&V>)
        requires
            self.wf(),
        ensures
            match r {
                Some(v) => self@.contains_key(key@) && *v == self@[key@],
                None => !self@.contains_key(key@),
            },
    {
        match self.find(key) {
            Some(i) => {
                proof {
                    self.lemma_slot(i as int);
                }
                Some(&self.values[i])
            },
            None => None,
        }
    }

    /// Removes `key` and its value, if present.
    pub fn remove(&mut self, key: &String)
        requires
            old(self).wf(),
        ensures
            final(self).wf(),
            final(self)@ == old(self)@.remove(key@),
    {
        match self.find(key) {
            Some(i) => {
                let ghost before = *self;
                self.keys.swap_remove(i);
                self.values.swap_remove(i);
                proof {
                    let after = *self;
                    let last = before.keys@.len() - 1;
                    assert(after.wf());
                    assert forall|k: Seq<char>| after.has(k) <==> (before.has(k) && k != key@) by {
                        if after.has(k) {
                            let j = after.slot(k);
                            if j == i {
                                before.lemma_slot(last);
                                assert(before.keys@[last]@ != before.keys@[i as int]@);
                            } else {
                                before.lemma_slot(j);
                                assert(before.keys@[j]@ != before.keys@[i as int]@);
                            }
                        }
                        if before.has(k) && k != key@ {
                            let j = before.slot(k);
                            if j == last {
                                assert(after.keys@[i as int]@ == k);
                            } else {
                                assert(after.keys@[j]@ == k);
                            }
                        }
                    }
                    assert forall|k: Seq<char>| after.has(k) implies after@[k] == before@[k] by {
                        let j = after.slot(k);
                        after.lemma_slot(j);
                        if j == i {
                            before.lemma_slot(last);
                        } else {
                            before.lemma_slot(j);
                        }
                    }
                    assert(after@ =~= before@.remove(key@));
                }
            },
            None => {
                assert(self@ =~= self@.remove(key@));
            },
        }
    }

    /// Sets the value of `key`, replacing an earlier one.
    pub fn insert(&mut self, key: String, value: V)
        requires
            old(self).wf(),
        ensures
            final(self).wf(),
            final(self)@ == old(self)@.insert(key@, value),
    {
        self.remove(&key);
        let ghost before = *self;
        self.keys.push(key);
        self.values.push(value);
        proof {
            let after = *self;
            let last = before.keys@.len() as int;
            assert(after.wf()) by {
                assert forall|i: int, j: int| 0 <= i < j < after.keys@.len() implies (
                #[trigger] after.keys@[i])@ != (#[trigger] after.keys@[j])@ by {
                    if j == last {
                        before.lemma_slot(i);
                    }
                }
            }
            assert forall|k: Seq<char>| after.has(k) <==> (before.has(k) || k == key@) by {
                if after.has(k) {
                    let j = after.slot(k);
                    if j < last {
                        before.lemma_slot(j);
                    }
                }
                if before.has(k) {
                    let j = before.slot(k);
                    assert(after.keys@[j]@ == k);
                }
                if k == key@ {
                    assert(after.keys@[last]@ == k);
                }
            }
            assert forall|k: Seq<char>| after.has(k) implies after@[k] == before@.insert(
                key@,
                value,
            )[k] by {
                let j = after.slot(k);
                after.lemma_slot(j);
                if j < last {
                    before.lemma_slot(j);
                }
            }
            assert(after@ =~= before@.insert(key@, value));
            assert(old(self)@.remove(key@).insert(key@, value) =~= old(self)@.insert(key@, value));
        }
    }

    /// Removes every entry.
    pub fn clear(&mut self)
        ensures
            final(self).wf(),
            final(self)@ == Map::<Seq<char>, V>::empty(),
    {
        self.keys.clear();
        self.values.clear();
        assert(self@ =~= Map::<Seq<char>, V>::empty());
    }
}

} // verus!
