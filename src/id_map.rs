use vstd::prelude::*;

verus! {

/// A map from string keys to values that keeps its entries in the order in
/// which their keys were first inserted.
pub struct IdMap<V> {
    entries: Vec<(String, V)>,
    contents: Ghost<Map<Seq<char>, V>>,
}

impl<V> View for IdMap<V> {
    type V = Map<Seq<char>, V>;

    closed spec fn view(&self) -> Map<Seq<char>, V> {
        self.contents@
    }
}

impl<V> IdMap<V> {
    /// The entries in insertion order.
    pub closed spec fn entry_seq(&self) -> Seq<(String, V)> {
        self.entries@
    }

    /// Keys are unique, and the entries hold exactly the map's contents.
    pub closed spec fn wf(&self) -> bool {
        &&& forall|i: int, j: int|
            0 <= i < j < self.entries@.len() ==> self.entries@[i].0@ != self.entries@[j].0@
        &&& forall|i: int|
            0 <= i < self.entries@.len() ==> {
                &&& #[trigger] self.contents@.contains_key(self.entries@[i].0@)
                &&& self.contents@[self.entries@[i].0@] == self.entries@[i].1
            }
        &&& forall|k: Seq<char>|
            #[trigger] self.contents@.contains_key(k) ==> exists|i: int|
                0 <= i < self.entries@.len() && self.entries@[i].0@ == k
    }

    /// The entries list each key of the map once, with its value.
    pub broadcast proof fn lemma_entries_match(&self)
        requires
            #[trigger] self.wf(),
        ensures
            self.entry_seq().len() == self@.len(),
            forall|i: int|
                0 <= i < self.entry_seq().len() ==> {
                    &&& #[trigger] self@.contains_key(self.entry_seq()[i].0@)
                    &&& self@[self.entry_seq()[i].0@] == self.entry_seq()[i].1
                },
            forall|k: Seq<char>|
                #[trigger] self@.contains_key(k) ==> exists|i: int|
                    0 <= i < self.entry_seq().len() && self.entry_seq()[i].0@ == k,
    {
        self.lemma_len();
        assert forall|k: Seq<char>| #[trigger] self@.contains_key(k) implies exists|i: int|
            0 <= i < self.entry_seq().len() && self.entry_seq()[i].0@ == k by {
            let i = choose|i: int| 0 <= i < self.entries@.len() && self.entries@[i].0@ == k;
            assert(self.entry_seq()[i].0@ == k);
        }
    }

    /// There are as many entries as keys.
    proof fn lemma_len(&self)
        requires
            self.wf(),
        ensures
            self.entries@.len() == self.contents@.len(),
    {
        let keys = Seq::new(self.entries@.len(), |i: int| self.entries@[i].0@);
        assert(keys.no_duplicates());
        keys.unique_seq_to_set();
        assert(keys.to_set() =~= self.contents@.dom()) by {
            assert forall|k: Seq<char>| self.contents@.dom().contains(k) implies keys.to_set().contains(k) by {
                let i = choose|i: int| 0 <= i < self.entries@.len() && self.entries@[i].0@ == k;
                assert(keys[i] == k);
            }
        }
    }

    pub fn new() -> (r: Self)
        ensures
            r.wf(),
            r@ == Map::<Seq<char>, V>::empty(),
    {
        IdMap { entries: Vec::new(), contents: Ghost(Map::empty()) }
    }

    /// The position of `key` among the entries, if it is present.
    fn find(&self, key: &String) -> (r: Option<usize>)
        requires
            self.wf(),
        ensures
            r is None <==> !self@.contains_key(key@),
            r matches Some(i) ==> i < self.entries@.len() && self.entries@[i as int].0@ == key@,
    {
        let mut i: usize = 0;
        while i < self.entries.len()
            invariant
                self.wf(),
                i <= self.entries@.len(),
                forall|j: int| 0 <= j < i ==> self.entries@[j].0@ != key@,
            decreases self.entries@.len() - i,
        {
            if self.entries[i].0 == *key {
                return Some(i);
            }
            i = i + 1;
        }
        None
    }

    pub fn contains_key(&self, key: &String) -> (r: bool)
        requires
            self.wf(),
        ensures
            r == self@.contains_key(key@),
    {
        self.find(key).is_some()
    }

    pub fn get(&self, key: &String) -> (r: Option<&V>)
        requires
            self.wf(),
        ensures
            r is None <==> !self@.contains_key(key@),
            r matches Some(v) ==> *v == self@[key@],
    {
        match self.find(key) {
            Some(i) => Some(&self.entries[i].1),
            None => None,
        }
    }

    /// Inserts `value` under `key`, replacing a value already there.
    pub fn insert(&mut self, key: String, value: V)
        requires
            old(self).wf(),
        ensures
            final(self).wf(),
            final(self)@ == old(self)@.insert(key@, value),
    {
        match self.find(&key) {
            Some(i) => {
                let ghost k = key@;
                self.entries.set(i, (key, value));
                self.contents = Ghost(self.contents@.insert(k, value));
                assert forall|j: int| 0 <= j < self.entries@.len() implies
                    #[trigger] old(self).entries@[j].0@ == self.entries@[j].0@ by {}
                assert forall|k2: Seq<char>| #[trigger] self.contents@.contains_key(k2) implies exists|j: int|
                    0 <= j < self.entries@.len() && self.entries@[j].0@ == k2 by {
                    let j = choose|j: int| 0 <= j < old(self).entries@.len() && old(self).entries@[j].0@ == k2;
                    assert(self.entries@[j].0@ == k2);
                }
            },
            None => {
                let ghost k = key@;
                self.entries.push((key, value));
                self.contents = Ghost(self.contents@.insert(k, value));
                assert forall|k2: Seq<char>| #[trigger] self.contents@.contains_key(k2) implies exists|i: int|
                    0 <= i < self.entries@.len() && self.entries@[i].0@ == k2 by {
                    if k2 != k {
                        let i = choose|i: int| 0 <= i < old(self).entries@.len() && old(self).entries@[i].0@ == k2;
                        assert(self.entries@[i].0@ == k2);
                    } else {
                        assert(self.entries@[self.entries@.len() - 1].0@ == k2);
                    }
                }
            },
        }
    }

    /// The entries in insertion order.
    pub fn entries(&self) -> (r: &Vec<(String, V)>)
        ensures
            r@ == self.entry_seq(),
    {
        &self.entries
    }

    /// Removes `key` and hands back its value, if it was present.
    pub fn remove(&mut self, key: &String) -> (r: Option<V>)
        requires
            old(self).wf(),
        ensures
            final(self).wf(),
            final(self)@ == old(self)@.remove(key@),
            match r {
                Some(v) => old(self)@.contains_key(key@) && v == old(self)@[key@],
                None => !old(self)@.contains_key(key@),
            },
    {
        match self.find(key) {
            Some(i) => {
                let ghost old_entries = self.entries@;
                let entry = self.entries.remove(i);
                self.contents = Ghost(self.contents@.remove(key@));
                assert forall|j: int| 0 <= j < self.entries@.len() implies
                    #[trigger] self.entries@[j] == (if j < i { old_entries[j] } else { old_entries[j + 1] }) by {}
                assert forall|j: int| 0 <= j < self.entries@.len() implies {
                    &&& #[trigger] self.contents@.contains_key(self.entries@[j].0@)
                    &&& self.contents@[self.entries@[j].0@] == self.entries@[j].1
                } by {
                    let oj = if j < i { j } else { j + 1 };
                    assert(old_entries[oj].0@ != old_entries[i as int].0@);
                }
                assert forall|k2: Seq<char>| #[trigger] self.contents@.contains_key(k2) implies exists|j: int|
                    0 <= j < self.entries@.len() && self.entries@[j].0@ == k2 by {
                    let oj = choose|j: int| 0 <= j < old_entries.len() && old_entries[j].0@ == k2;
                    let j = if oj < i { oj } else { oj - 1 };
                    assert(self.entries@[j].0@ == k2);
                }
                assert forall|a: int, b: int| 0 <= a < b < self.entries@.len() implies
                    self.entries@[a].0@ != self.entries@[b].0@ by {
                    let oa = if a < i { a } else { a + 1 };
                    let ob = if b < i { b } else { b + 1 };
                    assert(old_entries[oa].0@ != old_entries[ob].0@);
                }
                Some(entry.1)
            },
            None => {
                assert(self.contents@.remove(key@) =~= self.contents@);
                None
            },
        }
    }
}

} // verus!
