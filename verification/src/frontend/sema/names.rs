use vstd::prelude::*;

verus! {

/// A map from names to indices, which keeps its entries in the order they were first added.
/// No name occurs twice.
#[derive(Debug)]
pub struct NameMap {
    entries: Vec<(String, usize)>,
}

pub open spec fn entry_keys(s: Seq<(String, usize)>) -> Seq<Seq<char>> {
    s.map_values(|e: (String, usize)| e.0@)
}

pub open spec fn distinct_keys(s: Seq<(String, usize)>) -> bool {
    forall|i: int, j: int| 0 <= i < s.len() && 0 <= j < s.len() && i != j ==> s[i].0@ != s[j].0@
}

pub open spec fn has_key(s: Seq<(String, usize)>, k: Seq<char>) -> bool {
    exists|i: int| 0 <= i < s.len() && s[i].0@ == k
}

pub open spec fn key_index(s: Seq<(String, usize)>, k: Seq<char>) -> int {
    choose|i: int| 0 <= i < s.len() && s[i].0@ == k
}

pub open spec fn entries_map(s: Seq<(String, usize)>) -> Map<Seq<char>, usize> {
    Map::new(|k: Seq<char>| has_key(s, k), |k: Seq<char>| s[key_index(s, k)].1)
}

impl View for NameMap {
    type V = Map<Seq<char>, usize>;

    closed spec fn view(&self) -> Map<Seq<char>, usize> {
        entries_map(self.entries@)
    }
}

impl NameMap {
    /// The names in the order they were first added.
    pub closed spec fn keys(&self) -> Seq<Seq<char>> {
        entry_keys(self.entries@)
    }

    pub closed spec fn wf(&self) -> bool {
        distinct_keys(self.entries@)
    }

    /// The keys are exactly the names of the map, each once.
    pub proof fn lemma_keys(&self)
        requires
            self.wf(),
        ensures
            self.keys().len() == self@.dom().len(),
            forall|i: int| 0 <= i < self.keys().len() ==> #[trigger] self@.contains_key(self.keys()[i]),
            forall|k: Seq<char>| #[trigger] self@.contains_key(k) ==> self.keys().contains(k),
            forall|i: int, j: int| 0 <= i < self.keys().len() && 0 <= j < self.keys().len() && i != j
                ==> self.keys()[i] != self.keys()[j],
            self@.dom().finite(),
    {
        let s = self.entries@;
        assert forall|i: int| 0 <= i < self.keys().len() implies #[trigger] self@.contains_key(self.keys()[i]) by {
            assert(s[i].0@ == self.keys()[i]);
        }
        assert forall|k: Seq<char>| #[trigger] self@.contains_key(k) implies self.keys().contains(k) by {
            let i = key_index(s, k);
            assert(self.keys()[i] == k);
        }
        let ks = self.keys();
        assert(ks.no_duplicates());
        ks.unique_seq_to_set();
        assert(ks.to_set() =~= self@.dom());
    }

    pub fn new() -> (m: Self)
        ensures
            m.wf(),
            m@ == Map::<Seq<char>, usize>::empty(),
            m.keys() == Seq::<Seq<char>>::empty(),
    {
        let m = NameMap { entries: Vec::new() };
        proof {
            assert(m@ =~= Map::<Seq<char>, usize>::empty());
            assert(m.keys() =~= Seq::<Seq<char>>::empty());
        }
        m
    }

    fn find(&self, key: &String) -> (r: Option<usize>)
        requires
            self.wf(),
        ensures
            match r {
                Some(i) => i < self.entries@.len() && self.entries@[i as int].0@ == key@,
                None => !has_key(self.entries@, key@),
            },
    {
        let mut i: usize = 0;
        while i < self.entries.len()
            invariant
                i <= self.entries@.len(),
                forall|j: int| 0 <= j < i ==> self.entries@[j].0@ != key@,
            decreases self.entries@.len() - i,
        {
            if self.entries[i].0 == *key {
                return Some(i);
            }
            i += 1;
        }
        None
    }

    /// The index that `name` maps to.
    pub fn get(&self, name: &str) -> (r: Option<usize>)
        requires
            self.wf(),
        ensures
            match r {
                Some(v) => self@.contains_key(name@) && self@[name@] == v,
                None => !self@.contains_key(name@),
            },
    {
        let key = name.to_owned();
        match self.find(&key) {
            Some(i) => {
                proof {
                    let s = self.entries@;
                    let j = key_index(s, name@);
                    assert(has_key(s, name@));
                    assert(s[j].0@ == name@);
                }
                Some(self.entries[i].1)
            },
            None => None,
        }
    }

    pub fn contains_key(&self, name: &str) -> (r: bool)
        requires
            self.wf(),
        ensures
            r == self@.contains_key(name@),
    {
        self.get(name).is_some()
    }

    /// Maps `name` to `value`; a new name goes after the others.
    pub fn insert(&mut self, name: String, value: usize)
        requires
            old(self).wf(),
        ensures
            final(self).wf(),
            final(self)@ == old(self)@.insert(name@, value),
            final(self).keys() == if old(self)@.contains_key(name@) {
                old(self).keys()
            } else {
                old(self).keys().push(name@)
            },
    {
        let ghost s0 = self.entries@;
        let ghost k = name@;
        match self.find(&name) {
            Some(i) => {
                self.entries.set(i, (name, value));
                proof {
                    let s1 = self.entries@;
                    assert(distinct_keys(s1)) by {
                        assert forall|a: int, b: int| 0 <= a < s1.len() && 0 <= b < s1.len() && a != b
                            implies s1[a].0@ != s1[b].0@ by {
                            assert(s0[a].0@ != s0[b].0@);
                        }
                    }
                    assert forall|x: Seq<char>| has_key(s1, x) == has_key(s0, x) by {
                        if has_key(s0, x) {
                            let j = key_index(s0, x);
                            assert(s1[j].0@ == x);
                        }
                        if has_key(s1, x) {
                            let j = key_index(s1, x);
                            assert(s0[j].0@ == x);
                        }
                    }
                    assert forall|x: Seq<char>| #[trigger] has_key(s1, x) implies
                        s1[key_index(s1, x)].1 == (if x == k { value } else { s0[key_index(s0, x)].1 }) by {
                        let j1 = key_index(s1, x);
                        let j0 = key_index(s0, x);
                        assert(s0[j0].0@ == x);
                        assert(s1[j1].0@ == x);
                        if x == k {
                            assert(j1 == i);
                        } else {
                            assert(j1 != i);
                            assert(s0[j1].0@ == x);
                            assert(j1 == j0);
                        }
                    }
                    assert(entries_map(s1) =~= entries_map(s0).insert(k, value));
                    assert(entry_keys(s1) =~= entry_keys(s0));
                    assert(entries_map(s0).contains_key(k));
                }
            },
            None => {
                self.entries.push((name, value));
                proof {
                    let s1 = self.entries@;
                    assert(distinct_keys(s1));
                    assert forall|x: Seq<char>| #[trigger] has_key(s1, x) == (has_key(s0, x) || x == k) by {
                        if has_key(s0, x) {
                            let j = key_index(s0, x);
                            assert(s1[j].0@ == x);
                        }
                        if x == k {
                            assert(s1[s0.len() as int].0@ == x);
                        }
                        if has_key(s1, x) && x != k {
                            let j = key_index(s1, x);
                            assert(j != s0.len());
                            assert(s0[j].0@ == x);
                        }
                    }
                    assert forall|x: Seq<char>| #[trigger] has_key(s1, x) implies
                        s1[key_index(s1, x)].1 == (if x == k { value } else { s0[key_index(s0, x)].1 }) by {
                        let j1 = key_index(s1, x);
                        if x == k {
                            assert(j1 == s0.len());
                        } else {
                            let j0 = key_index(s0, x);
                            assert(s0[j0].0@ == x);
                            assert(s1[j0].0@ == x);
                            assert(j1 == j0);
                        }
                    }
                    assert(entries_map(s1) =~= entries_map(s0).insert(k, value));
                    assert(entry_keys(s1) =~= entry_keys(s0).push(k));
                }
            },
        }
    }

    pub fn len(&self) -> (n: usize)
        ensures
            n == self.keys().len(),
    {
        self.entries.len()
    }

    /// The `i`-th name added, and what it maps to.
    pub fn entry(&self, i: usize) -> (r: (&String, usize))
        requires
            self.wf(),
            i < self.keys().len(),
        ensures
            r.0@ == self.keys()[i as int],
            self@.contains_key(r.0@),
            self@[r.0@] == r.1,
    {
        proof {
            let s = self.entries@;
            assert(s[i as int].0@ == entry_keys(s)[i as int]);
            assert(has_key(s, s[i as int].0@));
            let j = key_index(s, s[i as int].0@);
            assert(j == i);
        }
        (&self.entries[i].0, self.entries[i].1)
    }
}

/// A set of names, built on a [`NameMap`] whose values are unused.
#[derive(Debug)]
pub struct NameSet {
    names: NameMap,
}

impl View for NameSet {
    type V = Set<Seq<char>>;

    closed spec fn view(&self) -> Set<Seq<char>> {
        self.names@.dom()
    }
}

impl NameSet {
    pub closed spec fn wf(&self) -> bool {
        self.names.wf()
    }

    pub fn new() -> (s: Self)
        ensures
            s.wf(),
            s@ == Set::<Seq<char>>::empty(),
    {
        let s = NameSet { names: NameMap::new() };
        proof {
            assert(s@ =~= Set::<Seq<char>>::empty());
        }
        s
    }

    pub fn contains(&self, name: &str) -> (r: bool)
        requires
            self.wf(),
        ensures
            r == self@.contains(name@),
    {
        self.names.contains_key(name)
    }

    pub fn insert(&mut self, name: String)
        requires
            old(self).wf(),
        ensures
            final(self).wf(),
            final(self)@ == old(self)@.insert(name@),
    {
        self.names.insert(name, 0);
        proof {
            assert(self@ =~= old(self)@.insert(name@));
        }
    }
}

} // verus!
