use vstd::prelude::*;

verus! {

/// A small map from strings to values, kept as a vector of entries with
/// distinct keys.
pub struct Table<V> {
    entries: Vec<(String, V)>,
}

/// The keys of `s` are pairwise distinct.
pub open spec fn keys_unique<V>(s: Seq<(String, V)>) -> bool {
    forall|i: int, j: int|
        0 <= i < s.len() && 0 <= j < s.len() && i != j ==> #[trigger] s[i].0@ != #[trigger] s[j].0@
}

/// `s` holds an entry with key `k`.
pub open spec fn has_key<V>(s: Seq<(String, V)>, k: Seq<char>) -> bool {
    exists|i: int| 0 <= i < s.len() && #[trigger] s[i].0@ == k
}

/// The map that a sequence of entries with distinct keys stands for.
pub open spec fn entries_map<V>(s: Seq<(String, V)>) -> Map<Seq<char>, V> {
    Map::new(
        |k: Seq<char>| has_key(s, k),
        |k: Seq<char>| s[choose|i: int| 0 <= i < s.len() && #[trigger] s[i].0@ == k].1,
    )
}

proof fn lemma_entry_at<V>(s: Seq<(String, V)>, i: int)
    requires
        keys_unique(s),
        0 <= i < s.len(),
    ensures
        entries_map(s).contains_key(s[i].0@),
        entries_map(s)[s[i].0@] == s[i].1,
{
    let k = s[i].0@;
    assert(has_key(s, k));
    let j = choose|j: int| 0 <= j < s.len() && #[trigger] s[j].0@ == k;
    assert(s[j].0@ == s[i].0@);
}

impl<V> Table<V> {
    /// The table's contents.
    pub closed spec fn view(&self) -> Map<Seq<char>, V> {
        entries_map(self.entries@)
    }

    /// Keys are distinct.
    pub closed spec fn wf(&self) -> bool {
        keys_unique(self.entries@)
    }

    pub fn new() -> (r: Self)
        ensures
            r.wf(),
            r@ == Map::<Seq<char>, V>::empty(),
    {
        let r = Table { entries: Vec::new() };
        assert(r@ =~= Map::<Seq<char>, V>::empty());
        r
    }

    /// The position of the entry with key `k`, if any.
    fn find(&self, k: &String) -> (r: Option<usize>)
        requires
            self.wf(),
        ensures
            match r {
                Some(i) => i < self.entries@.len() && self.entries@[i as int].0@ == k@,
                None => !has_key(self.entries@, k@),
            },
    {
        let mut i: usize = 0;
        while i < self.entries.len()
            invariant
                i <= self.entries@.len(),
                forall|j: int| 0 <= j < i ==> #[trigger] self.entries@[j].0@ != k@,
            decreases self.entries@.len() - i,
        {
            if self.entries[i].0 == *k {
                return Some(i);
            }
            i = i + 1;
        }
        None
    }

    pub fn get(&self, k: &String) -> (r: Option<&V>)
        requires
            self.wf(),
        ensures
            match r {
                Some(v) => self@.contains_key(k@) && self@[k@] == *v,
                None => !self@.contains_key(k@),
            },
    {
        match self.find(k) {
            Some(i) => {
                proof {
                    lemma_entry_at(self.entries@, i as int);
                }
                Some(&self.entries[i].1)
            },
            None => None,
        }
    }

    pub fn insert(&mut self, k: String, v: V)
        requires
            old(self).wf(),
        ensures
            final(self).wf(),
            final(self)@ == old(self)@.insert(k@, v),
    {
        let ghost s0 = self.entries@;
        let ghost kk = k@;
        match self.find(&k) {
            Some(i) => {
                self.entries.set(i, (k, v));
                proof {
                    let s1 = self.entries@;
                    assert(keys_unique(s1)) by {
                        assert forall|a: int, b: int|
                            0 <= a < s1.len() && 0 <= b < s1.len() && a != b implies
                            #[trigger] s1[a].0@ != #[trigger] s1[b].0@ by {
                            assert(s0[a].0@ != s0[b].0@);
                        }
                    }
                    assert forall|x: Seq<char>| #[trigger] has_key(s1, x) == has_key(s0, x) by {
                        if has_key(s0, x) {
                            let j = choose|j: int| 0 <= j < s0.len() && #[trigger] s0[j].0@ == x;
                            assert(s1[j].0@ == x);
                        }
                        if has_key(s1, x) {
                            let j = choose|j: int| 0 <= j < s1.len() && #[trigger] s1[j].0@ == x;
                            assert(s0[j].0@ == x);
                        }
                    }
                    assert forall|x: Seq<char>| has_key(s1, x) implies
                        #[trigger] entries_map(s1)[x] == entries_map(s0).insert(kk, v)[x] by {
                        let j = choose|j: int| 0 <= j < s1.len() && #[trigger] s1[j].0@ == x;
                        lemma_entry_at(s1, j);
                        if j != i {
                            lemma_entry_at(s0, j);
                        }
                    }
                    assert(entries_map(s1) =~= entries_map(s0).insert(kk, v));
                }
            },
            None => {
                self.entries.push((k, v));
                proof {
                    let s1 = self.entries@;
                    assert(keys_unique(s1)) by {
                        assert forall|a: int, b: int|
                            0 <= a < s1.len() && 0 <= b < s1.len() && a != b implies
                            #[trigger] s1[a].0@ != #[trigger] s1[b].0@ by {
                            if a < s0.len() && b < s0.len() {
                                assert(s0[a].0@ != s0[b].0@);
                            } else if a < s0.len() {
                                assert(s0[a].0@ == s1[a].0@);
                            } else {
                                assert(s0[b].0@ == s1[b].0@);
                            }
                        }
                    }
                    assert forall|x: Seq<char>| #[trigger] has_key(s1, x) == (has_key(s0, x) || x == kk) by {
                        if has_key(s0, x) {
                            let j = choose|j: int| 0 <= j < s0.len() && #[trigger] s0[j].0@ == x;
                            assert(s1[j].0@ == x);
                        }
                        if x == kk {
                            assert(s1[s0.len() as int].0@ == x);
                        }
                        if has_key(s1, x) && x != kk {
                            let j = choose|j: int| 0 <= j < s1.len() && #[trigger] s1[j].0@ == x;
                            assert(s0[j].0@ == x);
                        }
                    }
                    assert forall|x: Seq<char>| has_key(s1, x) implies
                        #[trigger] entries_map(s1)[x] == entries_map(s0).insert(kk, v)[x] by {
                        let j = choose|j: int| 0 <= j < s1.len() && #[trigger] s1[j].0@ == x;
                        lemma_entry_at(s1, j);
                        if j < s0.len() {
                            lemma_entry_at(s0, j);
                        }
                    }
                    assert(entries_map(s1) =~= entries_map(s0).insert(kk, v));
                }
            },
        }
    }
    pub fn remove(&mut self, k: &String)
        requires
            old(self).wf(),
        ensures
            final(self).wf(),
            final(self)@ == old(self)@.remove(k@),
    {
        let ghost s0 = self.entries@;
        if let Some(i) = self.find(k) {
            self.entries.remove(i);
            proof {
                let s1 = self.entries@;
                let ii = i as int;
                assert forall|a: int| 0 <= a < s1.len() implies
                    #[trigger] s1[a] == s0[if a < ii { a } else { a + 1 }] by {}
                assert(keys_unique(s1)) by {
                    assert forall|a: int, b: int|
                        0 <= a < s1.len() && 0 <= b < s1.len() && a != b implies
                        #[trigger] s1[a].0@ != #[trigger] s1[b].0@ by {
                        let a0 = if a < ii { a } else { a + 1 };
                        let b0 = if b < ii { b } else { b + 1 };
                        assert(s0[a0].0@ != s0[b0].0@);
                    }
                }
                assert forall|x: Seq<char>| #[trigger] has_key(s1, x) == (has_key(s0, x) && x != k@) by {
                    if has_key(s1, x) {
                        let j = choose|j: int| 0 <= j < s1.len() && #[trigger] s1[j].0@ == x;
                        let j0 = if j < ii { j } else { j + 1 };
                        assert(s0[j0].0@ == x);
                        assert(s0[ii].0@ != s0[j0].0@);
                    }
                    if has_key(s0, x) && x != k@ {
                        let j = choose|j: int| 0 <= j < s0.len() && #[trigger] s0[j].0@ == x;
                        if j < ii {
                            assert(s1[j].0@ == x);
                        } else {
                            assert(j != ii);
                            assert(s1[j - 1].0@ == x);
                        }
                    }
                }
                assert forall|x: Seq<char>| has_key(s1, x) implies
                    #[trigger] entries_map(s1)[x] == entries_map(s0)[x] by {
                    let j = choose|j: int| 0 <= j < s1.len() && #[trigger] s1[j].0@ == x;
                    let j0 = if j < ii { j } else { j + 1 };
                    lemma_entry_at(s1, j);
                    lemma_entry_at(s0, j0);
                }
                assert(entries_map(s1) =~= entries_map(s0).remove(k@));
            }
        } else {
            assert(entries_map(s0) =~= entries_map(s0).remove(k@));
        }
    }
}

} // verus!
