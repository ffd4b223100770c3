//! A string-keyed table with unique keys, the in-memory model of one
//! persisted key-value namespace. Lookups and updates are specified against
//! `get_view`, a first-match association over the entry sequence.
use vstd::prelude::*;

verus! {

/// An association table from account-name or identity strings to values.
pub struct KvTable<V> {
    pub entries: Vec<(String, V)>,
}

impl<V> KvTable<V> {
    /// First-match lookup over an entry sequence.
    pub open spec fn seq_get(s: Seq<(String, V)>, k: Seq<char>) -> Option<V>
        decreases s.len(),
    {
        if s.len() == 0 {
            None
        } else if s[0].0@ == k {
            Some(s[0].1)
        } else {
            Self::seq_get(s.drop_first(), k)
        }
    }

    /// The value stored under key `k`, if any.
    pub open spec fn get_view(self, k: Seq<char>) -> Option<V> {
        Self::seq_get(self.entries@, k)
    }

    /// Whether key `k` is present.
    pub open spec fn has(self, k: Seq<char>) -> bool {
        self.get_view(k) is Some
    }

    /// Keys are pairwise distinct.
    pub open spec fn wf(self) -> bool {
        forall|i: int, j: int|
            0 <= i < j < self.entries@.len() ==> (#[trigger] self.entries@[i]).0@ != (
            #[trigger] self.entries@[j]).0@
    }

    proof fn lemma_seq_get_found(s: Seq<(String, V)>, k: Seq<char>, i: int)
        requires
            0 <= i < s.len(),
            s[i].0@ == k,
            forall|j: int| 0 <= j < i ==> (#[trigger] s[j]).0@ != k,
        ensures
            Self::seq_get(s, k) == Some(s[i].1),
        decreases s.len(),
    {
        if i > 0 {
            assert(forall|j: int|
                0 <= j < i - 1 ==> (#[trigger] s.drop_first()[j]).0@ == s[j + 1].0@);
            Self::lemma_seq_get_found(s.drop_first(), k, i - 1);
        }
    }

    proof fn lemma_seq_get_absent(s: Seq<(String, V)>, k: Seq<char>)
        requires
            forall|j: int| 0 <= j < s.len() ==> (#[trigger] s[j]).0@ != k,
        ensures
            Self::seq_get(s, k) is None,
        decreases s.len(),
    {
        if s.len() > 0 {
            Self::lemma_seq_get_absent(s.drop_first(), k);
        }
    }

    /// Appending a fresh entry leaves every other key's binding unchanged.
    proof fn lemma_seq_get_push(s: Seq<(String, V)>, k: Seq<char>, e: (String, V))
        ensures
            e.0@ != k ==> Self::seq_get(s.push(e), k) == Self::seq_get(s, k),
            e.0@ == k && Self::seq_get(s, k) is None ==> Self::seq_get(s.push(e), k) == Some(e.1),
        decreases s.len(),
    {
        if s.len() == 0 {
            assert(s.push(e)[0] == e);
            assert(s.push(e).drop_first() =~= Seq::<(String, V)>::empty());
            assert(Self::seq_get(Seq::<(String, V)>::empty(), k) is None);
        } else {
            assert(s.push(e)[0] == s[0]);
            assert(s.push(e).drop_first() =~= s.drop_first().push(e));
            Self::lemma_seq_get_push(s.drop_first(), k, e);
        }
    }

    proof fn lemma_seq_get_update(s: Seq<(String, V)>, k: Seq<char>, i: int, e: (String, V))
        requires
            0 <= i < s.len(),
            s[i].0@ == e.0@,
            forall|j: int| 0 <= j < i ==> (#[trigger] s[j]).0@ != e.0@,
        ensures
            k == e.0@ ==> Self::seq_get(s.update(i, e), k) == Some(e.1),
            k != e.0@ ==> Self::seq_get(s.update(i, e), k) == Self::seq_get(s, k),
        decreases s.len(),
    {
        if i == 0 {
            assert(s.update(i, e).drop_first() =~= s.drop_first());
        } else {
            assert(s.update(i, e).drop_first() =~= s.drop_first().update(i - 1, e));
            assert(forall|j: int|
                0 <= j < i - 1 ==> (#[trigger] s.drop_first()[j]).0@ == s[j + 1].0@);
            Self::lemma_seq_get_update(s.drop_first(), k, i - 1, e);
        }
    }

    proof fn lemma_seq_get_remove(s: Seq<(String, V)>, k: Seq<char>, i: int)
        requires
            0 <= i < s.len(),
            forall|j: int| 0 <= j < s.len() && j != i ==> (#[trigger] s[j]).0@ != s[i].0@,
            forall|j: int| 0 <= j < i ==> (#[trigger] s[j]).0@ != s[i].0@,
        ensures
            k == s[i].0@ ==> Self::seq_get(s.remove(i), k) is None,
            k != s[i].0@ ==> Self::seq_get(s.remove(i), k) == Self::seq_get(s, k),
        decreases s.len(),
    {
        if i == 0 {
            assert(s.remove(0) =~= s.drop_first());
            if k == s[0].0@ {
                Self::lemma_seq_get_absent(s.drop_first(), k);
            }
        } else {
            assert(s.remove(i).drop_first() =~= s.drop_first().remove(i - 1));
            assert(forall|j: int|
                0 <= j < s.drop_first().len() ==> (#[trigger] s.drop_first()[j]).0@ == s[j
                    + 1].0@);
            Self::lemma_seq_get_remove(s.drop_first(), k, i - 1);
        }
    }

    /// An empty table.
    pub fn new() -> (t: Self)
        ensures
            t.wf(),
            t.entries@.len() == 0,
            forall|k: Seq<char>| #[trigger] t.get_view(k) is None,
    {
        KvTable { entries: Vec::new() }
    }

    /// Index of the first entry whose key equals `k`, if any.
    fn find(&self, k: &String) -> (r: Option<usize>)
        ensures
            match r {
                Some(i) => 0 <= i < self.entries@.len() && self.entries@[i as int].0@ == k@
                    && forall|j: int| 0 <= j < i ==> (#[trigger] self.entries@[j]).0@ != k@,
                None => forall|j: int|
                    0 <= j < self.entries@.len() ==> (#[trigger] self.entries@[j]).0@ != k@,
            },
    {
        let n = self.entries.len();
        let mut i: usize = 0;
        while i < n
            invariant
                0 <= i <= n,
                n == self.entries@.len(),
                forall|j: int| 0 <= j < i ==> (#[trigger] self.entries@[j]).0@ != k@,
            decreases n - i,
        {
            if self.entries[i].0 == *k {
                return Some(i);
            }
            i = i + 1;
        }
        None
    }

    /// Looks the key up, returning a reference to the stored value.
    pub fn get<'a>(&'a self, k: &String) -> (r: Option<&'a V>)
        ensures
            match r {
                Some(v) => self.get_view(k@) == Some(*v),
                None => self.get_view(k@) is None,
            },
    {
        match self.find(k) {
            Some(i) => {
                proof {
                    Self::lemma_seq_get_found(self.entries@, k@, i as int);
                }
                Some(&self.entries[i].1)
            },
            None => {
                proof {
                    Self::lemma_seq_get_absent(self.entries@, k@);
                }
                None
            },
        }
    }

    /// Whether the key is bound.
    pub fn contains_key(&self, k: &String) -> (r: bool)
        ensures
            r == self.has(k@),
    {
        self.get(k).is_some()
    }

    /// Binds `k` to `v`, replacing any earlier binding; every other key keeps
    /// its binding. The entry-sequence clauses support byte accounting.
    pub fn insert(&mut self, k: String, v: V)
        requires
            old(self).wf(),
        ensures
            final(self).wf(),
            final(self).get_view(k@) == Some(v),
            forall|k2: Seq<char>|
                k2 != k@ ==> #[trigger] final(self).get_view(k2) == old(self).get_view(k2),
            old(self).get_view(k@) is None ==> final(self).entries@ == old(self).entries@.push(
                (k, v),
            ),
            old(self).get_view(k@) is Some ==> exists|i: int|
                0 <= i < old(self).entries@.len() && (#[trigger] old(self).entries@[i]).0@ == k@
                    && final(self).entries@ == old(self).entries@.update(i, (k, v))
                    && old(self).get_view(k@) == Some(old(self).entries@[i].1),
    {
        match self.find(&k) {
            Some(i) => {
                proof {
                    Self::lemma_seq_get_found(self.entries@, k@, i as int);
                }
                let replaced = self.entries.remove(i);
                self.entries.insert(i, (k, v));
                let _ = replaced;
                proof {
                    assert(self.entries@ =~= old(self).entries@.update(
                        i as int,
                        self.entries@[i as int],
                    ));
                    Self::lemma_seq_get_update(
                        old(self).entries@,
                        k@,
                        i as int,
                        self.entries@[i as int],
                    );
                    assert forall|k2: Seq<char>|
                        k2 != k@ implies #[trigger] self.get_view(k2) == old(self).get_view(
                        k2,
                    ) by {
                        Self::lemma_seq_get_update(
                            old(self).entries@,
                            k2,
                            i as int,
                            self.entries@[i as int],
                        );
                    }
                }
            },
            None => {
                proof {
                    Self::lemma_seq_get_absent(self.entries@, k@);
                }
                self.entries.push((k, v));
                proof {
                    assert(self.entries@ == old(self).entries@.push(self.entries@.last()));
                    assert forall|k2: Seq<char>| true implies ((k2 != k@ ==> #[trigger] self
                        .get_view(k2) == old(self).get_view(k2)) && (k2 == k@ ==> self.get_view(
                        k2,
                    ) == Some(self.entries@.last().1))) by {
                        Self::lemma_seq_get_push(old(self).entries@, k2, self.entries@.last());
                    }
                }
            },
        }
    }

    /// Unbinds `k` and returns the removed value; every other key keeps its
    /// binding.
    pub fn remove(&mut self, k: &String) -> (r: Option<V>)
        requires
            old(self).wf(),
        ensures
            final(self).wf(),
            final(self).get_view(k@) is None,
            r == old(self).get_view(k@),
            forall|k2: Seq<char>|
                k2 != k@ ==> #[trigger] final(self).get_view(k2) == old(self).get_view(k2),
            old(self).get_view(k@) is None ==> final(self).entries@ == old(self).entries@,
            old(self).get_view(k@) is Some ==> exists|i: int|
                0 <= i < old(self).entries@.len() && (#[trigger] old(self).entries@[i]).0@ == k@
                    && final(self).entries@ == old(self).entries@.remove(i)
                    && old(self).get_view(k@) == Some(old(self).entries@[i].1),
    {
        match self.find(k) {
            Some(i) => {
                proof {
                    Self::lemma_seq_get_found(self.entries@, k@, i as int);
                }
                let entry = self.entries.remove(i);
                proof {
                    assert forall|k2: Seq<char>| true implies ((k2 == k@ ==> #[trigger] self
                        .get_view(k2) is None) && (k2 != k@ ==> self.get_view(k2) == old(
                        self,
                    ).get_view(k2))) by {
                        Self::lemma_seq_get_remove(old(self).entries@, k2, i as int);
                    }
                }
                Some(entry.1)
            },
            None => {
                proof {
                    Self::lemma_seq_get_absent(self.entries@, k@);
                }
                None
            },
        }
    }
}

} // verus!
