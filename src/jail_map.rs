use crate::model::{RecordView, ViewRecord};
use vstd::string::StringExecFns;
use vstd::prelude::*;

verus! {

/// A map from jail id to view record, kept as a list of entries whose keys
/// are pairwise distinct.
pub struct JailMap {
    pub(crate) entries: Vec<(String, ViewRecord)>,
}

impl JailMap {
    pub open(crate) spec fn key(&self, i: int) -> Seq<char> {
        self.entries@[i].0@
    }

    pub open(crate) spec fn has_key(&self, k: Seq<char>) -> bool {
        exists|i: int| 0 <= i < self.entries@.len() && #[trigger] self.key(i) == k
    }

    pub open(crate) spec fn rec(&self, i: int) -> RecordView {
        self.entries@[i].1@
    }

    /// Keys are pairwise distinct.
    pub open(crate) spec fn wf(&self) -> bool {
        forall|i: int, j: int|
            0 <= i < self.entries@.len() && 0 <= j < self.entries@.len() && i != j ==> self.key(i)
                != self.key(j)
    }

    /// Number of entries.
    pub open(crate) spec fn size(&self) -> nat {
        self.entries@.len()
    }
}

impl View for JailMap {
    type V = Map<Seq<char>, RecordView>;

    open(crate) spec fn view(&self) -> Map<Seq<char>, RecordView> {
        Map::new(
            |k: Seq<char>| self.has_key(k),
            |k: Seq<char>|
                self.entries@[choose|i: int| 0 <= i < self.entries@.len() && self.key(i) == k].1@,
        )
    }
}

impl JailMap {
    /// The entry at a given index is what the map holds for its key.
    pub(crate) proof fn lemma_entry(&self, i: int)
        requires
            self.wf(),
            0 <= i < self.entries@.len(),
        ensures
            self@.contains_key(self.key(i)),
            self@[self.key(i)] == self.entries@[i].1@,
    {
        assert(self.has_key(self.key(i)));
        let j = choose|j: int| 0 <= j < self.entries@.len() && self.key(j) == self.key(i);
        assert(j == i);
    }

    /// The empty map.
    pub fn new() -> (r: JailMap)
        ensures
            r.wf(),
            r@ == Map::<Seq<char>, RecordView>::empty(),
    {
        let r = JailMap { entries: Vec::new() };
        assert(r@ =~= Map::<Seq<char>, RecordView>::empty());
        r
    }

    /// Index of the entry with key `k`, if any.
    pub(crate) fn find(&self, k: &str) -> (r: Option<usize>)
        requires
            self.wf(),
        ensures
            r is None <==> !self@.contains_key(k@),
            r matches Some(i) ==> i < self.entries@.len() && self.key(i as int) == k@,
    {
        let key = String::from_str(k);
        let mut i: usize = 0;
        while i < self.entries.len()
            invariant
                self.wf(),
                key@ == k@,
                i <= self.entries@.len(),
                forall|j: int| 0 <= j < i ==> self.key(j) != k@,
            decreases self.entries@.len() - i,
        {
            if self.entries[i].0 == key {
                proof { self.lemma_entry(i as int); }
                return Some(i);
            }
            i = i + 1;
        }
        proof {
            if self.has_key(k@) {
                let j = choose|j: int| 0 <= j < self.entries@.len() && self.key(j) == k@;
                assert(self.key(j) != k@);
            }
        }
        None
    }

    /// Replaces the record at index `i`, keeping its key.
    pub(crate) fn set_at(&mut self, i: usize, v: ViewRecord)
        requires
            old(self).wf(),
            i < old(self).entries@.len(),
        ensures
            final(self).wf(),
            final(self).entries@.len() == old(self).entries@.len(),
            forall|j: int| 0 <= j < final(self).entries@.len() ==> #[trigger] final(self).key(j) == old(self).key(j),
            final(self)@ == old(self)@.insert(old(self).key(i as int), v@),
            final(self).rec(i as int) == v@,
            forall|j: int| 0 <= j < final(self).entries@.len() && j != i ==> #[trigger] final(self).rec(j) == old(self).rec(j),
    {
        let ghost pre = *self;
        let ghost k = self.key(i as int);
        let key = self.entries[i].0.clone();
        self.entries.set(i, (key, v));
        assert forall|j: int| 0 <= j < self.entries@.len() implies #[trigger] self.key(j) == pre.key(j) by {}
        proof {
            self.lemma_entry(i as int);
            assert forall|q: Seq<char>| #[trigger] self@.contains_key(q) <==> pre@.insert(k, v@).contains_key(q) by {
                if self.has_key(q) {
                    let j = choose|j: int| 0 <= j < self.entries@.len() && self.key(j) == q;
                    assert(pre.key(j) == q);
                } else if pre.has_key(q) {
                    let j = choose|j: int| 0 <= j < pre.entries@.len() && pre.key(j) == q;
                    assert(self.key(j) == q);
                }
            }
            assert forall|q: Seq<char>| #[trigger] self@.contains_key(q) implies self@[q] == pre@.insert(k, v@)[q] by {
                let j = choose|j: int| 0 <= j < self.entries@.len() && self.key(j) == q;
                self.lemma_entry(j);
                if j != i {
                    pre.lemma_entry(j);
                }
            }
            assert(self@ =~= pre@.insert(k, v@));
        }
    }

    /// Sets the record of key `k`, adding the key if it is new.
    pub fn insert(&mut self, k: String, v: ViewRecord)
        requires
            old(self).wf(),
        ensures
            final(self).wf(),
            final(self)@ == old(self)@.insert(k@, v@),
    {
        match self.find(k.as_str()) {
            Some(i) => {
                self.set_at(i, v);
            },
            None => {
                let ghost pre = *self;
                let ghost kv = k@;
                let ghost vv = v@;
                self.entries.push((k, v));
                let ghost n = pre.entries@.len() as int;
                assert(self.key(n) == kv);
                assert forall|j: int| 0 <= j < n implies #[trigger] self.key(j) == pre.key(j) by {}
                assert forall|a: int, b: int|
                    0 <= a < self.entries@.len() && 0 <= b < self.entries@.len() && a != b implies self.key(a) != self.key(b) by {
                    if a == n {
                        assert(pre@.contains_key(pre.key(b)) ) by { pre.lemma_entry(b); }
                    } else if b == n {
                        assert(pre@.contains_key(pre.key(a)) ) by { pre.lemma_entry(a); }
                    }
                }
                assert forall|q: Seq<char>| #[trigger] self@.contains_key(q) <==> pre@.insert(kv, vv).contains_key(q) by {
                    if self.has_key(q) {
                        let j = choose|j: int| 0 <= j < self.entries@.len() && self.key(j) == q;
                        if j < n { assert(pre.key(j) == q); }
                    } else if pre.has_key(q) {
                        let j = choose|j: int| 0 <= j < pre.entries@.len() && pre.key(j) == q;
                        assert(self.key(j) == q);
                    }
                }
                assert forall|q: Seq<char>| #[trigger] self@.contains_key(q) implies self@[q] == pre@.insert(kv, vv)[q] by {
                    let j = choose|j: int| 0 <= j < self.entries@.len() && self.key(j) == q;
                    self.lemma_entry(j);
                    if j != n {
                        pre.lemma_entry(j);
                    }
                }
                assert(self@ =~= pre@.insert(kv, vv));
            },
        }
    }

    /// The record of key `k`, if any.
    pub fn get(&self, k: &str) -> (r: Option<&ViewRecord>)
        requires
            self.wf(),
        ensures
            r is Some <==> self@.contains_key(k@),
            r matches Some(v) ==> v@ == self@[k@],
    {
        match self.find(k) {
            Some(i) => {
                proof { self.lemma_entry(i as int); }
                Some(&self.entries[i].1)
            },
            None => None,
        }
    }

    /// Number of entries.
    pub fn len(&self) -> (r: usize)
        ensures
            r == self.size(),
    {
        self.entries.len()
    }

    /// The key and record of the entry at index `i`.
    pub fn entry(&self, i: usize) -> (r: (&String, &ViewRecord))
        requires
            self.wf(),
            i < self.size(),
        ensures
            self@.contains_key(r.0@),
            self@[r.0@] == r.1@,
    {
        proof { self.lemma_entry(i as int); }
        (&self.entries[i].0, &self.entries[i].1)
    }

    /// A copy of the whole map.
    pub fn copy(&self) -> (r: JailMap)
        requires
            self.wf(),
        ensures
            r.wf(),
            r@ == self@,
    {
        let mut out: Vec<(String, ViewRecord)> = Vec::new();
        let mut i: usize = 0;
        while i < self.entries.len()
            invariant
                i <= self.entries@.len(),
                out@.len() == i,
                forall|j: int| 0 <= j < i ==> #[trigger] out@[j].0@ == self.key(j) && out@[j].1@ == self.rec(j),
            decreases self.entries@.len() - i,
        {
            out.push((self.entries[i].0.clone(), self.entries[i].1.copy()));
            i = i + 1;
        }
        let r = JailMap { entries: out };
        assert forall|j: int| 0 <= j < r.entries@.len() implies #[trigger] r.key(j) == self.key(j) && r.rec(j) == self.rec(j) by {
            assert(out@[j].0@ == self.key(j));
        }
        proof {
            assert forall|q: Seq<char>| #[trigger] r@.contains_key(q) <==> self@.contains_key(q) by {
                if r.has_key(q) {
                    let j = choose|j: int| 0 <= j < r.entries@.len() && r.key(j) == q;
                    assert(self.key(j) == q);
                }
                if self.has_key(q) {
                    let j = choose|j: int| 0 <= j < self.entries@.len() && self.key(j) == q;
                    assert(r.key(j) == q);
                }
            }
            assert forall|q: Seq<char>| #[trigger] r@.contains_key(q) implies r@[q] == self@[q] by {
                let j = choose|j: int| 0 <= j < r.entries@.len() && r.key(j) == q;
                r.lemma_entry(j);
                self.lemma_entry(j);
            }
            assert(r@ =~= self@);
        }
        r
    }
}

} // verus!
