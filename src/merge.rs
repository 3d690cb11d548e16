use vstd::prelude::*;
use crate::classify::{normalize_id, normalized};
use crate::potion::{PotionRecord, PotionView};

verus! {

/// Potions by merge key, in the order in which their keys first came.
pub struct PotionSet {
    keys: Vec<String>,
    records: Vec<PotionRecord>,
}

/// Potions merged one after another: each overrides any earlier one with the
/// same key.
pub open spec fn merged(m: Map<Seq<char>, PotionView>, s: Seq<PotionView>) -> Map<
    Seq<char>,
    PotionView,
>
    decreases s.len(),
{
    if s.len() == 0 {
        m
    } else {
        merged(m, s.drop_last()).insert(normalized(s.last().id), s.last())
    }
}

/// The last potion of a sequence with a given key.
pub open spec fn last_with_key(s: Seq<PotionView>, k: Seq<char>) -> Option<PotionView>
    decreases s.len(),
{
    if s.len() == 0 {
        None
    } else if normalized(s.last().id) == k {
        Some(s.last())
    } else {
        last_with_key(s.drop_last(), k)
    }
}

impl PotionSet {
    pub closed spec fn wf(&self) -> bool {
        &&& self.keys.len() == self.records.len()
        &&& forall|i: int|
            0 <= i < self.keys.len() ==> #[trigger] self.keys@[i]@ == normalized(
                self.records@[i].id@,
            )
        &&& forall|i: int, j: int|
            0 <= i < j < self.keys.len() ==> self.keys@[i]@ != self.keys@[j]@
    }

    spec fn has_key(&self, k: Seq<char>) -> bool {
        exists|i: int| 0 <= i < self.keys.len() && self.keys@[i]@ == k
    }

    spec fn index_of(&self, k: Seq<char>) -> int {
        choose|i: int| 0 <= i < self.keys.len() && self.keys@[i]@ == k
    }

    /// The potions by merge key.
    pub closed spec fn view(&self) -> Map<Seq<char>, PotionView> {
        Map::new(|k: Seq<char>| self.has_key(k), |k: Seq<char>| self.records@[self.index_of(k)]@)
    }

    /// The potions in the order in which their keys first came.
    pub closed spec fn in_order(&self) -> Seq<PotionView> {
        self.records@.map_values(|r: PotionRecord| r@)
    }

    /// An empty set.
    pub fn new() -> (s: PotionSet)
        ensures
            s.wf(),
            s.view() == Map::<Seq<char>, PotionView>::empty(),
    {
        let s = PotionSet { keys: Vec::new(), records: Vec::new() };
        assert(s.view() =~= Map::<Seq<char>, PotionView>::empty());
        s
    }

    /// Number of potions.
    pub fn len(&self) -> (n: usize)
        requires
            self.wf(),
        ensures
            n == self.view().len(),
            n == self.in_order().len(),
    {
        proof {
            self.lemma_len();
        }
        self.records.len()
    }

    proof fn lemma_len(&self)
        requires
            self.wf(),
        ensures
            self.view().len() == self.records.len(),
    {
        let keys = self.keys@.map_values(|s: String| s@);
        assert forall|i: int, j: int| 0 <= i < j < keys.len() implies keys[i] != keys[j] by {}
        keys.unique_seq_to_set();
        assert(self.view().dom() =~= keys.to_set()) by {
            assert forall|k: Seq<char>| self.has_key(k) <==> keys.contains(k) by {
                if self.has_key(k) {
                    let i = self.index_of(k);
                    assert(keys[i] == k);
                }
                if keys.contains(k) {
                    let i = choose|i: int| 0 <= i < keys.len() && keys[i] == k;
                    assert(self.keys@[i]@ == k);
                }
            }
        }
    }

    fn find(&self, k: &String) -> (r: Option<usize>)
        requires
            self.wf(),
        ensures
            r matches Some(i) ==> i < self.keys.len() && self.keys@[i as int]@ == k@,
            r is None ==> !self.has_key(k@),
    {
        let mut i: usize = 0;
        while i < self.keys.len()
            invariant
                i <= self.keys.len(),
                forall|j: int| 0 <= j < i ==> self.keys@[j]@ != k@,
            decreases self.keys.len() - i,
        {
            if self.keys[i] == *k {
                return Some(i);
            }
            i = i + 1;
        }
        None
    }

    /// Whether a potion with the given merge key is in the set.
    pub fn contains_key(&self, k: &String) -> (r: bool)
        requires
            self.wf(),
        ensures
            r == self.view().contains_key(k@),
    {
        self.find(k).is_some()
    }

    /// Adds a potion; it replaces any potion with the same merge key, which
    /// keeps its place in the order.
    pub fn insert(&mut self, r: PotionRecord)
        requires
            old(self).wf(),
        ensures
            final(self).wf(),
            final(self).view() == old(self).view().insert(normalized(r.id@), r@),
    {
        let k = normalize_id(r.id.as_str());
        let ghost rv = r@;
        match self.find(&k) {
            Some(i) => {
                self.records.set(i, r);
                proof {
                    assert forall|j: int| 0 <= j < self.keys.len() implies #[trigger] self.keys@[j]@
                        == normalized(self.records@[j].id@) by {}
                }
                assert(self.view() =~= old(self).view().insert(k@, rv)) by {
                    assert forall|q: Seq<char>| #[trigger] self.view().contains_key(q) implies self.view()[q]
                        == old(self).view().insert(k@, rv)[q] by {
                        let a = self.index_of(q);
                        if q != k@ {
                            let b = old(self).index_of(q);
                            assert(a == b);
                        } else {
                            assert(a == i);
                        }
                    }
                }
            },
            None => {
                self.keys.push(k);
                self.records.push(r);
                proof {
                    let n = self.keys.len() - 1;
                    assert(self.keys@[n]@ == k@);
                    assert forall|j: int| 0 <= j < self.keys.len() implies #[trigger] self.keys@[j]@
                        == normalized(self.records@[j].id@) by {
                        if j < n {
                            assert(old(self).keys@[j]@ == normalized(old(self).records@[j].id@));
                        }
                    }
                    assert forall|a: int, b: int|
                        0 <= a < b < self.keys.len() implies self.keys@[a]@ != self.keys@[b]@ by {
                        if b == n {
                            assert(old(self).keys@[a]@ != k@);
                        }
                    }
                    assert(self.has_key(k@));
                    assert forall|q: Seq<char>| self.has_key(q) <==> old(self).view().insert(k@, rv).contains_key(q) by {
                        if self.has_key(q) && q != k@ {
                            let a = self.index_of(q);
                            assert(old(self).keys@[a]@ == q);
                        }
                        if old(self).has_key(q) {
                            let a = old(self).index_of(q);
                            assert(self.keys@[a]@ == q);
                        }
                    }
                    assert forall|q: Seq<char>| #[trigger] self.view().contains_key(q) implies self.view()[q]
                        == old(self).view().insert(k@, rv)[q] by {
                        let a = self.index_of(q);
                        if q != k@ {
                            let b = old(self).index_of(q);
                            assert(self.keys@[b]@ == q);
                            assert(a == b);
                        } else {
                            assert(self.keys@[n]@ == q);
                            assert(a == n);
                        }
                    }
                }
                assert(self.view() =~= old(self).view().insert(k@, rv));
            },
        }
    }

    /// The potions, in the order in which their keys first came: each resolved
    /// potion once.
    pub fn into_records(self) -> (v: Vec<PotionRecord>)
        requires
            self.wf(),
        ensures
            v@.map_values(|r: PotionRecord| r@) == self.in_order(),
            v.len() == self.view().len(),
            forall|i: int|
                0 <= i < v.len() ==> self.view().contains_key(normalized(#[trigger] v@[i].id@))
                    && self.view()[normalized(v@[i].id@)] == v@[i]@,
            forall|i: int, j: int|
                0 <= i < j < v.len() ==> normalized(v@[i].id@) != normalized(v@[j].id@),
    {
        proof {
            self.lemma_len();
            assert forall|i: int| 0 <= i < self.records.len() implies self.view().contains_key(
                normalized(#[trigger] self.records@[i].id@),
            ) && self.view()[normalized(self.records@[i].id@)] == self.records@[i]@ by {
                let k = self.keys@[i]@;
                assert(self.has_key(k));
                let a = self.index_of(k);
                assert(a == i);
            }
            assert forall|i: int, j: int| 0 <= i < j < self.records.len() implies normalized(
                self.records@[i].id@,
            ) != normalized(self.records@[j].id@) by {
                assert(self.keys@[i]@ == normalized(self.records@[i].id@));
                assert(self.keys@[j]@ == normalized(self.records@[j].id@));
            }
        }
        self.records
    }
}

/// The result of merging potions: for each key, the last potion with it, or
/// what the map held before when no potion has it.
pub proof fn lemma_merged_last_wins(m: Map<Seq<char>, PotionView>, s: Seq<PotionView>, k: Seq<char>)
    ensures
        last_with_key(s, k) matches Some(v) ==> merged(m, s).contains_key(k) && merged(m, s)[k]
            == v,
        last_with_key(s, k) is None ==> merged(m, s).contains_key(k) == m.contains_key(k) && (
        m.contains_key(k) ==> merged(m, s)[k] == m[k]),
    decreases s.len(),
{
    if s.len() > 0 {
        lemma_merged_last_wins(m, s.drop_last(), k);
    }
}

/// Potions that do not have key `k` do not change what `k` resolves to, wherever
/// they stand in the order.
pub proof fn lemma_last_with_key_skips(a: Seq<PotionView>, b: Seq<PotionView>, c: Seq<PotionView>, k: Seq<char>)
    requires
        forall|i: int| 0 <= i < b.len() ==> normalized(#[trigger] b[i].id) != k,
    ensures
        last_with_key(a + b + c, k) == last_with_key(a + c, k),
    decreases b.len() + c.len(),
{
    if c.len() > 0 {
        lemma_last_with_key_skips(a, b, c.drop_last(), k);
        assert((a + b + c).drop_last() =~= a + b + c.drop_last());
        assert((a + c).drop_last() =~= a + c.drop_last());
    } else if b.len() > 0 {
        lemma_last_with_key_skips(a, b.drop_last(), c, k);
        assert((a + b + c).drop_last() =~= a + b.drop_last() + c);
        assert(b.last() == b[b.len() - 1]);
    } else {
        assert(a + b + c =~= a + c);
    }
}

} // verus!
