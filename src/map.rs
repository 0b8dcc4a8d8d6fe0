//! `GenericMap`: a mapping from column name to `Value`.

use vstd::prelude::*;
use crate::value::{Value, ValueModel};

verus! {

/// The map that a list of entries denotes: each entry inserted in turn,
/// so a later entry for a key replaces an earlier one.
pub open spec fn assoc_map(s: Seq<(Seq<char>, ValueModel)>) -> Map<Seq<char>, ValueModel>
    decreases s.len(),
{
    if s.len() == 0 {
        Map::empty()
    } else {
        assoc_map(s.drop_last()).insert(s.last().0, s.last().1)
    }
}

proof fn lemma_assoc_absent(s: Seq<(Seq<char>, ValueModel)>, k: Seq<char>)
    requires
        forall|j: int| 0 <= j < s.len() ==> s[j].0 != k,
    ensures
        !assoc_map(s).contains_key(k),
    decreases s.len(),
{
    if s.len() > 0 {
        lemma_assoc_absent(s.drop_last(), k);
    }
}

proof fn lemma_assoc_last(s: Seq<(Seq<char>, ValueModel)>, k: Seq<char>, i: int)
    requires
        0 <= i < s.len(),
        s[i].0 == k,
        forall|j: int| i < j < s.len() ==> s[j].0 != k,
    ensures
        assoc_map(s).contains_key(k),
        assoc_map(s)[k] == s[i].1,
    decreases s.len(),
{
    if i < s.len() - 1 {
        lemma_assoc_last(s.drop_last(), k, i);
    }
}

proof fn lemma_assoc_contains(s: Seq<(Seq<char>, ValueModel)>, k: Seq<char>)
    requires
        assoc_map(s).contains_key(k),
    ensures
        exists|i: int| 0 <= i < s.len() && s[i].0 == k,
    decreases s.len(),
{
    if s.len() > 0 && s.last().0 != k {
        lemma_assoc_contains(s.drop_last(), k);
        let i = choose|i: int| 0 <= i < s.drop_last().len() && s.drop_last()[i].0 == k;
        assert(s[i].0 == k);
    }
}

proof fn lemma_assoc_update(
    s: Seq<(Seq<char>, ValueModel)>,
    i: int,
    k: Seq<char>,
    v: ValueModel,
)
    requires
        0 <= i < s.len(),
        s[i].0 == k,
        forall|j: int| i < j < s.len() ==> s[j].0 != k,
    ensures
        assoc_map(s.update(i, (k, v))) == assoc_map(s).insert(k, v),
    decreases s.len(),
{
    let t = s.update(i, (k, v));
    if i == s.len() - 1 {
        assert(t.drop_last() =~= s.drop_last());
        assert(assoc_map(t) =~= assoc_map(s).insert(k, v));
    } else {
        lemma_assoc_update(s.drop_last(), i, k, v);
        assert(t.drop_last() =~= s.drop_last().update(i, (k, v)));
        assert(assoc_map(t) =~= assoc_map(s).insert(k, v));
    }
}

pub open spec fn entry_views(s: Seq<(String, Value)>) -> Seq<(Seq<char>, ValueModel)> {
    s.map_values(|e: (String, Value)| (e.0@, e.1@))
}

/// A mapping from column name to `Value`, with unique keys.
#[derive(Clone, Debug)]
pub struct GenericMap {
    entries: Vec<(String, Value)>,
}

impl GenericMap {
    /// The entries as plain values, in the order they were first inserted.
    pub closed spec fn pairs(&self) -> Seq<(Seq<char>, ValueModel)> {
        entry_views(self.entries@)
    }

    /// The empty map.
    pub fn new() -> (r: GenericMap)
        ensures
            r@ == Map::<Seq<char>, ValueModel>::empty(),
    {
        let r = GenericMap { entries: Vec::new() };
        assert(r.pairs() =~= Seq::<(Seq<char>, ValueModel)>::empty());
        r
    }

    /// Index of the last entry with key `k`, if any.
    fn find(&self, k: &String) -> (r: Option<usize>)
        ensures
            match r {
                Some(i) => i < self.pairs().len() && self.pairs()[i as int].0 == k@
                    && forall|j: int| i < j < self.pairs().len() ==> self.pairs()[j].0 != k@,
                None => forall|j: int| 0 <= j < self.pairs().len() ==> self.pairs()[j].0 != k@,
            },
    {
        let mut i: usize = self.entries.len();
        while i > 0
            invariant
                i <= self.entries@.len(),
                forall|j: int| i <= j < self.pairs().len() ==> self.pairs()[j].0 != k@,
            decreases i,
        {
            i = i - 1;
            if self.entries[i].0.eq(k) {
                return Some(i);
            }
        }
        None
    }

    /// Whether `k` is a key.
    pub fn contains_key(&self, k: &String) -> (r: bool)
        ensures
            r == self@.contains_key(k@),
    {
        match self.find(k) {
            Some(i) => {
                proof { lemma_assoc_last(self.pairs(), k@, i as int); }
                true
            },
            None => {
                proof { lemma_assoc_absent(self.pairs(), k@); }
                false
            },
        }
    }

    /// The value under `k`, if any.
    pub fn get(&self, k: &String) -> (r: Option<&Value>)
        ensures
            match r {
                Some(v) => self@.contains_key(k@) && v@ == self@[k@],
                None => !self@.contains_key(k@),
            },
    {
        match self.find(k) {
            Some(i) => {
                proof { lemma_assoc_last(self.pairs(), k@, i as int); }
                Some(&self.entries[i].1)
            },
            None => {
                proof { lemma_assoc_absent(self.pairs(), k@); }
                None
            },
        }
    }

    /// Sets the value under `k`, replacing any earlier one.
    pub fn insert(&mut self, k: String, v: Value)
        ensures
            final(self)@ == old(self)@.insert(k@, v@),
    {
        match self.find(&k) {
            Some(i) => {
                proof { lemma_assoc_update(old(self).pairs(), i as int, k@, v@); }
                self.entries.set(i, (k, v));
                assert(self.pairs() =~= old(self).pairs().update(i as int, (k@, v@)));
            },
            None => {
                self.entries.push((k, v));
                assert(self.pairs().drop_last() =~= old(self).pairs());
            },
        }
    }

    /// The same map without key `k`.
    pub fn without(&self, k: &String) -> (r: GenericMap)
        ensures
            r@ == self@.remove(k@),
    {
        let mut r = GenericMap::new();
        let mut i: usize = 0;
        while i < self.entries.len()
            invariant
                i <= self.entries@.len(),
                r@ == assoc_map(self.pairs().subrange(0, i as int)).remove(k@),
            decreases self.entries@.len() - i,
        {
            let ghost before = r@;
            assert(self.pairs().subrange(0, i + 1).drop_last() =~= self.pairs().subrange(0, i as int));
            if !self.entries[i].0.eq(k) {
                r.insert(self.entries[i].0.clone(), self.entries[i].1.duplicate());
            }
            assert(r@ =~= assoc_map(self.pairs().subrange(0, i + 1)).remove(k@));
            i = i + 1;
        }
        assert(self.pairs().subrange(0, self.entries@.len() as int) =~= self.pairs());
        r
    }

    /// The entries, in the order their keys were first inserted.
    pub fn entries(&self) -> (r: Vec<(String, Value)>)
        ensures
            entry_views(r@) == self.pairs(),
            assoc_map(entry_views(r@)) == self@,
    {
        let mut r: Vec<(String, Value)> = Vec::new();
        let mut i: usize = 0;
        while i < self.entries.len()
            invariant
                i <= self.entries@.len(),
                entry_views(r@) == self.pairs().subrange(0, i as int),
            decreases self.entries@.len() - i,
        {
            let ghost before = entry_views(r@);
            r.push((self.entries[i].0.clone(), self.entries[i].1.duplicate()));
            assert(entry_views(r@) =~= before.push(self.pairs()[i as int]));
            i = i + 1;
            assert(entry_views(r@) =~= self.pairs().subrange(0, i as int));
        }
        assert(self.pairs().subrange(0, self.entries@.len() as int) =~= self.pairs());
        r
    }

    /// A copy with the same model.
    pub fn duplicate(&self) -> (r: GenericMap)
        ensures
            r@ == self@,
    {
        let mut r = GenericMap::new();
        let mut i: usize = 0;
        while i < self.entries.len()
            invariant
                i <= self.entries@.len(),
                r@ == assoc_map(self.pairs().subrange(0, i as int)),
            decreases self.entries@.len() - i,
        {
            assert(self.pairs().subrange(0, i + 1).drop_last() =~= self.pairs().subrange(0, i as int));
            r.insert(self.entries[i].0.clone(), self.entries[i].1.duplicate());
            i = i + 1;
        }
        assert(self.pairs().subrange(0, self.entries@.len() as int) =~= self.pairs());
        r
    }

    /// Whether every key of `self` is a key of `other` with the same value.
    fn within(&self, other: &GenericMap) -> (r: bool)
        ensures
            r == (forall|k: Seq<char>| #[trigger] self@.contains_key(k) ==> other@.contains_key(k)
                && other@[k] == self@[k]),
    {
        let mut i: usize = 0;
        while i < self.entries.len()
            invariant
                i <= self.entries@.len(),
                forall|j: int| 0 <= j < i ==> #[trigger] other@.contains_key(self.pairs()[j].0)
                    && other@[self.pairs()[j].0] == self@[self.pairs()[j].0],
            decreases self.entries@.len() - i,
        {
            let k = &self.entries[i].0;
            assert(self.pairs()[i as int].0 == k@);
            let mine = self.get(k);
            assert(mine.is_some()) by {
                lemma_assoc_absent_contra(self.pairs(), k@, i as int);
            }
            match other.get(k) {
                Some(theirs) => {
                    if !theirs.eq(mine.unwrap()) {
                        return false;
                    }
                },
                None => {
                    return false;
                },
            }
            assert(forall|j: int| 0 <= j < i + 1 ==> #[trigger] other@.contains_key(self.pairs()[j].0)
                    && other@[self.pairs()[j].0] == self@[self.pairs()[j].0]);
            i = i + 1;
        }
        assert forall|k: Seq<char>| #[trigger] self@.contains_key(k) implies other@.contains_key(k)
            && other@[k] == self@[k] by {
            lemma_assoc_contains(self.pairs(), k);
            let j = choose|j: int| 0 <= j < self.pairs().len() && self.pairs()[j].0 == k;
            assert(other@.contains_key(self.pairs()[j].0));
        }
        true
    }
}

proof fn lemma_assoc_absent_contra(s: Seq<(Seq<char>, ValueModel)>, k: Seq<char>, i: int)
    requires
        0 <= i < s.len(),
        s[i].0 == k,
    ensures
        assoc_map(s).contains_key(k),
    decreases s.len(),
{
    if i < s.len() - 1 {
        lemma_assoc_absent_contra(s.drop_last(), k, i);
    }
}

impl View for GenericMap {
    type V = Map<Seq<char>, ValueModel>;

    open spec fn view(&self) -> Map<Seq<char>, ValueModel> {
        assoc_map(self.pairs())
    }
}

impl PartialEq for GenericMap {
    fn eq(&self, other: &GenericMap) -> (r: bool)
        ensures
            r == (self@ == other@),
    {
        let r = self.within(other) && other.within(self);
        proof {
            if r {
                assert forall|k: Seq<char>| #[trigger] self@.contains_key(k) <==> other@.contains_key(k) by {
                    if self@.contains_key(k) {
                        assert(other@.contains_key(k));
                    }
                    if other@.contains_key(k) {
                        assert(self@.contains_key(k));
                    }
                }
                assert(self@ =~= other@);
            }
        }
        r
    }
}

impl vstd::std_specs::cmp::PartialEqSpecImpl for GenericMap {
    open spec fn obeys_eq_spec() -> bool {
        true
    }

    open spec fn eq_spec(&self, other: &GenericMap) -> bool {
        self@ == other@
    }
}

} // verus!
