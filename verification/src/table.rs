use vstd::prelude::*;

use crate::address::Address;

verus! {

/// A key of a [`Table`]: keys are compared by their views.
pub trait TableKey: View + Sized {
    /// Whether two keys are the same.
    fn same_key(&self, other: &Self) -> (r: bool)
        ensures
            r == (self@ == other@),
    ;

    /// A copy of the key.
    fn copy_key(&self) -> (r: Self)
        ensures
            r@ == self@,
    ;
}

impl TableKey for Address {
    fn same_key(&self, other: &Self) -> (r: bool) {
        self.same(other)
    }

    fn copy_key(&self) -> (r: Self) {
        self.duplicate()
    }
}

impl TableKey for u64 {
    fn same_key(&self, other: &Self) -> (r: bool) {
        *self == *other
    }

    fn copy_key(&self) -> (r: Self) {
        *self
    }
}

impl TableKey for (Address, Address) {
    fn same_key(&self, other: &Self) -> (r: bool) {
        self.0.same(&other.0) && self.1.same(&other.1)
    }

    fn copy_key(&self) -> (r: Self) {
        (self.0.duplicate(), self.1.duplicate())
    }
}

impl TableKey for (Address, u64) {
    fn same_key(&self, other: &Self) -> (r: bool) {
        self.0.same(&other.0) && self.1 == other.1
    }

    fn copy_key(&self) -> (r: Self) {
        (self.0.duplicate(), self.1)
    }
}

/// The map that a sequence of key/value pairs denotes (a later pair for the
/// same key overrides an earlier one).
pub open spec fn pairs_map<KV, V>(s: Seq<(KV, V)>) -> Map<KV, V>
    decreases s.len(),
{
    if s.len() == 0 {
        Map::empty()
    } else {
        pairs_map(s.drop_last()).insert(s.last().0, s.last().1)
    }
}

/// No key occurs twice in the sequence.
pub open spec fn keys_distinct<KV, V>(s: Seq<(KV, V)>) -> bool {
    forall|i: int, j: int| 0 <= i < j < s.len() ==> s[i].0 != s[j].0
}

proof fn lemma_pairs_map_finite<KV, V>(s: Seq<(KV, V)>)
    ensures
        pairs_map(s).dom().finite(),
    decreases s.len(),
{
    if s.len() > 0 {
        lemma_pairs_map_finite(s.drop_last());
    }
}

proof fn lemma_pairs_map_absent<KV, V>(s: Seq<(KV, V)>, k: KV)
    requires
        forall|i: int| 0 <= i < s.len() ==> s[i].0 != k,
    ensures
        !pairs_map(s).contains_key(k),
    decreases s.len(),
{
    if s.len() > 0 {
        lemma_pairs_map_absent(s.drop_last(), k);
    }
}

proof fn lemma_pairs_map_at<KV, V>(s: Seq<(KV, V)>, i: int)
    requires
        keys_distinct(s),
        0 <= i < s.len(),
    ensures
        pairs_map(s).contains_key(s[i].0),
        pairs_map(s)[s[i].0] == s[i].1,
    decreases s.len(),
{
    if i < s.len() - 1 {
        lemma_pairs_map_at(s.drop_last(), i);
    }
}

proof fn lemma_pairs_map_update<KV, V>(s: Seq<(KV, V)>, i: int, v: V)
    requires
        keys_distinct(s),
        0 <= i < s.len(),
    ensures
        pairs_map(s.update(i, (s[i].0, v))) =~= pairs_map(s).insert(s[i].0, v),
    decreases s.len(),
{
    let t = s.update(i, (s[i].0, v));
    if i == s.len() - 1 {
        assert(t.drop_last() =~= s.drop_last());
        lemma_pairs_map_absent(s.drop_last(), s[i].0);
    } else {
        assert(t.drop_last() =~= s.drop_last().update(i, (s[i].0, v)));
        lemma_pairs_map_update(s.drop_last(), i, v);
    }
}

proof fn lemma_pairs_map_remove<KV, V>(s: Seq<(KV, V)>, i: int)
    requires
        keys_distinct(s),
        0 <= i < s.len(),
    ensures
        pairs_map(s.remove(i)) =~= pairs_map(s).remove(s[i].0),
    decreases s.len(),
{
    let t = s.remove(i);
    if i == s.len() - 1 {
        assert(t =~= s.drop_last());
        lemma_pairs_map_absent(s.drop_last(), s[i].0);
    } else {
        assert(t.drop_last() =~= s.drop_last().remove(i));
        assert(t.last() == s.last());
        lemma_pairs_map_remove(s.drop_last(), i);
    }
}

/// A finite map from keys to values, held as a sequence of key/value pairs
/// in which no key occurs twice.
pub struct Table<K, V> {
    entries: Vec<(K, V)>,
}

impl<K: TableKey, V> Table<K, V> {
    /// The entries, with each key taken by its view.
    pub closed spec fn pairs(self) -> Seq<(K::V, V)> {
        self.entries@.map_values(|e: (K, V)| (e.0@, e.1))
    }

    /// Well-formedness: no key occurs twice.
    pub closed spec fn wf(self) -> bool {
        keys_distinct(self.pairs())
    }

    /// The map that the table holds.
    pub closed spec fn map(self) -> Map<K::V, V> {
        pairs_map(self.pairs())
    }

    /// A well-formed table denotes a finite map.
    pub proof fn lemma_finite(self)
        ensures
            self.map().dom().finite(),
    {
        lemma_pairs_map_finite(self.pairs());
    }

    /// The map that the first `i` entries denote.
    pub closed spec fn prefix_map(self, i: int) -> Map<K::V, V> {
        pairs_map(self.pairs().take(i))
    }

    /// Entry `i` is in the map; entry `i` adds a fresh key to the map of the
    /// entries before it; all entries together denote the map.
    pub proof fn lemma_entry(self, i: int)
        requires
            self.wf(),
            0 <= i < self.pairs().len(),
        ensures
            self.map().contains_key(self.pairs()[i].0),
            self.map()[self.pairs()[i].0] == self.pairs()[i].1,
            !self.prefix_map(i).contains_key(self.pairs()[i].0),
            self.prefix_map(i + 1) == self.prefix_map(i).insert(self.pairs()[i].0, self.pairs()[i].1),
            self.prefix_map(i).dom().finite(),
    {
        lemma_pairs_map_at(self.pairs(), i);
        let s = self.pairs();
        assert(s.take(i + 1).drop_last() =~= s.take(i));
        lemma_pairs_map_absent(s.take(i), s[i].0);
        lemma_pairs_map_finite(s.take(i));
    }

    /// No entries denote the empty map, and all entries denote the table's map.
    pub proof fn lemma_prefix_ends(self)
        ensures
            self.prefix_map(0) == Map::<K::V, V>::empty(),
            self.prefix_map(self.pairs().len() as int) == self.map(),
    {
        assert(self.pairs().take(0) =~= Seq::empty());
        assert(self.pairs().take(self.pairs().len() as int) =~= self.pairs());
    }

    /// Every key of the map is the key of an entry.
    pub proof fn lemma_key_has_entry(self, k: K::V)
        requires
            self.map().contains_key(k),
        ensures
            exists|i: int| 0 <= i < self.pairs().len() && self.pairs()[i].0 == k,
    {
        if forall|i: int| 0 <= i < self.pairs().len() ==> self.pairs()[i].0 != k {
            lemma_pairs_map_absent(self.pairs(), k);
        }
    }

    /// The number of entries.
    pub fn len(&self) -> (n: usize)
        ensures
            n == self.pairs().len(),
    {
        self.entries.len()
    }

    /// The key of entry `i`.
    pub fn key_at(&self, i: usize) -> (k: &K)
        requires
            i < self.pairs().len(),
        ensures
            k@ == self.pairs()[i as int].0,
    {
        &self.entries[i].0
    }

    /// The value of entry `i`.
    pub fn value_at(&self, i: usize) -> (v: &V)
        requires
            i < self.pairs().len(),
        ensures
            *v == self.pairs()[i as int].1,
    {
        &self.entries[i].1
    }

    /// The empty table.
    pub fn new() -> (t: Self)
        ensures
            t.wf(),
            t.map() == Map::<K::V, V>::empty(),
    {
        let t = Table { entries: Vec::new() };
        assert(t.pairs() =~= Seq::empty());
        t
    }

    fn position(&self, k: &K) -> (r: Option<usize>)
        ensures
            match r {
                Some(i) => i < self.pairs().len() && self.pairs()[i as int].0 == k@,
                None => forall|i: int| 0 <= i < self.pairs().len() ==> self.pairs()[i].0 != k@,
            },
    {
        let n = self.entries.len();
        let mut i: usize = 0;
        while i < n
            invariant
                n == self.entries@.len(),
                i <= n,
                forall|j: int| 0 <= j < i ==> self.pairs()[j].0 != k@,
            decreases n - i,
        {
            if self.entries[i].0.same_key(k) {
                return Some(i);
            }
            i = i + 1;
        }
        None
    }

    /// The value stored under `k`, if any.
    pub fn get(&self, k: &K) -> (r: Option<&V>)
        requires
            self.wf(),
        ensures
            match r {
                Some(v) => self.map().contains_key(k@) && *v == self.map()[k@],
                None => !self.map().contains_key(k@),
            },
    {
        match self.position(k) {
            Some(i) => {
                proof {
                    lemma_pairs_map_at(self.pairs(), i as int);
                }
                Some(&self.entries[i].1)
            },
            None => {
                proof {
                    lemma_pairs_map_absent(self.pairs(), k@);
                }
                None
            },
        }
    }

    /// Stores `v` under `k`, replacing any earlier value.
    pub fn insert(&mut self, k: K, v: V)
        requires
            old(self).wf(),
        ensures
            final(self).wf(),
            final(self).map() == old(self).map().insert(k@, v),
    {
        match self.position(&k) {
            Some(i) => {
                let ghost s = self.pairs();
                proof {
                    lemma_pairs_map_update(s, i as int, v);
                }
                self.entries.set(i, (k, v));
                assert(self.pairs() =~= s.update(i as int, (s[i as int].0, v)));
            },
            None => {
                let ghost s = self.pairs();
                let ghost kv = k@;
                self.entries.push((k, v));
                assert(self.pairs() =~= s.push((kv, v)));
                assert(self.pairs().drop_last() =~= s);
            },
        }
    }

    /// Removes the value stored under `k`, if any.
    pub fn remove(&mut self, k: &K)
        requires
            old(self).wf(),
        ensures
            final(self).wf(),
            final(self).map() == old(self).map().remove(k@),
    {
        match self.position(k) {
            Some(i) => {
                let ghost s = self.pairs();
                proof {
                    lemma_pairs_map_remove(s, i as int);
                }
                self.entries.remove(i);
                assert(self.pairs() =~= s.remove(i as int));
            },
            None => {
                proof {
                    lemma_pairs_map_absent(self.pairs(), k@);
                }
                assert(self.map() =~= self.map().remove(k@));
            },
        }
    }
}

impl<K: TableKey, V: Copy> Table<K, V> {
    /// A copy of the table.
    pub fn duplicate(&self) -> (r: Self)
        requires
            self.wf(),
        ensures
            r.wf(),
            r.map() == self.map(),
    {
        let mut out: Vec<(K, V)> = Vec::new();
        let n = self.entries.len();
        let mut i: usize = 0;
        while i < n
            invariant
                n == self.entries@.len(),
                i <= n,
                out@.map_values(|e: (K, V)| (e.0@, e.1)) =~= self.pairs().take(i as int),
            decreases n - i,
        {
            let k = self.entries[i].0.copy_key();
            let v = self.entries[i].1;
            let ghost before = out@;
            out.push((k, v));
            proof {
                assert(out@ =~= before.push((k, v)));
                assert(out@.map_values(|e: (K, V)| (e.0@, e.1)) =~= before.map_values(
                    |e: (K, V)| (e.0@, e.1),
                ).push((k@, v)));
                assert(self.pairs()[i as int] == (self.entries@[i as int].0@, self.entries@[i as int].1));
                assert(self.pairs().take(i + 1) =~= self.pairs().take(i as int).push(self.pairs()[i as int]));
            }
            i = i + 1;
        }
        let r = Table { entries: out };
        assert(r.pairs() =~= self.pairs());
        r
    }
}

} // verus!
