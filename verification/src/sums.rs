use vstd::prelude::*;
use vstd::set::fold::{is_fun_commutative, lemma_fold_empty, lemma_fold_insert};

verus! {

/// The step of [`sum_where`]: adds `m[k]` when `k` is selected by `w`.
pub open spec fn sum_step<K>(m: Map<K, i128>, w: spec_fn(K) -> bool) -> spec_fn(int, K) -> int {
    |acc: int, k: K| if w(k) { acc + m[k] } else { acc }
}

/// The sum of the values `m[k]` over the keys `k` of `m` that `w` selects.
pub open spec fn sum_where<K>(m: Map<K, i128>, w: spec_fn(K) -> bool) -> int {
    m.dom().fold(0int, sum_step(m, w))
}

/// Selects every key.
pub open spec fn every_key<K>() -> spec_fn(K) -> bool {
    |k: K| true
}

/// The sum of all values of `m`.
pub open spec fn sum_all<K>(m: Map<K, i128>) -> int {
    sum_where(m, every_key())
}

/// Every value of `m` is at least zero.
pub open spec fn all_nonnegative<K>(m: Map<K, i128>) -> bool {
    forall|k: K| m.contains_key(k) ==> m[k] >= 0
}

proof fn lemma_step_commutative<K>(m: Map<K, i128>, w: spec_fn(K) -> bool)
    ensures
        is_fun_commutative(sum_step(m, w)),
{
}

/// Folding over `s` gives the same sum for two maps that agree on `s`.
proof fn lemma_fold_agree<K>(s: Set<K>, m1: Map<K, i128>, m2: Map<K, i128>, w: spec_fn(K) -> bool)
    requires
        s.finite(),
        forall|k: K| s.contains(k) && w(k) ==> m1[k] == m2[k],
    ensures
        s.fold(0int, sum_step(m1, w)) == s.fold(0int, sum_step(m2, w)),
    decreases s.len(),
{
    lemma_step_commutative(m1, w);
    lemma_step_commutative(m2, w);
    if s.len() == 0 {
        assert(s =~= Set::empty());
        lemma_fold_empty(0int, sum_step(m1, w));
        lemma_fold_empty(0int, sum_step(m2, w));
    } else {
        let a = s.choose();
        let r = s.remove(a);
        assert(r.insert(a) =~= s);
        lemma_fold_insert(r, 0int, sum_step(m1, w), a);
        lemma_fold_insert(r, 0int, sum_step(m2, w), a);
        lemma_fold_agree(r, m1, m2, w);
    }
}

/// The sum over the empty map is zero.
pub proof fn lemma_sum_empty<K>(w: spec_fn(K) -> bool)
    ensures
        sum_where(Map::<K, i128>::empty(), w) == 0,
{
    assert(Map::<K, i128>::empty().dom() =~= Set::empty());
    lemma_fold_empty(0int, sum_step(Map::<K, i128>::empty(), w));
}

/// Storing `v` under `k` changes the sum by the difference of the new and the
/// old value (an absent key counts as zero).
pub proof fn lemma_sum_insert<K>(m: Map<K, i128>, w: spec_fn(K) -> bool, k: K, v: i128)
    requires
        m.dom().finite(),
    ensures
        sum_where(m.insert(k, v), w) == sum_where(m, w) - (if m.contains_key(k) && w(k) {
            m[k] as int
        } else {
            0int
        }) + (if w(k) {
            v as int
        } else {
            0int
        }),
{
    let m2 = m.insert(k, v);
    lemma_step_commutative(m, w);
    lemma_step_commutative(m2, w);
    if m.contains_key(k) {
        let r = m.dom().remove(k);
        assert(r.insert(k) =~= m.dom());
        assert(m2.dom() =~= m.dom());
        lemma_fold_insert(r, 0int, sum_step(m, w), k);
        lemma_fold_insert(r, 0int, sum_step(m2, w), k);
        lemma_fold_agree(r, m, m2, w);
    } else {
        assert(m2.dom() =~= m.dom().insert(k));
        lemma_fold_insert(m.dom(), 0int, sum_step(m2, w), k);
        lemma_fold_agree(m.dom(), m, m2, w);
    }
}

/// Removing `k` lowers the sum by its value (when `k` is present and selected).
pub proof fn lemma_sum_remove<K>(m: Map<K, i128>, w: spec_fn(K) -> bool, k: K)
    requires
        m.dom().finite(),
    ensures
        sum_where(m.remove(k), w) == sum_where(m, w) - (if m.contains_key(k) && w(k) {
            m[k] as int
        } else {
            0int
        }),
{
    let r = m.remove(k);
    if m.contains_key(k) {
        assert(r.insert(k, m[k]) =~= m);
        lemma_sum_insert(r, w, k, m[k]);
    } else {
        assert(r =~= m);
    }
}

/// A sum of values that are all at least zero is at least zero.
pub proof fn lemma_sum_nonnegative<K>(m: Map<K, i128>, w: spec_fn(K) -> bool)
    requires
        m.dom().finite(),
        all_nonnegative(m),
    ensures
        sum_where(m, w) >= 0,
    decreases m.dom().len(),
{
    if m.dom().len() == 0 {
        assert(m =~= Map::empty());
        lemma_sum_empty::<K>(w);
    } else {
        let k = m.dom().choose();
        let r = m.remove(k);
        lemma_sum_remove(m, w, k);
        assert(r.dom() =~= m.dom().remove(k));
        lemma_sum_nonnegative(r, w);
    }
}

/// With values at least zero, one selected entry is at most the sum.
pub proof fn lemma_entry_bounded<K>(m: Map<K, i128>, w: spec_fn(K) -> bool, a: K)
    requires
        m.dom().finite(),
        all_nonnegative(m),
        w(a),
    ensures
        (if m.contains_key(a) { m[a] as int } else { 0int }) <= sum_where(m, w),
{
    let r1 = m.remove(a);
    lemma_sum_remove(m, w, a);
    lemma_sum_nonnegative(r1, w);
}

} // verus!
