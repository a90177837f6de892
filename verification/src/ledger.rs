use vstd::prelude::*;

use crate::sums::{all_nonnegative, every_key, lemma_sum_empty, lemma_sum_insert, sum_all, sum_where};
use crate::table::{Table, TableKey};

verus! {

/// Why moving an amount between two balances was refused.
#[derive(Debug, Clone, Copy, PartialEq, Eq, Structural)]
pub enum MoveFailure {
    /// The amount is zero or negative.
    NonPositiveAmount,
    /// The sender holds less than the amount.
    InsufficientBalance,
    /// The receiver's new balance does not fit in an `i128`.
    Overflow,
}

/// The balance recorded under `k`, zero when none is recorded.
pub open spec fn amount_of<K>(m: Map<K, i128>, k: K) -> i128 {
    if m.contains_key(k) {
        m[k]
    } else {
        0
    }
}

/// Moving `amount` from the balance under `from` to the balance under `to`:
/// the amount must be positive and covered by the sender's balance; the
/// sender's balance is written first, then the receiver's balance (read after
/// that write) is raised by the amount.
pub open spec fn move_amount<K>(m: Map<K, i128>, from: K, to: K, amount: i128) -> Result<
    Map<K, i128>,
    MoveFailure,
> {
    if amount <= 0 {
        Err(MoveFailure::NonPositiveAmount)
    } else if amount_of(m, from) < amount {
        Err(MoveFailure::InsufficientBalance)
    } else {
        let m1 = m.insert(from, (amount_of(m, from) - amount) as i128);
        let to_bal = amount_of(m1, to);
        if to_bal + amount > i128::MAX {
            Err(MoveFailure::Overflow)
        } else {
            Ok(m1.insert(to, (to_bal + amount) as i128))
        }
    }
}

/// The balance recorded under `k` in the table, zero when none is recorded.
pub fn read_amount<K: TableKey>(t: &Table<K, i128>, k: &K) -> (r: i128)
    requires
        t.wf(),
    ensures
        r == amount_of(t.map(), k@),
{
    match t.get(k) {
        Some(v) => *v,
        None => 0,
    }
}

/// Moves `amount` from `from` to `to` within the table, as [`move_amount`]
/// describes; on refusal the table is left as it was.
pub fn move_in_table<K: TableKey>(t: &mut Table<K, i128>, from: &K, to: &K, amount: i128) -> (r:
    Result<(), MoveFailure>)
    requires
        old(t).wf(),
    ensures
        final(t).wf(),
        match move_amount(old(t).map(), from@, to@, amount) {
            Ok(m) => r is Ok && final(t).map() == m,
            Err(e) => r == Err::<(), MoveFailure>(e) && final(t).map() == old(t).map(),
        },
{
    if amount <= 0 {
        return Err(MoveFailure::NonPositiveAmount);
    }
    let from_bal = read_amount(t, from);
    if from_bal < amount {
        return Err(MoveFailure::InsufficientBalance);
    }
    let new_from = from_bal - amount;
    let to_bal = if from.same_key(to) {
        new_from
    } else {
        read_amount(t, to)
    };
    if to_bal > i128::MAX - amount {
        return Err(MoveFailure::Overflow);
    }
    t.insert(from.copy_key(), new_from);
    t.insert(to.copy_key(), to_bal + amount);
    Ok(())
}

/// A successful move keeps the sum over any selection that selects the
/// sender and the receiver alike, keeps the map finite, and keeps all values
/// at least zero.
pub proof fn lemma_move_keeps_sum<K>(
    m: Map<K, i128>,
    w: spec_fn(K) -> bool,
    from: K,
    to: K,
    amount: i128,
)
    requires
        m.dom().finite(),
        move_amount(m, from, to, amount) is Ok,
        w(from) == w(to),
    ensures
        match move_amount(m, from, to, amount) {
            Ok(m2) => {
                &&& m2.dom().finite()
                &&& sum_where(m2, w) == sum_where(m, w)
                &&& all_nonnegative(m) ==> all_nonnegative(m2)
            },
            Err(_) => false,
        },
{
    let fb = amount_of(m, from);
    let m1 = m.insert(from, (fb - amount) as i128);
    lemma_sum_insert(m, w, from, (fb - amount) as i128);
    let tb = amount_of(m1, to);
    lemma_sum_insert(m1, w, to, (tb + amount) as i128);
}

/// With values at least zero, the entries before position `i` sum to at most
/// the whole table.
pub proof fn lemma_prefix_sum_bounded<K: TableKey>(t: Table<K, i128>, w: spec_fn(K::V) -> bool, i: int)
    requires
        t.wf(),
        all_nonnegative(t.map()),
        0 <= i <= t.pairs().len(),
    ensures
        sum_where(t.prefix_map(i), w) <= sum_where(t.map(), w),
    decreases t.pairs().len() - i,
{
    if i == t.pairs().len() {
        t.lemma_prefix_ends();
    } else {
        t.lemma_entry(i);
        lemma_sum_insert(t.prefix_map(i), w, t.pairs()[i].0, t.pairs()[i].1);
        lemma_prefix_sum_bounded(t, w, i + 1);
    }
}

/// Whether every value in the table is at least zero.
pub fn all_values_nonnegative<K: TableKey>(t: &Table<K, i128>) -> (r: bool)
    requires
        t.wf(),
    ensures
        r == all_nonnegative(t.map()),
{
    let n = t.len();
    let mut i: usize = 0;
    while i < n
        invariant
            n == t.pairs().len(),
            i <= n,
            t.wf(),
            forall|j: int| 0 <= j < i ==> t.pairs()[j].1 >= 0,
        decreases n - i,
    {
        if *t.value_at(i) < 0 {
            proof {
                t.lemma_entry(i as int);
            }
            return false;
        }
        i = i + 1;
    }
    proof {
        assert forall|k: K::V| t.map().contains_key(k) implies t.map()[k] >= 0 by {
            t.lemma_key_has_entry(k);
            let j = choose|j: int| 0 <= j < t.pairs().len() && t.pairs()[j].0 == k;
            t.lemma_entry(j);
        }
    }
    true
}

/// The sum of the table's values, when all of them are at least zero and
/// the sum fits in an `i128`.
pub fn nonnegative_total<K: TableKey>(t: &Table<K, i128>) -> (r: Option<i128>)
    requires
        t.wf(),
    ensures
        match r {
            Some(s) => all_nonnegative(t.map()) && s == sum_all(t.map()),
            None => !all_nonnegative(t.map()) || sum_all(t.map()) > i128::MAX,
        },
{
    if !all_values_nonnegative(t) {
        return None;
    }
    let n = t.len();
    let mut acc: i128 = 0;
    let mut i: usize = 0;
    proof {
        t.lemma_prefix_ends();
        lemma_sum_empty::<K::V>(every_key());
    }
    while i < n
        invariant
            n == t.pairs().len(),
            i <= n,
            t.wf(),
            all_nonnegative(t.map()),
            acc == sum_all(t.prefix_map(i as int)),
        decreases n - i,
    {
        let v = *t.value_at(i);
        proof {
            t.lemma_entry(i as int);
            lemma_sum_insert(t.prefix_map(i as int), every_key(), t.pairs()[i as int].0, v);
        }
        if acc > i128::MAX - v {
            proof {
                lemma_prefix_sum_bounded(*t, every_key(), i + 1);
            }
            return None;
        }
        acc = acc + v;
        i = i + 1;
    }
    proof {
        t.lemma_prefix_ends();
    }
    Some(acc)
}

/// Whether two tables record the same amounts (an absent key counts as zero).
pub fn same_amounts<K: TableKey>(a: &Table<K, i128>, b: &Table<K, i128>) -> (r: bool)
    requires
        a.wf(),
        b.wf(),
    ensures
        r == forall|k: K::V| amount_of(a.map(), k) == amount_of(b.map(), k),
{
    let n = a.len();
    let mut i: usize = 0;
    while i < n
        invariant
            n == a.pairs().len(),
            i <= n,
            a.wf(),
            b.wf(),
            forall|j: int| 0 <= j < i ==> amount_of(a.map(), #[trigger] a.pairs()[j].0) == amount_of(b.map(), a.pairs()[j].0),
        decreases n - i,
    {
        proof {
            a.lemma_entry(i as int);
        }
        if read_amount(b, a.key_at(i)) != *a.value_at(i) {
            return false;
        }
        i = i + 1;
    }
    let m = b.len();
    let mut j: usize = 0;
    while j < m
        invariant
            m == b.pairs().len(),
            j <= m,
            a.wf(),
            b.wf(),
            forall|l: int| 0 <= l < j ==> amount_of(a.map(), #[trigger] b.pairs()[l].0) == amount_of(b.map(), b.pairs()[l].0),
        decreases m - j,
    {
        proof {
            b.lemma_entry(j as int);
        }
        if read_amount(a, b.key_at(j)) != *b.value_at(j) {
            return false;
        }
        j = j + 1;
    }
    proof {
        assert forall|k: K::V| amount_of(a.map(), k) == amount_of(b.map(), k) by {
            if a.map().contains_key(k) {
                a.lemma_key_has_entry(k);
                let x = choose|x: int| 0 <= x < a.pairs().len() && a.pairs()[x].0 == k;
                assert(amount_of(a.map(), a.pairs()[x].0) == amount_of(b.map(), a.pairs()[x].0));
            } else if b.map().contains_key(k) {
                b.lemma_key_has_entry(k);
                let x = choose|x: int| 0 <= x < b.pairs().len() && b.pairs()[x].0 == k;
                assert(amount_of(a.map(), b.pairs()[x].0) == amount_of(b.map(), b.pairs()[x].0));
            }
        }
    }
    true
}

} // verus!
