//! Sums over finite maps of amounts.

use crate::table::lists_map;
use vstd::prelude::*;

verus! {

/// The sum of the amounts that `m` holds.
pub open spec fn total_of(m: Map<u64, i128>) -> int
    decreases m.dom().len(),
    when m.dom().finite()
{
    if m.dom().len() == 0 {
        0
    } else {
        let k = m.dom().choose();
        m[k] + total_of(m.remove(k))
    }
}

/// Whether every amount that `m` holds is positive.
pub open spec fn all_positive(m: Map<u64, i128>) -> bool {
    forall|k: u64| #[trigger] m.contains_key(k) ==> m[k] > 0
}

/// The sum of nothing is zero.
pub proof fn lemma_total_of_empty()
    ensures
        total_of(Map::<u64, i128>::empty()) == 0,
{
    assert(Map::<u64, i128>::empty().dom() =~= Set::<u64>::empty());
}

/// The sum can be taken starting from any key: it is the amount under that
/// key plus the sum of the rest.
pub proof fn lemma_total_of_split(m: Map<u64, i128>, k: u64)
    requires
        m.dom().finite(),
        m.contains_key(k),
    ensures
        total_of(m) == m[k] + total_of(m.remove(k)),
    decreases m.dom().len(),
{
    assert(m.dom().len() != 0) by {
        if m.dom().len() == 0 {
            assert(m.dom() =~= Set::<u64>::empty());
        }
    }
    let c = m.dom().choose();
    if c != k {
        assert(m.remove(c).dom() =~= m.dom().remove(c));
        assert(m.remove(k).dom() =~= m.dom().remove(k));
        lemma_total_of_split(m.remove(c), k);
        lemma_total_of_split(m.remove(k), c);
        assert(m.remove(c).remove(k) =~= m.remove(k).remove(c));
    }
}

/// A new key adds its amount to the sum.
pub proof fn lemma_total_of_insert(m: Map<u64, i128>, k: u64, amount: i128)
    requires
        m.dom().finite(),
        !m.contains_key(k),
    ensures
        m.insert(k, amount).dom().finite(),
        total_of(m.insert(k, amount)) == total_of(m) + amount,
{
    assert(m.insert(k, amount).dom() =~= m.dom().insert(k));
    lemma_total_of_split(m.insert(k, amount), k);
    assert(m.insert(k, amount).remove(k) =~= m);
}

/// A key that leaves takes its amount out of the sum.
pub proof fn lemma_total_of_remove(m: Map<u64, i128>, k: u64)
    requires
        m.dom().finite(),
        m.contains_key(k),
    ensures
        m.remove(k).dom().finite(),
        total_of(m.remove(k)) == total_of(m) - m[k],
{
    assert(m.remove(k).dom() =~= m.dom().remove(k));
    lemma_total_of_split(m, k);
}

/// Where all amounts are positive, the sum is not negative and no amount
/// exceeds it.
pub proof fn lemma_total_of_bounds(m: Map<u64, i128>)
    requires
        m.dom().finite(),
        all_positive(m),
    ensures
        total_of(m) >= 0,
        forall|k: u64| #[trigger] m.contains_key(k) ==> m[k] <= total_of(m),
    decreases m.dom().len(),
{
    if m.dom().len() != 0 {
        assert forall|k: u64| #[trigger] m.contains_key(k) implies m[k] <= total_of(m)
            && total_of(m) >= 0 by {
            assert(m.remove(k).dom() =~= m.dom().remove(k));
            lemma_total_of_split(m, k);
            lemma_total_of_bounds(m.remove(k));
        }
        let c = m.dom().choose();
        assert(m.contains_key(c));
    }
}

/// The sum of the amounts in a list of entries.
pub open spec fn listed_total(entries: Seq<(u64, i128)>) -> int
    decreases entries.len(),
{
    if entries.len() == 0 {
        0
    } else {
        listed_total(entries.drop_last()) + entries.last().1
    }
}

/// A list of positive amounts sums to no less than any of its beginnings.
pub proof fn lemma_listed_total_grows(entries: Seq<(u64, i128)>, n: int)
    requires
        0 <= n <= entries.len(),
        forall|i: int| 0 <= i < entries.len() ==> (#[trigger] entries[i]).1 > 0,
    ensures
        0 <= listed_total(entries.take(n)) <= listed_total(entries),
    decreases entries.len() - n,
{
    if n == entries.len() {
        assert(entries.take(n) =~= entries);
        lemma_listed_total_positive(entries);
    } else {
        lemma_listed_total_grows(entries, n + 1);
        assert(entries.take(n + 1).drop_last() =~= entries.take(n));
        assert(entries.take(n + 1).last() == entries[n]);
        lemma_listed_total_positive(entries.take(n));
    }
}

/// A list of positive amounts has a sum that is not negative.
pub proof fn lemma_listed_total_positive(entries: Seq<(u64, i128)>)
    requires
        forall|i: int| 0 <= i < entries.len() ==> (#[trigger] entries[i]).1 > 0,
    ensures
        listed_total(entries) >= 0,
    decreases entries.len(),
{
    if entries.len() > 0 {
        assert forall|i: int| 0 <= i < entries.drop_last().len() implies (
        #[trigger] entries.drop_last()[i]).1 > 0 by {
            assert(entries.drop_last()[i] == entries[i]);
        }
        lemma_listed_total_positive(entries.drop_last());
        assert(entries[entries.len() - 1].1 > 0);
    }
}

/// A map holds as much as the list of its entries sums to.
pub proof fn lemma_total_of_listed(entries: Seq<(u64, i128)>, m: Map<u64, i128>)
    requires
        lists_map(entries, m),
    ensures
        m.dom().finite(),
        total_of(m) == listed_total(entries),
    decreases entries.len(),
{
    if entries.len() == 0 {
        assert(m.dom() =~= Set::<u64>::empty()) by {
            assert forall|k: u64| !m.dom().contains(k) by {
                if m.contains_key(k) {
                    let i = choose|i: int| 0 <= i < entries.len() && (#[trigger] entries[i]).0 == k;
                }
            }
        }
    } else {
        let n = entries.len() - 1;
        let key = entries[n].0;
        let front = entries.drop_last();
        let rest = m.remove(key);
        assert(m.contains_key(entries[n].0));
        assert forall|i: int, j: int| 0 <= i < j < front.len() implies (#[trigger] front[i]).0 != (
        #[trigger] front[j]).0 by {
            assert(front[i] == entries[i] && front[j] == entries[j]);
        }
        assert forall|i: int| 0 <= i < front.len() implies rest.contains_key(
            (#[trigger] front[i]).0,
        ) && rest[front[i].0] == front[i].1 by {
            assert(front[i] == entries[i]);
            assert(entries[i].0 != entries[n].0);
            assert(m.contains_key(entries[i].0));
        }
        assert forall|k: u64| #[trigger] rest.contains_key(k) implies exists|i: int|
            0 <= i < front.len() && (#[trigger] front[i]).0 == k by {
            assert(m.contains_key(k));
            let i = choose|i: int| 0 <= i < entries.len() && (#[trigger] entries[i]).0 == k;
            assert(front[i] == entries[i]);
        }
        lemma_total_of_listed(front, rest);
        assert(m.dom() =~= rest.dom().insert(key));
        lemma_total_of_split(m, key);
    }
}

} // verus!
