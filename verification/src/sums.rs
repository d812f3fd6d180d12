//! Sums over sets of process ids.
//!
//! A hash table walks its entries in an order of its own, so a total over
//! its entries is stated here over the set of its keys, and proved equal to
//! the running total of any walk that visits each key once.

use vstd::prelude::*;

verus! {

/// The sum of `f` over the members of `pids` that are less than `below`.
pub open spec fn sum_below(pids: Set<i32>, f: spec_fn(i32) -> nat, below: int) -> nat
    decreases below - i32::MIN,
{
    if below <= i32::MIN {
        0
    } else {
        let pid = (below - 1) as i32;
        sum_below(pids, f, below - 1) + if pids.contains(pid) {
            f(pid)
        } else {
            0nat
        }
    }
}

/// The sum of `f` over all members of `pids`.
pub open spec fn sum_over(pids: Set<i32>, f: spec_fn(i32) -> nat) -> nat {
    sum_below(pids, f, i32::MAX + 1)
}

/// The sum of `f` over the elements of `pids`, each as often as it occurs.
pub open spec fn sum_seq(pids: Seq<i32>, f: spec_fn(i32) -> nat) -> nat
    decreases pids.len(),
{
    if pids.len() == 0 {
        0
    } else {
        sum_seq(pids.drop_last(), f) + f(pids.last())
    }
}

/// `total` where it is at most `max`, else `max`.
pub open spec fn saturate(total: int, max: int) -> int {
    if total > max {
        max
    } else {
        total
    }
}

/// A new member adds its own term to the sum, where it is below the bound.
pub proof fn lemma_sum_below_insert(pids: Set<i32>, f: spec_fn(i32) -> nat, pid: i32, below: int)
    requires
        !pids.contains(pid),
        below <= i32::MAX + 1,
    ensures
        sum_below(pids.insert(pid), f, below) == sum_below(pids, f, below) + if pid < below {
            f(pid)
        } else {
            0nat
        },
    decreases below - i32::MIN,
{
    if below > i32::MIN {
        lemma_sum_below_insert(pids, f, pid, below - 1);
    }
}

/// The sum over no members is nothing.
pub proof fn lemma_sum_below_empty(f: spec_fn(i32) -> nat, below: int)
    ensures
        sum_below(Set::empty(), f, below) == 0,
    decreases below - i32::MIN,
{
    if below > i32::MIN {
        lemma_sum_below_empty(f, below - 1);
    }
}

/// A walk that visits each member of a set once adds up to the sum over the set.
pub proof fn lemma_sum_seq_is_sum_over(pids: Seq<i32>, f: spec_fn(i32) -> nat)
    requires
        pids.no_duplicates(),
    ensures
        sum_seq(pids, f) == sum_over(pids.to_set(), f),
    decreases pids.len(),
{
    if pids.len() == 0 {
        assert(pids.to_set() =~= Set::empty());
        lemma_sum_below_empty(f, i32::MAX + 1);
    } else {
        let init = pids.drop_last();
        let last = pids.last();
        lemma_sum_seq_is_sum_over(init, f);
        assert(!init.to_set().contains(last)) by {
            if init.to_set().contains(last) {
                let i = choose|i: int| 0 <= i < init.len() && init[i] == last;
                assert(pids[i] == pids[pids.len() - 1]);
            }
        }
        assert(init.to_set().insert(last) =~= pids.to_set()) by {
            assert forall|pid: i32| init.to_set().insert(last).contains(pid) implies pids.to_set().contains(
                pid,
            ) by {
                if pid == last {
                    assert(pids[pids.len() - 1] == pid);
                } else {
                    let i = choose|i: int| 0 <= i < init.len() && init[i] == pid;
                    assert(pids[i] == pid);
                }
            }
            assert forall|pid: i32| pids.to_set().contains(pid) implies init.to_set().insert(
                last,
            ).contains(pid) by {
                let i = choose|i: int| 0 <= i < pids.len() && pids[i] == pid;
                if i < init.len() {
                    assert(init[i] == pid);
                }
            }
        }
        lemma_sum_below_insert(init.to_set(), f, last, i32::MAX + 1);
    }
}

} // verus!
