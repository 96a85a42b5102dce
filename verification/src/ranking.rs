//! Stable ranking of values in ascending numeric order.
use vstd::prelude::*;
use vstd::set_lib::{lemma_int_range, lemma_subset_equality, set_int_range};

use crate::binary64::Binary64;

verus! {

/// `order` lists every index below `n` exactly once.
pub open spec fn is_permutation(order: Seq<usize>, n: nat) -> bool {
    &&& order.len() == n
    &&& forall|i: int| 0 <= i < n ==> #[trigger] order[i] < n
    &&& forall|i: int, j: int| 0 <= i < j < n ==> #[trigger] order[i] != #[trigger] order[j]
}

/// Every key stands for a number.
pub open spec fn all_numbers(keys: Seq<Binary64>) -> bool {
    forall|i: int| 0 <= i < keys.len() ==> !(#[trigger] keys[i]).is_nan_spec()
}

/// Index `a` comes before index `b`: its key is less, or the keys are equal and it stands first.
pub open spec fn precedes(keys: Seq<Binary64>, a: usize, b: usize) -> bool {
    ||| keys[a as int].rank() < keys[b as int].rank()
    ||| keys[a as int].rank() == keys[b as int].rank() && a < b
}

/// The indices in `order` ascend by their keys, equal keys in their original order.
pub open spec fn in_rank_order(keys: Seq<Binary64>, order: Seq<usize>) -> bool {
    forall|i: int, j: int|
        0 <= i < j < order.len() ==> precedes(keys, #[trigger] order[i], #[trigger] order[j])
}

/// `order` is a stable ranking of `keys`. Where some key is not a number there is no order to
/// rank by, and `order` is any permutation.
pub open spec fn ranks(keys: Seq<Binary64>, order: Seq<usize>) -> bool {
    &&& is_permutation(order, keys.len())
    &&& all_numbers(keys) ==> in_rank_order(keys, order)
}

/// The items at the indices of `order`, in that order.
pub open spec fn arranged<A>(items: Seq<A>, order: Seq<usize>) -> Seq<A> {
    Seq::new(order.len(), |i: int| items[order[i] as int])
}

/// The indices of `keys` in ascending order of their keys; equal keys keep their order.
pub fn stable_order(keys: &Vec<Binary64>) -> (order: Vec<usize>)
    ensures
        ranks(keys@, order@),
{
    let mut order: Vec<usize> = Vec::new();
    let n: usize = keys.len();
    let mut i: usize = 0;
    while i < n
        invariant
            n == keys@.len(),
            i <= n,
            is_permutation(order@, i as nat),
            all_numbers(keys@) ==> in_rank_order(keys@, order@),
        decreases n - i,
    {
        let ghost before = order@;
        let mut j: usize = i;
        while j > 0 && keys[i].below(&keys[order[j - 1]])
            invariant
                n == keys@.len(),
                i < n,
                j <= i,
                order@ == before,
                is_permutation(order@, i as nat),
                forall|k: int| j <= k < i ==> keys@[i as int].below_spec(keys@[#[trigger] order@[k] as int]),
            decreases j,
        {
            j -= 1;
        }
        order.insert(j, i);
        proof {
            lemma_inserted(keys@, before, i, j as int);
        }
        i += 1;
    }
    order
}

proof fn lemma_inserted(keys: Seq<Binary64>, before: Seq<usize>, i: usize, j: int)
    requires
        i < keys.len(),
        0 <= j <= i,
        is_permutation(before, i as nat),
        all_numbers(keys) ==> in_rank_order(keys, before),
        forall|k: int| j <= k < i ==> keys[i as int].below_spec(keys[#[trigger] before[k] as int]),
        j > 0 ==> !keys[i as int].below_spec(keys[before[j - 1] as int]),
    ensures
        is_permutation(before.insert(j, i), (i + 1) as nat),
        all_numbers(keys) ==> in_rank_order(keys, before.insert(j, i)),
{
    let after = before.insert(j, i);
    assert forall|a: int, b: int| 0 <= a < b < i + 1 implies #[trigger] after[a]
        != #[trigger] after[b] by {
        let a0 = if a < j { a } else { a - 1 };
        let b0 = if b < j { b } else { b - 1 };
        if a != j && b != j {
            assert(before[a0] != before[b0]);
        } else if a == j {
            assert(before[b0] < i);
        } else {
            assert(before[a0] < i);
        }
    }
    if all_numbers(keys) {
        assert forall|a: int, b: int| 0 <= a < b < after.len() implies precedes(
            keys,
            #[trigger] after[a],
            #[trigger] after[b],
        ) by {
            let a0 = if a < j { a } else { a - 1 };
            let b0 = if b < j { b } else { b - 1 };
            if a != j && b != j {
                assert(precedes(keys, before[a0], before[b0]));
            } else if a == j {
                assert(keys[i as int].below_spec(keys[before[b0] as int]));
            } else {
                assert(before[a] < i && before[j - 1] < i);
                if a < j - 1 {
                    assert(precedes(keys, before[a], before[j - 1]));
                }
                assert(!keys[before[j - 1] as int].is_nan_spec());
            }
        }
    }
}

/// The items at the indices of `order`, in that order.
pub fn arrange<A: Copy>(items: &Vec<A>, order: &Vec<usize>) -> (out: Vec<A>)
    requires
        forall|i: int| 0 <= i < order@.len() ==> #[trigger] order@[i] < items@.len(),
    ensures
        out@ == arranged(items@, order@),
{
    let mut out: Vec<A> = Vec::new();
    let mut i: usize = 0;
    while i < order.len()
        invariant
            i <= order@.len(),
            forall|k: int| 0 <= k < order@.len() ==> #[trigger] order@[k] < items@.len(),
            out@ == arranged(items@, order@.take(i as int)),
        decreases order@.len() - i,
    {
        out.push(items[order[i]]);
        assert(out@ =~= arranged(items@, order@.take(i + 1)));
        i += 1;
    }
    assert(order@.take(i as int) =~= order@);
    out
}

/// A permutation reaches every index.
pub proof fn law_permutation_is_onto(order: Seq<usize>, n: nat, index: usize)
    requires
        is_permutation(order, n),
        index < n,
    ensures
        exists|k: int| 0 <= k < n && order[k] == index,
{
    let ints = order.map_values(|x: usize| x as int);
    assert(ints.no_duplicates()) by {
        assert forall|i: int, j: int| 0 <= i < ints.len() && 0 <= j < ints.len() && i != j implies ints[i]
            != ints[j] by {
            assert(ints[i] == order[i] as int && ints[j] == order[j] as int);
            if i < j {
                assert(order[i] != order[j]);
            } else {
                assert(order[j] != order[i]);
            }
        }
    }
    ints.unique_seq_to_set();
    let all = set_int_range(0, n as int);
    lemma_int_range(0, n as int);
    assert(ints.to_set().subset_of(all)) by {
        assert forall|x: int| ints.to_set().contains(x) implies all.contains(x) by {
            let k = choose|k: int| 0 <= k < ints.len() && ints[k] == x;
            assert(order[k] < n);
        }
    }
    vstd::seq_lib::seq_to_set_is_finite(ints);
    lemma_subset_equality(ints.to_set(), all);
    assert(all.contains(index as int));
    assert(ints.to_set().contains(index as int));
    let k = choose|k: int| 0 <= k < ints.len() && ints[k] == index as int;
    assert(order[k] == index);
}

/// A stable ranking of numbers is unique.
pub proof fn law_ranking_is_unique(keys: Seq<Binary64>, p: Seq<usize>, q: Seq<usize>)
    requires
        all_numbers(keys),
        ranks(keys, p),
        ranks(keys, q),
    ensures
        p == q,
{
    assert forall|k: int| 0 <= k < keys.len() implies p[k] == q[k] by {
        lemma_rankings_agree(keys, p, q, k);
    }
    assert(p =~= q);
}

proof fn lemma_rankings_agree(keys: Seq<Binary64>, p: Seq<usize>, q: Seq<usize>, k: int)
    requires
        all_numbers(keys),
        ranks(keys, p),
        ranks(keys, q),
        0 <= k < keys.len(),
    ensures
        p[k] == q[k],
    decreases k,
{
    assert forall|i: int| 0 <= i < k implies p[i] == q[i] by {
        lemma_rankings_agree(keys, p, q, i);
    }
    if p[k] != q[k] {
        law_permutation_is_onto(q, keys.len(), p[k]);
        law_permutation_is_onto(p, keys.len(), q[k]);
        let m = choose|m: int| 0 <= m < keys.len() && q[m] == p[k];
        let l = choose|l: int| 0 <= l < keys.len() && p[l] == q[k];
        if m < k {
            assert(p[m] == q[m]);
            assert(p[m] != p[k]);
        }
        if l < k {
            assert(p[l] == q[l]);
            assert(q[l] != q[k]);
        }
        assert(precedes(keys, q[k], q[m]));
        assert(precedes(keys, p[k], p[l]));
    }
}

/// A ranking puts numbers in ascending order and keeps equal ones as they stood; every item is
/// there once.
pub proof fn law_ranked_numbers_ascend(keys: Seq<Binary64>, order: Seq<usize>, i: int, j: int)
    requires
        all_numbers(keys),
        ranks(keys, order),
        0 <= i < j < keys.len(),
    ensures
        arranged(keys, order).len() == keys.len(),
        order[i] != order[j],
        arranged(keys, order)[i] == keys[order[i] as int],
        arranged(keys, order)[i].rank() <= arranged(keys, order)[j].rank(),
        arranged(keys, order)[i].rank() == arranged(keys, order)[j].rank() ==> order[i] < order[j],
{
    assert(precedes(keys, order[i], order[j]));
}

/// Keys are all numbers exactly where none of them is without a number.
pub proof fn law_keys_are_numbers_one_by_one(keys: Seq<Binary64>)
    ensures
        all_numbers(keys) <==> forall|i: int|
            0 <= i < keys.len() ==> (#[trigger] keys[i]).magnitude() <= 0x7ff0_0000_0000_0000,
{
    if forall|i: int|
        0 <= i < keys.len() ==> (#[trigger] keys[i]).magnitude() <= 0x7ff0_0000_0000_0000 {
        assert forall|i: int| 0 <= i < keys.len() implies !(#[trigger] keys[i]).is_nan_spec() by {
            assert(keys[i].magnitude() <= 0x7ff0_0000_0000_0000);
        }
    }
    if all_numbers(keys) {
        assert forall|i: int| 0 <= i < keys.len() implies (#[trigger] keys[i]).magnitude()
            <= 0x7ff0_0000_0000_0000 by {
            assert(!keys[i].is_nan_spec());
        }
    }
}

} // verus!
