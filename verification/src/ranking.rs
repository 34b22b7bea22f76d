//! Ranking of balances: the total of the largest ones, and the number of
//! those that are positive.

use vstd::prelude::*;
use vstd::relations::{sorted_by, total_ordering};
use vstd::seq_lib::{lemma_sorted_unique, to_multiset_build, to_multiset_insert};
use crate::ledger::{abs_sum, lemma_abs_sum_nonnegative, net_values, sum};
use crate::types::Holding;

verus! {

/// Number of top holders whose balances make up the concentration figure.
pub const TOP_HOLDERS: usize = 10;

/// The order in which balances are ranked: larger first.
pub open spec fn descending() -> spec_fn(int, int) -> bool {
    |a: int, b: int| a >= b
}

/// Sum of the `count` largest of `balances`, or of all of them where there
/// are fewer.
pub open spec fn top_total(balances: Seq<int>, count: nat) -> int {
    let ranked = balances.sort_by(descending());
    if count < ranked.len() {
        sum(ranked.take(count as int))
    } else {
        sum(ranked)
    }
}

/// Number of strictly positive balances.
pub open spec fn positive_count(balances: Seq<int>) -> nat
    decreases balances.len(),
{
    if balances.len() == 0 {
        0
    } else {
        positive_count(balances.drop_last()) + if balances.last() > 0 {
            1nat
        } else {
            0nat
        }
    }
}

/// The numbers of `values` as mathematical integers.
pub open spec fn as_ints(values: Seq<i128>) -> Seq<int> {
    Seq::new(values.len(), |k: int| values[k] as int)
}

/// Putting one balance in adds its magnitude to the sum of magnitudes.
proof fn lemma_abs_sum_insert(balances: Seq<int>, at: int, value: int)
    requires
        0 <= at <= balances.len(),
    ensures
        abs_sum(balances.insert(at, value)) == abs_sum(balances) + (if value < 0 {
            -value
        } else {
            value
        }),
    decreases balances.len(),
{
    let grown = balances.insert(at, value);
    if at == balances.len() {
        assert(grown.drop_last() =~= balances);
    } else {
        assert(grown.drop_last() =~= balances.drop_last().insert(at, value));
        lemma_abs_sum_insert(balances.drop_last(), at, value);
    }
}

/// The sum of the first balances is no larger in magnitude than the sum
/// of all magnitudes.
proof fn lemma_sum_within_abs_sum(balances: Seq<int>, count: int)
    requires
        0 <= count <= balances.len(),
    ensures
        -abs_sum(balances) <= sum(balances.take(count)) <= abs_sum(balances),
    decreases balances.len(),
{
    lemma_abs_sum_nonnegative(balances);
    if balances.len() > 0 {
        lemma_abs_sum_nonnegative(balances.drop_last());
        if count == balances.len() {
            assert(balances.take(count) =~= balances);
            assert(balances.drop_last().take(count - 1) =~= balances.drop_last());
            lemma_sum_within_abs_sum(balances.drop_last(), count - 1);
        } else {
            assert(balances.take(count) =~= balances.drop_last().take(count));
            lemma_sum_within_abs_sum(balances.drop_last(), count);
        }
    } else {
        assert(balances.take(count) =~= balances);
    }
}

/// Ranks `values` from the largest to the smallest.
pub fn sort_descending(values: &Vec<i128>) -> (ranked: Vec<i128>)
    ensures
        as_ints(ranked@) == as_ints(values@).sort_by(descending()),
        abs_sum(as_ints(ranked@)) == abs_sum(as_ints(values@)),
{
    let mut ranked: Vec<i128> = Vec::new();
    let mut i: usize = 0;
    let ghost given = as_ints(values@);
    assert(as_ints(ranked@) =~= given.take(0));
    while i < values.len()
        invariant
            i <= values.len(),
            given == as_ints(values@),
            sorted_by(as_ints(ranked@), descending()),
            as_ints(ranked@).to_multiset() == given.take(i as int).to_multiset(),
            abs_sum(as_ints(ranked@)) == abs_sum(given.take(i as int)),
        decreases values.len() - i,
    {
        let value: i128 = values[i];
        let mut at: usize = 0;
        while at < ranked.len() && ranked[at] >= value
            invariant
                at <= ranked.len(),
                forall|j: int| 0 <= j < at ==> ranked[j] >= value,
            decreases ranked.len() - at,
        {
            at = at + 1;
        }
        let ghost before = as_ints(ranked@);
        ranked.insert(at, value);
        proof {
            let after = as_ints(ranked@);
            assert(after =~= before.insert(at as int, value as int));
            to_multiset_insert(before, at as int, value as int);
            assert(given.take(i + 1) =~= given.take(i as int).push(value as int));
            to_multiset_build(given.take(i as int), value as int);
            lemma_abs_sum_insert(before, at as int, value as int);
            assert(given.take(i + 1).drop_last() =~= given.take(i as int));
            assert forall|a: int, b: int| 0 <= a < b < after.len() implies descending()(
                #[trigger] after[a],
                #[trigger] after[b],
            ) by {
                if b < at {
                    assert(descending()(before[a], before[b]));
                } else if b == at {
                } else if a < at {
                    assert(descending()(before[a], before[b - 1]));
                } else if a == at {
                    assert(descending()(before[at as int], before[b - 1]) || b - 1 == at);
                } else {
                    assert(descending()(before[a - 1], before[b - 1]));
                }
            }
        }
        i = i + 1;
    }
    proof {
        assert(given.take(values.len() as int) =~= given);
        assert(total_ordering(descending()));
        given.lemma_sort_by_ensures(descending());
        lemma_sorted_unique(as_ints(ranked@), given.sort_by(descending()), descending());
    }
    ranked
}

/// Sums the first `count` of `ranked`, or all of them where there are fewer.
pub(crate) fn leading_total(ranked: &Vec<i128>, count: usize) -> (total: i128)
    requires
        abs_sum(as_ints(ranked@)) <= i128::MAX,
    ensures
        total == if count < ranked.len() {
            sum(as_ints(ranked@).take(count as int))
        } else {
            sum(as_ints(ranked@))
        },
{
    let limit: usize = if count < ranked.len() {
        count
    } else {
        ranked.len()
    };
    let ghost all = as_ints(ranked@);
    let mut total: i128 = 0;
    let mut i: usize = 0;
    assert(all.take(0) =~= Seq::<int>::empty());
    while i < limit
        invariant
            i <= limit <= ranked.len(),
            all == as_ints(ranked@),
            total == sum(all.take(i as int)),
            abs_sum(all) <= i128::MAX,
        decreases limit - i,
    {
        proof {
            assert(all.take(i + 1).drop_last() =~= all.take(i as int));
            lemma_sum_within_abs_sum(all, i as int);
            lemma_sum_within_abs_sum(all, i + 1);
        }
        total = total + ranked[i];
        i = i + 1;
    }
    proof {
        assert(all.take(all.len() as int) =~= all);
    }
    total
}

/// Counts the holdings with a strictly positive balance.
pub fn count_holders(holders: &Vec<Holding>) -> (count: usize)
    ensures
        count == positive_count(net_values(holders.deep_view())),
{
    let ghost nets = net_values(holders.deep_view());
    let mut count: usize = 0;
    let mut i: usize = 0;
    assert(nets.take(0) =~= Seq::<int>::empty());
    while i < holders.len()
        invariant
            i <= holders.len(),
            nets == net_values(holders.deep_view()),
            count == positive_count(nets.take(i as int)),
            count <= i,
        decreases holders.len() - i,
    {
        proof {
            assert(nets.take(i + 1).drop_last() =~= nets.take(i as int));
        }
        if holders[i].net_tokens > 0 {
            count = count + 1;
        }
        i = i + 1;
    }
    proof {
        assert(nets.take(nets.len() as int) =~= nets);
    }
    count
}

/// Copies the balances out of `holders`, in their order.
pub fn balances(holders: &Vec<Holding>) -> (values: Vec<i128>)
    ensures
        as_ints(values@) == net_values(holders.deep_view()),
{
    let mut values: Vec<i128> = Vec::new();
    let mut i: usize = 0;
    while i < holders.len()
        invariant
            i <= holders.len(),
            values.len() == i,
            forall|k: int| 0 <= k < i ==> values[k] == holders[k].net_tokens,
        decreases holders.len() - i,
    {
        values.push(holders[i].net_tokens);
        i = i + 1;
    }
    assert(as_ints(values@) =~= net_values(holders.deep_view()));
    values
}

} // verus!
