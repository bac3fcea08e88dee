//! Sorting prices and taking their median.

use crate::price::{lemma_price_order_total, price_order, Price};
use vstd::prelude::*;
use vstd::relations::sorted_by;
use vstd::seq_lib::{lemma_sorted_unique, to_multiset_build, to_multiset_insert, to_multiset_len};

verus! {

/// The median of a non-empty collection of prices.
///
/// With an odd number of prices it is the one in the middle of the ascending
/// arrangement. With an even number it is the arithmetic mean of the two in
/// the middle, lower one first; forming the mean is left to the caller, who
/// holds the numbers behind the bit patterns.
#[derive(Clone, Copy, Debug, PartialEq, Eq, Structural)]
pub enum Median {
    Exact(Price),
    Mean(Price, Price),
}

/// No price stands before one that is below it.
pub open spec fn is_ascending(prices: Seq<Price>) -> bool {
    forall|i: int, j: int|
        #![trigger prices[i], prices[j]]
        0 <= i < j < prices.len() ==> prices[i].rank() <= prices[j].rank()
}

/// The prices in ascending order.
pub open spec fn ascending(prices: Seq<Price>) -> Seq<Price> {
    prices.sort_by(price_order())
}

/// The median of `prices`; there is none of no prices.
pub open spec fn median_of(prices: Seq<Price>) -> Option<Median> {
    let sorted = ascending(prices);
    let middle: int = prices.len() as int / 2;
    if prices.len() == 0 {
        None
    } else if prices.len() % 2 == 0 {
        Some(Median::Mean(sorted[middle - 1], sorted[middle]))
    } else {
        Some(Median::Exact(sorted[middle]))
    }
}

/// `is_ascending` says of the ranks what `sorted_by` says of the order.
proof fn lemma_is_ascending_sorted_by(prices: Seq<Price>)
    ensures
        is_ascending(prices) <==> sorted_by(prices, price_order()),
{
    let leq = price_order();
    if is_ascending(prices) {
        assert forall|i: int, j: int| 0 <= i < j < prices.len() implies #[trigger] leq(
            prices[i],
            prices[j],
        ) by {}
    }
    if sorted_by(prices, leq) {
        assert forall|i: int, j: int|
            #![trigger prices[i], prices[j]]
            0 <= i < j < prices.len() implies prices[i].rank() <= prices[j].rank() by {
            assert(leq(prices[i], prices[j]));
        }
    }
}

/// `ascending(prices)` is a rearrangement of `prices` in which no price
/// stands before a lower one.
pub proof fn lemma_ascending(prices: Seq<Price>)
    ensures
        is_ascending(ascending(prices)),
        ascending(prices).to_multiset() == prices.to_multiset(),
        ascending(prices).len() == prices.len(),
{
    lemma_price_order_total();
    prices.lemma_sort_by_ensures(price_order());
    lemma_is_ascending_sorted_by(ascending(prices));
    to_multiset_len(prices);
    to_multiset_len(ascending(prices));
}

/// There is one ascending rearrangement only: whatever holds the same prices
/// as `prices`, each as often, in ascending order, is `ascending(prices)`.
pub proof fn lemma_ascending_unique(prices: Seq<Price>, sorted: Seq<Price>)
    requires
        is_ascending(sorted),
        sorted.to_multiset() == prices.to_multiset(),
    ensures
        sorted == ascending(prices),
{
    lemma_price_order_total();
    lemma_ascending(prices);
    lemma_is_ascending_sorted_by(sorted);
    lemma_is_ascending_sorted_by(ascending(prices));
    lemma_sorted_unique(sorted, ascending(prices), price_order());
}

/// The ascending arrangement depends on which prices there are and how often
/// each occurs, not on their order.
pub proof fn lemma_ascending_of_rearrangement(a: Seq<Price>, b: Seq<Price>)
    requires
        a.to_multiset() == b.to_multiset(),
    ensures
        ascending(a) == ascending(b),
{
    lemma_ascending(a);
    lemma_ascending_unique(b, ascending(a));
}

/// The median depends on which prices there are and how often each occurs,
/// not on their order.
pub proof fn lemma_median_of_rearrangement(a: Seq<Price>, b: Seq<Price>)
    requires
        a.to_multiset() == b.to_multiset(),
    ensures
        median_of(a) == median_of(b),
{
    lemma_ascending_of_rearrangement(a, b);
    to_multiset_len(a);
    to_multiset_len(b);
}

/// Sorts prices into ascending order.
pub fn sort_prices(prices: Vec<Price>) -> (sorted: Vec<Price>)
    ensures
        sorted@ == ascending(prices@),
{
    let mut sorted: Vec<Price> = Vec::new();
    let mut taken: usize = 0;
    assert(prices@.take(0) =~= sorted@);
    while taken < prices.len()
        invariant
            taken <= prices.len(),
            is_ascending(sorted@),
            sorted@.to_multiset() == prices@.take(taken as int).to_multiset(),
        decreases prices.len() - taken,
    {
        let price = prices[taken];
        let mut at: usize = sorted.len();
        while at > 0 && !sorted[at - 1].le(price)
            invariant
                at <= sorted.len(),
                forall|k: int| at <= k < sorted.len() ==> price.rank() < sorted@[k].rank(),
            decreases at,
        {
            at -= 1;
        }
        proof {
            let before = sorted@;
            let after = before.insert(at as int, price);
            assert(is_ascending(after));
            to_multiset_insert(before, at as int, price);
            assert(prices@.take(taken + 1) =~= prices@.take(taken as int).push(price));
            to_multiset_build(prices@.take(taken as int), price);
        }
        sorted.insert(at, price);
        taken += 1;
    }
    proof {
        assert(prices@.take(taken as int) =~= prices@);
        lemma_ascending_unique(prices@, sorted@);
    }
    sorted
}

/// The median of the given prices, `None` where there are none.
pub fn median(prices: Vec<Price>) -> (m: Option<Median>)
    ensures
        m == median_of(prices@),
{
    proof {
        lemma_ascending(prices@);
    }
    let sorted = sort_prices(prices);
    let count = sorted.len();
    if count == 0 {
        return None;
    }
    let middle = count / 2;
    if count % 2 == 0 {
        Some(Median::Mean(sorted[middle - 1], sorted[middle]))
    } else {
        Some(Median::Exact(sorted[middle]))
    }
}

} // verus!
