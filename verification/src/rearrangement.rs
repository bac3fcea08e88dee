//! The tally does not depend on the order of the batch.
//!
//! Two batches are rearrangements of each other where they hold the same
//! items, each as often as the other; that is, where their multisets are
//! equal.

use crate::median::lemma_median_of_rearrangement;
use crate::report::{FailureKind, ReportView, RevealView};
use crate::tally::{
    any_malformed, column, decoder, longest, medians, picker, reports_of, tally, tally_reports,
    unanimous,
};
use vstd::prelude::*;
use vstd::seq_lib::{
    lemma_multiset_commutative, to_multiset_contains, to_multiset_len, to_multiset_remove,
};

verus! {

/// What `filter_map` keeps of a concatenation is what it keeps of the first
/// part, followed by what it keeps of the second.
pub proof fn lemma_filter_map_concat<A, B>(x: Seq<A>, y: Seq<A>, f: spec_fn(A) -> Option<B>)
    ensures
        (x + y).filter_map(f) == x.filter_map(f) + y.filter_map(f),
    decreases y.len(),
{
    if y.len() > 0 {
        assert((x + y).drop_last() =~= x + y.drop_last());
        lemma_filter_map_concat(x, y.drop_last(), f);
    }
}

/// What `filter_map` keeps of a rearranged sequence is a rearrangement of
/// what it keeps of the sequence.
pub proof fn lemma_filter_map_rearrangement<A, B>(a: Seq<A>, b: Seq<A>, f: spec_fn(A) -> Option<B>)
    requires
        a.to_multiset() == b.to_multiset(),
    ensures
        a.filter_map(f).to_multiset() == b.filter_map(f).to_multiset(),
    decreases a.len(),
{
    to_multiset_len(a);
    to_multiset_len(b);
    if a.len() > 0 {
        let x = a.last();
        to_multiset_contains(a, x);
        to_multiset_contains(b, x);
        let at = choose|at: int| 0 <= at < b.len() && b[at] == x;
        let a_rest = a.drop_last();
        let b_rest = b.remove(at);
        to_multiset_remove(a, a.len() - 1);
        to_multiset_remove(b, at);
        lemma_filter_map_rearrangement(a_rest, b_rest, f);

        let left = b.subrange(0, at);
        let right = b.subrange(at + 1, b.len() as int);
        assert(b =~= (left + seq![x]) + right);
        lemma_filter_map_concat(left + seq![x], right, f);
        lemma_filter_map_concat(left, seq![x], f);
        lemma_filter_map_concat(left, right, f);
        Seq::lemma_filter_map_singleton(x, f);

        let kept: Seq<B> = seq![x].filter_map(f);
        let left_kept = left.filter_map(f);
        let right_kept = right.filter_map(f);
        lemma_multiset_commutative(a_rest.filter_map(f), kept);
        lemma_multiset_commutative(left_kept + kept, right_kept);
        lemma_multiset_commutative(left_kept, kept);
        lemma_multiset_commutative(left_kept, right_kept);
        assert(b.filter_map(f).to_multiset() =~= b_rest.filter_map(f).to_multiset().add(
            kept.to_multiset(),
        ));
    }
}

/// No price vector is longer than `longest` says, and one of them is that
/// long.
pub proof fn lemma_longest_is_maximum(reports: Seq<ReportView>)
    ensures
        forall|i: int|
            0 <= i < reports.len() ==> (#[trigger] reports[i]).prices.len() <= longest(reports),
        reports.len() > 0 ==> exists|i: int|
            0 <= i < reports.len() && (#[trigger] reports[i]).prices.len() == longest(reports),
    decreases reports.len(),
{
    if reports.len() > 0 {
        let before = reports.drop_last();
        lemma_longest_is_maximum(before);
        assert forall|i: int| 0 <= i < reports.len() implies (#[trigger] reports[i]).prices.len()
            <= longest(reports) by {
            if i < reports.len() - 1 {
                assert(before[i] == reports[i]);
            }
        }
        if longest(reports) != reports.last().prices.len() {
            let i = choose|i: int|
                0 <= i < before.len() && (#[trigger] before[i]).prices.len() == longest(before);
            assert(reports[i].prices.len() == longest(reports));
        }
    }
}

/// Every item of a sequence occurs in each of its rearrangements.
proof fn lemma_occurs_in_rearrangement<A>(a: Seq<A>, b: Seq<A>, i: int) -> (j: int)
    requires
        a.to_multiset() == b.to_multiset(),
        0 <= i < a.len(),
    ensures
        0 <= j < b.len(),
        b[j] == a[i],
{
    to_multiset_contains(a, a[i]);
    to_multiset_contains(b, a[i]);
    choose|j: int| 0 <= j < b.len() && b[j] == a[i]
}

/// The longest price vector of a rearranged batch is as long as that of the
/// batch.
pub proof fn lemma_longest_rearrangement(a: Seq<ReportView>, b: Seq<ReportView>)
    requires
        a.to_multiset() == b.to_multiset(),
    ensures
        longest(a) == longest(b),
{
    to_multiset_len(a);
    to_multiset_len(b);
    lemma_longest_is_maximum(a);
    lemma_longest_is_maximum(b);
    if a.len() > 0 {
        let i = choose|i: int|
            0 <= i < a.len() && (#[trigger] a[i]).prices.len() == longest(a);
        let j = lemma_occurs_in_rearrangement(a, b, i);
        assert(b[j].prices.len() <= longest(b));
        let k = choose|k: int|
            0 <= k < b.len() && (#[trigger] b[k]).prices.len() == longest(b);
        let l = lemma_occurs_in_rearrangement(b, a, k);
        assert(a[l].prices.len() <= longest(a));
    }
}

/// Where the reports of a batch agree on the market status, so do those of
/// a rearranged batch, and on the same status.
pub proof fn lemma_unanimous_rearrangement(a: Seq<ReportView>, b: Seq<ReportView>)
    requires
        a.to_multiset() == b.to_multiset(),
        unanimous(a),
    ensures
        unanimous(b),
        a.len() > 0 ==> b.len() > 0 && b[0].market_status == a[0].market_status,
{
    to_multiset_len(a);
    to_multiset_len(b);
    assert forall|i: int| 0 <= i < b.len() implies (#[trigger] b[i]).market_status
        == a[0].market_status by {
        let j = lemma_occurs_in_rearrangement(b, a, i);
        assert(a[j].market_status == a[0].market_status);
    }
}

/// The tally of a batch of reports does not depend on their order.
pub proof fn lemma_tally_reports_rearrangement(a: Seq<ReportView>, b: Seq<ReportView>)
    requires
        a.to_multiset() == b.to_multiset(),
    ensures
        tally_reports(a) == tally_reports(b),
{
    if unanimous(a) {
        lemma_unanimous_rearrangement(a, b);
    }
    if unanimous(b) {
        lemma_unanimous_rearrangement(b, a);
    }
    lemma_longest_rearrangement(a, b);
    assert forall|index: int| 0 <= index < longest(a) implies #[trigger] medians(a)[index]
        == medians(b)[index] by {
        lemma_filter_map_rearrangement(a, b, picker(index));
        lemma_median_of_rearrangement(column(a, index), column(b, index));
    }
    assert(medians(a) =~= medians(b));
}

/// Order independence: rearranging the payloads of a batch does not change
/// the outcome of the tally. A batch with a payload that could not be decoded
/// fails with a decode error in any order; which payload's message the
/// failure carries is the one thing that depends on the order.
pub proof fn lemma_tally_rearrangement(a: Seq<RevealView>, b: Seq<RevealView>)
    requires
        a.to_multiset() == b.to_multiset(),
    ensures
        any_malformed(a) == any_malformed(b),
        any_malformed(a) ==> tally(a) is Err && tally(b) is Err && tally(a)->Err_0.kind
            == FailureKind::DecodeError && tally(b)->Err_0.kind == FailureKind::DecodeError,
        !any_malformed(a) ==> tally(a) == tally(b),
{
    if any_malformed(a) {
        let i = choose|i: int| 0 <= i < a.len() && #[trigger] a[i] is Malformed;
        let j = lemma_occurs_in_rearrangement(a, b, i);
        assert(b[j] is Malformed);
    }
    if any_malformed(b) {
        let i = choose|i: int| 0 <= i < b.len() && #[trigger] b[i] is Malformed;
        let j = lemma_occurs_in_rearrangement(b, a, i);
        assert(a[j] is Malformed);
    }
    lemma_filter_map_rearrangement(a, b, decoder());
    lemma_tally_reports_rearrangement(reports_of(a), reports_of(b));
}

} // verus!
