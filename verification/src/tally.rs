//! The tally: from a batch of decoded payloads to the medians per index.

use crate::median::{median, median_of, Median};
use crate::price::Price;
use crate::report::{
    all_empty_failure, decode_failure, failure_of, inconsistent_status_failure,
    no_consensus_failure, AggregateResult, AggregateView, Failure, FailureKind, FailureView,
    Report, ReportView, Reveal, RevealView,
};
use vstd::prelude::*;

verus! {

/// The batch of payloads as a mathematical value.
pub open spec fn reveal_views(reveals: Seq<Reveal>) -> Seq<RevealView> {
    reveals.map_values(|reveal: Reveal| reveal@)
}

/// The batch of reports as a mathematical value.
pub open spec fn report_views(reports: Seq<Report>) -> Seq<ReportView> {
    reports.map_values(|report: Report| report@)
}

/// The report that a payload held, if it could be decoded.
pub open spec fn decoded(reveal: RevealView) -> Option<ReportView> {
    match reveal {
        RevealView::Decoded(report) => Some(report),
        RevealView::Malformed(_) => None,
    }
}

/// `decoded` as a function value.
pub open spec fn decoder() -> spec_fn(RevealView) -> Option<ReportView> {
    |reveal: RevealView| decoded(reveal)
}

/// The reports of the payloads that could be decoded, in their order.
pub open spec fn reports_of(reveals: Seq<RevealView>) -> Seq<ReportView> {
    reveals.filter_map(decoder())
}

/// Some payload of the batch could not be decoded.
pub open spec fn any_malformed(reveals: Seq<RevealView>) -> bool {
    exists|i: int| 0 <= i < reveals.len() && #[trigger] reveals[i] is Malformed
}

/// The payload at `index` could not be decoded, and all before it could.
pub open spec fn is_first_malformed(reveals: Seq<RevealView>, index: int) -> bool {
    &&& 0 <= index < reveals.len()
    &&& reveals[index] is Malformed
    &&& forall|i: int| 0 <= i < index ==> #[trigger] reveals[i] is Decoded
}

/// The index of the first payload that could not be decoded.
pub open spec fn first_malformed(reveals: Seq<RevealView>) -> int {
    choose|index: int| is_first_malformed(reveals, index)
}

/// No other payload than the one at `index` is the first that could not be
/// decoded.
pub proof fn lemma_first_malformed_unique(reveals: Seq<RevealView>, index: int)
    requires
        is_first_malformed(reveals, index),
    ensures
        first_malformed(reveals) == index,
        any_malformed(reveals),
{
}

/// All reports give the market status that the first one gives.
pub open spec fn unanimous(reports: Seq<ReportView>) -> bool {
    forall|i: int|
        0 <= i < reports.len() ==> (#[trigger] reports[i]).market_status
            == reports[0].market_status
}

/// The length of the longest price vector among the reports, 0 of none.
pub open spec fn longest(reports: Seq<ReportView>) -> nat
    decreases reports.len(),
{
    if reports.len() == 0 {
        0
    } else {
        let before = longest(reports.drop_last());
        if reports.last().prices.len() > before {
            reports.last().prices.len()
        } else {
            before
        }
    }
}

/// The price that a report gives at `index`, if its vector is that long.
pub open spec fn price_at(report: ReportView, index: int) -> Option<Price> {
    if 0 <= index < report.prices.len() {
        Some(report.prices[index])
    } else {
        None
    }
}

/// `price_at` for one index, as a function value.
pub open spec fn picker(index: int) -> spec_fn(ReportView) -> Option<Price> {
    |report: ReportView| price_at(report, index)
}

/// The prices at `index` of all reports that are long enough to have one, in
/// the order of the reports.
pub open spec fn column(reports: Seq<ReportView>, index: int) -> Seq<Price> {
    reports.filter_map(picker(index))
}

/// The medians of the columns below `upto`, in ascending order of the index.
/// A column without a price has no median and leaves no gap.
pub open spec fn compact_medians(reports: Seq<ReportView>, upto: nat) -> Seq<Median>
    decreases upto,
{
    if upto == 0 {
        Seq::empty()
    } else {
        let before = compact_medians(reports, (upto - 1) as nat);
        match median_of(column(reports, upto - 1)) {
            Some(median) => before.push(median),
            None => before,
        }
    }
}

/// One median for each index that the longest price vector has.
pub open spec fn medians(reports: Seq<ReportView>) -> Seq<Median> {
    Seq::new(longest(reports), |index: int| median_of(column(reports, index))->Some_0)
}

/// The outcome of the tally of a batch of reports.
///
/// The reports must all give the market status of the first, there must be
/// at least one report, and at least one must hold a price. The result then
/// holds the median of every column and the status that all reports give.
pub open spec fn tally_reports(reports: Seq<ReportView>) -> Result<AggregateView, FailureView> {
    if !unanimous(reports) {
        Err(inconsistent_status_failure())
    } else if reports.len() == 0 {
        Err(no_consensus_failure())
    } else if longest(reports) == 0 {
        Err(all_empty_failure())
    } else {
        Ok(AggregateView { prices: medians(reports), market_status: reports[0].market_status })
    }
}

/// The outcome of the tally of a batch of decoded payloads.
///
/// Decoding comes first: one payload that could not be decoded fails the
/// batch, whatever the other payloads hold, with the message of the first
/// such payload.
pub open spec fn tally(reveals: Seq<RevealView>) -> Result<AggregateView, FailureView> {
    if any_malformed(reveals) {
        Err(decode_failure(reveals[first_malformed(reveals)]->Malformed_0))
    } else {
        tally_reports(reports_of(reveals))
    }
}

/// An outcome as a mathematical value.
pub open spec fn outcome_view(outcome: Result<AggregateResult, Failure>) -> Result<
    AggregateView,
    FailureView,
> {
    match outcome {
        Ok(result) => Ok(result@),
        Err(failure) => Err(failure@),
    }
}

/// Which batches succeed, and which fail in which way.
///
/// A payload that could not be decoded makes a decode error, whatever else
/// the batch holds. Of the other batches, those whose reports disagree on the
/// market status are inconsistent, whatever their prices; the empty batch,
/// and no other, has no consensus; those whose reports agree and hold no
/// price at all are all empty; the rest succeed.
pub proof fn lemma_tally_cases(reveals: Seq<RevealView>)
    ensures
        tally(reveals) is Ok <==> !any_malformed(reveals) && unanimous(reports_of(reveals))
            && reveals.len() > 0 && longest(reports_of(reveals)) > 0,
        tally(reveals) is Err && tally(reveals)->Err_0.kind == FailureKind::DecodeError
            <==> any_malformed(reveals),
        tally(reveals) is Err && tally(reveals)->Err_0.kind == FailureKind::InconsistentStatus
            <==> !any_malformed(reveals) && !unanimous(reports_of(reveals)),
        tally(reveals) is Err && tally(reveals)->Err_0.kind == FailureKind::NoConsensus
            <==> reveals.len() == 0,
        tally(reveals) is Err && tally(reveals)->Err_0.kind == FailureKind::AllEmpty
            <==> !any_malformed(reveals) && unanimous(reports_of(reveals)) && reveals.len() > 0
            && longest(reports_of(reveals)) == 0,
        tally(reveals) is Err && tally(reveals)->Err_0.kind != FailureKind::DecodeError
            ==> tally(reveals)->Err_0 == failure_of(tally(reveals)->Err_0.kind),
{
}

/// Determinism: the outcome is a function of what the batch holds. Two
/// batches that hold, place by place, payloads with the same content have the
/// same outcome, whenever and however often they are tallied.
pub proof fn lemma_tally_deterministic(a: Seq<Reveal>, b: Seq<Reveal>)
    requires
        a.len() == b.len(),
        forall|i: int| 0 <= i < a.len() ==> a[i]@ == b[i]@,
    ensures
        tally(reveal_views(a)) == tally(reveal_views(b)),
{
    assert(reveal_views(a) =~= reveal_views(b));
}

/// Takes the reports out of a batch of decoded payloads.
///
/// One payload that could not be decoded fails the whole batch, with the
/// message of the first such payload.
pub fn collect_reports(reveals: Vec<Reveal>) -> (out: Result<Vec<Report>, Failure>)
    ensures
        match out {
            Ok(reports) => !any_malformed(reveal_views(reveals@)) && report_views(reports@)
                == reports_of(reveal_views(reveals@)),
            Err(failure) => any_malformed(reveal_views(reveals@)) && failure@ == decode_failure(
                reveal_views(reveals@)[first_malformed(reveal_views(reveals@))]->Malformed_0,
            ),
        },
{
    let ghost batch = reveal_views(reveals@);
    let mut reports: Vec<Report> = Vec::new();
    for reveal in iter: reveals
        invariant
            batch == reveal_views(reveals@),
            iter.seq() == reveals@,
            forall|i: int| 0 <= i < iter.index() ==> #[trigger] batch[i] is Decoded,
            report_views(reports@) == reports_of(batch.take(iter.index() as int)),
    {
        let ghost at = iter.index() as int;
        match reveal {
            Reveal::Decoded(report) => {
                proof {
                    batch.lemma_filter_map_take_succ(decoder(), at);
                    assert(report_views(reports@.push(report)) =~= report_views(reports@).push(
                        report@,
                    ));
                }
                reports.push(report);
            },
            Reveal::Malformed(message) => {
                proof {
                    lemma_first_malformed_unique(batch, at);
                }
                return Err(Failure::decode_error(message));
            },
        }
    }
    proof {
        assert(batch.take(reveals@.len() as int) =~= batch);
    }
    Ok(reports)
}

/// Every index below the length of the longest price vector has a price in
/// its column.
pub proof fn lemma_column_not_empty(reports: Seq<ReportView>, index: int)
    requires
        0 <= index < longest(reports),
    ensures
        column(reports, index).len() > 0,
    decreases reports.len(),
{
    if price_at(reports.last(), index) is None {
        lemma_column_not_empty(reports.drop_last(), index);
    }
}

/// No index below the length of the longest price vector is left out: the
/// medians of the columns below `upto` are as many as the columns, and the
/// one at `index` is the median of column `index`.
pub proof fn lemma_compact_medians(reports: Seq<ReportView>, upto: nat)
    requires
        upto <= longest(reports),
    ensures
        compact_medians(reports, upto) == Seq::new(
            upto,
            |index: int| median_of(column(reports, index))->Some_0,
        ),
    decreases upto,
{
    if upto > 0 {
        lemma_compact_medians(reports, (upto - 1) as nat);
        lemma_column_not_empty(reports, upto - 1);
    }
    assert(compact_medians(reports, upto) =~= Seq::new(
        upto,
        |index: int| median_of(column(reports, index))->Some_0,
    ));
}

/// What a successful tally holds: the status that every report gives, and
/// for each index of the longest price vector the median of the prices that
/// the reports give there, of which there is at least one.
pub proof fn lemma_successful_tally(reports: Seq<ReportView>)
    requires
        tally_reports(reports) is Ok,
    ensures
        forall|i: int|
            0 <= i < reports.len() ==> (#[trigger] reports[i]).market_status == tally_reports(
                reports,
            )->Ok_0.market_status,
        tally_reports(reports)->Ok_0.prices.len() == longest(reports),
        forall|index: int|
            #![trigger column(reports, index)]
            0 <= index < longest(reports) ==> column(reports, index).len() > 0 && median_of(
                column(reports, index),
            ) == Some(tally_reports(reports)->Ok_0.prices[index]),
{
    assert forall|index: int|
        #![trigger column(reports, index)]
        0 <= index < longest(reports) implies column(reports, index).len() > 0 && median_of(
        column(reports, index),
    ) == Some(tally_reports(reports)->Ok_0.prices[index]) by {
        lemma_column_not_empty(reports, index);
    }
}

/// Whether all reports give the same market status.
pub fn is_unanimous(reports: &Vec<Report>) -> (agreed: bool)
    ensures
        agreed == unanimous(report_views(reports@)),
{
    let mut checked: usize = 1;
    while checked < reports.len()
        invariant
            1 <= checked,
            forall|i: int|
                0 <= i < checked && i < reports.len() ==> (#[trigger] reports@[i]).market_status@
                    == reports@[0].market_status@,
        decreases reports.len() - checked,
    {
        if reports[checked].market_status != reports[0].market_status {
            assert(report_views(reports@)[checked as int].market_status != report_views(
                reports@,
            )[0].market_status);
            return false;
        }
        checked += 1;
    }
    true
}

/// The length of the longest price vector among the reports, 0 of none.
pub fn max_length(reports: &Vec<Report>) -> (length: usize)
    ensures
        length == longest(report_views(reports@)),
{
    let ghost views = report_views(reports@);
    let mut length: usize = 0;
    let mut seen: usize = 0;
    while seen < reports.len()
        invariant
            seen <= reports.len(),
            views == report_views(reports@),
            length == longest(views.take(seen as int)),
        decreases reports.len() - seen,
    {
        proof {
            assert(views.take(seen + 1).drop_last() =~= views.take(seen as int));
        }
        if reports[seen].prices.len() > length {
            length = reports[seen].prices.len();
        }
        seen += 1;
    }
    proof {
        assert(views.take(seen as int) =~= views);
    }
    length
}

/// The prices that the reports give at `index`, in the order of the reports;
/// a report whose price vector ends before `index` gives none.
pub fn gather_column(reports: &Vec<Report>, index: usize) -> (prices: Vec<Price>)
    ensures
        prices@ == column(report_views(reports@), index as int),
{
    let ghost views = report_views(reports@);
    let mut prices: Vec<Price> = Vec::new();
    let mut seen: usize = 0;
    while seen < reports.len()
        invariant
            seen <= reports.len(),
            views == report_views(reports@),
            prices@ == column(views.take(seen as int), index as int),
        decreases reports.len() - seen,
    {
        proof {
            views.lemma_filter_map_take_succ(picker(index as int), seen as int);
        }
        if index < reports[seen].prices.len() {
            prices.push(reports[seen].prices[index]);
        }
        seen += 1;
    }
    proof {
        assert(views.take(seen as int) =~= views);
    }
    prices
}

/// Tallies a batch of reports.
///
/// The reports must agree on the market status, there must be at least one,
/// and at least one must hold a price. The result then has, for each index
/// of the longest price vector, the median of the prices that the reports
/// give at that index.
pub fn aggregate_reports(reports: &Vec<Report>) -> (outcome: Result<AggregateResult, Failure>)
    ensures
        outcome_view(outcome) == tally_reports(report_views(reports@)),
{
    let ghost views = report_views(reports@);
    if !is_unanimous(reports) {
        return Err(Failure::inconsistent_status());
    }
    if reports.len() == 0 {
        return Err(Failure::no_consensus());
    }
    let length = max_length(reports);
    if length == 0 {
        return Err(Failure::all_empty());
    }
    let mut prices: Vec<Median> = Vec::new();
    let mut index: usize = 0;
    while index < length
        invariant
            index <= length,
            views == report_views(reports@),
            prices@ == compact_medians(views, index as nat),
        decreases length - index,
    {
        let column = gather_column(reports, index);
        // A column without a price is passed over.
        match median(column) {
            Some(median) => {
                prices.push(median);
            },
            None => {},
        }
        index += 1;
    }
    proof {
        lemma_compact_medians(views, length as nat);
    }
    Ok(AggregateResult { prices, market_status: reports[0].market_status.clone() })
}

/// Tallies a batch of decoded payloads.
///
/// A payload that could not be decoded fails the batch with a decode error.
/// Where all payloads could be decoded, their reports must agree on the
/// market status, there must be at least one, and at least one must hold a
/// price. The result then has, for each index of the longest price vector,
/// the median of the prices that the reports give at that index.
///
/// The outcome depends on nothing but the batch, and no order of the
/// payloads changes it, but for the message of a decode error.
pub fn aggregate(reveals: Vec<Reveal>) -> (outcome: Result<AggregateResult, Failure>)
    ensures
        outcome_view(outcome) == tally(reveal_views(reveals@)),
{
    match collect_reports(reveals) {
        Ok(reports) => aggregate_reports(&reports),
        Err(failure) => Err(failure),
    }
}

} // verus!
