//! What goes into a tally and what comes out of it.

use crate::median::Median;
use crate::price::Price;
use vstd::prelude::*;

verus! {

/// What one participant revealed: a vector of prices and the status of the
/// market at the time the prices were collected.
#[derive(Clone, Debug, PartialEq, Eq)]
pub struct Report {
    pub prices: Vec<Price>,
    pub market_status: String,
}

/// A report as a mathematical value.
pub struct ReportView {
    pub prices: Seq<Price>,
    pub market_status: Seq<char>,
}

impl View for Report {
    type V = ReportView;

    open spec fn view(&self) -> ReportView {
        ReportView { prices: self.prices@, market_status: self.market_status@ }
    }
}

/// One revealed payload after decoding: the report it held, or the message
/// of the error that decoding it gave.
#[derive(Clone, Debug, PartialEq, Eq)]
pub enum Reveal {
    Decoded(Report),
    Malformed(String),
}

/// A decoded payload as a mathematical value.
pub enum RevealView {
    Decoded(ReportView),
    Malformed(Seq<char>),
}

impl View for Reveal {
    type V = RevealView;

    open spec fn view(&self) -> RevealView {
        match *self {
            Reveal::Decoded(report) => RevealView::Decoded(report@),
            Reveal::Malformed(message) => RevealView::Malformed(message@),
        }
    }
}

/// The outcome of a successful tally: one median per index, and the status
/// that all reports gave.
#[derive(Clone, Debug, PartialEq, Eq)]
pub struct AggregateResult {
    pub prices: Vec<Median>,
    pub market_status: String,
}

/// A successful outcome as a mathematical value.
pub struct AggregateView {
    pub prices: Seq<Median>,
    pub market_status: Seq<char>,
}

impl View for AggregateResult {
    type V = AggregateView;

    open spec fn view(&self) -> AggregateView {
        AggregateView { prices: self.prices@, market_status: self.market_status@ }
    }
}

/// Why a tally gave no result.
#[derive(Clone, Copy, Debug, PartialEq, Eq, Structural)]
pub enum FailureKind {
    /// A payload could not be decoded into a report.
    DecodeError,
    /// Two reports give different market statuses.
    InconsistentStatus,
    /// There is no report at all.
    NoConsensus,
    /// No report holds a price.
    AllEmpty,
}

impl FailureKind {
    /// Whether a failure of this kind is an outcome of the tally, to be
    /// reported as such. A decode error is none: it fails the run itself.
    pub open spec fn spec_is_reported(self) -> bool {
        self != FailureKind::DecodeError
    }

    /// Whether a failure of this kind is an outcome of the tally, to be
    /// reported as such. A decode error is none: it fails the run itself.
    #[verifier::when_used_as_spec(spec_is_reported)]
    pub fn is_reported(self) -> (reported: bool)
        ensures
            reported == self.spec_is_reported(),
    {
        match self {
            FailureKind::DecodeError => false,
            FailureKind::InconsistentStatus => true,
            FailureKind::NoConsensus => true,
            FailureKind::AllEmpty => true,
        }
    }
}

/// A failed tally: the reason and a message for the reader.
#[derive(Clone, Debug, PartialEq, Eq)]
pub struct Failure {
    pub kind: FailureKind,
    pub message: String,
}

/// A failure as a mathematical value.
pub struct FailureView {
    pub kind: FailureKind,
    pub message: Seq<char>,
}

impl View for Failure {
    type V = FailureView;

    open spec fn view(&self) -> FailureView {
        FailureView { kind: self.kind, message: self.message@ }
    }
}

/// The failure for a payload that could not be decoded; the message is the
/// decoder's own.
pub open spec fn decode_failure(message: Seq<char>) -> FailureView {
    FailureView { kind: FailureKind::DecodeError, message }
}

/// The failure for reports that disagree on the market status.
pub open spec fn inconsistent_status_failure() -> FailureView {
    FailureView {
        kind: FailureKind::InconsistentStatus,
        message: "Market status is inconsistent between reveals"@,
    }
}

/// The failure for an empty batch.
pub open spec fn no_consensus_failure() -> FailureView {
    FailureView {
        kind: FailureKind::NoConsensus,
        message: "No consensus among revealed results"@,
    }
}

/// The failure for a batch without a single price.
pub open spec fn all_empty_failure() -> FailureView {
    FailureView { kind: FailureKind::AllEmpty, message: "All price vectors are empty"@ }
}

/// The failure of a kind whose message is fixed.
pub open spec fn failure_of(kind: FailureKind) -> FailureView
    recommends
        kind != FailureKind::DecodeError,
{
    match kind {
        FailureKind::InconsistentStatus => inconsistent_status_failure(),
        FailureKind::NoConsensus => no_consensus_failure(),
        _ => all_empty_failure(),
    }
}

impl Failure {
    /// A payload could not be decoded; `message` says why.
    pub fn decode_error(message: String) -> (failure: Failure)
        ensures
            failure@ == decode_failure(message@),
    {
        Failure { kind: FailureKind::DecodeError, message }
    }

    /// The reports disagree on the market status.
    pub fn inconsistent_status() -> (failure: Failure)
        ensures
            failure@ == inconsistent_status_failure(),
    {
        Failure {
            kind: FailureKind::InconsistentStatus,
            message: "Market status is inconsistent between reveals".to_owned(),
        }
    }

    /// The batch is empty.
    pub fn no_consensus() -> (failure: Failure)
        ensures
            failure@ == no_consensus_failure(),
    {
        Failure {
            kind: FailureKind::NoConsensus,
            message: "No consensus among revealed results".to_owned(),
        }
    }

    /// No report of the batch holds a price.
    pub fn all_empty() -> (failure: Failure)
        ensures
            failure@ == all_empty_failure(),
    {
        Failure { kind: FailureKind::AllEmpty, message: "All price vectors are empty".to_owned() }
    }
}

} // verus!
