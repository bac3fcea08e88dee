//! Tally of independently revealed price reports.
//!
//! Every report carries a vector of prices and a market-status label. A batch
//! of reports is reduced to one vector holding, per index, the median of the
//! prices revealed at that index, provided that all reports agree on the
//! label. The reports may differ in length: the median at an index is taken
//! over the reports that are long enough to have a price there.
//!
//! Prices are held as bit patterns of binary64 numbers and are only ever
//! compared, never added or divided: where a median is the mean of two
//! prices, the two are handed out and the caller forms the mean.

pub mod median;
pub mod price;
pub mod rearrangement;
pub mod report;
pub mod tally;

pub use crate::median::{median, sort_prices, Median};
pub use crate::price::Price;
pub use crate::report::{AggregateResult, Failure, FailureKind, Report, Reveal};
pub use crate::tally::{
    aggregate, aggregate_reports, collect_reports, gather_column, is_unanimous, max_length,
};
