//! The integer side of a scenario's report: how many values a run decoded.

use vstd::prelude::*;
use crate::runner::RunTotals;

verus! {

/// What a scenario's result line is computed from.
#[derive(Debug, Clone, Copy, PartialEq, Eq)]
pub struct Report {
    /// Number of values decoded over all passes.
    pub total_values: u64,
    /// Time spent decoding, in nanoseconds.
    pub total_time_ns: u64,
    /// Bytes decoded over all passes.
    pub total_bytes_processed: u64,
}

/// Number of values that `iterations` passes over `record_count` records
/// decode, where it fits 64 bits.
pub fn total_values(record_count: u64, iterations: usize) -> (total: Option<u64>)
    ensures
        record_count * iterations <= u64::MAX ==> total == Some(
            (record_count * iterations) as u64,
        ),
        record_count * iterations > u64::MAX ==> total is None,
{
    record_count.checked_mul(iterations as u64)
}

impl Report {
    /// The report of a run of `iterations` passes over `record_count`
    /// records that ended with `totals`, where the number of values fits 64
    /// bits.
    pub fn new(totals: RunTotals, record_count: u64, iterations: usize) -> (report: Option<Report>)
        ensures
            report is Some <==> record_count * iterations <= u64::MAX,
            report matches Some(line) ==> {
                &&& line.total_values == record_count * iterations
                &&& line.total_time_ns == totals.total_time_ns
                &&& line.total_bytes_processed == totals.total_bytes_processed
            },
    {
        match total_values(record_count, iterations) {
            Some(total_values) => Some(
                Report {
                    total_values,
                    total_time_ns: totals.total_time_ns,
                    total_bytes_processed: totals.total_bytes_processed,
                },
            ),
            None => None,
        }
    }

    /// Whether any value was decoded. Per-value figures exist only then.
    pub fn has_data(&self) -> (yes: bool)
        ensures
            yes == (self.total_values > 0),
    {
        self.total_values > 0
    }
}

} // verus!
