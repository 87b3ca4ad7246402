//! The decode benchmark runner: one pass over the records of a stream, and
//! the timed repetition of that pass.

use vstd::prelude::*;
use vstd::slice::slice_subrange;
use std::time::Instant;
use crate::scenario::ScenarioKind;
use crate::stream::PADDING;
use crate::varint::{decode_next, lemma_single_byte, lemma_two_bytes, step_of};

verus! {

/// Why a run stopped before all its records were decoded.
#[derive(Debug, Clone, Copy, PartialEq, Eq)]
pub enum BenchError {
    /// The record with this index, counted from zero, reaches past the end
    /// of the encoded region: the stream holds fewer records than its
    /// header says.
    Overrun { record: u64 },
}

/// Where a completed pass ended.
#[derive(Debug, Clone, Copy, PartialEq, Eq)]
pub struct PassOutcome {
    /// Number of bytes of the encoded region that the records occupy.
    pub consumed: usize,
    /// The seed with every decoded value added to it, wrapping.
    pub sink: u64,
}

/// Length of the encoded region of a padded buffer.
pub open spec fn encoded_len(bytes: Seq<u8>) -> int {
    bytes.len() - PADDING
}

/// The cursor after `n` records of `bytes` have been decoded from its start,
/// or the index of the first record that reaches past the encoded region.
pub open spec fn walk(bytes: Seq<u8>, kind: ScenarioKind, n: nat) -> Result<int, nat>
    decreases n,
{
    if n == 0 {
        Ok(0)
    } else {
        match walk(bytes, kind, (n - 1) as nat) {
            Err(record) => Err(record),
            Ok(cursor) => {
                let len = step_of(bytes.skip(cursor), kind).1;
                if cursor + len <= encoded_len(bytes) {
                    Ok(cursor + len)
                } else {
                    Err((n - 1) as nat)
                }
            },
        }
    }
}

/// The sink after `n` records of `bytes` have been decoded: `seed` with the
/// value of each record added to it, wrapping.
pub open spec fn sink_after(bytes: Seq<u8>, kind: ScenarioKind, seed: u64, n: nat) -> u64
    decreases n,
{
    if n == 0 {
        seed
    } else {
        let before = sink_after(bytes, kind, seed, (n - 1) as nat);
        match walk(bytes, kind, (n - 1) as nat) {
            Err(_) => before,
            Ok(cursor) => before.wrapping_add(step_of(bytes.skip(cursor), kind).0 as u64),
        }
    }
}

/// Once a record has overrun, decoding more records changes nothing.
pub proof fn lemma_walk_stays_failed(bytes: Seq<u8>, kind: ScenarioKind, n: nat, m: nat)
    requires
        n <= m,
        walk(bytes, kind, n) is Err,
    ensures
        walk(bytes, kind, m) == walk(bytes, kind, n),
    decreases m,
{
    if n < m {
        lemma_walk_stays_failed(bytes, kind, n, (m - 1) as nat);
    }
}

/// Decodes `record_count` records back to back from the start of `bytes`,
/// folding each value into a sink that starts at `seed`.
///
/// `bytes` is a padded buffer: its last `PADDING` bytes lie past the encoded
/// region, so that the decoder may read past the last record. A record may
/// end at the end of the encoded region, not beyond it.
pub fn decode_pass(bytes: &[u8], record_count: u64, kind: ScenarioKind, seed: u64) -> (r: Result<
    PassOutcome,
    BenchError,
>)
    requires
        bytes@.len() >= PADDING,
    ensures
        match walk(bytes@, kind, record_count as nat) {
            Ok(cursor) => r == Ok::<PassOutcome, BenchError>(
                PassOutcome {
                    consumed: cursor as usize,
                    sink: sink_after(bytes@, kind, seed, record_count as nat),
                },
            ),
            Err(record) => r == Err::<PassOutcome, BenchError>(
                BenchError::Overrun { record: record as u64 },
            ),
        },
        r matches Ok(outcome) ==> outcome.consumed <= encoded_len(bytes@),
{
    let end: usize = bytes.len() - PADDING;
    let mut cursor: usize = 0;
    let mut sink: u64 = seed;
    let mut done: u64 = 0;
    while done < record_count
        invariant
            bytes@.len() >= PADDING,
            end == encoded_len(bytes@),
            done <= record_count,
            cursor <= end,
            walk(bytes@, kind, done as nat) == Ok::<int, nat>(cursor as int),
            sink == sink_after(bytes@, kind, seed, done as nat),
        decreases record_count - done,
    {
        let window = slice_subrange(bytes, cursor, bytes.len());
        assert(window@ == bytes@.skip(cursor as int));
        let (value, len) = decode_next(window, kind);
        if len > end - cursor {
            proof {
                lemma_walk_stays_failed(bytes@, kind, (done + 1) as nat, record_count as nat);
            }
            return Err(BenchError::Overrun { record: done });
        }
        cursor = cursor + len;
        sink = sink.wrapping_add(value);
        done = done + 1;
    }
    Ok(PassOutcome { consumed: cursor, sink })
}

/// A stream of single-byte varints is decoded one byte per record, and each
/// record decodes to its byte.
pub proof fn lemma_single_byte_stream(bytes: Seq<u8>, kind: ScenarioKind, n: nat)
    requires
        bytes.len() >= PADDING,
        n <= encoded_len(bytes),
        forall|i: int| 0 <= i < n ==> bytes[i] < 0x80,
    ensures
        forall|k: nat| k <= n ==> #[trigger] walk(bytes, kind, k) == Ok::<int, nat>(k as int),
        forall|i: int|
            0 <= i < n ==> #[trigger] step_of(bytes.skip(i), kind) == (bytes[i] as int, 1int),
    decreases n,
{
    assert forall|i: int| 0 <= i < n implies #[trigger] step_of(bytes.skip(i), kind) == (
        bytes[i] as int,
        1int,
    ) by {
        lemma_single_byte(bytes.skip(i), kind);
    }
    if n > 0 {
        lemma_single_byte_stream(bytes, kind, (n - 1) as nat);
        assert(walk(bytes, kind, (n - 1) as nat) == Ok::<int, nat>(n - 1));
        assert(step_of(bytes.skip(n - 1), kind).1 == 1);
        assert(walk(bytes, kind, n) == Ok::<int, nat>(n as int));
    }
}

/// Whether the bytes of `bytes` at `2 * i` and after it are a two-byte
/// varint: a byte with its continuation bit set, then one with it clear.
pub open spec fn is_two_byte_record(bytes: Seq<u8>, i: int) -> bool {
    bytes[2 * i] >= 0x80 && bytes[2 * i + 1] < 0x80
}

/// A stream of two-byte varints is decoded two bytes per record, at either
/// width and whether or not the values fit it.
pub proof fn lemma_two_byte_stream(bytes: Seq<u8>, kind: ScenarioKind, n: nat)
    requires
        bytes.len() >= PADDING,
        2 * n <= encoded_len(bytes),
        forall|i: int| 0 <= i < n ==> #[trigger] is_two_byte_record(bytes, i),
    ensures
        forall|k: nat| k <= n ==> #[trigger] walk(bytes, kind, k) == Ok::<int, nat>(2 * (k as int)),
    decreases n,
{
    if n > 0 {
        lemma_two_byte_stream(bytes, kind, (n - 1) as nat);
        assert(is_two_byte_record(bytes, n - 1));
        lemma_two_bytes(bytes.skip(2 * (n - 1)), kind);
        assert(walk(bytes, kind, (n - 1) as nat) == Ok::<int, nat>(2 * (n - 1)));
        assert(walk(bytes, kind, n) == Ok::<int, nat>(2 * (n as int)));
    }
}

/// Accumulated time and bytes of one scenario's run. Both only grow, and
/// stop at `u64::MAX`.
#[derive(Debug, Clone, Copy, PartialEq, Eq)]
pub struct RunTotals {
    pub total_time_ns: u64,
    pub total_bytes_processed: u64,
}

/// `x`, or `u64::MAX` where `x` is larger.
pub open spec fn saturated(x: int) -> u64 {
    if x > u64::MAX {
        u64::MAX
    } else {
        x as u64
    }
}

impl RunTotals {
    /// The totals of a run that has not started.
    pub fn new() -> (totals: RunTotals)
        ensures
            totals.total_time_ns == 0,
            totals.total_bytes_processed == 0,
    {
        RunTotals { total_time_ns: 0, total_bytes_processed: 0 }
    }

    /// Adds one timed iteration over an encoded region of `region_len`
    /// bytes. The clock's reading is cut to its low 64 bits before it is
    /// added; both additions saturate.
    pub fn record_iteration(&mut self, elapsed_nanos: u128, region_len: usize)
        ensures
            final(self).total_time_ns == saturated(
                old(self).total_time_ns + (elapsed_nanos as u64),
            ),
            final(self).total_bytes_processed == saturated(
                old(self).total_bytes_processed + region_len,
            ),
            final(self).total_time_ns >= old(self).total_time_ns,
            final(self).total_bytes_processed >= old(self).total_bytes_processed,
    {
        let elapsed: u64 = #[verifier::truncate] (elapsed_nanos as u64);
        self.total_time_ns = self.total_time_ns.saturating_add(elapsed);
        self.total_bytes_processed = self.total_bytes_processed.saturating_add(region_len as u64);
    }
}

/// `core::hint::black_box`. Trusted: it hands its argument back, as its
/// documentation says of this identity function.
pub assume_specification<T>[ core::hint::black_box::<T> ](dummy: T) -> (r: T)
    ensures
        r == dummy,
;

/// The byte total of a run that succeeds: the length of the encoded region
/// once for every pass, saturated. A stream without records adds nothing.
pub open spec fn run_bytes(bytes: Seq<u8>, record_count: u64, iterations: usize) -> u64 {
    if record_count == 0 {
        0
    } else {
        saturated(encoded_len(bytes) * iterations)
    }
}

/// Whether `r` is a possible result of a run of `iterations` passes over the
/// `record_count` records of `bytes`.
///
/// A run fails exactly where it makes at least one pass and a record of
/// that pass overruns; the error names the record. A run that succeeds has
/// the byte total `run_bytes`. Of its time total only this is fixed: it is
/// zero where there is no pass or no record.
pub open spec fn is_run_result(
    bytes: Seq<u8>,
    record_count: u64,
    iterations: usize,
    kind: ScenarioKind,
    r: Result<RunTotals, BenchError>,
) -> bool {
    match walk(bytes, kind, record_count as nat) {
        Err(record) if iterations > 0 => r == Err::<RunTotals, BenchError>(
            BenchError::Overrun { record: record as u64 },
        ),
        _ => {
            &&& r matches Ok(totals)
            &&& totals.total_bytes_processed == run_bytes(bytes, record_count, iterations)
            &&& (iterations == 0 || record_count == 0) ==> totals.total_time_ns == 0
        },
    }
}

/// Two runs over the same input end alike: both fail with the same error,
/// or both succeed with the same byte total. Only their time totals may
/// differ.
pub proof fn lemma_run_repeats(
    bytes: Seq<u8>,
    record_count: u64,
    iterations: usize,
    kind: ScenarioKind,
    first: Result<RunTotals, BenchError>,
    second: Result<RunTotals, BenchError>,
)
    requires
        is_run_result(bytes, record_count, iterations, kind, first),
        is_run_result(bytes, record_count, iterations, kind, second),
    ensures
        first is Ok <==> second is Ok,
        first is Err ==> first == second,
        first matches Ok(a) ==> second matches Ok(b) && a.total_bytes_processed
            == b.total_bytes_processed,
{
}

/// Runs `iterations` timed passes over the `record_count` records of the
/// padded buffer `bytes`, decoding at the width of `kind`.
///
/// Only the decoding of a pass is timed. The sink runs through all passes
/// and is handed to an optimisation barrier at the end, so that the
/// decoding cannot be removed as dead code. A stream without records is
/// not decoded and adds nothing to the totals.
pub fn bench_decode(bytes: &[u8], record_count: u64, iterations: usize, kind: ScenarioKind) -> (r:
    Result<RunTotals, BenchError>)
    requires
        bytes@.len() >= PADDING,
    ensures
        is_run_result(bytes@, record_count, iterations, kind, r),
{
    let mut totals = RunTotals::new();
    if record_count == 0 {
        return Ok(totals);
    }
    let region_len: usize = bytes.len() - PADDING;
    let mut sink: u64 = 0;
    let mut iteration: usize = 0;
    while iteration < iterations
        invariant
            bytes@.len() >= PADDING,
            region_len == encoded_len(bytes@),
            iteration <= iterations,
            iteration > 0 ==> walk(bytes@, kind, record_count as nat) is Ok,
            iteration == 0 ==> totals.total_time_ns == 0,
            totals.total_bytes_processed == saturated(region_len * iteration),
        decreases iterations - iteration,
    {
        let started = Instant::now();
        let outcome = decode_pass(bytes, record_count, kind, sink);
        let elapsed = started.elapsed();
        match outcome {
            Ok(pass) => {
                sink = pass.sink;
            },
            Err(e) => {
                return Err(e);
            },
        }
        assert(region_len * (iteration + 1) == region_len * iteration + region_len)
            by (nonlinear_arith);
        assert(region_len * iteration >= 0) by (nonlinear_arith);
        totals.record_iteration(elapsed.as_nanos(), region_len);
        iteration = iteration + 1;
    }
    let _ = core::hint::black_box(sink);
    Ok(totals)
}

/// Runs the benchmark of an eight-bit scenario: see `bench_decode`.
pub fn bench_decode_u8(bytes: &[u8], record_count: u64, iterations: usize) -> (r: Result<
    RunTotals,
    BenchError,
>)
    requires
        bytes@.len() >= PADDING,
    ensures
        is_run_result(bytes@, record_count, iterations, ScenarioKind::U8, r),
{
    bench_decode(bytes, record_count, iterations, ScenarioKind::U8)
}

/// Runs the benchmark of a sixteen-bit scenario: see `bench_decode`.
pub fn bench_decode_u16(bytes: &[u8], record_count: u64, iterations: usize) -> (r: Result<
    RunTotals,
    BenchError,
>)
    requires
        bytes@.len() >= PADDING,
    ensures
        is_run_result(bytes@, record_count, iterations, ScenarioKind::U16, r),
{
    bench_decode(bytes, record_count, iterations, ScenarioKind::U16)
}

} // verus!
