//! The latency line of a benchmark report, and the choice of its smallest
//! reading.

use vstd::prelude::*;
use crate::float_order::{
    f64_bits_eq, f64_bits_le, f64_bits_lt, float_bits_eq, float_bits_lt, is_nan_bits,
    lemma_f64_bits_eq_lt, lemma_f64_bits_lt_transitive, lemma_non_negative_order_is_integer_order,
};

verus! {

/// The four columns of the `Latency` line of a wrk report, as text.
#[derive(Clone, Debug, PartialEq, Eq)]
pub struct LatencyStats {
    pub avg: String,
    pub stdev: String,
    pub max: String,
    pub deviation: String,
}

/// The four latency columns as character sequences.
pub struct LatencyView {
    pub avg: Seq<char>,
    pub stdev: Seq<char>,
    pub max: Seq<char>,
    pub deviation: Seq<char>,
}

impl View for LatencyStats {
    type V = LatencyView;

    open spec fn view(&self) -> LatencyView {
        LatencyView {
            avg: self.avg@,
            stdev: self.stdev@,
            max: self.max@,
            deviation: self.deviation@,
        }
    }
}

/// The numbers read from `avg`, `stdev` and `max` of a `LatencyStats`:
/// each the IEEE 754 bit pattern of the `f64` that `str::parse::<f64>`
/// gives for the field, or of `0.0` where that parse fails.
#[derive(Clone, Copy, Debug, PartialEq, Eq)]
pub struct ParsedLatency {
    pub avg: u64,
    pub stdev: u64,
    pub max: u64,
}

/// Which latency column holds the smallest reading.
#[derive(Clone, Copy, Debug, PartialEq, Eq)]
pub enum LatencyPick {
    Avg,
    Stdev,
    Max,
}

/// The column chosen: `avg` when it is below both others; else `stdev`
/// when it is below both others; else `avg` when it equals `stdev` and both
/// are below `max`; else `max`. Among numbers (no NaN) this is always a
/// column of least reading; `max` is taken when all three are equal, or
/// when a NaN leaves no column below both others.
pub open spec fn spec_pick_min_latency(p: ParsedLatency) -> LatencyPick {
    if f64_bits_lt(p.avg, p.stdev) && f64_bits_lt(p.avg, p.max) {
        LatencyPick::Avg
    } else if f64_bits_lt(p.stdev, p.avg) && f64_bits_lt(p.stdev, p.max) {
        LatencyPick::Stdev
    } else if f64_bits_eq(p.avg, p.stdev) && f64_bits_lt(p.avg, p.max) {
        LatencyPick::Avg
    } else {
        LatencyPick::Max
    }
}

/// The reading of the chosen column.
pub open spec fn picked_reading(p: ParsedLatency, k: LatencyPick) -> u64 {
    match k {
        LatencyPick::Avg => p.avg,
        LatencyPick::Stdev => p.stdev,
        LatencyPick::Max => p.max,
    }
}

/// The text of the chosen column.
pub open spec fn picked_text(l: LatencyStats, k: LatencyPick) -> Seq<char> {
    match k {
        LatencyPick::Avg => l.avg@,
        LatencyPick::Stdev => l.stdev@,
        LatencyPick::Max => l.max@,
    }
}

/// Chooses the column with the smallest reading.
pub fn pick_min_latency(parsed: &ParsedLatency) -> (k: LatencyPick)
    ensures
        k == spec_pick_min_latency(*parsed),
{
    if float_bits_lt(parsed.avg, parsed.stdev) && float_bits_lt(parsed.avg, parsed.max) {
        LatencyPick::Avg
    } else if float_bits_lt(parsed.stdev, parsed.avg) && float_bits_lt(parsed.stdev, parsed.max) {
        LatencyPick::Stdev
    } else if float_bits_eq(parsed.avg, parsed.stdev) && float_bits_lt(parsed.avg, parsed.max) {
        LatencyPick::Avg
    } else {
        LatencyPick::Max
    }
}

/// The text of the latency column with the smallest reading, `parsed`
/// holding the readings of `latency_stats`.
pub fn find_min_latency(latency_stats: &LatencyStats, parsed: &ParsedLatency) -> (min: String)
    ensures
        min@ == picked_text(*latency_stats, spec_pick_min_latency(*parsed)),
{
    match pick_min_latency(parsed) {
        LatencyPick::Avg => latency_stats.avg.clone(),
        LatencyPick::Stdev => latency_stats.stdev.clone(),
        LatencyPick::Max => latency_stats.max.clone(),
    }
}

/// When the three readings are numbers (no NaN), the chosen column holds
/// a least reading: it is at most each of the three.
pub proof fn lemma_min_latency_is_least(p: ParsedLatency)
    requires
        !is_nan_bits(p.avg),
        !is_nan_bits(p.stdev),
        !is_nan_bits(p.max),
    ensures
        ({
            let m = picked_reading(p, spec_pick_min_latency(p));
            &&& f64_bits_le(m, p.avg)
            &&& f64_bits_le(m, p.stdev)
            &&& f64_bits_le(m, p.max)
        }),
{
    if f64_bits_lt(p.stdev, p.avg) && f64_bits_lt(p.avg, p.max) {
        lemma_f64_bits_lt_transitive(p.stdev, p.avg, p.max);
    }
    if f64_bits_lt(p.avg, p.stdev) && f64_bits_lt(p.stdev, p.max) {
        lemma_f64_bits_lt_transitive(p.avg, p.stdev, p.max);
    }
    if f64_bits_lt(p.max, p.avg) && f64_bits_lt(p.avg, p.stdev) {
        lemma_f64_bits_lt_transitive(p.max, p.avg, p.stdev);
    }
    if f64_bits_lt(p.max, p.stdev) && f64_bits_lt(p.stdev, p.avg) {
        lemma_f64_bits_lt_transitive(p.max, p.stdev, p.avg);
    }
    if f64_bits_eq(p.avg, p.stdev) && f64_bits_lt(p.stdev, p.max) {
        lemma_f64_bits_eq_lt(p.avg, p.stdev, p.max);
    }
    if f64_bits_eq(p.stdev, p.avg) && f64_bits_lt(p.avg, p.max) {
        lemma_f64_bits_eq_lt(p.stdev, p.avg, p.max);
    }
}

/// For non-negative readings (no NaN, sign bit clear), the chosen column
/// holds the least bit pattern, which is the least reading.
pub proof fn lemma_min_latency_non_negative(p: ParsedLatency)
    requires
        p.avg <= 0x7FF0_0000_0000_0000,
        p.stdev <= 0x7FF0_0000_0000_0000,
        p.max <= 0x7FF0_0000_0000_0000,
    ensures
        ({
            let m = picked_reading(p, spec_pick_min_latency(p));
            &&& m <= p.avg
            &&& m <= p.stdev
            &&& m <= p.max
        }),
{
    lemma_non_negative_order_is_integer_order(p.avg, p.stdev);
    lemma_non_negative_order_is_integer_order(p.stdev, p.avg);
    lemma_non_negative_order_is_integer_order(p.avg, p.max);
    lemma_non_negative_order_is_integer_order(p.max, p.avg);
    lemma_non_negative_order_is_integer_order(p.stdev, p.max);
    lemma_non_negative_order_is_integer_order(p.max, p.stdev);
}

/// When any reading is NaN, no column is below both others and `max` is
/// chosen.
pub proof fn lemma_nan_reading_picks_max(p: ParsedLatency)
    requires
        is_nan_bits(p.avg) || is_nan_bits(p.stdev) || is_nan_bits(p.max),
    ensures
        spec_pick_min_latency(p) == LatencyPick::Max,
{
}

/// Which column is chosen: `avg` exactly when it is below `max` and at most
/// `stdev`; `stdev` exactly when it is below both others; `max` otherwise.
pub proof fn lemma_pick_characterised(p: ParsedLatency)
    ensures
        spec_pick_min_latency(p) == LatencyPick::Avg <==> (f64_bits_lt(p.avg, p.max) && f64_bits_le(
            p.avg,
            p.stdev,
        )),
        spec_pick_min_latency(p) == LatencyPick::Stdev <==> (f64_bits_lt(p.stdev, p.avg)
            && f64_bits_lt(p.stdev, p.max)),
{
}

} // verus!
