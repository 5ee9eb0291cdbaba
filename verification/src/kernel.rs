//! The overlap kernel: which data intervals are reported for one segment.

use vstd::prelude::*;
use crate::binary64::{exceeds, greater};
use crate::interval::Interval;

verus! {

/// What was measured of one data interval against one segment. Each field is a
/// binary64 bit pattern.
#[derive(Clone, Copy, Debug, PartialEq, Eq, Structural)]
pub struct Measurement {
    /// The length of what the data interval and the segment have in common.
    pub overlap: u64,
    /// The overlap divided by the length of the data interval.
    pub overlap_over_data_length: u64,
    /// The overlap divided by the length of the segment.
    pub overlap_over_segment_length: u64,
}

/// One reported data interval: its position in the data set and what was
/// measured of it.
#[derive(Clone, Copy, Debug, PartialEq, Eq, Structural)]
pub struct OverlapResult {
    pub data_index: usize,
    pub overlap: u64,
    pub overlap_over_data_length: u64,
    pub overlap_over_segment_length: u64,
}

impl Measurement {
    /// Whether the overlap exceeds the threshold. An overlap equal to the
    /// threshold does not pass, and neither does a NaN.
    pub open spec fn passes(self, threshold: u64) -> bool {
        greater(self.overlap, threshold)
    }

    /// The result that reports this measurement for the data interval at `index`.
    pub open spec fn report(self, index: int) -> OverlapResult {
        OverlapResult {
            data_index: index as usize,
            overlap: self.overlap,
            overlap_over_data_length: self.overlap_over_data_length,
            overlap_over_segment_length: self.overlap_over_segment_length,
        }
    }
}

/// The results for one segment: the measurements that pass, in the order of the
/// data set, each with its position.
pub open spec fn reported(measurements: Seq<Measurement>, threshold: u64) -> Seq<OverlapResult>
    decreases measurements.len(),
{
    if measurements.len() == 0 {
        Seq::empty()
    } else {
        let earlier = reported(measurements.drop_last(), threshold);
        let index = measurements.len() - 1;
        if measurements.last().passes(threshold) {
            earlier.push(measurements.last().report(index))
        } else {
            earlier
        }
    }
}

/// Whether `results` reports exactly the measurements that pass: every result
/// names a measurement that passes and carries it unchanged, the results stand
/// in strictly rising order of position, and no measurement that passes is
/// left out.
pub open spec fn is_report(results: Seq<OverlapResult>, measurements: Seq<Measurement>, threshold: u64) -> bool {
    &&& forall|k: int|
        0 <= k < results.len() ==> {
            let result = #[trigger] results[k];
            &&& result.data_index < measurements.len()
            &&& measurements[result.data_index as int].passes(threshold)
            &&& result == measurements[result.data_index as int].report(result.data_index as int)
        }
    &&& forall|j: int, k: int|
        0 <= j < k < results.len() ==> (#[trigger] results[j]).data_index < (#[trigger] results[k]).data_index
    &&& forall|i: int|
        0 <= i < measurements.len() && (#[trigger] measurements[i]).passes(threshold) ==> exists|k: int|
            0 <= k < results.len() && (#[trigger] results[k]).data_index == i
}

/// Of measurements that a vector can hold, `reported` reports exactly those
/// that pass, and never more results than there are measurements.
pub proof fn lemma_reported(measurements: Seq<Measurement>, threshold: u64)
    requires
        measurements.len() <= usize::MAX,
    ensures
        is_report(reported(measurements, threshold), measurements, threshold),
        reported(measurements, threshold).len() <= measurements.len(),
    decreases measurements.len(),
{
    if measurements.len() > 0 {
        let shorter = measurements.drop_last();
        let earlier = reported(shorter, threshold);
        let all = reported(measurements, threshold);
        let last = measurements.len() - 1;
        lemma_reported(shorter, threshold);
        assert forall|k: int| 0 <= k < all.len() implies {
            let result = #[trigger] all[k];
            &&& result.data_index < measurements.len()
            &&& measurements[result.data_index as int].passes(threshold)
            &&& result == measurements[result.data_index as int].report(result.data_index as int)
        } by {
            if k < earlier.len() {
                assert(all[k] == earlier[k]);
                assert(shorter[earlier[k].data_index as int] == measurements[earlier[k].data_index as int]);
            }
        }
        assert forall|j: int, k: int| 0 <= j < k < all.len() implies (#[trigger] all[j]).data_index < (
        #[trigger] all[k]).data_index by {
            assert(all[j] == earlier[j]);
            if k < earlier.len() {
                assert(all[k] == earlier[k]);
            }
        }
        assert forall|i: int|
            0 <= i < measurements.len() && (#[trigger] measurements[i]).passes(
                threshold,
            ) implies exists|k: int| 0 <= k < all.len() && (#[trigger] all[k]).data_index == i by {
            if i < last {
                assert(shorter[i].passes(threshold));
                let k = choose|k: int| 0 <= k < earlier.len() && (#[trigger] earlier[k]).data_index == i;
                assert(all[k].data_index == i);
            } else {
                assert(all[all.len() - 1].data_index == i);
            }
        }
    }
}

/// Only one sequence reports exactly the measurements that pass: the one that
/// `reported` gives.
pub proof fn lemma_report_is_unique(results: Seq<OverlapResult>, measurements: Seq<Measurement>, threshold: u64)
    requires
        measurements.len() <= usize::MAX,
        is_report(results, measurements, threshold),
    ensures
        results == reported(measurements, threshold),
    decreases measurements.len(),
{
    if measurements.len() == 0 {
        if results.len() > 0 {
            assert(results[0].data_index < measurements.len());
        }
        assert(results =~= Seq::empty());
    } else {
        let shorter = measurements.drop_last();
        let last = measurements.len() - 1;
        if measurements[last].passes(threshold) {
            let found = choose|k: int| 0 <= k < results.len() && (#[trigger] results[k]).data_index == last;
            let end = results.len() - 1;
            if found < end {
                assert(results[found].data_index < results[end].data_index);
                assert(results[end].data_index < measurements.len());
            }
            assert(found == end);
            let front = results.drop_last();
            assert forall|k: int| 0 <= k < front.len() implies {
                let result = #[trigger] front[k];
                &&& result.data_index < shorter.len()
                &&& shorter[result.data_index as int].passes(threshold)
                &&& result == shorter[result.data_index as int].report(result.data_index as int)
            } by {
                assert(front[k] == results[k]);
                assert(results[k].data_index < results[end].data_index);
                assert(shorter[results[k].data_index as int] == measurements[results[k].data_index as int]);
            }
            assert forall|j: int, k: int| 0 <= j < k < front.len() implies (#[trigger] front[j]).data_index < (
            #[trigger] front[k]).data_index by {
                assert(front[j] == results[j]);
                assert(front[k] == results[k]);
            }
            assert forall|i: int|
                0 <= i < shorter.len() && (#[trigger] shorter[i]).passes(threshold) implies exists|k: int|
                0 <= k < front.len() && (#[trigger] front[k]).data_index == i by {
                assert(measurements[i].passes(threshold));
                let k = choose|k: int| 0 <= k < results.len() && (#[trigger] results[k]).data_index == i;
                assert(k != end);
                assert(front[k].data_index == i);
            }
            lemma_report_is_unique(front, shorter, threshold);
            assert(results =~= front.push(results[end]));
        } else {
            assert forall|k: int| 0 <= k < results.len() implies {
                let result = #[trigger] results[k];
                &&& result.data_index < shorter.len()
                &&& shorter[result.data_index as int].passes(threshold)
                &&& result == shorter[result.data_index as int].report(result.data_index as int)
            } by {
                assert(results[k].data_index != last);
                assert(shorter[results[k].data_index as int] == measurements[results[k].data_index as int]);
            }
            assert forall|i: int|
                0 <= i < shorter.len() && (#[trigger] shorter[i]).passes(threshold) implies exists|k: int|
                0 <= k < results.len() && (#[trigger] results[k]).data_index == i by {
                assert(measurements[i].passes(threshold));
            }
            lemma_report_is_unique(results, shorter, threshold);
        }
    }
}

/// The results for one segment; see [`reported`]. The data set's order is kept.
pub fn select(measurements: &Vec<Measurement>, threshold: u64) -> (results: Vec<OverlapResult>)
    ensures
        results@ == reported(measurements@, threshold),
        is_report(results@, measurements@, threshold),
{
    let mut results: Vec<OverlapResult> = Vec::new();
    let mut index: usize = 0;
    while index < measurements.len()
        invariant
            index <= measurements.len(),
            results@ == reported(measurements@.take(index as int), threshold),
        decreases measurements.len() - index,
    {
        let measurement = measurements[index];
        proof {
            let longer = measurements@.take(index + 1);
            assert(longer.drop_last() == measurements@.take(index as int));
            assert(longer.last() == measurement);
        }
        if exceeds(measurement.overlap, threshold) {
            results.push(
                OverlapResult {
                    data_index: index,
                    overlap: measurement.overlap,
                    overlap_over_data_length: measurement.overlap_over_data_length,
                    overlap_over_segment_length: measurement.overlap_over_segment_length,
                },
            );
        }
        index += 1;
    }
    proof {
        assert(measurements@.take(measurements.len() as int) == measurements@);
        lemma_reported(measurements@, threshold);
    }
    results
}

/// Whether `measurement` is what the two operations give for `datum` against
/// `segment`, whose length is `segment_length`:
/// the overlap is the upper bound of what the two intervals have in common
/// less its lower bound, and the two fractions are the overlap divided by the
/// length of the data interval, its upper bound less its lower bound, and by
/// the length of the segment.
pub open spec fn measures<S: Fn(u64, u64) -> u64, D: Fn(u64, u64) -> u64>(
    subtract: S,
    divide: D,
    segment: Interval,
    segment_length: u64,
    datum: Interval,
    measurement: Measurement,
) -> bool {
    let common = datum.common(segment);
    &&& subtract.ensures((common.to, common.from), measurement.overlap)
    &&& exists|data_length: u64| #[trigger]
        subtract.ensures((datum.to, datum.from), data_length) && divide.ensures(
            (measurement.overlap, data_length),
            measurement.overlap_over_data_length,
        )
    &&& divide.ensures((measurement.overlap, segment_length), measurement.overlap_over_segment_length)
}

/// Whether `measurements` is what the two operations give for the data set,
/// interval by interval, against `segment`, with the length of the segment
/// taken once: its upper bound less its lower bound.
pub open spec fn measured<S: Fn(u64, u64) -> u64, D: Fn(u64, u64) -> u64>(
    subtract: S,
    divide: D,
    segment: Interval,
    data: Seq<Interval>,
    measurements: Seq<Measurement>,
) -> bool {
    &&& measurements.len() == data.len()
    &&& exists|segment_length: u64| #[trigger]
        subtract.ensures((segment.to, segment.from), segment_length) && forall|i: int|
            0 <= i < data.len() ==> measures(
                subtract,
                divide,
                segment,
                segment_length,
                data[i],
                #[trigger] measurements[i],
            )
}

/// Whether an operation has one result for each pair of arguments.
pub open spec fn is_function<F: Fn(u64, u64) -> u64>(operation: F) -> bool {
    forall|a: u64, b: u64, first: u64, second: u64|
        #[trigger] operation.ensures((a, b), first) && #[trigger] operation.ensures((a, b), second) ==> first
            == second
}

/// With operations that have one result for each pair of arguments, a segment,
/// a data set and a threshold have one batch: whatever was measured, the same
/// measurements come out, and with them the same results.
pub proof fn lemma_scan_is_deterministic<S: Fn(u64, u64) -> u64, D: Fn(u64, u64) -> u64>(
    subtract: S,
    divide: D,
    segment: Interval,
    data: Seq<Interval>,
    threshold: u64,
    first: Seq<Measurement>,
    second: Seq<Measurement>,
)
    requires
        is_function(subtract),
        is_function(divide),
        measured(subtract, divide, segment, data, first),
        measured(subtract, divide, segment, data, second),
    ensures
        first == second,
        reported(first, threshold) == reported(second, threshold),
{
    let first_length = choose|segment_length: u64| #[trigger]
        subtract.ensures((segment.to, segment.from), segment_length) && forall|i: int|
            0 <= i < data.len() ==> measures(subtract, divide, segment, segment_length, data[i], #[trigger] first[i]);
    let second_length = choose|segment_length: u64| #[trigger]
        subtract.ensures((segment.to, segment.from), segment_length) && forall|i: int|
            0 <= i < data.len() ==> measures(subtract, divide, segment, segment_length, data[i], #[trigger] second[i]);
    assert(first_length == second_length);
    assert forall|i: int| 0 <= i < data.len() implies first[i] == second[i] by {
        let datum = data[i];
        assert(measures(subtract, divide, segment, first_length, datum, first[i]));
        assert(measures(subtract, divide, segment, second_length, datum, second[i]));
        assert(first[i].overlap == second[i].overlap);
        let first_data_length = choose|data_length: u64| #[trigger]
            subtract.ensures((datum.to, datum.from), data_length) && divide.ensures(
                (first[i].overlap, data_length),
                first[i].overlap_over_data_length,
            );
        let second_data_length = choose|data_length: u64| #[trigger]
            subtract.ensures((datum.to, datum.from), data_length) && divide.ensures(
                (second[i].overlap, data_length),
                second[i].overlap_over_data_length,
            );
        assert(first_data_length == second_data_length);
    }
    assert(first =~= second);
}

/// Measures one data interval against a segment of the given length.
///
/// The bounds are binary64 bit patterns, and so is what the two operations
/// take and return: `subtract(a, b)` stands for `a - b` and `divide(a, b)` for
/// `a / b`, each rounded as the caller's arithmetic rounds it.
pub fn measure<S: Fn(u64, u64) -> u64, D: Fn(u64, u64) -> u64>(
    segment: Interval,
    segment_length: u64,
    datum: Interval,
    subtract: &S,
    divide: &D,
) -> (measurement: Measurement)
    requires
        forall|a: u64, b: u64| #[trigger] subtract.requires((a, b)),
        forall|a: u64, b: u64| #[trigger] divide.requires((a, b)),
    ensures
        measures(*subtract, *divide, segment, segment_length, datum, measurement),
{
    let common = datum.intersection(&segment);
    let overlap: u64 = subtract(common.to, common.from);
    let data_length: u64 = subtract(datum.to, datum.from);
    Measurement {
        overlap,
        overlap_over_data_length: divide(overlap, data_length),
        overlap_over_segment_length: divide(overlap, segment_length),
    }
}

/// Measures every data interval against `segment`, in the order of the data
/// set, and returns the results for those whose overlap exceeds the threshold,
/// in that order. See [`measure`] for the two operations.
pub fn scan<S: Fn(u64, u64) -> u64, D: Fn(u64, u64) -> u64>(
    segment: Interval,
    data: &Vec<Interval>,
    threshold: u64,
    subtract: &S,
    divide: &D,
) -> (results: Vec<OverlapResult>)
    requires
        forall|a: u64, b: u64| #[trigger] subtract.requires((a, b)),
        forall|a: u64, b: u64| #[trigger] divide.requires((a, b)),
    ensures
        exists|measurements: Seq<Measurement>|
            measured(*subtract, *divide, segment, data@, measurements) && results@ == reported(
                measurements,
                threshold,
            ),
{
    let segment_length: u64 = subtract(segment.to, segment.from);
    let mut measurements: Vec<Measurement> = Vec::new();
    let mut row: usize = 0;
    while row < data.len()
        invariant
            row <= data.len(),
            forall|a: u64, b: u64| #[trigger] subtract.requires((a, b)),
            forall|a: u64, b: u64| #[trigger] divide.requires((a, b)),
            measurements@.len() == row,
            forall|i: int|
                0 <= i < row ==> measures(
                    *subtract,
                    *divide,
                    segment,
                    segment_length,
                    data@[i],
                    #[trigger] measurements@[i],
                ),
        decreases data.len() - row,
    {
        let measurement = measure(segment, segment_length, data[row], subtract, divide);
        measurements.push(measurement);
        row += 1;
    }
    proof {
        assert(subtract.ensures((segment.to, segment.from), segment_length));
        assert(measured(*subtract, *divide, segment, data@, measurements@));
    }
    select(&measurements, threshold)
}

} // verus!
