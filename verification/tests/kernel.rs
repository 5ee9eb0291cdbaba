use megamerge::columns::unzip;
use megamerge::interval::Interval;
use megamerge::kernel::{select, Measurement, OverlapResult};

fn interval(from: f64, to: f64) -> Interval {
    Interval::new(from.to_bits(), to.to_bits())
}

fn measurement(overlap: f64, over_data: f64, over_segment: f64) -> Measurement {
    Measurement {
        overlap: overlap.to_bits(),
        overlap_over_data_length: over_data.to_bits(),
        overlap_over_segment_length: over_segment.to_bits(),
    }
}

fn result(data_index: usize, overlap: f64, over_data: f64, over_segment: f64) -> OverlapResult {
    OverlapResult {
        data_index,
        overlap: overlap.to_bits(),
        overlap_over_data_length: over_data.to_bits(),
        overlap_over_segment_length: over_segment.to_bits(),
    }
}

#[test]
fn intersection_takes_the_inner_bounds() {
    let segment = interval(0.0, 10.0);
    let datum = interval(5.0, 15.0);
    assert_eq!(datum.intersection(&segment), interval(5.0, 10.0));
    assert_eq!(segment.intersection(&datum), interval(5.0, 10.0));
}

#[test]
fn intersection_of_intervals_that_are_apart_runs_backwards() {
    let segment = interval(0.0, 10.0);
    let datum = interval(20.0, 30.0);
    let common = datum.intersection(&segment);
    assert_eq!(common, interval(20.0, 10.0));
    assert_eq!(f64::from_bits(common.to) - f64::from_bits(common.from), -10.0);
}

#[test]
fn intersection_accepts_a_reversed_interval() {
    let segment = interval(0.0, 10.0);
    let datum = interval(8.0, 2.0);
    assert_eq!(datum.intersection(&segment), interval(8.0, 2.0));
}

#[test]
fn select_reports_what_exceeds_the_threshold() {
    let measurements = vec![measurement(5.0, 0.5, 0.5), measurement(-10.0, -1.0, -1.0)];
    let results = select(&measurements, 0.0f64.to_bits());
    assert_eq!(results, vec![result(0, 5.0, 0.5, 0.5)]);
}

#[test]
fn select_leaves_out_an_overlap_equal_to_the_threshold() {
    let measurements = vec![measurement(5.0, 0.5, 0.5), measurement(-10.0, -1.0, -1.0)];
    assert_eq!(select(&measurements, 5.0f64.to_bits()), vec![]);
    let just_below = f64::from_bits(5.0f64.to_bits() - 1);
    assert_eq!(select(&measurements, just_below.to_bits()), vec![result(0, 5.0, 0.5, 0.5)]);
}

#[test]
fn select_leaves_out_a_touching_interval_at_threshold_zero() {
    let measurements = vec![measurement(0.0, 0.0, 0.0), measurement(-0.0, -0.0, -0.0)];
    assert_eq!(select(&measurements, 0.0f64.to_bits()), vec![]);
    assert_eq!(select(&measurements, (-0.0f64).to_bits()), vec![]);
}

#[test]
fn select_with_a_negative_threshold_reports_near_misses() {
    let measurements = vec![
        measurement(5.0, 0.5, 0.5),
        measurement(-10.0, -1.0, -1.0),
        measurement(-2.0, -0.25, -0.2),
        measurement(-3.0, -0.3, -0.3),
    ];
    let results = select(&measurements, (-3.0f64).to_bits());
    assert_eq!(results, vec![result(0, 5.0, 0.5, 0.5), result(2, -2.0, -0.25, -0.2)]);
}

#[test]
fn select_keeps_the_order_of_the_data_set() {
    let mut measurements = Vec::new();
    for i in 0..1000 {
        let overlap = if i % 3 == 0 { 1.0 + i as f64 } else { -1.0 };
        measurements.push(measurement(overlap, overlap / 2.0, overlap / 4.0));
    }
    let results = select(&measurements, 0.0f64.to_bits());
    assert_eq!(results.len(), 334);
    for (k, found) in results.iter().enumerate() {
        assert_eq!(found.data_index, 3 * k);
        assert_eq!(*found, result(3 * k, 1.0 + (3 * k) as f64, (1.0 + (3 * k) as f64) / 2.0, (1.0 + (3 * k) as f64) / 4.0));
    }
}

#[test]
fn select_never_reports_a_nan_overlap() {
    let measurements = vec![measurement(f64::NAN, f64::NAN, f64::NAN), measurement(1.0, f64::NAN, f64::INFINITY)];
    let results = select(&measurements, f64::NEG_INFINITY.to_bits());
    assert_eq!(results.len(), 1);
    assert_eq!(results[0].data_index, 1);
    assert_eq!(results[0].overlap, 1.0f64.to_bits());
    assert!(f64::from_bits(results[0].overlap_over_data_length).is_nan());
    assert_eq!(results[0].overlap_over_segment_length, f64::INFINITY.to_bits());
    assert_eq!(select(&measurements, f64::NAN.to_bits()), vec![]);
}

#[test]
fn select_of_nothing_is_empty() {
    assert_eq!(select(&Vec::new(), 0.0f64.to_bits()), vec![]);
}

#[test]
fn select_gives_the_same_results_every_time() {
    let measurements = vec![measurement(5.0, 0.5, 0.5), measurement(-10.0, -1.0, -1.0), measurement(0.25, 1.0, 0.025)];
    let first = select(&measurements, 0.0f64.to_bits());
    let second = select(&measurements.clone(), 0.0f64.to_bits());
    assert_eq!(first, second);
    assert_eq!(first, vec![result(0, 5.0, 0.5, 0.5), result(2, 0.25, 1.0, 0.025)]);
}

#[test]
fn unzip_lays_the_results_out_in_columns() {
    let results = vec![result(0, 5.0, 0.5, 0.25), result(2, 0.25, 1.0, 0.025), result(7, 3.0, 0.75, 0.3)];
    let columns = unzip(&results);
    assert_eq!(columns.indices, vec![0, 2, 7]);
    assert_eq!(columns.overlaps, vec![5.0f64.to_bits(), 0.25f64.to_bits(), 3.0f64.to_bits()]);
    assert_eq!(columns.overlap_over_data_length, vec![0.5f64.to_bits(), 1.0f64.to_bits(), 0.75f64.to_bits()]);
    assert_eq!(columns.overlap_over_segment_length, vec![0.25f64.to_bits(), 0.025f64.to_bits(), 0.3f64.to_bits()]);
}

#[test]
fn unzip_of_an_empty_batch_is_four_empty_columns() {
    let columns = unzip(&Vec::new());
    assert!(columns.indices.is_empty());
    assert!(columns.overlaps.is_empty());
    assert!(columns.overlap_over_data_length.is_empty());
    assert!(columns.overlap_over_segment_length.is_empty());
}
