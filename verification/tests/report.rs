use varint_simd_fair::report::{total_values, Report};
use varint_simd_fair::runner::RunTotals;

#[test]
fn total_values_is_the_exact_product() {
    assert_eq!(total_values(3, 20), Some(60));
    assert_eq!(total_values(1_000_000, 20), Some(20_000_000));
    assert_eq!(total_values(0, 20), Some(0));
    assert_eq!(total_values(5, 0), Some(0));
    assert_eq!(total_values(u64::MAX, 1), Some(u64::MAX));
    assert_eq!(total_values(u64::MAX / 2, 2), Some(u64::MAX - 1));
}

#[test]
fn total_values_that_do_not_fit_are_none() {
    assert_eq!(total_values(u64::MAX, 2), None);
    assert_eq!(total_values(1u64 << 63, 2), None);
    assert_eq!(total_values(u64::MAX / 2 + 1, 2), None);
}

#[test]
fn report_carries_totals_and_values() {
    let totals = RunTotals { total_time_ns: 1234, total_bytes_processed: 60 };
    let report = Report::new(totals, 3, 20).unwrap();
    assert_eq!(report.total_values, 60);
    assert_eq!(report.total_time_ns, 1234);
    assert_eq!(report.total_bytes_processed, 60);
    assert!(report.has_data());
    let ns_per_value = report.total_time_ns as f64 / report.total_values as f64;
    assert!(ns_per_value >= 0.0 && ns_per_value.is_finite());
}

#[test]
fn report_without_values_has_no_data() {
    let totals = RunTotals { total_time_ns: 40, total_bytes_processed: 0 };
    let report = Report::new(totals, 0, 20).unwrap();
    assert_eq!(report.total_values, 0);
    assert!(!report.has_data());
    assert!(!Report::new(totals, 20, 0).unwrap().has_data());
}

#[test]
fn report_of_too_many_values_is_none() {
    let totals = RunTotals { total_time_ns: 1, total_bytes_processed: 1 };
    assert_eq!(Report::new(totals, u64::MAX, 2), None);
}
