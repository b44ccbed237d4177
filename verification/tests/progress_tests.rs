use mnemonic_validator::engine::RunStatus;
use mnemonic_validator::progress::{
    estimate_remaining, format_duration, make_snapshot, percent_complete, progress_due,
    throughput, PROGRESS_INTERVAL_MILLIS,
};

#[test]
fn durations_as_clock_text() {
    assert_eq!(format_duration(0), "00:00");
    assert_eq!(format_duration(59), "00:59");
    assert_eq!(format_duration(60), "01:00");
    assert_eq!(format_duration(61), "01:01");
    assert_eq!(format_duration(3599), "59:59");
    assert_eq!(format_duration(3600), "01:00:00");
    assert_eq!(format_duration(3661), "01:01:01");
    // The hour field widens past two digits.
    assert_eq!(format_duration(360000), "100:00:00");
}

#[test]
fn throughput_is_defined_for_every_input() {
    assert_eq!(throughput(100, 10), 10);
    assert_eq!(throughput(105, 10), 10);
    assert_eq!(throughput(0, 0), 0);
    // Zero elapsed time: the processed count stands in.
    assert_eq!(throughput(100, 0), 100);
    assert_eq!(throughput(u64::MAX, 0), u64::MAX);
}

#[test]
fn eta_before_any_progress_is_a_placeholder() {
    assert_eq!(estimate_remaining(0, 10, 5), "Calculating...");
    assert_eq!(estimate_remaining(0, 0, 0), "Calculating...");
}

#[test]
fn eta_extrapolates_from_the_observed_rate() {
    // 50 of 100 lines in 10 seconds: 10 more seconds to go.
    assert_eq!(estimate_remaining(50, 100, 10), "00:10");
    // 1 of 7201 lines in 1 second: two hours.
    assert_eq!(estimate_remaining(1, 7201, 1), "02:00:00");
    // Zero elapsed time stays finite.
    assert_eq!(estimate_remaining(10, 100, 0), "00:00");
    // Already past the total: nothing remains.
    assert_eq!(estimate_remaining(100, 50, 10), "00:00");
    // Extreme counters stay finite: the estimate caps out.
    assert_eq!(estimate_remaining(1, u64::MAX, u64::MAX), "5124095576030431:00:15");
}

#[test]
fn percent_is_guarded_and_bounded() {
    assert_eq!(percent_complete(0, 0), 0);
    assert_eq!(percent_complete(0, 10), 0);
    assert_eq!(percent_complete(5, 10), 50);
    assert_eq!(percent_complete(10, 10), 100);
    assert_eq!(percent_complete(1, 3), 33);
    assert_eq!(percent_complete(u64::MAX, u64::MAX), 100);
}

#[test]
fn status_text_per_state() {
    assert_eq!(RunStatus::Running.text(), "Processing...");
    assert_eq!(RunStatus::Completed.text(), "Done.");
    assert_eq!(RunStatus::Cancelled.text(), "Cancelled.");
    assert_eq!(RunStatus::Failed.text(), "Failed.");
}

#[test]
fn snapshot_carries_the_counters_and_texts() {
    let s = make_snapshot(50, 7, 100, 10, &RunStatus::Running);
    assert_eq!(s.processed, 50);
    assert_eq!(s.valid, 7);
    assert_eq!(s.total, 100);
    assert_eq!(s.throughput, 5);
    assert_eq!(s.eta, "00:10");
    assert_eq!(s.status_text, "Processing...");
    // A snapshot at the very start of a run is still well defined.
    let s = make_snapshot(0, 0, 0, 0, &RunStatus::Running);
    assert_eq!(s.throughput, 0);
    assert_eq!(s.eta, "Calculating...");
}

#[test]
fn throttle_waits_out_the_interval() {
    assert_eq!(PROGRESS_INTERVAL_MILLIS, 3000);
    assert!(!progress_due(1000, 0));
    assert!(!progress_due(2999, 0));
    assert!(progress_due(3000, 0));
    assert!(progress_due(10000, 5000));
    assert!(!progress_due(5000, 5000));
}
