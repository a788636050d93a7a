use messaging_rescaler::{aggregate_samples, PolicyConfig, SampleAggregate};

fn aggregate(samples: &[i64]) -> SampleAggregate {
    let config = PolicyConfig::default_config();
    aggregate_samples(&config, &samples.to_vec())
}

/// An empty batch yields zero totals, no force signal, nothing skipped.
#[test]
fn test_empty_batch() {
    let r = aggregate(&[]);
    assert_eq!(r.total_active_micros, 0);
    assert_eq!(r.total_waiting_micros, 0);
    assert!(!r.force_spin_up);
    assert_eq!(r.skipped_samples, 0);
}

/// Each well-formed working sample contributes its duration less the
/// per-call overhead, floored at 1 ms, and a fixed waiting overhead.
#[test]
fn test_per_sample_contributions() {
    // 1 s: 1_000_000 - 7_000 = 993_000 active.
    let r = aggregate(&[1_000_000]);
    assert_eq!(r.total_active_micros, 993_000);
    assert_eq!(r.total_waiting_micros, 20_000);
    // 7.5 ms is within the floor: 7_500 - 7_000 < 1_000, so 1_000 active.
    let r = aggregate(&[7_500]);
    assert_eq!(r.total_active_micros, 1_000);
    // 200 us is above the force threshold but under the overhead: floored too.
    let r = aggregate(&[200]);
    assert_eq!(r.total_active_micros, 1_000);
    assert_eq!(r.total_waiting_micros, 20_000);
}

/// A sample under the force threshold is a signal, not work: it sets the
/// sticky force flag, adds no active time, and still counts for waiting.
#[test]
fn test_force_sample_is_signal_not_work() {
    let r = aggregate(&[50]);
    assert!(r.force_spin_up);
    assert_eq!(r.total_active_micros, 0);
    assert_eq!(r.total_waiting_micros, 20_000);
    assert_eq!(r.skipped_samples, 0);
    let r = aggregate(&[1_000_000, 0, 1_000_000]);
    assert!(r.force_spin_up);
    assert_eq!(r.total_active_micros, 2 * 993_000);
    assert_eq!(r.total_waiting_micros, 3 * 20_000);
}

/// Negative durations are malformed: skipped entirely and counted.
#[test]
fn test_malformed_samples_skipped() {
    let r = aggregate(&[-1, -1_000_000, 1_000_000]);
    assert_eq!(r.skipped_samples, 2);
    assert_eq!(r.total_active_micros, 993_000);
    assert_eq!(r.total_waiting_micros, 20_000);
    assert!(!r.force_spin_up);
}

/// Idempotence of the reduction: aggregating a sample set whole equals
/// combining the aggregates of any split into sub-batches.
#[test]
fn test_reduction_split_invariance() {
    let whole: Vec<i64> = vec![1_000_000, 50, -3, 500_000, 2_000_000, 7_500];
    let r_whole = aggregate(&whole);
    for cut in 0..=whole.len() {
        let r1 = aggregate(&whole[..cut]);
        let r2 = aggregate(&whole[cut..]);
        assert_eq!(r1.total_active_micros + r2.total_active_micros, r_whole.total_active_micros);
        assert_eq!(
            r1.total_waiting_micros + r2.total_waiting_micros,
            r_whole.total_waiting_micros
        );
        assert_eq!(r1.force_spin_up || r2.force_spin_up, r_whole.force_spin_up);
        assert_eq!(r1.skipped_samples + r2.skipped_samples, r_whole.skipped_samples);
    }
}

/// The reduction is order-irrelevant: a reversed batch aggregates the same.
#[test]
fn test_reduction_order_invariance() {
    let samples: Vec<i64> = vec![1_000_000, 50, -3, 500_000, 2_000_000, 7_500];
    let mut reversed = samples.clone();
    reversed.reverse();
    assert_eq!(aggregate(&samples), aggregate(&reversed));
}
