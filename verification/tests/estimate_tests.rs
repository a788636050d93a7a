use messaging_rescaler::{
    estimate, smooth, MessagingRescaler, PolicyState, RescalePolicy, ResourceSizing,
    SampleAggregate,
};

/// One smoothing step computes the exact fixed-point moving average.
#[test]
fn test_smooth_exact_values() {
    // 0.75 * 0 + 0.25 * 0.4965 = 0.124125
    assert_eq!(smooth(250_000, 0, 496_500), 124_125);
    // 0.75 * 0.124125 + 0.25 * 0.4965 = 0.21721875, rounded down.
    assert_eq!(smooth(250_000, 124_125, 496_500), 217_218);
    // Rounding is towards zero: 0.75 * 3 + 0.25 * 2 = 2.75 -> 2 micro-units.
    assert_eq!(smooth(250_000, 3, 2), 2);
    // A full-weight update replaces the old value.
    assert_eq!(smooth(1_000_000, 123, 456), 456);
}

/// Smoothing convergence: feeding the same raw rate over many cycles brings
/// the average within the rounding margin (4 micro-units for alpha = 0.25) of
/// the rate, from above and from below, and the distance never grows.
#[test]
fn test_smoothing_converges_to_constant_rate() {
    let rate: u64 = 496_500;
    for start in [0u64, 10_000_000] {
        let mut value = start;
        let mut distance = value.abs_diff(rate);
        for _ in 0..60 {
            value = smooth(250_000, value, rate);
            let next_distance = value.abs_diff(rate);
            assert!(next_distance <= distance.max(4));
            distance = next_distance;
        }
        assert!(distance <= 4, "start {start}: stopped {distance} away");
    }
}

/// Where no rounding occurs the distance to a constant rate decays exactly
/// geometrically: by the factor `1 - alpha` each cycle.
#[test]
fn test_smoothing_geometric_decay() {
    let rate: u64 = 640_000;
    let mut value: u64 = 0;
    let mut distance: u64 = rate;
    for _ in 0..5 {
        value = smooth(250_000, value, rate);
        distance = distance * 3 / 4;
        assert_eq!(rate - value, distance);
    }
}

/// The estimator divides the totals by the interval and clamps the raw
/// activity at 1.0.
#[test]
fn test_estimate_caps_raw_activity() {
    let config = messaging_rescaler::PolicyConfig::default_config();
    let prev = PolicyState { activity_micros: 0, waiting_micros: 0 };
    let agg = SampleAggregate {
        // 600 seconds of active time in a 60 second interval: rate 10,
        // clamped to 1.0.
        total_active_micros: 600_000_000,
        total_waiting_micros: 12_000_000,
        force_spin_up: false,
        skipped_samples: 0,
    };
    let next = estimate(&config, &prev, &agg, 60);
    assert_eq!(next.activity_micros, 250_000);
    assert_eq!(next.waiting_micros, 50_000);
}

/// Under a force signal the estimator uses the sentinel rate instead of the
/// measured one.
#[test]
fn test_estimate_force_sentinel() {
    let config = messaging_rescaler::PolicyConfig::default_config();
    let prev = PolicyState { activity_micros: 0, waiting_micros: 0 };
    let agg = SampleAggregate {
        total_active_micros: 0,
        total_waiting_micros: 20_000,
        force_spin_up: true,
        skipped_samples: 0,
    };
    let next = estimate(&config, &prev, &agg, 60);
    assert_eq!(next.activity_micros, 2_500_000);
}

/// Rates over an interval that does not divide the totals evenly are rounded
/// down at each stage.
#[test]
fn test_estimate_uneven_interval() {
    let config = messaging_rescaler::PolicyConfig::default_config();
    let prev = PolicyState { activity_micros: 0, waiting_micros: 0 };
    let agg = SampleAggregate {
        // One 1 s sample over a 7 s interval: raw activity
        // 993_000 / 7 = 141_857 micro-units, smoothed to 35_464.
        total_active_micros: 993_000,
        total_waiting_micros: 20_000,
        force_spin_up: false,
        skipped_samples: 0,
    };
    let next = estimate(&config, &prev, &agg, 7);
    assert_eq!(next.activity_micros, 35_464);
    // Raw waiting 20_000 / 7 = 2_857, smoothed to 714.
    assert_eq!(next.waiting_micros, 714);
}

/// The widest possible timestamp spread still forms a positive interval.
#[test]
fn test_extreme_timestamp_spread() {
    let rescaler = MessagingRescaler::new();
    let sizing = ResourceSizing {
        provisioned_mem_mb: 2048,
        function_mem_mb: 1024,
        caller_mem_mb: 1024,
    };
    let decision = rescaler
        .rescale(None, Some(sizing), &Vec::new(), i64::MAX, i64::MIN)
        .unwrap();
    assert_eq!(decision.new_state.activity_micros, 0);
    assert_eq!(decision.target_scale, 0);
}

/// The plug-in interface hands out the same decisions as the policy itself.
#[test]
fn test_policy_through_plugin_interface() {
    let rescaler = MessagingRescaler::new();
    let sizing = ResourceSizing {
        provisioned_mem_mb: 2048,
        function_mem_mb: 1024,
        caller_mem_mb: 1024,
    };
    let samples: Vec<i64> = vec![1_000_000; 30];
    let direct = rescaler.rescale(None, Some(sizing), &samples, 60, 0);
    let through_trait = rescaler.decide(None, Some(sizing), &samples, 60, 0);
    assert_eq!(direct, through_trait);
}
