use spn_node_core::{price_work, CalibrationError, CalibratorMetrics, Ratio, ShardedCalibrator, SinglePassCalibrator};

fn value(r: Ratio) -> f64 {
    r.num as f64 / r.den as f64
}

#[test]
fn test_calibrate() {
    // The Fibonacci input n = 20, as the prover's stdin serializes it.
    let n: u64 = 20;
    let stdin = n.to_le_bytes().to_vec();
    // 0.1 USD per hour, 0.5 utilization, 0.1 margin.
    let cost_per_hour = 100_000;
    let utilization_rate = 500_000;
    let profit_margin = 100_000;
    let calibrator = SinglePassCalibrator::new(vec![0x7f, b'E', b'L', b'F'], stdin, cost_per_hour, utilization_rate, profit_margin);
    let metrics = calibrator.metrics(12_000, 3_000).unwrap();
    println!("metrics: {metrics:?}");
}

#[test]
fn unit_price_follows_the_pricing_model() {
    let c = SinglePassCalibrator::new(vec![], vec![], 100_000, 500_000, 100_000);
    let m = c.metrics(1000, 1000).unwrap();
    assert!((value(m.pgus_per_second) - 1000.0).abs() < 1e-9);
    let price_usd = value(m.pgu_price) / 1e6;
    let expected = (0.1 / (1000.0 * 3600.0 * 0.5)) * 1.1;
    assert!((price_usd - expected).abs() < 1e-15, "{price_usd} vs {expected}");
    assert!((price_usd - 6.111e-8).abs() < 1e-10);
}

#[test]
fn exact_fractions_of_the_model() {
    let m = price_work(1000, 1000, 100_000, 500_000, 100_000).unwrap();
    assert_eq!(m.pgus_per_second, Ratio { num: 1_000_000, den: 1000 });
    assert_eq!(m.pgu_price, Ratio { num: 100_000 * 1_100_000 * 1000, den: 1000 * 3_600_000 * 500_000 });
}

#[test]
fn division_by_zero_is_an_error() {
    assert_eq!(price_work(1000, 0, 1, 1, 1), Err::<CalibratorMetrics, _>(CalibrationError::ZeroDuration));
    assert_eq!(price_work(0, 1000, 1, 1, 1), Err(CalibrationError::ZeroThroughput));
    assert_eq!(price_work(1000, 1000, 1, 0, 1), Err(CalibrationError::ZeroCapacity));
    assert_eq!(price_work(u128::MAX, 1000, 1, 1, 1), Err(CalibrationError::Overflow));
    assert_eq!(price_work(1, u64::MAX, u64::MAX, 1, u64::MAX), Err(CalibrationError::Overflow));
}

#[test]
fn fleet_estimate_assumes_linear_scaling() {
    let c = ShardedCalibrator::new(vec![], vec![], 100_000, 500_000, 100_000, 2);
    // Two runs of 500 units each, back to back in one second: 2000 units per
    // second if they had run side by side.
    let m = c.metrics(500, 1000).unwrap();
    assert!((value(m.pgus_per_second) - 2000.0).abs() < 1e-9);
    let single = SinglePassCalibrator::new(vec![], vec![], 100_000, 500_000, 100_000).metrics(2000, 1000).unwrap();
    assert!((value(m.pgu_price) - value(single.pgu_price)).abs() < 1e-12);
    let none = ShardedCalibrator::new(vec![], vec![], 100_000, 500_000, 100_000, 0);
    assert_eq!(none.metrics(500, 1000), Err(CalibrationError::ZeroThroughput));
    assert_eq!(none.metrics(500, 0), Err(CalibrationError::ZeroDuration));
}
