use ironfish_miner::hashrate::{hashrate_sum, hashrate_unit, HashRateUnit};

#[test]
fn sum_counts_positive_samples() {
    assert_eq!(hashrate_sum(&vec![]), 0);
    assert_eq!(hashrate_sum(&vec![0, 5, 0, 7]), 12);
}

#[test]
fn units_by_magnitude() {
    assert_eq!(hashrate_unit(0), HashRateUnit::Hashes);
    assert_eq!(hashrate_unit(999), HashRateUnit::Hashes);
    assert_eq!(hashrate_unit(1_000), HashRateUnit::Thousands);
    assert_eq!(hashrate_unit(999_999), HashRateUnit::Thousands);
    assert_eq!(hashrate_unit(1_000_000), HashRateUnit::Millions);
    assert_eq!(hashrate_unit(999_999_999), HashRateUnit::Millions);
    assert_eq!(hashrate_unit(1_000_000_001), HashRateUnit::Billions);
}

#[test]
fn unit_labels_and_divisors() {
    assert_eq!(HashRateUnit::Hashes.label(), "H/S");
    assert_eq!(HashRateUnit::Thousands.label(), "TH/S");
    assert_eq!(HashRateUnit::Millions.label(), "MH/S");
    assert_eq!(HashRateUnit::Billions.label(), "GH/S");
    assert_eq!(HashRateUnit::Thousands.divisor(), 1_000);
    assert_eq!(HashRateUnit::Billions.divisor(), 1_000_000_000);
}
