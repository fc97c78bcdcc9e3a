//! The parts-per-billion fraction: construction, rounding and scaling.

use staking_core::kvstore::KvStore;
use staking_core::perbill::{Perbill, ACCURACY};

#[test]
fn from_percent_scales_to_parts() {
    assert_eq!(Perbill::from_percent(0).parts, 0);
    assert_eq!(Perbill::from_percent(2).parts, 20_000_000);
    assert_eq!(Perbill::from_percent(100).parts, ACCURACY);
    // saturates at one
    assert_eq!(Perbill::from_percent(250).parts, ACCURACY);
}

#[test]
fn from_rational_rounds_down_and_saturates() {
    assert_eq!(Perbill::from_rational(1, 3).parts, 333_333_333);
    assert_eq!(Perbill::from_rational(1, 2).parts, 500_000_000);
    assert_eq!(Perbill::from_rational(81, 81).parts, ACCURACY);
    assert_eq!(Perbill::from_rational(5, 3).parts, ACCURACY);
    // a zero denominator counts as one
    assert_eq!(Perbill::from_rational(0, 0).parts, 0);
    assert_eq!(Perbill::from_rational(1, 0).parts, ACCURACY);
}

#[test]
fn mul_balance_never_exceeds_the_input() {
    assert_eq!(Perbill::from_percent(10).mul_balance(490), 49);
    assert_eq!(Perbill::from_percent(100).mul_balance(u64::MAX), u64::MAX);
    assert_eq!(Perbill::from_rational(1, 3).mul_balance(3), 0);
    assert_eq!(Perbill::from_rational(1, 3).mul_balance(3_000_000_000), 999_999_999);
    assert_eq!(Perbill::from_percent(0).mul_balance(12345), 0);
}

#[test]
fn store_keeps_one_value_per_key() {
    let mut m: KvStore<u64> = KvStore::new();
    assert_eq!(m.len(), 0);
    assert!(!m.contains_key(5));
    m.insert(5, 50);
    m.insert(6, 60);
    m.insert(5, 55);
    assert_eq!(m.len(), 2);
    assert_eq!(m.get(5), Some(&55));
    assert_eq!(m.get(6), Some(&60));
    assert_eq!(m.keys(), vec![5, 6]);
    assert_eq!(m.remove(5), Some(55));
    assert_eq!(m.get(5), None);
    assert_eq!(m.len(), 1);
    assert_eq!(m.remove(5), None);
}
