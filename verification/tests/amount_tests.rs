//! Tests for the currency-safe value model.

use silverfox::amount::Amount;
use silverfox::amount::AmountPool;

fn usd(mag: i64) -> Amount {
    Amount { mag, symbol: Some(String::from("USD")) }
}

#[test]
fn amount_arithmetic_same_currency() {
    let a = usd(30);
    let b = usd(12);
    assert_eq!(a.add(&b).unwrap().mag, 42);
    assert_eq!(a.sub(&b).unwrap().mag, 18);
    assert_eq!(a.neg().unwrap().mag, -30);
    assert_eq!(a.neg().unwrap().symbol, a.symbol);
}

#[test]
fn amount_arithmetic_refuses_mixed_currencies() {
    let a = usd(30);
    let b = Amount { mag: 12, symbol: Some(String::from("CAD")) };
    let native = Amount { mag: 12, symbol: None };
    assert!(a.add(&b).is_err());
    assert!(a.sub(&native).is_err());
    assert!(native.add(&b).is_err());
}

#[test]
fn amount_arithmetic_refuses_overflow() {
    let a = usd(i64::MAX);
    let b = usd(1);
    assert!(a.add(&b).is_err());
    let c = usd(i64::MIN);
    assert!(c.sub(&b).is_err());
    assert!(c.neg().is_none());
}

#[test]
fn pool_add_then_subtract_restores_the_value() {
    // Adding an amount and then subtracting it restores the pool's
    // value for that currency, and every other one.
    let mut pool = AmountPool::new();
    pool.add(&usd(100)).unwrap();
    pool.add(&Amount { mag: 7, symbol: None }).unwrap();
    let before_usd = pool.only(&Some(String::from("USD"))).mag;
    let before_native = pool.only(&None).mag;

    let a = usd(41);
    pool.add(&a).unwrap();
    assert_eq!(pool.only(&Some(String::from("USD"))).mag, 141);
    pool.subtract(&a).unwrap();
    assert_eq!(pool.only(&Some(String::from("USD"))).mag, before_usd);
    assert_eq!(pool.only(&None).mag, before_native);
}

#[test]
fn pool_tracks_one_entry_per_currency() {
    let mut pool = AmountPool::new();
    assert!(pool.is_empty());
    assert!(pool.is_zero());
    pool.add(&usd(5)).unwrap();
    pool.add(&usd(6)).unwrap();
    pool.subtract(&Amount { mag: 3, symbol: None }).unwrap();
    assert_eq!(pool.len(), 2);
    assert_eq!(pool.only(&Some(String::from("USD"))).mag, 11);
    assert_eq!(pool.only(&None).mag, -3);
    assert!(!pool.is_zero());
    // A currency the pool has never seen reads as a blank zero.
    let missing = pool.only(&Some(String::from("CAD")));
    assert_eq!(missing.mag, 0);
    assert_eq!(missing.symbol, None);
}

#[test]
fn pool_zero_means_every_entry_is_zero() {
    let mut pool = AmountPool::new();
    pool.add(&usd(5)).unwrap();
    pool.subtract(&usd(5)).unwrap();
    assert!(pool.is_zero());
    assert!(!pool.is_empty());
}
