use swpr_token::amount::U256;

#[test]
fn zero_is_zero() {
    assert!(U256::zero().is_zero());
    assert_eq!(U256::zero(), U256::from_u64(0));
    assert!(!U256::from_u64(1).is_zero());
}

#[test]
fn add_small_values() {
    let a = U256::from_u64(1);
    let b = U256::from_u64(2);
    assert_eq!(a.checked_add(&b), Some(U256::from_u64(3)));
}

#[test]
fn add_carries_into_high_limb() {
    let a = U256 { hi: 0, lo: u128::MAX };
    let b = U256::from_u64(1);
    assert_eq!(a.checked_add(&b), Some(U256 { hi: 1, lo: 0 }));
}

#[test]
fn add_at_maximum_overflows() {
    let max = U256 { hi: u128::MAX, lo: u128::MAX };
    assert_eq!(max.checked_add(&U256::from_u64(1)), None);
    assert_eq!(max.checked_add(&max), None);
    assert_eq!(max.checked_add(&U256::zero()), Some(max));
}

#[test]
fn add_overflow_in_high_limb_only() {
    let a = U256 { hi: u128::MAX, lo: 0 };
    let b = U256 { hi: 1, lo: 0 };
    assert_eq!(a.checked_add(&b), None);
}

#[test]
fn sub_small_values() {
    let a = U256::from_u64(5);
    let b = U256::from_u64(3);
    assert_eq!(a.checked_sub(&b), Some(U256::from_u64(2)));
    assert_eq!(a.checked_sub(&a), Some(U256::zero()));
}

#[test]
fn sub_borrows_from_high_limb() {
    let a = U256 { hi: 1, lo: 0 };
    let b = U256::from_u64(1);
    assert_eq!(a.checked_sub(&b), Some(U256 { hi: 0, lo: u128::MAX }));
}

#[test]
fn sub_underflows_below_zero() {
    let a = U256::from_u64(3);
    let b = U256::from_u64(5);
    assert_eq!(a.checked_sub(&b), None);
    assert_eq!(U256::zero().checked_sub(&U256::from_u64(1)), None);
}

#[test]
fn sub_then_add_round_trips() {
    let a = U256 { hi: 7, lo: 12 };
    let b = U256 { hi: 2, lo: u128::MAX };
    let d = a.checked_sub(&b).unwrap();
    assert_eq!(d.checked_add(&b), Some(a));
}
