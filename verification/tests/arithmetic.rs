//! Tests for add-with-carry, wrapping addition and checked addition.

use uint_vec::{CheckedAdd, Limb, UintVec};

fn from_words(words: &[u64]) -> UintVec {
    let mut limbs = Vec::new();
    for w in words {
        limbs.push(Limb { value: *w });
    }
    UintVec { limbs }
}

#[test]
fn adc_no_carry() {
    let (res, carry) = UintVec::zero().adc(&UintVec::one(), Limb::zero());
    assert_eq!(res, UintVec::one());
    assert_eq!(carry, Limb::zero());
}

#[test]
fn adc_with_carry() {
    let (res, carry) = UintVec::max(Limb::BITS)
        .unwrap()
        .adc(&UintVec::one(), Limb::zero());
    assert_eq!(res, UintVec::zero());
    assert_eq!(carry, Limb::one());
}

#[test]
fn checked_add_ok() {
    let result = UintVec::zero().checked_add(&UintVec::one());
    assert_eq!(result.unwrap(), UintVec::one());
}

#[test]
fn checked_add_overflow() {
    let result = UintVec::max(Limb::BITS)
        .unwrap()
        .checked_add(&UintVec::one());
    assert!(!result.is_some().to_bool());
}

#[test]
fn limb_adc_exact_values() {
    let (sum, carry) = Limb { value: 5 }.adc(Limb { value: 7 }, Limb::one());
    assert_eq!(sum, Limb { value: 13 });
    assert_eq!(carry, Limb::zero());

    let (sum, carry) = Limb::max_value().adc(Limb::one(), Limb::zero());
    assert_eq!(sum, Limb::zero());
    assert_eq!(carry, Limb::one());

    let (sum, carry) = Limb::max_value().adc(Limb::max_value(), Limb::max_value());
    // 3 * (2^64 - 1) = 2 * 2^64 + (2^64 - 3)
    assert_eq!(sum, Limb { value: u64::MAX - 2 });
    assert_eq!(carry, Limb { value: 2 });
}

#[test]
fn adc_propagates_carry_across_limbs() {
    let a = from_words(&[u64::MAX, u64::MAX]);
    let b = UintVec::one();
    let (res, carry) = a.adc(&b, Limb::zero());
    assert_eq!(res.limbs.len(), 2);
    assert_eq!(res.limbs[0], Limb { value: 0 });
    assert_eq!(res.limbs[1], Limb { value: 0 });
    assert_eq!(carry, Limb::one());
}

#[test]
fn adc_result_length_is_longer_precision() {
    let a = from_words(&[1, 2, 3]);
    let b = from_words(&[9]);
    let (res, _) = a.adc(&b, Limb::zero());
    assert_eq!(res.limbs.len(), 3);
    let (res, _) = b.adc(&a, Limb::zero());
    assert_eq!(res.limbs.len(), 3);
    let (res, _) = b.adc(&b, Limb::zero());
    assert_eq!(res.limbs.len(), 1);
}

#[test]
fn wrapping_add_matches_adc_result() {
    let a = from_words(&[u64::MAX, 7]);
    let b = from_words(&[1]);
    let wrapped = a.wrapping_add(&b);
    let (sum, _) = a.adc(&b, Limb::zero());
    assert_eq!(wrapped.limbs.len(), sum.limbs.len());
    for i in 0..wrapped.limbs.len() {
        assert_eq!(wrapped.limbs[i], sum.limbs[i]);
    }
    assert_eq!(wrapped.limbs[0], Limb { value: 0 });
    assert_eq!(wrapped.limbs[1], Limb { value: 8 });
}

#[test]
fn wrapping_add_discards_overflow() {
    let a = from_words(&[u64::MAX]);
    let res = a.wrapping_add(&UintVec::one());
    assert_eq!(res.limbs.len(), 1);
    assert_eq!(res.limbs[0], Limb { value: 0 });
}

#[test]
fn checked_add_present_for_mixed_precisions() {
    // (2^64 - 1) + 2^64 fits comfortably in two limbs.
    let a = from_words(&[u64::MAX]);
    let b = from_words(&[0, 1]);
    let result = a.checked_add(&b);
    assert!(result.is_some().to_bool());
    let sum = result.unwrap();
    assert_eq!(sum.limbs.len(), 2);
    assert_eq!(sum.limbs[0], Limb { value: u64::MAX });
    assert_eq!(sum.limbs[1], Limb { value: 1 });
}

#[test]
fn checked_add_carries_into_free_high_limb() {
    // The longer operand leaves headroom, so the same numbers that
    // overflow one limb fit in two.
    let a = from_words(&[u64::MAX, 0]);
    let result = a.checked_add(&UintVec::one());
    assert!(result.is_some().to_bool());
    let sum = result.unwrap();
    assert_eq!(sum.limbs.len(), 2);
    assert_eq!(sum.limbs[0], Limb { value: 0 });
    assert_eq!(sum.limbs[1], Limb { value: 1 });
}

#[test]
fn adc_of_empty_operands_passes_carry_through() {
    let empty = from_words(&[]);
    let (res, carry) = empty.adc(&empty, Limb::one());
    assert_eq!(res.precision(), 0);
    assert_eq!(carry, Limb::one());
    let (res, carry) = empty.adc(&UintVec::one(), Limb::zero());
    assert_eq!(res.precision(), 1);
    assert_eq!(res, UintVec::one());
    assert_eq!(carry, Limb::zero());
}

#[test]
fn max_rejects_bit_lengths_no_whole_limb_count_represents() {
    assert!(UintVec::max(0).is_err());
    assert!(UintVec::max(63).is_err());
    assert!(UintVec::max(65).is_err());
}

#[test]
fn max_builds_all_ones_limbs() {
    let m = UintVec::max(128).unwrap();
    assert_eq!(m.limbs.len(), 2);
    assert_eq!(m.limbs[0], Limb { value: u64::MAX });
    assert_eq!(m.limbs[1], Limb { value: u64::MAX });
}

#[test]
fn precision_and_zero_extension_accessor() {
    let a = from_words(&[4, 5]);
    assert_eq!(a.precision(), 2);
    assert_eq!(a.limb_or_zero(0), Limb { value: 4 });
    assert_eq!(a.limb_or_zero(1), Limb { value: 5 });
    assert_eq!(a.limb_or_zero(2), Limb::zero());
    assert_eq!(a.limb_or_zero(100), Limb::zero());
}

#[test]
fn sort_by_precision_orders_by_limb_count_only() {
    let a = from_words(&[7]);
    let b = from_words(&[0, 0, 0]);
    let (shorter, longer) = UintVec::sort_by_precision(&a, &b);
    assert_eq!(shorter.precision(), 1);
    assert_eq!(longer.precision(), 3);
    let (shorter, longer) = UintVec::sort_by_precision(&b, &a);
    assert_eq!(shorter.precision(), 1);
    assert_eq!(longer.precision(), 3);
}
