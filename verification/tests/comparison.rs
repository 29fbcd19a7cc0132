//! Tests for constant-time equality and the constant-time carrier types.

use uint_vec::{CtBool, CtOption, Limb, UintVec};

fn from_words(words: &[u64]) -> UintVec {
    let mut limbs = Vec::new();
    for w in words {
        limbs.push(Limb { value: *w });
    }
    UintVec { limbs }
}

#[test]
fn ct_eq() {
    let a = UintVec::zero();
    let b = UintVec::one();

    assert!(a.ct_eq(&a).to_bool());
    assert!(!a.ct_eq(&b).to_bool());
    assert!(!b.ct_eq(&a).to_bool());
    assert!(b.ct_eq(&b).to_bool());
}

#[test]
fn ct_eq_ignores_padding() {
    // A one-limb zero equals a two-limb zero, and likewise for one.
    assert!(from_words(&[0]).ct_eq(&from_words(&[0, 0])).to_bool());
    assert!(from_words(&[0, 0]).ct_eq(&from_words(&[0])).to_bool());
    assert!(from_words(&[1]).ct_eq(&from_words(&[1, 0, 0])).to_bool());
    assert!(from_words(&[1, 0, 0]).ct_eq(&from_words(&[1])).to_bool());
}

#[test]
fn ct_eq_detects_any_differing_limb() {
    // A difference in the extra positions of the longer operand...
    assert!(!from_words(&[1]).ct_eq(&from_words(&[1, 1])).to_bool());
    // ...or the other way around...
    assert!(!from_words(&[1, 1]).ct_eq(&from_words(&[1])).to_bool());
    // ...or in a shared position.
    assert!(!from_words(&[2, 3]).ct_eq(&from_words(&[2, 4])).to_bool());
}

#[test]
fn empty_operand_compares_as_zero() {
    let empty = from_words(&[]);
    assert!(empty.ct_eq(&UintVec::zero()).to_bool());
    assert!(UintVec::zero().ct_eq(&empty).to_bool());
    assert!(empty.ct_eq(&empty).to_bool());
    assert!(!empty.ct_eq(&UintVec::one()).to_bool());
}

#[test]
fn plain_equality_follows_ct_eq() {
    assert!(from_words(&[9, 9]) == from_words(&[9, 9, 0]));
    assert!(from_words(&[9, 9]) != from_words(&[9]));
    assert_eq!(UintVec::zero(), from_words(&[0, 0, 0]));
}

#[test]
fn limb_ct_eq_and_is_zero() {
    assert!(Limb { value: 3 }.ct_eq(&Limb { value: 3 }).to_bool());
    assert!(!Limb { value: 3 }.ct_eq(&Limb { value: 4 }).to_bool());
    assert!(Limb::zero().is_zero().to_bool());
    assert!(!Limb::one().is_zero().to_bool());
    assert!(!Limb::max_value().is_zero().to_bool());
}

#[test]
fn ct_bool_and_or_truth_tables() {
    let t = CtBool::new_true();
    let f = CtBool::new_false();
    assert!(t.and(t).to_bool());
    assert!(!t.and(f).to_bool());
    assert!(!f.and(t).to_bool());
    assert!(!f.and(f).to_bool());
    assert!(t.or(t).to_bool());
    assert!(t.or(f).to_bool());
    assert!(f.or(t).to_bool());
    assert!(!f.or(f).to_bool());
}

#[test]
fn ct_option_reveals_only_at_the_end() {
    let present = CtOption::new(41u32, CtBool::new_true());
    assert!(present.is_some().to_bool());
    assert_eq!(present.into_option(), Some(41));

    let absent = CtOption::new(99u32, CtBool::new_false());
    assert!(!absent.is_some().to_bool());
    assert_eq!(absent.into_option(), None);
}
