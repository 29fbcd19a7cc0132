//! The fixed-width machine word that variable-precision integers are made of.

use crate::ct::CtBool;
use vstd::arithmetic::div_mod::lemma_fundamental_div_mod;
use vstd::prelude::*;

verus! {

/// The modulus of one limb: 2 to the power of `Limb::BITS`.
pub open spec fn limb_base() -> int {
    0x1_0000_0000_0000_0000
}

/// What a word-level add-with-carry returns: the sum of the three words
/// reduced modulo the limb base, and the part of the sum above the base.
pub open spec fn add_step(x: u64, y: u64, c: u64) -> (u64, u64) {
    (((x + y + c) % limb_base()) as u64, ((x + y + c) / limb_base()) as u64)
}

/// A fixed-width unsigned machine word: the atomic unit of a
/// variable-precision integer's representation.
#[derive(Clone, Copy, Debug, PartialEq, Eq, Structural)]
pub struct Limb {
    /// The word itself.
    pub value: u64,
}

impl View for Limb {
    type V = u64;

    open spec fn view(&self) -> u64 {
        self.value
    }
}

/// Relies on `subtle`'s `ConstantTimeEq` for `u64` and `Choice::unwrap_u8`:
/// the comparison yields the mask `1` when the words are equal and `0` when
/// they differ, without branching on their contents.
#[verifier::external_body]
fn word_eq_mask(a: u64, b: u64) -> (r: u8)
    ensures
        r == (if a == b {
            1u8
        } else {
            0u8
        }),
{
    <u64 as subtle::ConstantTimeEq>::ct_eq(&a, &b).unwrap_u8()
}

impl Limb {
    /// Bit width of one limb.
    pub const BITS: u32 = 64;

    /// The zero limb.
    pub fn zero() -> (r: Limb)
        ensures
            r@ == 0,
    {
        Limb { value: 0 }
    }

    /// The one limb.
    pub fn one() -> (r: Limb)
        ensures
            r@ == 1,
    {
        Limb { value: 1 }
    }

    /// The all-ones limb, the largest value one limb can hold.
    pub fn max_value() -> (r: Limb)
        ensures
            r@ == limb_base() - 1,
    {
        Limb { value: 0xffff_ffff_ffff_ffff }
    }

    /// Word-level add-with-carry: `self + rhs + carry` as a (sum, carry-out)
    /// pair, computed through a double-width word with no branch on the
    /// operands.
    pub fn adc(self, rhs: Limb, carry: Limb) -> (r: (Limb, Limb))
        ensures
            r.0@ == add_step(self@, rhs@, carry@).0,
            r.1@ == add_step(self@, rhs@, carry@).1,
            r.0@ + limb_base() * r.1@ == self@ + rhs@ + carry@,
            r.1@ <= 2,
    {
        let wide: u128 = self.value as u128 + rhs.value as u128 + carry.value as u128;
        let lo = #[verifier::truncate] (wide as u64);
        let hi = (wide >> 64u128) as u64;
        proof {
            assert((wide as u64) as u128 == wide % 0x1_0000_0000_0000_0000u128) by (bit_vector);
            assert(wide >> 64u128 == wide / 0x1_0000_0000_0000_0000u128) by (bit_vector);
            lemma_fundamental_div_mod(wide as int, limb_base());
        }
        (Limb { value: lo }, Limb { value: hi })
    }

    /// Constant-time test for the zero word.
    pub fn is_zero(&self) -> (r: CtBool)
        ensures
            r.truth() == (self@ == 0),
    {
        CtBool::from_mask(word_eq_mask(self.value, 0))
    }

    /// Constant-time equality of two words.
    pub fn ct_eq(&self, other: &Limb) -> (r: CtBool)
        ensures
            r.truth() == (self@ == other@),
    {
        CtBool::from_mask(word_eq_mask(self.value, other.value))
    }
}

} // verus!
