//! [`UintVec`] addition operations: add-with-carry, wrapping addition and
//! checked addition, all instances of the carry-chain combinator with the
//! word-level add as the step.

use super::{
    as_nat, chain_carry, chain_limb, lemma_padded_val_bound, lemma_padded_val_extend, limb_at,
    max_precision, padded_val, UintVec,
};
use crate::checked::CheckedAdd;
use crate::ct::CtOption;
use crate::limb::{add_step, limb_base, Limb};
use vstd::arithmetic::div_mod::{
    lemma_div_pos_is_pos, lemma_fundamental_div_mod, lemma_fundamental_div_mod_converse,
    lemma_mod_division_less_than_divisor, lemma_multiply_divide_lt,
};
use vstd::arithmetic::mul::{lemma_mul_basics, lemma_mul_inequality};
use vstd::arithmetic::power2::{lemma2_to64, lemma_pow2_adds, lemma_pow2_pos, pow2};
use vstd::prelude::*;

verus! {

/// The word-level add-with-carry, as the step of the carry chain.
pub open spec fn add_step_fn() -> spec_fn(u64, u64, u64) -> (u64, u64) {
    |x: u64, y: u64, c: u64| add_step(x, y, c)
}

/// The number denoted by the first `n` limbs the sum chain produces.
spec fn sum_val(a: Seq<u64>, b: Seq<u64>, c0: u64, n: int) -> nat
    decreases n,
{
    if n <= 0 {
        0
    } else {
        sum_val(a, b, c0, n - 1) + (chain_limb(a, b, c0, add_step_fn(), n - 1) as nat) * pow2(
            (64 * (n - 1)) as nat,
        )
    }
}

/// One step of the sum chain splits the word sum at the limb base.
proof fn lemma_add_step_split(a: Seq<u64>, b: Seq<u64>, c0: u64, i: int)
    requires
        i >= 0,
    ensures
        chain_limb(a, b, c0, add_step_fn(), i) as int + limb_base() * (chain_carry(
            a,
            b,
            c0,
            add_step_fn(),
            i + 1,
        ) as int) == limb_at(a, i) + limb_at(b, i) + chain_carry(a, b, c0, add_step_fn(), i),
        chain_carry(a, b, c0, add_step_fn(), i + 1) <= 2,
{
    let x = limb_at(a, i) as int + limb_at(b, i) as int + chain_carry(
        a,
        b,
        c0,
        add_step_fn(),
        i,
    ) as int;
    let base = limb_base();
    assert(chain_carry(a, b, c0, add_step_fn(), i + 1) == add_step(
        limb_at(a, i),
        limb_at(b, i),
        chain_carry(a, b, c0, add_step_fn(), i),
    ).1);
    lemma_mod_division_less_than_divisor(x, base);
    lemma_div_pos_is_pos(x, base);
    lemma_multiply_divide_lt(x, base, 3);
    lemma_fundamental_div_mod(x, base);
}

/// The carry chain of word-level adds computes exact addition: the number
/// its limbs denote, plus the outgoing carry scaled past them, equals the
/// operands' numbers plus the initial carry.
proof fn lemma_add_chain_value(a: Seq<u64>, b: Seq<u64>, c0: u64, n: int)
    requires
        n >= 0,
    ensures
        sum_val(a, b, c0, n) + (chain_carry(a, b, c0, add_step_fn(), n) as nat) * pow2(
            (64 * n) as nat,
        ) == padded_val(a, n) + padded_val(b, n) + c0,
    decreases n,
{
    if n == 0 {
        lemma2_to64();
        lemma_mul_basics(c0 as int);
    } else {
        lemma_add_chain_value(a, b, c0, n - 1);
        lemma_add_step_split(a, b, c0, n - 1);
        let p = pow2((64 * (n - 1)) as nat) as int;
        let pn = pow2((64 * n) as nat) as int;
        let base = limb_base();
        let l = chain_limb(a, b, c0, add_step_fn(), n - 1) as int;
        let cc = chain_carry(a, b, c0, add_step_fn(), n) as int;
        let cp = chain_carry(a, b, c0, add_step_fn(), n - 1) as int;
        let la = limb_at(a, n - 1) as int;
        let lb = limb_at(b, n - 1) as int;
        lemma_pow2_adds(64, (64 * (n - 1)) as nat);
        lemma2_to64();
        assert(pn == base * p);
        assert(l + base * cc == la + lb + cp);
        assert(l * p + cc * pn == la * p + lb * p + cp * p) by (nonlinear_arith)
            requires
                pn == base * p,
                l + base * cc == la + lb + cp,
        ;
        assert(sum_val(a, b, c0, n) == sum_val(a, b, c0, n - 1) + l * p);
        assert(padded_val(a, n) == padded_val(a, n - 1) + la * p);
        assert(padded_val(b, n) == padded_val(b, n - 1) + lb * p);
    }
}

/// A sequence holding the sum chain's limbs denotes the sum chain's value.
proof fn lemma_sum_val_is_padded_val(s: Seq<u64>, a: Seq<u64>, b: Seq<u64>, c0: u64, n: int)
    requires
        0 <= n <= s.len(),
        forall|i: int| 0 <= i < n ==> s[i] == #[trigger] chain_limb(a, b, c0, add_step_fn(), i),
    ensures
        padded_val(s, n) == sum_val(a, b, c0, n),
    decreases n,
{
    if n > 0 {
        lemma_sum_val_is_padded_val(s, a, b, c0, n - 1);
    }
}

impl UintVec {
    /// Computes `self + rhs + carry`, returning the result along with the
    /// new carry. The result always has exactly `max(precision(self),
    /// precision(rhs))` limbs, whatever the operands' numeric contents, and
    /// together with the scaled final carry denotes the exact sum.
    pub fn adc(&self, rhs: &Self, carry: Limb) -> (r: (Self, Limb))
        ensures
            r.0@.len() == max_precision(self@, rhs@),
            forall|i: int|
                0 <= i < r.0@.len() ==> #[trigger] r.0@[i] == chain_limb(
                    self@,
                    rhs@,
                    carry@,
                    add_step_fn(),
                    i,
                ),
            r.1@ == chain_carry(self@, rhs@, carry@, add_step_fn(), r.0@.len() as int),
            as_nat(r.0@) + (r.1@ as nat) * pow2((64 * r.0@.len()) as nat) == as_nat(self@)
                + as_nat(rhs@) + carry@,
    {
        let f = |x: Limb, y: Limb, z: Limb| -> (out: (Limb, Limb))
            ensures
                out.0@ == add_step(x@, y@, z@).0,
                out.1@ == add_step(x@, y@, z@).1,
            { x.adc(y, z) };
        let (res, c_out) = Self::chain(self, rhs, carry, f, Ghost(add_step_fn()));
        proof {
            let n = res@.len() as int;
            lemma_add_chain_value(self@, rhs@, carry@, n);
            lemma_sum_val_is_padded_val(res@, self@, rhs@, carry@, n);
            lemma_padded_val_extend(self@, n);
            lemma_padded_val_extend(rhs@, n);
        }
        (res, c_out)
    }

    /// Wrapping addition: the same carry chain, with the final carry
    /// discarded, so the result is the sum modulo `2^(64 · n)` for `n` the
    /// longer operand's precision. Overflow is silently dropped by design.
    pub fn wrapping_add(&self, rhs: &Self) -> (r: Self)
        ensures
            r@.len() == max_precision(self@, rhs@),
            forall|i: int|
                0 <= i < r@.len() ==> #[trigger] r@[i] == chain_limb(
                    self@,
                    rhs@,
                    0u64,
                    add_step_fn(),
                    i,
                ),
            as_nat(r@) as int == (as_nat(self@) + as_nat(rhs@)) as int % (pow2(
                (64 * r@.len()) as nat,
            ) as int),
    {
        let (res, carry) = self.adc(rhs, Limb::zero());
        proof {
            let n = res@.len() as int;
            let p = pow2((64 * n) as nat) as int;
            lemma_padded_val_bound(res@, n);
            lemma_pow2_pos((64 * n) as nat);
            lemma_fundamental_div_mod_converse(
                (as_nat(self@) + as_nat(rhs@)) as int,
                p,
                carry@ as int,
                as_nat(res@) as int,
            );
        }
        res
    }
}

impl CheckedAdd<&UintVec> for UintVec {
    type Output = UintVec;

    /// Checked addition: the entire addition is always performed, and the
    /// result's validity flag is derived from the final carry by a
    /// constant-time zero test, never a data-dependent branch. The flag is
    /// set exactly when the final carry is zero — equivalently, exactly
    /// when the exact sum fits in the longer operand's precision — and the
    /// carried value is then the exact sum.
    fn checked_add(&self, rhs: &UintVec) -> (r: CtOption<UintVec>)
        ensures
            r.spec_is_some() <==> chain_carry(
                self@,
                rhs@,
                0u64,
                add_step_fn(),
                max_precision(self@, rhs@),
            ) == 0,
            r.spec_is_some() <==> as_nat(self@) + as_nat(rhs@) < pow2(
                (64 * max_precision(self@, rhs@)) as nat,
            ),
            r.spec_value()@.len() == max_precision(self@, rhs@),
            forall|i: int|
                0 <= i < r.spec_value()@.len() ==> #[trigger] r.spec_value()@[i] == chain_limb(
                    self@,
                    rhs@,
                    0u64,
                    add_step_fn(),
                    i,
                ),
            r.spec_is_some() ==> as_nat(r.spec_value()@) == as_nat(self@) + as_nat(rhs@),
    {
        let (result, carry) = self.adc(rhs, Limb::zero());
        proof {
            let n = result@.len() as int;
            let p = pow2((64 * n) as nat) as int;
            lemma_padded_val_bound(result@, n);
            lemma_pow2_pos((64 * n) as nat);
            lemma_mul_basics(p);
            if carry@ != 0 {
                lemma_mul_inequality(1, carry@ as int, p);
            }
        }
        CtOption::new(result, carry.is_zero())
    }
}

} // verus!
