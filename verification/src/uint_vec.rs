//! The variable-precision unsigned integer and its carry-chain engine.
//!
//! A [`UintVec`] owns an ordered sequence of limbs, least-significant first;
//! its *precision* is the number of limbs it holds. Two instances of
//! different precisions may denote the same number: every operation reads
//! limbs through the zero-extending accessor, so correctness never depends
//! on trailing zero limbs having been trimmed. Operations borrow their
//! operands and return freshly built values; nothing here mutates an input.

use crate::limb::Limb;
use vstd::arithmetic::div_mod::{lemma_fundamental_div_mod, lemma_fundamental_div_mod_converse};
use vstd::arithmetic::mul::{
    lemma_mul_basics, lemma_mul_inequality, lemma_mul_is_distributive_add_other_way,
};
use vstd::arithmetic::power2::{lemma2_to64, lemma_pow2_adds, lemma_pow2_pos, pow2};
use vstd::prelude::*;

pub mod add;
pub mod cmp;

verus! {

/// The limb at position `i` of `s`, reading the zero limb at or beyond the
/// end of `s`: the implicit zero-extension of a variable-precision integer.
pub open spec fn limb_at(s: Seq<u64>, i: int) -> u64 {
    if 0 <= i < s.len() {
        s[i]
    } else {
        0u64
    }
}

/// The number denoted by the first `n` zero-extended limb positions of `s`:
/// the sum over `i < n` of `limb_at(s, i) * 2^(64 i)`.
pub open spec fn padded_val(s: Seq<u64>, n: int) -> nat
    decreases n,
{
    if n <= 0 {
        0
    } else {
        padded_val(s, n - 1) + (limb_at(s, n - 1) as nat) * pow2((64 * (n - 1)) as nat)
    }
}

/// The number a limb sequence denotes.
pub open spec fn as_nat(s: Seq<u64>) -> nat {
    padded_val(s, s.len() as int)
}

/// The precision of a length-tolerant operation's result: the longer
/// operand's limb count.
pub open spec fn max_precision(a: Seq<u64>, b: Seq<u64>) -> int {
    if a.len() >= b.len() {
        a.len() as int
    } else {
        b.len() as int
    }
}

/// Equality after zero-extension: the same limb at every position.
pub open spec fn eq_padded(a: Seq<u64>, b: Seq<u64>) -> bool {
    forall|i: int| #![trigger limb_at(a, i)] limb_at(a, i) == limb_at(b, i)
}

/// The carry flowing into position `i` when `step` is applied limb by limb
/// to the zero-extended limbs of `a` and `b`, starting from carry `c0`.
pub open spec fn chain_carry(
    a: Seq<u64>,
    b: Seq<u64>,
    c0: u64,
    step: spec_fn(u64, u64, u64) -> (u64, u64),
    i: int,
) -> u64
    decreases i,
{
    if i <= 0 {
        c0
    } else {
        step(limb_at(a, i - 1), limb_at(b, i - 1), chain_carry(a, b, c0, step, i - 1)).1
    }
}

/// The limb produced at position `i` by the same limb-by-limb application.
pub open spec fn chain_limb(
    a: Seq<u64>,
    b: Seq<u64>,
    c0: u64,
    step: spec_fn(u64, u64, u64) -> (u64, u64),
    i: int,
) -> u64 {
    step(limb_at(a, i), limb_at(b, i), chain_carry(a, b, c0, step, i)).0
}

/// Padding with zero limbs leaves the denoted number unchanged.
pub proof fn lemma_padded_val_extend(s: Seq<u64>, n: int)
    requires
        n >= s.len(),
    ensures
        padded_val(s, n) == as_nat(s),
    decreases n,
{
    if n > s.len() {
        lemma_padded_val_extend(s, n - 1);
        assert(limb_at(s, n - 1) == 0);
    }
}

/// The first `n` limb positions denote a number below `2^(64 n)`.
pub proof fn lemma_padded_val_bound(s: Seq<u64>, n: int)
    requires
        n >= 0,
    ensures
        padded_val(s, n) < pow2((64 * n) as nat),
    decreases n,
{
    if n <= 0 {
        lemma2_to64();
    } else {
        lemma_padded_val_bound(s, n - 1);
        let p = pow2((64 * (n - 1)) as nat) as int;
        let l = limb_at(s, n - 1) as int;
        lemma_mul_inequality(l, 0xffff_ffff_ffff_ffff, p);
        lemma_pow2_pos((64 * (n - 1)) as nat);
        lemma_mul_is_distributive_add_other_way(p, 1, 0xffff_ffff_ffff_ffff);
        lemma_pow2_adds(64, (64 * (n - 1)) as nat);
        lemma2_to64();
        assert(padded_val(s, n) < (1 + 0xffff_ffff_ffff_ffff) * p);
    }
}

/// Limb-wise equality of the first `n` positions carries the denoted number.
proof fn lemma_padded_val_congruence(a: Seq<u64>, b: Seq<u64>, n: int)
    requires
        forall|i: int| 0 <= i < n ==> #[trigger] limb_at(a, i) == limb_at(b, i),
    ensures
        padded_val(a, n) == padded_val(b, n),
    decreases n,
{
    if n > 0 {
        lemma_padded_val_congruence(a, b, n - 1);
    }
}

/// Base-2^64 representations are unique: equal values over the first `n`
/// positions force equal limbs there.
proof fn lemma_padded_val_unique(a: Seq<u64>, b: Seq<u64>, n: int)
    requires
        padded_val(a, n) == padded_val(b, n),
    ensures
        forall|i: int| 0 <= i < n ==> #[trigger] limb_at(a, i) == limb_at(b, i),
    decreases n,
{
    if n > 0 {
        let p = pow2((64 * (n - 1)) as nat) as int;
        let x = padded_val(a, n) as int;
        lemma_pow2_pos((64 * (n - 1)) as nat);
        lemma_padded_val_bound(a, n - 1);
        lemma_padded_val_bound(b, n - 1);
        lemma_fundamental_div_mod_converse(
            x,
            p,
            limb_at(a, n - 1) as int,
            padded_val(a, n - 1) as int,
        );
        lemma_fundamental_div_mod_converse(
            x,
            p,
            limb_at(b, n - 1) as int,
            padded_val(b, n - 1) as int,
        );
        lemma_padded_val_unique(a, b, n - 1);
        assert(limb_at(a, n - 1) == x / p && limb_at(b, n - 1) == x / p);
    }
}

/// Two integers denote the same number exactly when they agree at every
/// zero-extended limb position, whatever their precisions.
pub proof fn lemma_as_nat_eq_iff_eq_padded(a: Seq<u64>, b: Seq<u64>)
    ensures
        as_nat(a) == as_nat(b) <==> eq_padded(a, b),
{
    let n = if a.len() >= b.len() {
        a.len() as int
    } else {
        b.len() as int
    };
    lemma_padded_val_extend(a, n);
    lemma_padded_val_extend(b, n);
    if as_nat(a) == as_nat(b) {
        lemma_padded_val_unique(a, b, n);
        assert forall|i: int| limb_at(a, i) == limb_at(b, i) by {
            if i >= n {
                assert(limb_at(a, i) == 0 && limb_at(b, i) == 0);
            }
        }
    }
    if eq_padded(a, b) {
        lemma_padded_val_congruence(a, b, n);
    }
}

/// A one-limb integer denotes its single limb.
pub proof fn lemma_as_nat_single(s: Seq<u64>)
    requires
        s.len() == 1,
    ensures
        as_nat(s) == s[0],
{
    lemma2_to64();
    lemma_mul_basics(s[0] as int);
    assert(limb_at(s, 0) == s[0]);
    assert(padded_val(s, 1) == padded_val(s, 0) + (limb_at(s, 0) as nat) * pow2(0));
    assert(padded_val(s, 0) == 0);
    assert((limb_at(s, 0) as nat) * pow2(0) == s[0]);
    assert(as_nat(s) == padded_val(s, 1));
}

/// A variable-precision unsigned integer: an owned sequence of limbs,
/// least-significant first.
#[derive(Debug)]
pub struct UintVec {
    /// The limbs, least-significant first; the precision is their count.
    pub limbs: Vec<Limb>,
}

/// The error of a factory asked for a bit-width that no whole number of
/// limbs can represent exactly.
#[derive(Clone, Copy, Debug, PartialEq, Eq, Structural)]
pub struct InvalidBitLength;

impl View for UintVec {
    type V = Seq<u64>;

    open spec fn view(&self) -> Seq<u64> {
        self.limbs@.map_values(|l: Limb| l@)
    }
}

impl UintVec {
    /// The number of limbs this integer holds: a public quantity.
    pub fn precision(&self) -> (n: usize)
        ensures
            n == self@.len(),
    {
        self.limbs.len()
    }

    /// The limb at position `i`, or the zero limb at or beyond this
    /// integer's precision: the zero-extending accessor every operation
    /// reads its operands through.
    pub fn limb_or_zero(&self, i: usize) -> (r: Limb)
        ensures
            r@ == limb_at(self@, i as int),
    {
        if i < self.limbs.len() {
            self.limbs[i]
        } else {
            Limb::zero()
        }
    }

    /// Orders two integers by precision: `(shorter, longer)`, inspecting
    /// only limb counts, never limb contents. When the precisions are equal
    /// the placement is deliberately unspecified; downstream consumers are
    /// symmetric in the two.
    pub fn sort_by_precision<'a>(a: &'a UintVec, b: &'a UintVec) -> (r: (&'a UintVec, &'a UintVec))
        ensures
            r.0@.len() <= r.1@.len(),
            (r.0@ == a@ && r.1@ == b@) || (r.0@ == b@ && r.1@ == a@),
    {
        if a.limbs.len() <= b.limbs.len() {
            (a, b)
        } else {
            (b, a)
        }
    }

    /// The zero value, one limb wide.
    pub fn zero() -> (r: UintVec)
        ensures
            r@.len() == 1,
            r@[0] == 0,
            as_nat(r@) == 0,
    {
        let limbs = vec![Limb::zero()];
        let r = UintVec { limbs };
        proof {
            assert(r@[0] == 0);
            lemma_as_nat_single(r@);
        }
        r
    }

    /// The one value, one limb wide.
    pub fn one() -> (r: UintVec)
        ensures
            r@.len() == 1,
            r@[0] == 1,
            as_nat(r@) == 1,
    {
        let limbs = vec![Limb::one()];
        let r = UintVec { limbs };
        proof {
            assert(r@[0] == 1);
            lemma_as_nat_single(r@);
        }
        r
    }

    /// The largest value representable in `bits` bits: `bits / Limb::BITS`
    /// all-ones limbs. Fails when `bits` is zero or not a whole number of
    /// limbs; malformed input is caught here, never during arithmetic.
    pub fn max(bits: u32) -> (r: Result<UintVec, InvalidBitLength>)
        ensures
            r is Ok <==> (bits > 0 && bits % Limb::BITS == 0),
            r is Ok ==> r->Ok_0@.len() == bits / 64,
            r is Ok ==> as_nat(r->Ok_0@) == pow2(bits as nat) - 1,
    {
        if bits == 0 || bits % Limb::BITS != 0 {
            return Err(InvalidBitLength);
        }
        let n = (bits / Limb::BITS) as usize;
        let mut limbs: Vec<Limb> = Vec::new();
        while limbs.len() < n
            invariant
                limbs@.len() <= n,
                forall|i: int|
                    0 <= i < limbs@.len() ==> #[trigger] limbs@[i]@ == 0xffff_ffff_ffff_ffffu64,
            decreases n - limbs@.len(),
        {
            limbs.push(Limb::max_value());
        }
        let r = UintVec { limbs };
        proof {
            lemma_fundamental_div_mod(bits as int, 64);
            assert(64 * (bits as int / 64) == bits) by {
                assert(bits % 64 == 0);
            }
            lemma_padded_val_all_ones(r@, n as int);
        }
        Ok(r)
    }

    /// Applies `step` (as performed by `f`) limb by limb across two
    /// integers of possibly different precisions, threading a carry:
    /// the single generic mechanism behind every limb-wise carry or borrow
    /// operation. The result always has exactly `max(precision(a),
    /// precision(b))` limbs — never trimmed — and the loop runs exactly
    /// that many iterations, a function of public lengths only.
    pub fn chain<F: Fn(Limb, Limb, Limb) -> (Limb, Limb)>(
        a: &UintVec,
        b: &UintVec,
        carry: Limb,
        f: F,
        step: Ghost<spec_fn(u64, u64, u64) -> (u64, u64)>,
    ) -> (r: (UintVec, Limb))
        requires
            forall|x: Limb, y: Limb, z: Limb| #[trigger] call_requires(f, (x, y, z)),
            forall|x: Limb, y: Limb, z: Limb, out: (Limb, Limb)|
                #[trigger] call_ensures(f, (x, y, z), out) ==> out.0@ == step@(x@, y@, z@).0
                    && out.1@ == step@(x@, y@, z@).1,
        ensures
            r.0@.len() == max_precision(a@, b@),
            forall|i: int|
                0 <= i < r.0@.len() ==> r.0@[i] == #[trigger] chain_limb(a@, b@, carry@, step@, i),
            r.1@ == chain_carry(a@, b@, carry@, step@, r.0@.len() as int),
    {
        let n = if a.limbs.len() >= b.limbs.len() {
            a.limbs.len()
        } else {
            b.limbs.len()
        };
        let mut limbs: Vec<Limb> = Vec::new();
        let mut c: Limb = carry;
        let mut i: usize = 0;
        while i < n
            invariant
                i <= n,
                n == (if a@.len() >= b@.len() {
                    a@.len()
                } else {
                    b@.len()
                }),
                limbs@.len() == i,
                forall|j: int|
                    0 <= j < i ==> limbs@[j]@ == #[trigger] chain_limb(a@, b@, carry@, step@, j),
                c@ == chain_carry(a@, b@, carry@, step@, i as int),
                forall|x: Limb, y: Limb, z: Limb| #[trigger] call_requires(f, (x, y, z)),
                forall|x: Limb, y: Limb, z: Limb, out: (Limb, Limb)|
                    #[trigger] call_ensures(f, (x, y, z), out) ==> out.0@ == step@(x@, y@, z@).0
                        && out.1@ == step@(x@, y@, z@).1,
            decreases n - i,
        {
            let la = a.limb_or_zero(i);
            let lb = b.limb_or_zero(i);
            let (s, c2) = f(la, lb, c);
            proof {
                assert(s@ == step@(la@, lb@, c@).0 && c2@ == step@(la@, lb@, c@).1);
                assert(chain_carry(a@, b@, carry@, step@, i + 1) == step@(
                    limb_at(a@, i as int),
                    limb_at(b@, i as int),
                    chain_carry(a@, b@, carry@, step@, i as int),
                ).1);
            }
            limbs.push(s);
            c = c2;
            i += 1;
        }
        let out = UintVec { limbs };
        proof {
            assert forall|j: int| 0 <= j < out@.len() implies out@[j] == chain_limb(
                a@,
                b@,
                carry@,
                step@,
                j,
            ) by {
                assert(out@[j] == out.limbs@[j]@);
            }
        }
        (out, c)
    }
}

/// All-ones limbs over the first `n` positions denote `2^(64 n) - 1`.
proof fn lemma_padded_val_all_ones(s: Seq<u64>, n: int)
    requires
        0 <= n <= s.len(),
        forall|i: int| 0 <= i < n ==> #[trigger] s[i] == 0xffff_ffff_ffff_ffffu64,
    ensures
        padded_val(s, n) == pow2((64 * n) as nat) - 1,
    decreases n,
{
    lemma2_to64();
    if n > 0 {
        lemma_padded_val_all_ones(s, n - 1);
        let p = pow2((64 * (n - 1)) as nat) as int;
        lemma_pow2_pos((64 * (n - 1)) as nat);
        lemma_mul_is_distributive_add_other_way(p, 1, 0xffff_ffff_ffff_ffff);
        lemma_pow2_adds(64, (64 * (n - 1)) as nat);
        assert(p + 0xffff_ffff_ffff_ffff * p == 0x1_0000_0000_0000_0000 * p);
    }
}

} // verus!
