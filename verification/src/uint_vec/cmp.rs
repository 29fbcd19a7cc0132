//! [`UintVec`] comparisons: constant-time equality across operands of
//! potentially different precisions.
//!
//! Only equality is defined here — no ordering. The relation is
//! mathematically total (reflexive, symmetric, transitive; see the proof
//! functions below), even though operationally only a constant-time test
//! is provided.

use super::{as_nat, eq_padded, lemma_as_nat_eq_iff_eq_padded, limb_at, UintVec};
use crate::ct::CtBool;
use vstd::prelude::*;

verus! {

impl UintVec {
    /// Constant-time equality: folds per-limb constant-time equality over
    /// the zero-extended limbs of both operands with bitwise AND — never
    /// short-circuited, never an early return — so the loop length depends
    /// only on the longer operand's precision, not on where (if anywhere)
    /// the operands first differ. True exactly when the operands agree at
    /// every zero-extended limb position; by representation uniqueness
    /// that is exactly when they denote the same number.
    pub fn ct_eq(&self, other: &Self) -> (r: CtBool)
        ensures
            r.truth() == eq_padded(self@, other@),
            r.truth() == (as_nat(self@) == as_nat(other@)),
    {
        let (shorter, longer) = Self::sort_by_precision(self, other);
        let mut ret = CtBool::new_true();
        let n = longer.limbs.len();
        let mut i: usize = 0;
        while i < n
            invariant
                i <= n,
                n == longer@.len(),
                shorter@.len() <= longer@.len(),
                (shorter@ == self@ && longer@ == other@) || (shorter@ == other@ && longer@
                    == self@),
                ret.truth() == (forall|j: int|
                    0 <= j < i ==> limb_at(shorter@, j) == #[trigger] limb_at(longer@, j)),
            decreases n - i,
        {
            let a = shorter.limb_or_zero(i);
            let b = longer.limb_or_zero(i);
            ret = ret.and(a.ct_eq(&b));
            i += 1;
        }
        proof {
            if ret.truth() {
                assert forall|j: int| limb_at(self@, j) == #[trigger] limb_at(other@, j) by {
                    if 0 <= j < n {
                        assert(limb_at(shorter@, j) == limb_at(longer@, j));
                    } else {
                        assert(limb_at(self@, j) == 0 && limb_at(other@, j) == 0);
                    }
                }
            } else {
                if eq_padded(self@, other@) {
                    assert forall|j: int|
                        0 <= j < i implies limb_at(shorter@, j) == #[trigger] limb_at(
                        longer@,
                        j,
                    ) by {
                        assert(limb_at(self@, j) == limb_at(other@, j));
                    }
                    assert(false);
                }
            }
            lemma_as_nat_eq_iff_eq_padded(self@, other@);
        }
        ret
    }
}

impl PartialEq for UintVec {
    /// Plain equality: the constant-time comparison collapsed to an
    /// ordinary `bool` at the very end.
    ///
    /// Caveat: this collapse is not constant-time with respect to what
    /// happens downstream — code that branches on the result may be timed.
    /// Use [`UintVec::ct_eq`] where that matters.
    fn eq(&self, other: &Self) -> (r: bool) {
        self.ct_eq(other).to_bool()
    }
}

impl vstd::std_specs::cmp::PartialEqSpecImpl for UintVec {
    open spec fn obeys_eq_spec() -> bool {
        true
    }

    open spec fn eq_spec(&self, other: &Self) -> bool {
        eq_padded(self@, other@)
    }
}

impl Eq for UintVec {}

/// Equality after zero-extension is reflexive: every value equals itself.
pub proof fn lemma_eq_padded_reflexive(a: Seq<u64>)
    ensures
        eq_padded(a, a),
{
}

/// Equality after zero-extension is symmetric: the comparison does not
/// depend on which operand is the longer one.
pub proof fn lemma_eq_padded_symmetric(a: Seq<u64>, b: Seq<u64>)
    ensures
        eq_padded(a, b) == eq_padded(b, a),
{
    if eq_padded(a, b) {
        assert forall|i: int| limb_at(b, i) == #[trigger] limb_at(a, i) by {
            assert(limb_at(a, i) == limb_at(b, i));
        }
    }
    if eq_padded(b, a) {
        assert forall|i: int| limb_at(a, i) == #[trigger] limb_at(b, i) by {
            assert(limb_at(b, i) == limb_at(a, i));
        }
    }
}

/// Equality after zero-extension is transitive.
pub proof fn lemma_eq_padded_transitive(a: Seq<u64>, b: Seq<u64>, c: Seq<u64>)
    requires
        eq_padded(a, b),
        eq_padded(b, c),
    ensures
        eq_padded(a, c),
{
    assert forall|i: int| limb_at(a, i) == #[trigger] limb_at(c, i) by {
        assert(limb_at(a, i) == limb_at(b, i));
        assert(limb_at(b, i) == limb_at(c, i));
    }
}

} // verus!
