//! Constant-time booleans and the deferred value/validity pair.
//!
//! A [`CtBool`] is a thin wrapper over a word mask (`1` for true, `0` for
//! false) whose AND/OR combinators are bitwise operations, never
//! short-circuit logic, so that folding many of them introduces no
//! value-dependent branch. A [`CtOption`] pairs a value with such a flag and
//! defers collapsing the flag to a branch-usable `bool` for as long as
//! possible: [`CtBool::to_bool`] and [`CtOption::into_option`] are the only
//! points where the flag may influence control flow, and callers must treat
//! them as declassification boundaries with a timing caveat.

use vstd::prelude::*;

verus! {

/// A constant-time boolean: a mask word that is `1` (true) or `0` (false).
#[derive(Clone, Copy, Debug)]
pub struct CtBool {
    mask: u8,
}

impl CtBool {
    #[verifier::type_invariant]
    spec fn type_inv(self) -> bool {
        self.mask == 0 || self.mask == 1
    }

    /// The boolean this mask denotes.
    pub closed spec fn truth(self) -> bool {
        self.mask == 1
    }

    /// The true constant-time boolean.
    pub fn new_true() -> (r: CtBool)
        ensures
            r.truth(),
    {
        CtBool { mask: 1 }
    }

    /// The false constant-time boolean.
    pub fn new_false() -> (r: CtBool)
        ensures
            !r.truth(),
    {
        CtBool { mask: 0 }
    }

    /// Wraps a mask word that is already known to be `0` or `1`.
    pub(crate) fn from_mask(mask: u8) -> (r: CtBool)
        requires
            mask == 0 || mask == 1,
        ensures
            r.truth() == (mask == 1),
    {
        CtBool { mask }
    }

    /// Bitwise AND: true exactly when both operands are true.
    pub fn and(self, other: CtBool) -> (r: CtBool)
        ensures
            r.truth() == (self.truth() && other.truth()),
    {
        proof {
            use_type_invariant(&self);
            use_type_invariant(&other);
        }
        let m: u8 = self.mask & other.mask;
        proof {
            let a = self.mask;
            let b = other.mask;
            assert((a == 0 || a == 1) && (b == 0 || b == 1) ==> ((a & b == 0 || a & b == 1) && (a
                & b == 1 <==> a == 1 && b == 1))) by (bit_vector);
        }
        CtBool { mask: m }
    }

    /// Bitwise OR: true exactly when at least one operand is true.
    pub fn or(self, other: CtBool) -> (r: CtBool)
        ensures
            r.truth() == (self.truth() || other.truth()),
    {
        proof {
            use_type_invariant(&self);
            use_type_invariant(&other);
        }
        let m: u8 = self.mask | other.mask;
        proof {
            let a = self.mask;
            let b = other.mask;
            assert((a == 0 || a == 1) && (b == 0 || b == 1) ==> ((a | b == 0 || a | b == 1) && (a
                | b == 1 <==> a == 1 || b == 1))) by (bit_vector);
        }
        CtBool { mask: m }
    }

    /// Collapses the mask to an ordinary boolean.
    ///
    /// Caveat: code that branches on the result may be timed; this is the
    /// one point of the comparison layer that is not constant-time with
    /// respect to what happens downstream of it.
    pub fn to_bool(self) -> (b: bool)
        ensures
            b == self.truth(),
    {
        proof {
            use_type_invariant(&self);
        }
        self.mask == 1
    }
}

/// A value paired with a constant-time validity flag.
///
/// The pair is fully populated whether or not the flag is set, so computing
/// an invalid result takes the same path as computing a valid one; the flag
/// collapses to a plain `bool` only through [`CtOption::into_option`] or
/// [`CtBool::to_bool`].
#[derive(Debug)]
pub struct CtOption<T> {
    value: T,
    flag: CtBool,
}

impl<T> CtOption<T> {
    /// Whether the carried value is valid.
    pub closed spec fn spec_is_some(self) -> bool {
        self.flag.truth()
    }

    /// The carried value, whether or not it is valid.
    pub closed spec fn spec_value(self) -> T {
        self.value
    }

    /// Pairs `value` with the validity flag `is_some`.
    pub fn new(value: T, is_some: CtBool) -> (r: CtOption<T>)
        ensures
            r.spec_is_some() == is_some.truth(),
            r.spec_value() == value,
    {
        CtOption { value, flag: is_some }
    }

    /// The validity flag, still in constant-time form.
    pub fn is_some(&self) -> (r: CtBool)
        ensures
            r.truth() == self.spec_is_some(),
    {
        self.flag
    }

    /// The carried value; callers must already know the flag is set.
    pub fn unwrap(self) -> (r: T)
        requires
            self.spec_is_some(),
        ensures
            r == self.spec_value(),
    {
        self.value
    }

    /// Collapses the pair to an ordinary `Option`.
    ///
    /// Caveat: this branches on the flag; downstream of this call the
    /// constant-time guarantee no longer holds.
    pub fn into_option(self) -> (r: Option<T>)
        ensures
            r == (if self.spec_is_some() {
                Some(self.spec_value())
            } else {
                Option::<T>::None
            }),
    {
        if self.flag.to_bool() {
            Some(self.value)
        } else {
            None
        }
    }
}

} // verus!
