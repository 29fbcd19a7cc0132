//! The checked-addition capability.

use crate::ct::CtOption;
use vstd::prelude::*;

verus! {

/// Add with overflow detection: any type that can report, through a
/// constant-time validity flag rather than a panic or a silent wrap,
/// whether the mathematically exact sum was representable. The flag stays
/// in deferred form until the caller explicitly collapses it.
pub trait CheckedAdd<Rhs> {
    /// The type of the sum.
    type Output;

    /// `self + rhs`, paired with a validity flag computed without a
    /// data-dependent branch.
    fn checked_add(&self, rhs: Rhs) -> CtOption<Self::Output>;
}

} // verus!
