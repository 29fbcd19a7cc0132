//! Arithmetic core of a variable-precision unsigned integer type for
//! cryptographic use: a length-tolerant carry-chain combinator, and
//! constant-time addition and equality layered on top of it.
//!
//! Timing of every operation here depends only on operand *precisions*
//! (limb counts), which this crate treats as public, never on the numeric
//! values of the limbs. Whether a precision is in fact safe to reveal is
//! an assumption inherited from the caller's usage pattern.

pub mod checked;
pub mod ct;
pub mod limb;
pub mod uint_vec;

pub use checked::CheckedAdd;
pub use ct::CtBool;
pub use ct::CtOption;
pub use limb::Limb;
pub use uint_vec::InvalidBitLength;
pub use uint_vec::UintVec;
