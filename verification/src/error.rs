//! The ways a conversion can be refused.
use vstd::prelude::*;

verus! {

/// Why a number has no phrase.
#[derive(Clone, Copy, Debug, PartialEq, Eq, Structural)]
pub enum Num2Err {
    /// The magnitude is beyond the largest scale word, the value is not a
    /// number, or the language has no word for what was asked.
    CannotConvert,
    /// An ordinal was asked of a value that is not a whole number.
    FloatingOrdinal,
    /// A year was asked of a value that is not a whole number.
    FloatingYear,
}

} // verus!
