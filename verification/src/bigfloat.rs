//! Reading a [`BigFloat`]: the three calls into `num_bigfloat` that the
//! library makes, what it takes on trust of them, and the number that a
//! `BigFloat` holds.
use vstd::prelude::*;
use num_bigfloat::BigFloat;
use crate::number::{number_of_parts, Number, NumberModel};

verus! {

/// A `BigFloat` is opaque here: a value is read through [`to_raw_parts`],
/// `is_inf_pos` and `is_inf_neg` and nothing else.
#[verifier::external_type_specification]
#[verifier::external_body]
pub struct ExBigFloat(BigFloat);

/// What `BigFloat::to_raw_parts` returns for `x`: for a finite value the
/// mantissa (ten base-10000 parts, the lowest first), the count of its decimal
/// digits, the sign and the decimal exponent; nothing for an infinity or a
/// NaN.
pub uninterp spec fn raw_parts(x: BigFloat) -> Option<([i16; 10], i16, i8, i8)>;

/// What `BigFloat::is_inf_pos` returns for `x`.
pub uninterp spec fn inf_pos(x: BigFloat) -> bool;

/// What `BigFloat::is_inf_neg` returns for `x`.
pub uninterp spec fn inf_neg(x: BigFloat) -> bool;

/// `BigFloat::to_raw_parts`. Not proved: that the call returns the raw parts
/// of `x`, which is what [`raw_parts`] names. The call reads `x` and nothing
/// else, and does not fail.
#[verifier::external_body]
fn to_raw_parts(x: &BigFloat) -> (parts: Option<([i16; 10], i16, i8, i8)>)
    ensures
        parts == raw_parts(*x),
{
    x.to_raw_parts()
}

/// `BigFloat::is_inf_pos`. Not proved: that the call tells whether `x` is
/// positive infinity, which is what [`inf_pos`] names.
pub assume_specification[ BigFloat::is_inf_pos ](x: &BigFloat) -> (yes: bool)
    ensures
        yes == inf_pos(*x),
;

/// `BigFloat::is_inf_neg`. Not proved: that the call tells whether `x` is
/// negative infinity, which is what [`inf_neg`] names.
pub assume_specification[ BigFloat::is_inf_neg ](x: &BigFloat) -> (yes: bool)
    ensures
        yes == inf_neg(*x),
;

/// The number that `x` holds: an infinity where `x` says it is one, else
/// what its raw parts stand for, and no number where it has none.
pub open spec fn number_of(x: BigFloat) -> NumberModel {
    if inf_pos(x) {
        NumberModel::Infinite { negative: false }
    } else if inf_neg(x) {
        NumberModel::Infinite { negative: true }
    } else {
        match raw_parts(x) {
            Some((mantissa, _, sign, exponent)) => number_of_parts(mantissa@, sign, exponent),
            None => NumberModel::NotANumber,
        }
    }
}

impl Number {
    /// The number that `x` holds.
    pub fn from_bigfloat(x: &BigFloat) -> (number: Number)
        ensures
            number@ == number_of(*x),
            number.wf(),
    {
        if x.is_inf_pos() {
            Number::Infinite { negative: false }
        } else if x.is_inf_neg() {
            Number::Infinite { negative: true }
        } else {
            match to_raw_parts(x) {
                Some((mantissa, _, sign, exponent)) => Number::from_raw_parts(
                    &mantissa,
                    sign,
                    exponent,
                ),
                None => Number::NotANumber,
            }
        }
    }
}

} // verus!
