//! What the Nepali phrases are: the token sequence of every kind of phrase,
//! as functions of the number.
use vstd::prelude::*;
use crate::error::Num2Err;
use crate::lang::grouping::{groups, in_range, lowest_populated};
use crate::lang::lexicon::{
    ordinal_word, scale_word, unit_word, INFINITY, MINUS, NEGATIVE_INFINITY, ORDINAL_COUNT,
    PAISA, PLAIN_ORDINALS, POINT, RUPEE, YEAR,
};
use crate::number::{DecimalModel, NumberModel};
use crate::phrase::joined;

verus! {

/// The sign token of a negative number; nothing otherwise.
pub open spec fn sign_tokens(negative: bool) -> Seq<Seq<char>> {
    if negative {
        seq![MINUS@]
    } else {
        Seq::empty()
    }
}

/// What the group `group` at `position` contributes: nothing where it is
/// zero; else its word, followed by the scale word of the position unless the
/// position is 0.
pub open spec fn group_tokens(group: nat, position: nat) -> Seq<Seq<char>> {
    if group == 0 {
        Seq::empty()
    } else if position == 0 {
        seq![unit_word(group as int)]
    } else {
        seq![unit_word(group as int), scale_word(position as int)]
    }
}

/// The contributions of the lowest `k` groups of `gs`, the highest of them
/// first.
pub open spec fn groups_tokens(gs: Seq<nat>, k: nat) -> Seq<Seq<char>>
    decreases k,
{
    if k == 0 {
        Seq::empty()
    } else {
        group_tokens(gs[k - 1], (k - 1) as nat) + groups_tokens(gs, (k - 1) as nat)
    }
}

/// The tokens of a magnitude: the contributions of all its groups, from the
/// highest position down.
pub open spec fn magnitude_tokens(n: nat) -> Seq<Seq<char>> {
    groups_tokens(groups(n), groups(n).len())
}

/// The cardinal tokens of the whole number of magnitude `n`: the zero word for
/// zero; else the sign token, if negative, and the tokens of the magnitude.
/// A magnitude beyond the scale words has none.
pub open spec fn integer_tokens(negative: bool, n: nat) -> Result<Seq<Seq<char>>, Num2Err> {
    if n == 0 {
        Ok(seq![unit_word(0)])
    } else if !in_range(n) {
        Err(Num2Err::CannotConvert)
    } else {
        Ok(sign_tokens(negative) + magnitude_tokens(n))
    }
}

/// A group that is not zero contributes at least one token.
pub proof fn lemma_populated_tokens(gs: Seq<nat>, k: nat, position: int)
    requires
        0 <= position < k,
        gs[position] != 0,
    ensures
        groups_tokens(gs, k).len() > 0,
    decreases k,
{
    if position < k - 1 {
        lemma_populated_tokens(gs, (k - 1) as nat, position);
    }
}

/// The words of the digits after the point, one word per digit.
pub open spec fn digit_tokens(fraction: Seq<u8>) -> Seq<Seq<char>> {
    Seq::new(fraction.len(), |i: int| unit_word(fraction[i] as int))
}

/// The tokens of a fractional part: none where there is no digit after the
/// point; else the point token and the words of the digits.
pub open spec fn fraction_tokens(fraction: Seq<u8>) -> Seq<Seq<char>> {
    if fraction.len() == 0 {
        Seq::empty()
    } else {
        seq![POINT@] + digit_tokens(fraction)
    }
}

/// The tokens of a number read with its digits after the point: the sign
/// token, if negative, the tokens of the integer part (none where it is
/// zero), and the tokens of the fractional part.
pub open spec fn float_tokens(d: DecimalModel) -> Result<Seq<Seq<char>>, Num2Err> {
    if !in_range(d.magnitude()) {
        Err(Num2Err::CannotConvert)
    } else {
        Ok(sign_tokens(d.negative) + magnitude_tokens(d.magnitude()) + fraction_tokens(d.fraction))
    }
}

/// The cardinal tokens of a finite number.
pub open spec fn cardinal_tokens(d: DecimalModel) -> Result<Seq<Seq<char>>, Num2Err> {
    if d.is_whole() {
        integer_tokens(d.negative, d.magnitude())
    } else {
        float_tokens(d)
    }
}

/// The phrase of an infinity.
pub open spec fn infinity_phrase(negative: bool) -> Seq<char> {
    if negative {
        NEGATIVE_INFINITY@
    } else {
        INFINITY@
    }
}

/// The cardinal phrase of a number.
pub open spec fn cardinal_phrase(num: NumberModel) -> Result<Seq<char>, Num2Err> {
    match num {
        NumberModel::NotANumber => Err(Num2Err::CannotConvert),
        NumberModel::Infinite { negative } => Ok(infinity_phrase(negative)),
        NumberModel::Finite(d) => joined(cardinal_tokens(d)),
    }
}

/// Where in the ordinal table the last word of the ordinal of `n` stands.
/// Where the lowest group is not zero, its value is the rank. Where the
/// lowest non-zero group stands at a higher position, the magnitude is a
/// multiple of that position's scale step, and the word is the round ordinal
/// of that step. Zero has no ordinal, and neither has a multiple of a step
/// that has no round ordinal.
pub open spec fn ordinal_index(n: nat) -> Option<int> {
    let gs = groups(n);
    let lowest = lowest_populated(gs, 0);
    if lowest >= gs.len() {
        None
    } else if lowest == 0 {
        Some(gs[0] - 1)
    } else if PLAIN_ORDINALS + lowest - 1 < ORDINAL_COUNT {
        Some(PLAIN_ORDINALS + lowest - 1)
    } else {
        None
    }
}

/// The ordinal tokens of the whole number of magnitude `n`: its cardinal
/// tokens with the last one replaced by the ordinal word.
pub open spec fn ordinal_tokens(negative: bool, n: nat) -> Result<Seq<Seq<char>>, Num2Err> {
    match (integer_tokens(negative, n), ordinal_index(n)) {
        (Ok(tokens), Some(index)) => Ok(tokens.drop_last().push(ordinal_word(index))),
        _ => Err(Num2Err::CannotConvert),
    }
}

/// The ordinal phrase of a number. Only a whole number has one.
pub open spec fn ordinal_phrase(num: NumberModel) -> Result<Seq<char>, Num2Err> {
    match num {
        NumberModel::Finite(d) => if d.is_whole() {
            joined(ordinal_tokens(d.negative, d.magnitude()))
        } else {
            Err(Num2Err::FloatingOrdinal)
        },
        _ => Err(Num2Err::FloatingOrdinal),
    }
}

/// A token-level result with one more token at its end.
pub open spec fn with_suffix(tokens: Result<Seq<Seq<char>>, Num2Err>, suffix: Seq<char>) -> Result<
    Seq<Seq<char>>,
    Num2Err,
> {
    match tokens {
        Ok(tokens) => Ok(tokens.push(suffix)),
        Err(e) => Err(e),
    }
}

/// The tokens of the year `n`: its cardinal tokens and the year token.
pub open spec fn year_tokens(negative: bool, n: nat) -> Result<Seq<Seq<char>>, Num2Err> {
    with_suffix(integer_tokens(negative, n), YEAR@)
}

/// The phrase of a year. Only a whole number has one.
pub open spec fn year_phrase(num: NumberModel) -> Result<Seq<char>, Num2Err> {
    match num {
        NumberModel::Finite(d) => if d.is_whole() {
            joined(year_tokens(d.negative, d.magnitude()))
        } else {
            Err(Num2Err::FloatingYear)
        },
        _ => Err(Num2Err::FloatingYear),
    }
}

/// The count of minor units in an amount: its first two digits after the
/// point, read as one number. What follows them is cut off.
pub open spec fn minor_units(d: DecimalModel) -> nat {
    d.digit_at(-1) * 10 + d.digit_at(-2)
}

/// The tokens of an amount. The major phrase is the cardinal of the integer
/// part with the major unit's name, the minor phrase the cardinal of the
/// count of minor units with the minor unit's name; each carries the sign of
/// the amount. An amount without minor units is its major phrase alone, one
/// below a major unit its minor phrase alone, and any other is both.
pub open spec fn currency_tokens(d: DecimalModel) -> Result<Seq<Seq<char>>, Num2Err> {
    let major = with_suffix(integer_tokens(d.negative, d.magnitude()), RUPEE@);
    let minor = with_suffix(integer_tokens(d.negative, minor_units(d)), PAISA@);
    match (major, minor) {
        (Ok(major), Ok(minor)) => if minor_units(d) == 0 {
            Ok(major)
        } else if d.magnitude() == 0 {
            Ok(minor)
        } else {
            Ok(major + minor)
        },
        (Err(e), _) => Err(e),
        (_, Err(e)) => Err(e),
    }
}

/// The phrase of an amount of money. An infinite amount is the phrase of
/// the infinity, without a unit.
pub open spec fn currency_phrase(num: NumberModel) -> Result<Seq<char>, Num2Err> {
    match num {
        NumberModel::NotANumber => Err(Num2Err::CannotConvert),
        NumberModel::Infinite { negative } => Ok(infinity_phrase(negative)),
        NumberModel::Finite(d) => joined(currency_tokens(d)),
    }
}

} // verus!
