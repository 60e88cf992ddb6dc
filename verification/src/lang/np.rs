//! Nepali: numbers into words. Every formatter comes in three layers: one
//! that makes the tokens, one that joins them into a phrase, and one that
//! first reads the number out of a `BigFloat`.
use vstd::prelude::*;
use num_bigfloat::BigFloat;
use crate::currency::Currency;
use crate::error::Num2Err;
use crate::lang::grouping::{
    group_values, groups, in_range, lemma_groups_bound, lemma_in_range, lowest_populated, pairs,
};
use crate::lang::lexicon::{
    INFINITY, MAX_POSITION, MINUS, NEGATIVE_INFINITY, NEPALI_ORDINALS, NP_SCALE, ORDINAL_COUNT,
    PAISA, PLAIN_ORDINALS, POINT, RUPEE, UNITS, YEAR,
};
use crate::lang::wording::{
    cardinal_phrase, cardinal_tokens, currency_phrase, currency_tokens, digit_tokens,
    float_tokens, groups_tokens, integer_tokens, lemma_populated_tokens, magnitude_tokens,
    ordinal_phrase, ordinal_tokens, sign_tokens, year_phrase, year_tokens,
};
use crate::bigfloat::number_of;
use crate::number::{Decimal, Number};
use crate::phrase::{join_words, joined, outcome, token_outcome, words};

verus! {

/// The Nepali language.
#[derive(Clone, Copy, Debug)]
pub struct Nepali;

impl Nepali {
    /// The language; it has no state.
    pub fn new() -> (nepali: Self) {
        Self {  }
    }

    /// Splits a magnitude into its groups, lowest first: two digits, one
    /// digit, then two digits at a time.
    pub fn split_np(&self, num: u128) -> (splits: Vec<u64>)
        ensures
            group_values(splits@) == groups(num as nat),
    {
        let mut splits: Vec<u64> = Vec::new();
        if num == 0 {
            splits.push(0);
            assert(group_values(splits@) =~= groups(num as nat));
            return splits;
        }
        splits.push((num % 100) as u64);
        let hundreds: u128 = num / 100;
        splits.push((hundreds % 10) as u64);
        let mut rest: u128 = hundreds / 10;
        assert(rest == num / 1000);
        assert(group_values(splits@) =~= seq![(num % 100) as nat, ((num / 100) % 10) as nat]);
        while rest != 0
            invariant
                group_values(splits@) + pairs(rest as nat) == groups(num as nat),
            decreases rest,
        {
            let ghost before = group_values(splits@);
            splits.push((rest % 100) as u64);
            proof {
                assert(group_values(splits@) =~= before + seq![(rest % 100) as nat]);
                assert(before + pairs(rest as nat) =~= group_values(splits@) + pairs(
                    (rest / 100) as nat,
                ));
            }
            rest = rest / 100;
        }
        assert(group_values(splits@) + pairs(0) =~= group_values(splits@));
        splits
    }

    /// The cardinal tokens of the whole number with the given sign and
    /// magnitude.
    pub fn integer_words(&self, negative: bool, magnitude: u128) -> (result: Result<
        Vec<&'static str>,
        Num2Err,
    >)
        ensures
            token_outcome(result) == integer_tokens(negative, magnitude as nat),
    {
        let mut tokens: Vec<&'static str> = Vec::new();
        if magnitude == 0 {
            tokens.push(UNITS[0]);
            assert(words(tokens@) =~= seq![UNITS[0]@]);
            return Ok(tokens);
        }
        if negative {
            tokens.push(MINUS);
        }
        let splits = self.split_np(magnitude);
        let ghost gs = groups(magnitude as nat);
        let mut i: usize = splits.len();
        assert(words(tokens@) =~= sign_tokens(negative));
        assert(words(tokens@) + groups_tokens(gs, i as nat) =~= sign_tokens(negative)
            + groups_tokens(gs, gs.len()));
        while i > 0
            invariant
                i <= splits.len(),
                gs == groups(magnitude as nat),
                group_values(splits@) == gs,
                words(tokens@) + groups_tokens(gs, i as nat) == sign_tokens(negative)
                    + groups_tokens(gs, gs.len()),
                forall|j: int| i <= j < gs.len() && #[trigger] gs[j] != 0 ==> j <= MAX_POSITION,
            decreases i,
        {
            i = i - 1;
            let split = splits[i];
            let ghost before = words(tokens@);
            proof {
                assert(split as nat == group_values(splits@)[i as int]);
                lemma_groups_bound(magnitude as nat, i as int);
            }
            if split != 0 {
                if i > MAX_POSITION {
                    assert(!in_range(magnitude as nat));
                    return Err(Num2Err::CannotConvert);
                }
                tokens.push(UNITS[split as usize]);
                if i != 0 {
                    tokens.push(NP_SCALE[i - 1]);
                    assert(words(tokens@) =~= before + seq![
                        UNITS[split as int]@,
                        NP_SCALE[i - 1]@,
                    ]);
                } else {
                    assert(words(tokens@) =~= before + seq![UNITS[split as int]@]);
                }
            }
            assert(words(tokens@) + groups_tokens(gs, i as nat) =~= before + groups_tokens(
                gs,
                (i + 1) as nat,
            ));
        }
        assert(words(tokens@) + groups_tokens(gs, 0) =~= words(tokens@));
        assert(in_range(magnitude as nat));
        Ok(tokens)
    }

    /// The cardinal phrase of the whole number with the given sign and
    /// magnitude.
    pub fn int_to_cardinal(&self, negative: bool, magnitude: u128) -> (result: Result<
        String,
        Num2Err,
    >)
        ensures
            outcome(result) == joined(integer_tokens(negative, magnitude as nat)),
    {
        match self.integer_words(negative, magnitude) {
            Ok(tokens) => Ok(join_words(&tokens)),
            Err(e) => Err(e),
        }
    }

    /// The tokens of a finite number read with its digits after the point.
    pub fn float_words(&self, num: &Decimal) -> (result: Result<Vec<&'static str>, Num2Err>)
        requires
            num.wf(),
        ensures
            token_outcome(result) == float_tokens(num@),
    {
        let ghost n = num@.magnitude();
        proof {
            lemma_in_range(n);
        }
        let magnitude = match num.integer_value() {
            Some(value) => value,
            None => {
                return Err(Num2Err::CannotConvert);
            },
        };
        let mut tokens: Vec<&'static str> = Vec::new();
        if magnitude != 0 {
            match self.integer_words(num.negative, magnitude) {
                Ok(integral) => {
                    tokens = integral;
                },
                Err(e) => {
                    return Err(e);
                },
            }
        } else {
            if num.negative {
                tokens.push(MINUS);
            }
            assert(magnitude_tokens(0) =~= Seq::empty()) by {
                reveal_with_fuel(groups_tokens, 2);
            }
            assert(words(tokens@) =~= sign_tokens(num.negative) + magnitude_tokens(0));
        }
        let ghost head = sign_tokens(num.negative) + magnitude_tokens(n);
        assert(words(tokens@) == head);
        if num.fraction.len() > 0 {
            tokens.push(POINT);
            let mut i: usize = 0;
            assert(words(tokens@) =~= head + seq![POINT@] + digit_tokens(num.fraction@.take(0)));
            while i < num.fraction.len()
                invariant
                    i <= num.fraction@.len(),
                    num.wf(),
                    words(tokens@) == head + seq![POINT@] + digit_tokens(
                        num.fraction@.take(i as int),
                    ),
                decreases num.fraction@.len() - i,
            {
                let digit = num.fraction[i];
                let ghost before = words(tokens@);
                assert(num@.fraction[i as int] < 10);
                tokens.push(UNITS[digit as usize]);
                proof {
                    assert(words(tokens@) =~= before + seq![UNITS[digit as int]@]);
                    assert(digit_tokens(num.fraction@.take(i + 1)) =~= digit_tokens(
                        num.fraction@.take(i as int),
                    ) + seq![UNITS[digit as int]@]);
                    assert(words(tokens@) =~= head + seq![POINT@] + digit_tokens(
                        num.fraction@.take(i + 1),
                    ));
                }
                i = i + 1;
            }
            assert(num.fraction@.take(i as int) =~= num.fraction@);
            assert(words(tokens@) =~= head + (seq![POINT@] + digit_tokens(num.fraction@)));
        } else {
            assert(words(tokens@) =~= head + Seq::<Seq<char>>::empty());
        }
        Ok(tokens)
    }

    /// The phrase of a finite number read with its digits after the point.
    pub fn float_to_cardinal(&self, num: &Decimal) -> (result: Result<String, Num2Err>)
        requires
            num.wf(),
        ensures
            outcome(result) == joined(float_tokens(num@)),
    {
        match self.float_words(num) {
            Ok(tokens) => Ok(join_words(&tokens)),
            Err(e) => Err(e),
        }
    }

    /// The cardinal tokens of a finite number.
    pub fn cardinal_words(&self, num: &Decimal) -> (result: Result<Vec<&'static str>, Num2Err>)
        requires
            num.wf(),
        ensures
            token_outcome(result) == cardinal_tokens(num@),
    {
        if num.fraction.len() == 0 {
            proof {
                lemma_in_range(num@.magnitude());
            }
            match num.integer_value() {
                Some(magnitude) => self.integer_words(num.negative, magnitude),
                None => Err(Num2Err::CannotConvert),
            }
        } else {
            self.float_words(num)
        }
    }

    /// The cardinal phrase of a number.
    pub fn cardinal(&self, num: &Number) -> (result: Result<String, Num2Err>)
        requires
            num.wf(),
        ensures
            outcome(result) == cardinal_phrase(num@),
    {
        match num {
            Number::NotANumber => Err(Num2Err::CannotConvert),
            Number::Infinite { negative } => {
                if *negative {
                    Ok(NEGATIVE_INFINITY.to_owned())
                } else {
                    Ok(INFINITY.to_owned())
                }
            },
            Number::Finite(decimal) => {
                match self.cardinal_words(decimal) {
                    Ok(tokens) => Ok(join_words(&tokens)),
                    Err(e) => Err(e),
                }
            },
        }
    }

    /// The cardinal phrase of `num`.
    pub fn to_cardinal(&self, num: BigFloat) -> (result: Result<String, Num2Err>)
        ensures
            outcome(result) == cardinal_phrase(number_of(num)),
    {
        let number = Number::from_bigfloat(&num);
        self.cardinal(&number)
    }

    /// The ordinal tokens of the whole number with the given sign and
    /// magnitude.
    pub fn ordinal_words(&self, negative: bool, magnitude: u128) -> (result: Result<
        Vec<&'static str>,
        Num2Err,
    >)
        ensures
            token_outcome(result) == ordinal_tokens(negative, magnitude as nat),
    {
        let splits = self.split_np(magnitude);
        let ghost gs = groups(magnitude as nat);
        let mut lowest: usize = 0;
        while lowest < splits.len() && splits[lowest] == 0
            invariant
                lowest <= splits.len(),
                group_values(splits@) == gs,
                lowest_populated(gs, 0) == lowest_populated(gs, lowest as nat),
            decreases splits.len() - lowest,
        {
            assert(gs[lowest as int] == splits@[lowest as int] as nat);
            lowest = lowest + 1;
        }
        if lowest >= splits.len() {
            return Err(Num2Err::CannotConvert);
        }
        proof {
            assert(gs[lowest as int] == splits@[lowest as int] as nat);
            assert(lowest_populated(gs, 0) == lowest);
            lemma_groups_bound(magnitude as nat, lowest as int);
        }
        let index: usize = if lowest == 0 {
            splits[0] as usize - 1
        } else if lowest <= ORDINAL_COUNT - PLAIN_ORDINALS {
            PLAIN_ORDINALS + lowest - 1
        } else {
            return Err(Num2Err::CannotConvert);
        };
        let mut tokens = match self.integer_words(negative, magnitude) {
            Ok(tokens) => tokens,
            Err(e) => {
                return Err(e);
            },
        };
        proof {
            lemma_populated_tokens(gs, gs.len(), lowest as int);
        }
        let ghost cardinal = words(tokens@);
        tokens.pop();
        assert(words(tokens@) =~= cardinal.drop_last());
        tokens.push(NEPALI_ORDINALS[index]);
        assert(words(tokens@) =~= cardinal.drop_last().push(NEPALI_ORDINALS[index as int]@));
        Ok(tokens)
    }

    /// The ordinal phrase of a number.
    pub fn ordinal(&self, num: &Number) -> (result: Result<String, Num2Err>)
        requires
            num.wf(),
        ensures
            outcome(result) == ordinal_phrase(num@),
    {
        match num {
            Number::Finite(decimal) => {
                if decimal.fraction.len() != 0 {
                    return Err(Num2Err::FloatingOrdinal);
                }
                proof {
                    lemma_in_range(decimal@.magnitude());
                }
                let tokens = match decimal.integer_value() {
                    Some(magnitude) => self.ordinal_words(decimal.negative, magnitude),
                    None => Err(Num2Err::CannotConvert),
                };
                match tokens {
                    Ok(tokens) => Ok(join_words(&tokens)),
                    Err(e) => Err(e),
                }
            },
            _ => Err(Num2Err::FloatingOrdinal),
        }
    }

    /// The ordinal phrase of `num`.
    pub fn to_ordinal(&self, num: BigFloat) -> (result: Result<String, Num2Err>)
        ensures
            outcome(result) == ordinal_phrase(number_of(num)),
    {
        let number = Number::from_bigfloat(&num);
        self.ordinal(&number)
    }

    /// Nepali writes no ordinal with digits and a suffix: every number is
    /// refused.
    pub fn to_ordinal_num(&self, num: BigFloat) -> (result: Result<String, Num2Err>)
        ensures
            outcome(result) == Err::<Seq<char>, Num2Err>(Num2Err::CannotConvert),
    {
        Err(Num2Err::CannotConvert)
    }

    /// The tokens of the year with the given sign and magnitude.
    pub fn year_words(&self, negative: bool, magnitude: u128) -> (result: Result<
        Vec<&'static str>,
        Num2Err,
    >)
        ensures
            token_outcome(result) == year_tokens(negative, magnitude as nat),
    {
        match self.integer_words(negative, magnitude) {
            Ok(tokens) => {
                let mut tokens = tokens;
                let ghost cardinal = words(tokens@);
                tokens.push(YEAR);
                assert(words(tokens@) =~= cardinal.push(YEAR@));
                Ok(tokens)
            },
            Err(e) => Err(e),
        }
    }

    /// The phrase of a year.
    pub fn year(&self, num: &Number) -> (result: Result<String, Num2Err>)
        requires
            num.wf(),
        ensures
            outcome(result) == year_phrase(num@),
    {
        match num {
            Number::Finite(decimal) => {
                if decimal.fraction.len() != 0 {
                    return Err(Num2Err::FloatingYear);
                }
                proof {
                    lemma_in_range(decimal@.magnitude());
                }
                let tokens = match decimal.integer_value() {
                    Some(magnitude) => self.year_words(decimal.negative, magnitude),
                    None => Err(Num2Err::CannotConvert),
                };
                match tokens {
                    Ok(tokens) => Ok(join_words(&tokens)),
                    Err(e) => Err(e),
                }
            },
            _ => Err(Num2Err::FloatingYear),
        }
    }

    /// The phrase of the year `num`.
    pub fn to_year(&self, num: BigFloat) -> (result: Result<String, Num2Err>)
        ensures
            outcome(result) == year_phrase(number_of(num)),
    {
        let number = Number::from_bigfloat(&num);
        self.year(&number)
    }

    /// The tokens of a finite amount of money.
    pub fn currency_words(&self, num: &Decimal) -> (result: Result<Vec<&'static str>, Num2Err>)
        requires
            num.wf(),
        ensures
            token_outcome(result) == currency_tokens(num@),
    {
        proof {
            lemma_in_range(num@.magnitude());
        }
        let magnitude = match num.integer_value() {
            Some(value) => value,
            None => {
                return Err(Num2Err::CannotConvert);
            },
        };
        let mut major = match self.integer_words(num.negative, magnitude) {
            Ok(tokens) => tokens,
            Err(e) => {
                return Err(e);
            },
        };
        let ghost major_cardinal = words(major@);
        major.push(RUPEE);
        assert(words(major@) =~= major_cardinal.push(RUPEE@));
        let tenths: u128 = if num.fraction.len() >= 1 {
            num.fraction[0] as u128
        } else {
            0
        };
        let hundredths: u128 = if num.fraction.len() >= 2 {
            num.fraction[1] as u128
        } else {
            0
        };
        let paisa: u128 = tenths * 10 + hundredths;
        let mut minor = match self.integer_words(num.negative, paisa) {
            Ok(tokens) => tokens,
            Err(e) => {
                return Err(e);
            },
        };
        let ghost minor_cardinal = words(minor@);
        minor.push(PAISA);
        assert(words(minor@) =~= minor_cardinal.push(PAISA@));
        if paisa == 0 {
            Ok(major)
        } else if magnitude == 0 {
            Ok(minor)
        } else {
            let ghost left = major@;
            let ghost right = minor@;
            major.append(&mut minor);
            assert(words(major@) =~= words(left) + words(right));
            Ok(major)
        }
    }

    /// The phrase of an amount of money. The unit names are those of the
    /// Nepalese rupee whatever `currency` is.
    pub fn currency(&self, num: &Number, currency: Currency) -> (result: Result<String, Num2Err>)
        requires
            num.wf(),
        ensures
            outcome(result) == currency_phrase(num@),
    {
        match num {
            Number::NotANumber => Err(Num2Err::CannotConvert),
            Number::Infinite { negative } => {
                if *negative {
                    Ok(NEGATIVE_INFINITY.to_owned())
                } else {
                    Ok(INFINITY.to_owned())
                }
            },
            Number::Finite(decimal) => {
                match self.currency_words(decimal) {
                    Ok(tokens) => Ok(join_words(&tokens)),
                    Err(e) => Err(e),
                }
            },
        }
    }

    /// The phrase of the amount `num`. The unit names are those of the
    /// Nepalese rupee whatever `currency` is.
    pub fn to_currency(&self, num: BigFloat, currency: Currency) -> (result: Result<
        String,
        Num2Err,
    >)
        ensures
            outcome(result) == currency_phrase(number_of(num)),
    {
        let number = Number::from_bigfloat(&num);
        self.currency(&number, currency)
    }
}

} // verus!
