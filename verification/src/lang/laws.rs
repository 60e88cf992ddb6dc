//! What holds of the Nepali phrases, whatever the number.
use vstd::prelude::*;
use crate::error::Num2Err;
use crate::lang::grouping::{
    groups, in_range, lemma_groups_bound, lemma_in_range, lemma_pairs_top, lowest_populated,
    pairs, LIMIT,
};
use crate::lang::lexicon::{
    ordinal_word, scale_word, unit_word, INFINITY, MAX_POSITION, MINUS, NEGATIVE_INFINITY,
    ORDINAL_COUNT, PAISA, PLAIN_ORDINALS, RUPEE, SEPARATOR, YEAR,
};
use crate::lang::spelling::{
    lemma_fixed_spelling, lemma_ordinal_spelling, lemma_scale_spelling, lemma_unit_spelling,
    ordinal_ending, scale_first, scale_last, scale_spelling, spelled, unit_spelling,
};
use crate::lang::wording::{
    cardinal_phrase, cardinal_tokens, currency_phrase, currency_tokens, fraction_tokens,
    group_tokens, groups_tokens, integer_tokens, lemma_populated_tokens, magnitude_tokens,
    minor_units, ordinal_index, ordinal_phrase, ordinal_tokens, sign_tokens, with_suffix,
    year_phrase,
};
use crate::number::{digits_value, DecimalModel, NumberModel};
use crate::phrase::{join, joined, lemma_join_concat, lemma_join_first, lemma_join_push};

verus! {

/// Whether `phrase` ends with the token `token`: it is the token alone, or
/// something, a separator and the token.
pub open spec fn ends_with_token(phrase: Seq<char>, token: Seq<char>) -> bool {
    phrase == token || exists|front: Seq<char>| phrase == front + SEPARATOR@ + token
}

/// The decimal with the magnitude of `d` and a negative sign.
pub open spec fn negated(d: DecimalModel) -> DecimalModel {
    DecimalModel { negative: true, integer: d.integer, fraction: d.fraction }
}

/// The integer part of `d`: `d` without its digits after the point.
pub open spec fn integer_part(d: DecimalModel) -> DecimalModel {
    DecimalModel { negative: d.negative, integer: d.integer, fraction: Seq::empty() }
}

/// Whether `d` is zero.
pub open spec fn is_zero(d: DecimalModel) -> bool {
    d.integer.len() == 0 && d.fraction.len() == 0
}

/// Whether `word` is spelled as a word of a cardinal phrase of a whole
/// number: the sign, a unit word or a scale word.
pub open spec fn cardinal_spelling(word: Seq<char>) -> bool {
    word == MINUS@ || unit_spelling(word) || scale_spelling(word)
}

/// Whether the lowest `k` groups of `gs` can be worded: each is below one
/// hundred, and those that are not zero stand at a position with a name.
pub open spec fn wordable(gs: Seq<nat>, k: nat) -> bool {
    &&& k <= gs.len()
    &&& forall|i: int| 0 <= i < k ==> #[trigger] gs[i] < 100
    &&& forall|i: int| 0 <= i < k && #[trigger] gs[i] != 0 ==> i <= MAX_POSITION
}

/// The groups of a magnitude in range can be worded.
pub proof fn lemma_groups_wordable(n: nat)
    requires
        in_range(n),
    ensures
        wordable(groups(n), groups(n).len()),
{
    let gs = groups(n);
    assert forall|i: int| 0 <= i < gs.len() implies #[trigger] gs[i] < 100 by {
        lemma_groups_bound(n, i);
    }
}

/// A magnitude that is not zero has a group that is not zero.
pub proof fn lemma_populated(n: nat)
    requires
        n > 0,
    ensures
        lowest_populated(groups(n), 0) < groups(n).len(),
        groups(n)[lowest_populated(groups(n), 0) as int] != 0,
        forall|i: int| 0 <= i < lowest_populated(groups(n), 0) ==> groups(n)[i] == 0,
        magnitude_tokens(n).len() > 0,
{
    let gs = groups(n);
    let witness: int = if n / 1000 > 0 {
        gs.len() - 1
    } else if gs[1] != 0 {
        1
    } else {
        0
    };
    assert(gs[witness] != 0) by {
        if n / 1000 > 0 {
            lemma_pairs_top(n / 1000);
            assert(gs[witness] == pairs(n / 1000).last());
        }
    }
    lemma_lowest_populated(gs, 0, witness);
    lemma_populated_tokens(gs, gs.len(), witness);
}

/// The lowest non-zero group, where there is one, is not zero.
pub proof fn lemma_lowest_is_populated(gs: Seq<nat>, from: nat)
    requires
        from <= gs.len(),
    ensures
        from <= lowest_populated(gs, from) <= gs.len(),
        lowest_populated(gs, from) < gs.len() ==> gs[lowest_populated(gs, from) as int] != 0,
    decreases gs.len() - from,
{
    if from < gs.len() && gs[from as int] == 0 {
        lemma_lowest_is_populated(gs, from + 1);
    }
}

/// Where a group from `from` up is not zero, the lowest such group is found
/// at or below it, is not zero, and has only zeros between `from` and itself.
pub proof fn lemma_lowest_populated(gs: Seq<nat>, from: nat, witness: int)
    requires
        from <= witness < gs.len(),
        gs[witness] != 0,
    ensures
        from <= lowest_populated(gs, from) <= witness,
        gs[lowest_populated(gs, from) as int] != 0,
        forall|i: int| from <= i < lowest_populated(gs, from) ==> gs[i] == 0,
    decreases gs.len() - from,
{
    if gs[from as int] == 0 {
        lemma_lowest_populated(gs, from + 1, witness);
    }
}

/// Every token of the lowest `k` groups is a unit word or a scale word, and
/// is spelled so.
proof fn lemma_groups_tokens_spelling(gs: Seq<nat>, k: nat, at: int)
    requires
        wordable(gs, k),
        0 <= at < groups_tokens(gs, k).len(),
    ensures
        unit_spelling(groups_tokens(gs, k)[at]) || scale_spelling(groups_tokens(gs, k)[at]),
    decreases k,
{
    if k > 0 {
        let head = group_tokens(gs[k - 1], (k - 1) as nat);
        if at < head.len() {
            lemma_unit_spelling(gs[k - 1] as int);
            if k - 1 > 0 {
                lemma_scale_spelling(k - 1);
            }
        } else {
            lemma_groups_tokens_spelling(gs, (k - 1) as nat, at - head.len());
        }
    }
}

/// Every token of the cardinal of a whole number is the sign, a unit word or
/// a scale word.
pub proof fn lemma_integer_tokens_spelling(negative: bool, n: nat, at: int)
    requires
        integer_tokens(negative, n) is Ok,
        0 <= at < integer_tokens(negative, n)->Ok_0.len(),
    ensures
        cardinal_spelling(integer_tokens(negative, n)->Ok_0[at]),
{
    if n == 0 {
        lemma_unit_spelling(0);
    } else {
        lemma_groups_wordable(n);
        let sign = sign_tokens(negative);
        if at >= sign.len() {
            lemma_groups_tokens_spelling(groups(n), groups(n).len(), at - sign.len());
        }
    }
}

/// Among the tokens of the lowest `k` groups, the scale word of a position
/// occurs exactly where the group at that position is not zero.
proof fn lemma_scale_word_occurs(gs: Seq<nat>, k: nat, position: int)
    requires
        wordable(gs, k),
        1 <= position <= MAX_POSITION,
    ensures
        groups_tokens(gs, k).contains(scale_word(position)) <==> position < k && gs[position]
            != 0,
    decreases k,
{
    let word = scale_word(position);
    lemma_scale_spelling(position);
    if k > 0 {
        let at = (k - 1) as nat;
        let head = group_tokens(gs[k - 1], at);
        let rest = groups_tokens(gs, at);
        let all = groups_tokens(gs, k);
        lemma_scale_word_occurs(gs, at, position);
        lemma_unit_spelling(gs[k - 1] as int);
        if at > 0 && gs[k - 1] != 0 {
            lemma_scale_spelling(at as int);
        }
        let in_head = at == position && gs[k - 1] != 0;
        assert(head.contains(word) <==> in_head) by {
            if in_head {
                assert(head[1] == word);
            }
            if head.contains(word) {
                let i = choose|i: int| 0 <= i < head.len() && head[i] == word;
                if i == 0 {
                    assert(unit_spelling(head[0]));
                    assert(false);
                }
            }
        }
        assert(all.contains(word) <==> head.contains(word) || rest.contains(word)) by {
            if head.contains(word) {
                let i = choose|i: int| 0 <= i < head.len() && head[i] == word;
                assert(all[i] == word);
            }
            if rest.contains(word) {
                let i = choose|i: int| 0 <= i < rest.len() && rest[i] == word;
                assert(all[head.len() + i] == word);
            }
            if all.contains(word) {
                let i = choose|i: int| 0 <= i < all.len() && all[i] == word;
                if i < head.len() {
                    assert(head[i] == word);
                } else {
                    assert(rest[i - head.len()] == word);
                }
            }
        }
    }
}

/// In the cardinal of a whole number in range, the scale word of a position
/// occurs exactly where the group at that position is not zero: a zero
/// group brings no scale word, and every other group brings its own.
pub proof fn lemma_scale_words_of_populated_groups(negative: bool, n: nat, position: int)
    requires
        in_range(n),
        1 <= position <= MAX_POSITION,
    ensures
        integer_tokens(negative, n) is Ok,
        integer_tokens(negative, n)->Ok_0.contains(scale_word(position)) <==> position < groups(
            n,
        ).len() && groups(n)[position] != 0,
{
    let word = scale_word(position);
    let tokens = integer_tokens(negative, n)->Ok_0;
    lemma_scale_spelling(position);
    if n == 0 {
        lemma_unit_spelling(0);
        if tokens.contains(word) {
            let i = choose|i: int| 0 <= i < tokens.len() && tokens[i] == word;
            assert(unit_spelling(tokens[i]));
        }
    } else {
        let sign = sign_tokens(negative);
        let magnitude = magnitude_tokens(n);
        lemma_groups_wordable(n);
        lemma_scale_word_occurs(groups(n), groups(n).len(), position);
        lemma_fixed_spelling();
        if magnitude.contains(word) {
            let i = choose|i: int| 0 <= i < magnitude.len() && magnitude[i] == word;
            assert(tokens[sign.len() + i] == word);
        }
        if tokens.contains(word) {
            let i = choose|i: int| 0 <= i < tokens.len() && tokens[i] == word;
            if i < sign.len() {
                assert(tokens[i] == MINUS@);
                assert(word[0] == '-');
            } else {
                assert(magnitude[i - sign.len()] == word);
            }
        }
    }
}

/// A group that is zero adds nothing to the tokens: neither a unit word nor
/// a scale word.
pub proof fn lemma_zero_group_is_silent(n: nat, position: int)
    requires
        0 <= position < groups(n).len(),
        groups(n)[position] == 0,
    ensures
        groups_tokens(groups(n), (position + 1) as nat) == groups_tokens(
            groups(n),
            position as nat,
        ),
{
    assert(group_tokens(0, position as nat) + groups_tokens(groups(n), position as nat)
        =~= groups_tokens(groups(n), position as nat));
}

/// The cardinal of zero is the zero word and nothing else.
pub proof fn lemma_cardinal_of_zero(d: DecimalModel)
    requires
        is_zero(d),
    ensures
        cardinal_phrase(NumberModel::Finite(d)) == Ok::<Seq<char>, Num2Err>(unit_word(0)),
{
}

/// A digit sequence that does not start with zero writes a number above
/// zero.
pub proof fn lemma_digits_positive(digits: Seq<u8>)
    requires
        digits.len() > 0,
        digits[0] != 0,
    ensures
        digits_value(digits) > 0,
    decreases digits.len(),
{
    if digits.len() > 1 {
        lemma_digits_positive(digits.drop_last());
    }
}

/// The cardinal of a negative number is the sign token, a separator, and
/// the cardinal of the number without its sign; where the one is refused, so
/// is the other.
pub proof fn lemma_cardinal_of_negative(d: DecimalModel)
    requires
        d.wf(),
        !d.negative,
        !is_zero(d),
    ensures
        cardinal_phrase(NumberModel::Finite(negated(d))) == match cardinal_phrase(
            NumberModel::Finite(d),
        ) {
            Ok(phrase) => Ok(MINUS@ + SEPARATOR@ + phrase),
            Err(e) => Err(e),
        },
{
    let n = d.magnitude();
    if in_range(n) {
        let positive = cardinal_tokens(d)->Ok_0;
        let negative = cardinal_tokens(negated(d))->Ok_0;
        if d.is_whole() {
            lemma_digits_positive(d.integer);
            lemma_populated(n);
        } else {
            assert(fraction_tokens(d.fraction).len() > 0);
        }
        assert(negative =~= seq![MINUS@] + positive);
        lemma_join_first(MINUS@, positive);
    } else {
        if d.is_whole() {
            lemma_digits_positive(d.integer);
        }
    }
}

/// The cardinal of an infinity is its fixed phrase, and that of negative
/// infinity is the sign followed at once by that of positive infinity.
pub proof fn lemma_cardinal_of_infinity()
    ensures
        cardinal_phrase(NumberModel::Infinite { negative: false }) == Ok::<Seq<char>, Num2Err>(
            INFINITY@,
        ),
        cardinal_phrase(NumberModel::Infinite { negative: true }) == Ok::<Seq<char>, Num2Err>(
            NEGATIVE_INFINITY@,
        ),
        NEGATIVE_INFINITY@ == MINUS@ + INFINITY@,
{
    reveal_strlit("-");
    reveal_strlit("अनन्त");
    reveal_strlit("-अनन्त");
    assert(NEGATIVE_INFINITY@ =~= MINUS@ + INFINITY@);
}

/// Whether the whole number of magnitude `n` has an ordinal: it is not
/// zero, it has a cardinal, and its lowest non-zero group is the lowest group
/// or one whose scale step has a round ordinal.
pub open spec fn has_ordinal(n: nat) -> bool {
    &&& 0 < n < LIMIT
    &&& lowest_populated(groups(n), 0) <= ORDINAL_COUNT - PLAIN_ORDINALS
}

/// A whole number has ordinal tokens exactly where it has an ordinal. Their
/// last token is then a word of the ordinal table, and no unit word.
pub proof fn lemma_ordinal_last_token(negative: bool, n: nat)
    ensures
        ordinal_tokens(negative, n) is Ok <==> has_ordinal(n),
        has_ordinal(n) ==> ({
            let tokens = ordinal_tokens(negative, n)->Ok_0;
            &&& tokens.len() > 0
            &&& ordinal_index(n) is Some
            &&& 0 <= ordinal_index(n)->Some_0 < ORDINAL_COUNT
            &&& tokens.last() == ordinal_word(ordinal_index(n)->Some_0)
            &&& forall|value: int| 0 <= value < 100 ==> tokens.last() != unit_word(value)
        }),
{
    let gs = groups(n);
    lemma_in_range(n);
    lemma_lowest_is_populated(gs, 0);
    if n > 0 {
        lemma_populated(n);
    }
    if has_ordinal(n) {
        let index = ordinal_index(n)->Some_0;
        let lowest = lowest_populated(gs, 0) as int;
        lemma_groups_bound(n, lowest);
        lemma_ordinal_spelling(index);
        assert forall|value: int| 0 <= value < 100 implies ordinal_word(index) != unit_word(
            value,
        ) by {
            lemma_unit_spelling(value);
        }
    }
}

/// A number has an ordinal phrase exactly where it is whole and has an
/// ordinal. The phrase then ends with a word of the ordinal table.
pub proof fn lemma_ordinal_phrase_ending(num: NumberModel)
    ensures
        ordinal_phrase(num) is Ok <==> num is Finite && num->Finite_0.is_whole() && has_ordinal(
            num->Finite_0.magnitude(),
        ),
        ordinal_phrase(num) is Ok ==> exists|index: int|
            0 <= index < ORDINAL_COUNT && ends_with_token(
                ordinal_phrase(num)->Ok_0,
                #[trigger] ordinal_word(index),
            ),
{
    if num is Finite && num->Finite_0.is_whole() {
        let d = num->Finite_0;
        let n = d.magnitude();
        lemma_ordinal_last_token(d.negative, n);
        if has_ordinal(n) {
            let index = ordinal_index(n)->Some_0;
            let front = integer_tokens(d.negative, n)->Ok_0.drop_last();
            if front.len() > 0 {
                lemma_join_push(front, ordinal_word(index));
            } else {
                assert(front.push(ordinal_word(index))[0] == ordinal_word(index));
            }
            assert(ends_with_token(ordinal_phrase(num)->Ok_0, ordinal_word(index)));
        }
    }
}

/// Only a whole number has an ordinal: a number with digits after the
/// point, an infinity and what is no number are refused as floating.
pub proof fn lemma_ordinal_of_fraction(num: NumberModel)
    requires
        !(num is Finite && num->Finite_0.is_whole()),
    ensures
        ordinal_phrase(num) == Err::<Seq<char>, Num2Err>(Num2Err::FloatingOrdinal),
{
}

/// Only a whole number is a year: a number with digits after the point, an
/// infinity and what is no number are refused as floating.
pub proof fn lemma_year_of_fraction(num: NumberModel)
    requires
        !(num is Finite && num->Finite_0.is_whole()),
    ensures
        year_phrase(num) == Err::<Seq<char>, Num2Err>(Num2Err::FloatingYear),
{
}

/// The phrase of a whole year is its cardinal phrase, a separator and the
/// year token; it is refused exactly where the cardinal is.
pub proof fn lemma_year_of_whole(d: DecimalModel)
    requires
        d.is_whole(),
    ensures
        year_phrase(NumberModel::Finite(d)) == match cardinal_phrase(NumberModel::Finite(d)) {
            Ok(cardinal) => Ok(cardinal + SEPARATOR@ + YEAR@),
            Err(e) => Err(e),
        },
        year_phrase(NumberModel::Finite(d)) is Ok ==> ends_with_token(
            year_phrase(NumberModel::Finite(d))->Ok_0,
            YEAR@,
        ),
        year_phrase(NumberModel::Finite(d)) is Ok <==> in_range(d.magnitude()),
{
    let n = d.magnitude();
    if integer_tokens(d.negative, n) is Ok {
        let tokens = integer_tokens(d.negative, n)->Ok_0;
        if n > 0 {
            lemma_populated(n);
        }
        lemma_join_push(tokens, YEAR@);
    }
    if n == 0 {
        assert(groups(0) =~= seq![0nat]);
        assert(in_range(0));
    }
}

/// The phrase of no money at all is the zero word and the major unit's
/// name.
pub proof fn lemma_currency_of_zero(d: DecimalModel)
    requires
        is_zero(d),
    ensures
        currency_phrase(NumberModel::Finite(d)) == Ok::<Seq<char>, Num2Err>(
            unit_word(0) + SEPARATOR@ + RUPEE@,
        ),
{
    let major = seq![unit_word(0)];
    lemma_join_push(major, RUPEE@);
    assert(join(major) == unit_word(0));
}

/// The count of minor units is the amount in hundredths, rounded down,
/// modulo one hundred. Where it is zero, the phrase is the major phrase alone
/// and holds the minor unit's name nowhere; where it is not, the phrase ends
/// with the minor unit's name.
pub proof fn lemma_minor_units(d: DecimalModel)
    requires
        d.wf(),
    ensures
        minor_units(d) == d.hundredths() % 100,
        minor_units(d) == 0 ==> currency_tokens(d) == with_suffix(
            integer_tokens(d.negative, d.magnitude()),
            RUPEE@,
        ),
        minor_units(d) == 0 && currency_tokens(d) is Ok ==> !currency_tokens(d)->Ok_0.contains(
            PAISA@,
        ),
        minor_units(d) != 0 && currency_tokens(d) is Ok ==> currency_tokens(d)->Ok_0.last()
            == PAISA@,
{
    let n = d.magnitude();
    let minor = minor_units(d);
    assert(minor < 100) by {
        if d.fraction.len() >= 1 {
            assert(d.fraction[0] < 10);
        }
        if d.fraction.len() >= 2 {
            assert(d.fraction[1] < 10);
        }
    }
    assert(d.hundredths() == n * 100 + minor);
    assert((n * 100 + minor) % 100 == minor) by (nonlinear_arith)
        requires
            minor < 100,
    ;
    lemma_minor_in_range(minor);
    if currency_tokens(d) is Ok {
        let tokens = currency_tokens(d)->Ok_0;
        let cardinal = integer_tokens(d.negative, n)->Ok_0;
        if minor == 0 {
            lemma_fixed_spelling();
            assert(tokens == cardinal.push(RUPEE@));
            assert forall|i: int| 0 <= i < tokens.len() implies tokens[i] != PAISA@ by {
                if i < cardinal.len() {
                    lemma_integer_tokens_spelling(d.negative, n, i);
                    if scale_spelling(tokens[i]) {
                        lemma_scale_endings(tokens[i]);
                    }
                }
            }
        }
    }
}

/// The phrase of an amount with both parts is the phrase of its integer
/// part as an amount, a separator, the cardinal of its count of minor units,
/// a separator and the minor unit's name.
pub proof fn lemma_currency_of_both(d: DecimalModel)
    requires
        d.wf(),
        d.magnitude() != 0,
        minor_units(d) != 0,
    ensures
        currency_phrase(NumberModel::Finite(d)) == match (
            currency_phrase(NumberModel::Finite(integer_part(d))),
            joined(integer_tokens(d.negative, minor_units(d))),
        ) {
            (Ok(major), Ok(minor)) => Ok(major + SEPARATOR@ + minor + SEPARATOR@ + PAISA@),
            (Err(e), _) => Err(e),
            (_, Err(e)) => Err(e),
        },
{
    let n = d.magnitude();
    let minor = minor_units(d);
    lemma_minor_units(d);
    assert(minor < 100);
    lemma_minor_in_range(minor);
    let whole = integer_part(d);
    assert(minor_units(whole) == 0);
    assert(currency_tokens(whole) == with_suffix(integer_tokens(d.negative, n), RUPEE@));
    if integer_tokens(d.negative, n) is Ok {
        let major = integer_tokens(d.negative, n)->Ok_0.push(RUPEE@);
        let cardinal = integer_tokens(d.negative, minor)->Ok_0;
        lemma_populated(minor);
        lemma_join_push(cardinal, PAISA@);
        lemma_join_concat(major, cardinal.push(PAISA@));
        assert(join(major) + SEPARATOR@ + (join(cardinal) + SEPARATOR@ + PAISA@) =~= join(major)
            + SEPARATOR@ + join(cardinal) + SEPARATOR@ + PAISA@);
    }
}

/// A count of minor units has a cardinal.
proof fn lemma_minor_in_range(minor: nat)
    requires
        minor < 100,
    ensures
        integer_tokens(true, minor) is Ok,
        integer_tokens(false, minor) is Ok,
{
    if minor > 0 {
        assert(pairs(0).len() == 0);
        assert(groups(minor).len() == 2);
    }
}

/// No word spelled as a scale word ends in the vowel sign AA or begins with
/// the sign.
proof fn lemma_scale_endings(word: Seq<char>)
    requires
        scale_spelling(word),
    ensures
        word.len() > 0,
        word.last() != '\u{93e}',
        word[0] != '-',
        !ordinal_ending(word),
{
    let position = choose|position: int|
        1 <= position <= MAX_POSITION && #[trigger] spelled(
            word,
            scale_first(position),
            scale_last(position),
        );
    assert(spelled(word, scale_first(position), scale_last(position)));
}

} // verus!
