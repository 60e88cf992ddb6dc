//! That the decimal expansion read off a mantissa and an exponent writes the
//! number they stand for: the mantissa times ten to the exponent.
use vstd::prelude::*;
use crate::number::{
    decimal_of, digits_value, lemma_above_significant, lemma_low_zeros, lemma_significant_top,
    low_zeros, mantissa_digit, parts_valid, pow10, significant, MANTISSA_DIGITS, PART_BASE,
};

verus! {

/// The number that the parts of a mantissa write from part `from` up, that
/// part taken as the units: the parts are digits of base [`PART_BASE`], the
/// lowest first.
pub open spec fn parts_value(mantissa: Seq<i16>, from: nat) -> nat
    decreases 10 - from,
{
    if from >= 10 {
        0
    } else {
        mantissa[from as int] as nat + PART_BASE as nat * parts_value(mantissa, from + 1)
    }
}

/// The number that a mantissa writes.
pub open spec fn mantissa_value(mantissa: Seq<i16>) -> nat {
    parts_value(mantissa, 0)
}

/// The number that the decimal digits of a mantissa write from digit `from`
/// up to digit `to`, the last left out, with digit `from` taken as the units.
pub open spec fn window_value(mantissa: Seq<i16>, from: int, to: int) -> nat
    decreases to - from,
{
    if to <= from {
        0
    } else {
        mantissa_digit(mantissa, from) + 10 * window_value(mantissa, from + 1, to)
    }
}

/// The digits of a window, the highest first.
pub open spec fn window_digits(mantissa: Seq<i16>, from: int, to: int) -> Seq<u8> {
    Seq::new(
        if to <= from {
            0
        } else {
            (to - from) as nat
        },
        |i: int| mantissa_digit(mantissa, to - 1 - i) as u8,
    )
}

/// The digits of a window write the value of the window.
pub proof fn lemma_window_digits(mantissa: Seq<i16>, from: int, to: int)
    ensures
        digits_value(window_digits(mantissa, from, to)) == window_value(mantissa, from, to),
    decreases to - from,
{
    if from < to {
        let all = window_digits(mantissa, from, to);
        lemma_window_digits(mantissa, from + 1, to);
        assert(all.drop_last() =~= window_digits(mantissa, from + 1, to));
        assert(all.last() == mantissa_digit(mantissa, from) as u8);
    }
}

/// Zeros at the low end of a window shift its value: with zeros from `from`
/// up to `middle`, the window is worth the rest times ten to their count.
pub proof fn lemma_window_low_zeros(mantissa: Seq<i16>, from: int, middle: int, to: int)
    requires
        from <= middle <= to,
        forall|j: int| from <= j < middle ==> mantissa_digit(mantissa, j) == 0,
    ensures
        window_value(mantissa, from, to) == pow10((middle - from) as nat) * window_value(
            mantissa,
            middle,
            to,
        ),
    decreases middle - from,
{
    let rest = window_value(mantissa, middle, to);
    if from < middle {
        lemma_window_low_zeros(mantissa, from + 1, middle, to);
        let lower = pow10((middle - from - 1) as nat);
        assert(mantissa_digit(mantissa, from) == 0);
        assert(pow10((middle - from) as nat) == 10 * lower);
        assert(10 * (lower * rest) == (10 * lower) * rest) by (nonlinear_arith);
    } else {
        assert(pow10(0) == 1);
        assert(1 * rest == rest);
    }
}

/// Zeros at the high end of a window add nothing to its value.
pub proof fn lemma_window_high_zeros(mantissa: Seq<i16>, from: int, middle: int, to: int)
    requires
        from <= middle <= to,
        forall|j: int| middle <= j < to ==> mantissa_digit(mantissa, j) == 0,
    ensures
        window_value(mantissa, from, to) == window_value(mantissa, from, middle),
    decreases to - from,
{
    if from < middle {
        lemma_window_high_zeros(mantissa, from + 1, middle, to);
    } else if from < to {
        assert(mantissa_digit(mantissa, from) == 0);
        lemma_window_high_zeros(mantissa, from + 1, from + 1, to);
        assert(window_value(mantissa, from + 1, from + 1) == 0);
    }
}

/// A number below ten thousand is its four decimal digits.
proof fn lemma_four_digits(p: nat)
    requires
        p < 10000,
    ensures
        p == p % 10 + 10 * ((p / 10) % 10) + 100 * ((p / 100) % 10) + 1000 * ((p / 1000) % 10),
{
    assert(p / 10 == 10 * (p / 100) + (p / 10) % 10);
    assert(p / 100 == 10 * (p / 1000) + (p / 100) % 10);
    assert(p / 1000 < 10);
}

/// The four decimal digits of part `part` are the digits of the mantissa
/// from digit `4 * part` up.
proof fn lemma_part_digits(mantissa: Seq<i16>, part: int)
    requires
        parts_valid(mantissa),
        0 <= part < 10,
    ensures
        ({
            let p = mantissa[part] as nat;
            &&& mantissa_digit(mantissa, 4 * part) == p % 10
            &&& mantissa_digit(mantissa, 4 * part + 1) == (p / 10) % 10
            &&& mantissa_digit(mantissa, 4 * part + 2) == (p / 100) % 10
            &&& mantissa_digit(mantissa, 4 * part + 3) == (p / 1000) % 10
        }),
{
    let base = 4 * part;
    reveal_with_fuel(pow10, 4);
    assert(pow10(0) == 1 && pow10(1) == 10 && pow10(2) == 100 && pow10(3) == 1000);
    assert(base / 4 == part && base % 4 == 0);
    assert((base + 1) / 4 == part && (base + 1) % 4 == 1);
    assert((base + 2) / 4 == part && (base + 2) % 4 == 2);
    assert((base + 3) / 4 == part && (base + 3) % 4 == 3);
    let p = mantissa[part] as nat;
    assert(p / 1 == p);
}

/// The decimal digits of a mantissa from the first digit of part `part` up
/// write what its parts write from that part up.
pub proof fn lemma_window_of_parts(mantissa: Seq<i16>, part: nat)
    requires
        parts_valid(mantissa),
        part <= 10,
    ensures
        window_value(mantissa, 4 * part as int, MANTISSA_DIGITS as int) == parts_value(
            mantissa,
            part,
        ),
    decreases 10 - part,
{
    if part < 10 {
        lemma_window_of_parts(mantissa, part + 1);
        let p = mantissa[part as int] as nat;
        let base = 4 * part as int;
        let to = MANTISSA_DIGITS as int;
        assert(0 <= mantissa[part as int] < PART_BASE);
        lemma_part_digits(mantissa, part as int);
        lemma_four_digits(p);
        let d0 = mantissa_digit(mantissa, base);
        let d1 = mantissa_digit(mantissa, base + 1);
        let d2 = mantissa_digit(mantissa, base + 2);
        let d3 = mantissa_digit(mantissa, base + 3);
        let rest = window_value(mantissa, base + 4, to);
        assert(window_value(mantissa, base + 3, to) == d3 + 10 * rest);
        assert(window_value(mantissa, base + 2, to) == d2 + 10 * window_value(
            mantissa,
            base + 3,
            to,
        ));
        assert(window_value(mantissa, base + 1, to) == d1 + 10 * window_value(
            mantissa,
            base + 2,
            to,
        ));
        assert(window_value(mantissa, base, to) == d0 + 10 * window_value(mantissa, base + 1, to));
        assert(4 * (part + 1) == base + 4);
        assert(window_value(mantissa, base, to) == p + 10000 * rest);
    }
}

/// Digits written one after the other: the first sequence counts ten to the
/// length of the second times its own value.
pub proof fn lemma_digits_concat(high: Seq<u8>, low: Seq<u8>)
    ensures
        digits_value(high + low) == digits_value(high) * pow10(low.len()) + digits_value(low),
    decreases low.len(),
{
    if low.len() == 0 {
        assert(high + low =~= high);
        assert(pow10(0) == 1);
        assert(digits_value(high) * 1 == digits_value(high));
    } else {
        let all = high + low;
        lemma_digits_concat(high, low.drop_last());
        assert(all.drop_last() =~= high + low.drop_last());
        let h = digits_value(high);
        let p = pow10((low.len() - 1) as nat);
        assert(pow10(low.len()) == 10 * p);
        assert(10 * (h * p) == h * (10 * p)) by (nonlinear_arith);
    }
}

/// The expansion of a finite value writes the mantissa times ten to the
/// exponent. Read without its point, as one whole number, the expansion is
/// the value times ten to the count of its digits after the point; so with
/// `shift` the exponent plus that count, it is the mantissa times ten to the
/// `shift` where that is not negative, and the mantissa divided by ten to
/// what `shift` lacks where it is.
pub proof fn lemma_decimal_of_value(mantissa: Seq<i16>, sign: i8, exponent: i8)
    requires
        parts_valid(mantissa),
    ensures
        ({
            let d = decimal_of(mantissa, sign, exponent);
            let shift = exponent + d.fraction.len();
            let written = d.magnitude() * pow10(d.fraction.len()) + digits_value(d.fraction);
            if shift >= 0 {
                written == mantissa_value(mantissa) * pow10(shift as nat)
            } else {
                written * pow10((-shift) as nat) == mantissa_value(mantissa)
            }
        }),
{
    let d = decimal_of(mantissa, sign, exponent);
    let e = exponent as int;
    let shift = e + d.fraction.len();
    let digits = MANTISSA_DIGITS as int;
    let top = significant(mantissa, MANTISSA_DIGITS as nat) as int;
    let low = low_zeros(mantissa, 0) as int;
    let from = -shift;
    let to = d.integer.len() - e;
    let all = d.integer + d.fraction;
    lemma_digits_concat(d.integer, d.fraction);
    lemma_window_of_parts(mantissa, 0);
    lemma_significant_top(mantissa, MANTISSA_DIGITS as nat);
    lemma_low_zeros(mantissa, 0, 0);
    if top > 0 && low >= top {
        lemma_low_zeros(mantissa, 0, top - 1);
    }
    assert(from <= to);
    assert(all =~= window_digits(mantissa, from, to));
    lemma_window_digits(mantissa, from, to);
    assert forall|j: int| top <= j implies mantissa_digit(mantissa, j) == 0 by {
        if j < digits {
            lemma_above_significant(mantissa, MANTISSA_DIGITS as nat, j);
        }
    }
    assert forall|j: int| j < low implies mantissa_digit(mantissa, j) == 0 by {
        lemma_low_zeros(mantissa, 0, j);
    }
    let value = window_value(mantissa, 0, digits);
    let written = window_value(mantissa, from, to);
    assert(value == mantissa_value(mantissa));
    assert(written == d.magnitude() * pow10(d.fraction.len()) + digits_value(d.fraction));
    if top == 0 {
        lemma_window_high_zeros(mantissa, 0, 0, digits);
        assert(value == 0);
        assert(all.len() == 0);
        assert(written == 0);
        if shift >= 0 {
            assert(0 * pow10(shift as nat) == 0);
        } else {
            assert(0 * pow10((-shift) as nat) == 0);
        }
    } else if from >= 0 {
        assert(from <= low < top <= digits);
        assert(to >= top);
        lemma_window_low_zeros(mantissa, 0, from, digits);
        if to <= digits {
            lemma_window_high_zeros(mantissa, from, to, digits);
        } else {
            lemma_window_high_zeros(mantissa, from, digits, to);
        }
        let power = pow10(from as nat);
        assert(value == power * written);
        assert(power * written == written * power) by (nonlinear_arith);
        if shift == 0 {
            assert(pow10(0) == 1);
            assert(value * 1 == value);
        }
    } else {
        assert(to == top);
        lemma_window_low_zeros(mantissa, from, 0, to);
        lemma_window_high_zeros(mantissa, 0, to, digits);
        let power = pow10((0 - from) as nat);
        assert(written == power * value);
        assert(power * value == value * power) by (nonlinear_arith);
    }
}

} // verus!
