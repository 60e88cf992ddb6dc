//! Numbers as decimal expansions: what the word assembly reads of a number,
//! held as plain digits.
use vstd::prelude::*;

verus! {

/// A finite number as a decimal expansion.
#[derive(Clone, Debug, PartialEq, Eq)]
pub struct Decimal {
    /// Whether the number is below zero.
    pub negative: bool,
    /// The digits before the point, the most significant first; none for a
    /// number below one.
    pub integer: Vec<u8>,
    /// The digits after the point, in the order they are read; none for a
    /// whole number.
    pub fraction: Vec<u8>,
}

/// A number: finite, infinite, or not a number at all.
#[derive(Clone, Debug, PartialEq, Eq)]
pub enum Number {
    NotANumber,
    Infinite { negative: bool },
    Finite(Decimal),
}

/// The mathematical content of a [`Decimal`].
pub struct DecimalModel {
    pub negative: bool,
    pub integer: Seq<u8>,
    pub fraction: Seq<u8>,
}

/// The mathematical content of a [`Number`].
pub enum NumberModel {
    NotANumber,
    Infinite { negative: bool },
    Finite(DecimalModel),
}

impl DecimalModel {
    /// Every digit is a decimal digit, the expansion has no leading and no
    /// trailing zero, and zero is not negative.
    pub open spec fn wf(self) -> bool {
        &&& forall|i: int| 0 <= i < self.integer.len() ==> #[trigger] self.integer[i] < 10
        &&& forall|i: int| 0 <= i < self.fraction.len() ==> #[trigger] self.fraction[i] < 10
        &&& self.integer.len() > 0 ==> self.integer[0] != 0
        &&& self.fraction.len() > 0 ==> self.fraction.last() != 0
        &&& self.negative ==> self.integer.len() > 0 || self.fraction.len() > 0
    }

    /// The integer part of the magnitude.
    pub open spec fn magnitude(self) -> nat {
        digits_value(self.integer)
    }

    /// Whether the number has no fractional part.
    pub open spec fn is_whole(self) -> bool {
        self.fraction.len() == 0
    }

    /// The digit of weight ten to the `place`: place 0 is the last digit
    /// before the point, place -1 the first after it. Beyond either end of the
    /// expansion every digit is zero.
    pub open spec fn digit_at(self, place: int) -> nat {
        if 0 <= place < self.integer.len() {
            self.integer[self.integer.len() - 1 - place] as nat
        } else if -self.fraction.len() <= place < 0 {
            self.fraction[-1 - place] as nat
        } else {
            0
        }
    }

    /// The magnitude in hundredths, rounded down: the integer part times one
    /// hundred plus the first two digits after the point.
    pub open spec fn hundredths(self) -> nat {
        self.magnitude() * 100 + self.digit_at(-1) * 10 + self.digit_at(-2)
    }
}

impl NumberModel {
    pub open spec fn wf(self) -> bool {
        match self {
            NumberModel::Finite(d) => d.wf(),
            _ => true,
        }
    }
}

impl View for Decimal {
    type V = DecimalModel;

    open spec fn view(&self) -> DecimalModel {
        DecimalModel {
            negative: self.negative,
            integer: self.integer@,
            fraction: self.fraction@,
        }
    }
}

impl View for Number {
    type V = NumberModel;

    open spec fn view(&self) -> NumberModel {
        match self {
            Number::NotANumber => NumberModel::NotANumber,
            Number::Infinite { negative } => NumberModel::Infinite { negative: *negative },
            Number::Finite(d) => NumberModel::Finite(d@),
        }
    }
}

/// How many decimal digits a mantissa holds.
pub const MANTISSA_DIGITS: usize = 40;

/// What each part of a mantissa is a digit of: a mantissa is ten digits of
/// this base, which is four decimal digits a part.
pub const PART_BASE: i16 = 10000;

/// The number that a digit sequence writes, the most significant digit
/// first.
pub open spec fn digits_value(digits: Seq<u8>) -> nat
    decreases digits.len(),
{
    if digits.len() == 0 {
        0
    } else {
        10 * digits_value(digits.drop_last()) + digits.last() as nat
    }
}

/// Ten to the `k`.
pub open spec fn pow10(k: nat) -> nat
    decreases k,
{
    if k == 0 {
        1
    } else {
        10 * pow10((k - 1) as nat)
    }
}

/// Whether `mantissa` is ten base-10000 parts.
pub open spec fn parts_valid(mantissa: Seq<i16>) -> bool {
    &&& mantissa.len() == 10
    &&& forall|i: int| 0 <= i < 10 ==> 0 <= #[trigger] mantissa[i] < PART_BASE
}

/// The decimal digit of weight ten to the `j` in the mantissa; zero outside
/// its digits.
pub open spec fn mantissa_digit(mantissa: Seq<i16>, j: int) -> nat {
    if 0 <= j < MANTISSA_DIGITS {
        (mantissa[j / 4] as nat / pow10((j % 4) as nat)) % 10
    } else {
        0
    }
}

/// How many of the lowest `k` digits of the mantissa are left when the zeros
/// at the top are dropped.
pub open spec fn significant(mantissa: Seq<i16>, k: nat) -> nat
    decreases k,
{
    if k == 0 {
        0
    } else if mantissa_digit(mantissa, k - 1) != 0 {
        k
    } else {
        significant(mantissa, (k - 1) as nat)
    }
}

/// How many zeros the mantissa has in a row from digit `from` up.
pub open spec fn low_zeros(mantissa: Seq<i16>, from: nat) -> nat
    decreases MANTISSA_DIGITS - from,
{
    if from >= MANTISSA_DIGITS {
        0
    } else if mantissa_digit(mantissa, from as int) != 0 {
        0
    } else {
        1 + low_zeros(mantissa, from + 1)
    }
}

/// The digit of weight ten to the `place` in mantissa times ten to the
/// `exponent`.
pub open spec fn place_digit(mantissa: Seq<i16>, exponent: int, place: int) -> u8 {
    mantissa_digit(mantissa, place - exponent) as u8
}

/// How many digits mantissa times ten to the `exponent` has before the
/// point.
pub open spec fn integer_len(mantissa: Seq<i16>, exponent: int) -> nat {
    let top = significant(mantissa, MANTISSA_DIGITS as nat);
    if top == 0 || top + exponent <= 0 {
        0
    } else {
        (top + exponent) as nat
    }
}

/// How many digits mantissa times ten to the `exponent` has after the point,
/// up to its last digit that is not zero.
pub open spec fn fraction_len(mantissa: Seq<i16>, exponent: int) -> nat {
    let low = low_zeros(mantissa, 0);
    if significant(mantissa, MANTISSA_DIGITS as nat) == 0 || low + exponent >= 0 {
        0
    } else {
        (-(low + exponent)) as nat
    }
}

/// The decimal expansion of the finite value with the given raw parts:
/// mantissa times ten to the `exponent`, negative where `sign` is -1, the
/// one sign that a `BigFloat` takes for negative.
pub open spec fn decimal_of(mantissa: Seq<i16>, sign: i8, exponent: i8) -> DecimalModel {
    let e = exponent as int;
    DecimalModel {
        negative: sign == -1 && significant(mantissa, MANTISSA_DIGITS as nat) != 0,
        integer: Seq::new(
            integer_len(mantissa, e),
            |i: int| place_digit(mantissa, e, integer_len(mantissa, e) - 1 - i),
        ),
        fraction: Seq::new(fraction_len(mantissa, e), |i: int| place_digit(mantissa, e, -1 - i)),
    }
}

/// The number that a finite value's raw parts stand for; parts that are no
/// base-10000 digits stand for no number.
pub open spec fn number_of_parts(mantissa: Seq<i16>, sign: i8, exponent: i8) -> NumberModel {
    if parts_valid(mantissa) {
        NumberModel::Finite(decimal_of(mantissa, sign, exponent))
    } else {
        NumberModel::NotANumber
    }
}

/// The mantissa digit below the top of the significant digits is not zero.
pub proof fn lemma_significant_top(mantissa: Seq<i16>, k: nat)
    ensures
        significant(mantissa, k) <= k,
        significant(mantissa, k) > 0 ==> mantissa_digit(
            mantissa,
            significant(mantissa, k) - 1,
        ) != 0,
    decreases k,
{
    if k > 0 && mantissa_digit(mantissa, k - 1) == 0 {
        lemma_significant_top(mantissa, (k - 1) as nat);
    }
}

/// Above its significant digits the mantissa holds zeros only.
pub proof fn lemma_above_significant(mantissa: Seq<i16>, k: nat, j: int)
    requires
        significant(mantissa, k) <= j < k,
    ensures
        mantissa_digit(mantissa, j) == 0,
    decreases k,
{
    if j < k - 1 {
        lemma_above_significant(mantissa, (k - 1) as nat, j);
    }
}

/// The zeros counted from `from` up are zeros, they end within the mantissa,
/// and the digit after them, where there is one, is not zero.
pub proof fn lemma_low_zeros(mantissa: Seq<i16>, from: nat, j: int)
    requires
        from <= MANTISSA_DIGITS,
    ensures
        from + low_zeros(mantissa, from) <= MANTISSA_DIGITS,
        from + low_zeros(mantissa, from) < MANTISSA_DIGITS ==> mantissa_digit(
            mantissa,
            (from + low_zeros(mantissa, from)) as int,
        ) != 0,
        from <= j < from + low_zeros(mantissa, from) ==> mantissa_digit(mantissa, j) == 0,
    decreases MANTISSA_DIGITS - from,
{
    if from < MANTISSA_DIGITS && mantissa_digit(mantissa, from as int) == 0 {
        lemma_low_zeros(mantissa, from + 1, j);
    }
}

/// The expansion of a finite value is well formed.
pub proof fn lemma_decimal_of_wf(mantissa: Seq<i16>, sign: i8, exponent: i8)
    ensures
        decimal_of(mantissa, sign, exponent).wf(),
{
    let d = decimal_of(mantissa, sign, exponent);
    let e = exponent as int;
    let top = significant(mantissa, MANTISSA_DIGITS as nat);
    let low = low_zeros(mantissa, 0);
    lemma_significant_top(mantissa, MANTISSA_DIGITS as nat);
    lemma_low_zeros(mantissa, 0, 0);
    if top > 0 {
        if low >= top {
            lemma_low_zeros(mantissa, 0, top - 1);
        }
        assert(low < top);
        if d.integer.len() > 0 {
            assert(d.integer[0] == place_digit(mantissa, e, top + e - 1));
        }
        if d.fraction.len() > 0 {
            assert(d.fraction.last() == place_digit(mantissa, e, low + e));
        }
    }
}

/// The expansion of a finite value has, at every decimal place, the digit
/// that the mantissa has `exponent` places below: it writes the mantissa
/// times ten to the `exponent`.
pub proof fn lemma_decimal_of_places(mantissa: Seq<i16>, sign: i8, exponent: i8, place: int)
    ensures
        decimal_of(mantissa, sign, exponent).digit_at(place) == mantissa_digit(
            mantissa,
            place - exponent,
        ),
{
    let d = decimal_of(mantissa, sign, exponent);
    let e = exponent as int;
    let j = place - e;
    let top = significant(mantissa, MANTISSA_DIGITS as nat);
    let low = low_zeros(mantissa, 0);
    lemma_significant_top(mantissa, MANTISSA_DIGITS as nat);
    lemma_low_zeros(mantissa, 0, j);
    if 0 <= j < MANTISSA_DIGITS {
        if j >= top {
            lemma_above_significant(mantissa, MANTISSA_DIGITS as nat, j);
        } else if low >= top {
            lemma_low_zeros(mantissa, 0, top - 1);
        }
    }
}

/// A prefix of a digit sequence writes no more than the whole sequence.
pub proof fn lemma_prefix_value(digits: Seq<u8>, k: int)
    requires
        0 <= k <= digits.len(),
    ensures
        digits_value(digits.take(k)) <= digits_value(digits),
    decreases digits.len() - k,
{
    if k == digits.len() {
        assert(digits.take(k) =~= digits);
    } else {
        lemma_prefix_value(digits, k + 1);
        assert(digits.take(k + 1).drop_last() =~= digits.take(k));
    }
}

fn mantissa_digits(mantissa: &[i16; 10]) -> (digits: Vec<u8>)
    requires
        parts_valid(mantissa@),
    ensures
        digits@.len() == MANTISSA_DIGITS,
        forall|j: int|
            0 <= j < MANTISSA_DIGITS ==> #[trigger] digits@[j] as nat == mantissa_digit(
                mantissa@,
                j,
            ),
{
    let mut digits: Vec<u8> = Vec::new();
    let mut i: usize = 0;
    while i < 10
        invariant
            i <= 10,
            parts_valid(mantissa@),
            digits@.len() == 4 * i,
            forall|j: int|
                0 <= j < 4 * i ==> #[trigger] digits@[j] as nat == mantissa_digit(mantissa@, j),
        decreases 10 - i,
    {
        let part: i16 = mantissa[i];
        assert(0 <= mantissa@[i as int] < PART_BASE);
        let p: u16 = part as u16;
        let ghost before = digits@;
        digits.push((p % 10) as u8);
        digits.push((p / 10 % 10) as u8);
        digits.push((p / 100 % 10) as u8);
        digits.push((p / 1000 % 10) as u8);
        proof {
            reveal_with_fuel(pow10, 4);
            assert(pow10(0) == 1 && pow10(1) == 10 && pow10(2) == 100 && pow10(3) == 1000);
            assert(mantissa@[i as int] as nat == p as nat);
            assert forall|j: int| 0 <= j < 4 * (i + 1) implies #[trigger] digits@[j] as nat
                == mantissa_digit(mantissa@, j) by {
                if j >= 4 * i {
                    assert(j / 4 == i);
                    if j == 4 * i {
                        assert(j % 4 == 0);
                        assert(digits@[j] == (p % 10) as u8);
                        assert(p as nat / 1 == p as nat);
                    } else if j == 4 * i + 1 {
                        assert(j % 4 == 1);
                        assert(digits@[j] == (p / 10 % 10) as u8);
                    } else if j == 4 * i + 2 {
                        assert(j % 4 == 2);
                        assert(digits@[j] == (p / 100 % 10) as u8);
                    } else {
                        assert(j % 4 == 3);
                        assert(digits@[j] == (p / 1000 % 10) as u8);
                    }
                    assert(digits@[j] as nat == mantissa_digit(mantissa@, j));
                } else {
                    assert(digits@[j] == before[j]);
                }
            }
        }
        i = i + 1;
    }
    digits
}

/// Tells whether every entry of `digits` is a decimal digit.
fn all_decimal(digits: &Vec<u8>) -> (ok: bool)
    ensures
        ok == forall|i: int| 0 <= i < digits@.len() ==> #[trigger] digits@[i] < 10,
{
    let mut i: usize = 0;
    while i < digits.len()
        invariant
            i <= digits@.len(),
            forall|k: int| 0 <= k < i ==> #[trigger] digits@[k] < 10,
        decreases digits@.len() - i,
    {
        if digits[i] >= 10 {
            return false;
        }
        i = i + 1;
    }
    true
}

impl Decimal {
    /// Whether this is a well-formed expansion.
    pub open spec fn wf(&self) -> bool {
        self@.wf()
    }

    /// Zero.
    pub fn zero() -> (zero: Decimal)
        ensures
            zero.wf(),
            !zero.negative,
            zero.integer@.len() == 0,
            zero.fraction@.len() == 0,
    {
        Decimal { negative: false, integer: Vec::new(), fraction: Vec::new() }
    }

    /// Tells whether this is a well-formed expansion.
    pub fn is_well_formed(&self) -> (ok: bool)
        ensures
            ok == self.wf(),
    {
        if !all_decimal(&self.integer) || !all_decimal(&self.fraction) {
            return false;
        }
        let integer_len = self.integer.len();
        let fraction_len = self.fraction.len();
        if integer_len > 0 && self.integer[0] == 0 {
            return false;
        }
        if fraction_len > 0 && self.fraction[fraction_len - 1] == 0 {
            return false;
        }
        !self.negative || integer_len > 0 || fraction_len > 0
    }

    /// The integer part of the magnitude, where a `u128` holds it.
    pub fn integer_value(&self) -> (value: Option<u128>)
        ensures
            value == if self@.magnitude() <= u128::MAX {
                Some(self@.magnitude() as u128)
            } else {
                None
            },
    {
        let mut value: u128 = 0;
        let mut i: usize = 0;
        while i < self.integer.len()
            invariant
                i <= self.integer@.len(),
                value as nat == digits_value(self.integer@.take(i as int)),
            decreases self.integer@.len() - i,
        {
            let digit = self.integer[i] as u128;
            proof {
                assert(self.integer@.take(i + 1).drop_last() =~= self.integer@.take(i as int));
                lemma_prefix_value(self.integer@, i + 1);
            }
            if value > (u128::MAX - digit) / 10 {
                return None;
            }
            value = 10 * value + digit;
            i = i + 1;
        }
        proof {
            assert(self.integer@.take(i as int) =~= self.integer@);
        }
        Some(value)
    }
}

impl Number {
    /// Whether this is a well-formed number.
    pub open spec fn wf(&self) -> bool {
        self@.wf()
    }

    /// Tells whether this is a well-formed number.
    pub fn is_well_formed(&self) -> (ok: bool)
        ensures
            ok == self.wf(),
    {
        match self {
            Number::Finite(decimal) => decimal.is_well_formed(),
            _ => true,
        }
    }

    /// The number that the raw parts of a finite `BigFloat` stand for:
    /// `mantissa` holds ten base-10000 parts, the lowest first, and the value
    /// is the mantissa times ten to the `exponent`, negative where `sign` is
    /// -1.
    pub fn from_raw_parts(mantissa: &[i16; 10], sign: i8, exponent: i8) -> (number: Number)
        ensures
            number@ == number_of_parts(mantissa@, sign, exponent),
            number.wf(),
    {
        let mut k: usize = 0;
        while k < 10
            invariant
                k <= 10,
                forall|i: int| 0 <= i < k ==> 0 <= #[trigger] mantissa@[i] < PART_BASE,
            decreases 10 - k,
        {
            if mantissa[k] < 0 || mantissa[k] >= PART_BASE {
                return Number::NotANumber;
            }
            k = k + 1;
        }
        let digits = mantissa_digits(mantissa);
        let ghost m = mantissa@;
        let ghost e = exponent as int;
        let mut top: usize = MANTISSA_DIGITS;
        while top > 0 && digits[top - 1] == 0
            invariant
                top <= MANTISSA_DIGITS,
                digits@.len() == MANTISSA_DIGITS,
                forall|j: int|
                    0 <= j < MANTISSA_DIGITS ==> #[trigger] digits@[j] as nat == mantissa_digit(m, j),
                significant(m, MANTISSA_DIGITS as nat) == significant(m, top as nat),
            decreases top,
        {
            top = top - 1;
        }
        if top == 0 {
            let zero = Decimal::zero();
            assert(zero@.integer =~= decimal_of(m, sign, exponent).integer);
            assert(zero@.fraction =~= decimal_of(m, sign, exponent).fraction);
            return Number::Finite(zero);
        }
        assert(significant(m, MANTISSA_DIGITS as nat) == top);
        let mut low: usize = 0;
        while digits[low] == 0
            invariant
                low < top <= MANTISSA_DIGITS,
                digits@.len() == MANTISSA_DIGITS,
                digits@[top - 1] != 0,
                forall|j: int|
                    0 <= j < MANTISSA_DIGITS ==> #[trigger] digits@[j] as nat == mantissa_digit(m, j),
                low_zeros(m, 0) == low + low_zeros(m, low as nat),
            decreases top - low,
        {
            low = low + 1;
        }
        assert(low_zeros(m, 0) == low);
        let shift: i32 = exponent as i32;
        let integer_len: usize = if top as i32 + shift > 0 {
            (top as i32 + shift) as usize
        } else {
            0
        };
        let fraction_len: usize = if low as i32 + shift < 0 {
            (-(low as i32 + shift)) as usize
        } else {
            0
        };
        assert(integer_len == self::integer_len(m, e));
        assert(fraction_len == self::fraction_len(m, e));
        let mut integer: Vec<u8> = Vec::new();
        let mut i: usize = 0;
        while i < integer_len
            invariant
                i <= integer_len <= 167,
                e == shift,
                -128 <= shift <= 127,
                digits@.len() == MANTISSA_DIGITS,
                forall|j: int|
                    0 <= j < MANTISSA_DIGITS ==> #[trigger] digits@[j] as nat == mantissa_digit(m, j),
                integer@.len() == i,
                forall|t: int|
                    0 <= t < i ==> #[trigger] integer@[t] == place_digit(m, e, integer_len - 1 - t),
            decreases integer_len - i,
        {
            let j: i32 = integer_len as i32 - 1 - i as i32 - shift;
            let digit: u8 = if 0 <= j && j < MANTISSA_DIGITS as i32 {
                digits[j as usize]
            } else {
                0
            };
            integer.push(digit);
            i = i + 1;
        }
        let mut fraction: Vec<u8> = Vec::new();
        let mut i: usize = 0;
        while i < fraction_len
            invariant
                i <= fraction_len <= 128,
                e == shift,
                -128 <= shift <= 127,
                digits@.len() == MANTISSA_DIGITS,
                forall|j: int|
                    0 <= j < MANTISSA_DIGITS ==> #[trigger] digits@[j] as nat == mantissa_digit(m, j),
                fraction@.len() == i,
                forall|t: int| 0 <= t < i ==> #[trigger] fraction@[t] == place_digit(m, e, -1 - t),
            decreases fraction_len - i,
        {
            let j: i32 = -1 - i as i32 - shift;
            let digit: u8 = if 0 <= j && j < MANTISSA_DIGITS as i32 {
                digits[j as usize]
            } else {
                0
            };
            fraction.push(digit);
            i = i + 1;
        }
        let decimal = Decimal { negative: sign == -1, integer, fraction };
        proof {
            let model = decimal_of(m, sign, exponent);
            assert(decimal@.integer =~= model.integer);
            assert(decimal@.fraction =~= model.fraction);
            lemma_decimal_of_wf(m, sign, exponent);
        }
        Number::Finite(decimal)
    }
}

} // verus!
