use num2words::phrase::join_words;
use num2words::{Decimal, Nepali, Num2Err, Number};
use num_bigfloat::BigFloat;

fn finite(negative: bool, integer: &[u8], fraction: &[u8]) -> Number {
    Number::Finite(Decimal { negative, integer: integer.to_vec(), fraction: fraction.to_vec() })
}

#[test]
fn number_from_whole_bigfloat() {
    assert_eq!(Number::from_bigfloat(&BigFloat::from(4232)), finite(false, &[4, 2, 3, 2], &[]));
    assert_eq!(Number::from_bigfloat(&BigFloat::from(-7)), finite(true, &[7], &[]));
    assert_eq!(Number::from_bigfloat(&BigFloat::from(1000)), finite(false, &[1, 0, 0, 0], &[]));
}

#[test]
fn number_from_zero_bigfloat() {
    assert_eq!(Number::from_bigfloat(&BigFloat::new()), finite(false, &[], &[]));
    assert_eq!(Number::from_bigfloat(&BigFloat::from(0)), finite(false, &[], &[]));
    assert_eq!(Number::from_bigfloat(&BigFloat::from(0).inv_sign()), finite(false, &[], &[]));
}

#[test]
fn number_from_fractional_bigfloat() {
    assert_eq!(
        Number::from_bigfloat(&BigFloat::parse("12.345").unwrap()),
        finite(false, &[1, 2], &[3, 4, 5])
    );
    assert_eq!(
        Number::from_bigfloat(&BigFloat::parse("-0.05").unwrap()),
        finite(true, &[], &[0, 5])
    );
    assert_eq!(
        Number::from_bigfloat(&BigFloat::parse("100.010").unwrap()),
        finite(false, &[1, 0, 0], &[0, 1])
    );
}

#[test]
fn number_from_special_bigfloat() {
    assert_eq!(Number::from_bigfloat(&num_bigfloat::INF_POS), Number::Infinite { negative: false });
    assert_eq!(Number::from_bigfloat(&num_bigfloat::INF_NEG), Number::Infinite { negative: true });
    assert_eq!(Number::from_bigfloat(&num_bigfloat::NAN), Number::NotANumber);
}

#[test]
fn number_from_positive_exponent() {
    assert_eq!(
        Number::from_bigfloat(&BigFloat::from_bytes(&[5], 1, 2)),
        finite(false, &[5, 0, 0], &[])
    );
}

#[test]
fn number_from_forty_digits() {
    let third = BigFloat::from(1).div(&BigFloat::from(3));
    match Number::from_bigfloat(&third) {
        Number::Finite(d) => {
            assert!(!d.negative);
            assert!(d.integer.is_empty());
            assert_eq!(d.fraction, vec![3u8; 40]);
        }
        other => panic!("{:?}", other),
    }
}

#[test]
fn number_from_raw_parts_reads_base_ten_thousand() {
    let mut mantissa = [0i16; 10];
    mantissa[0] = 4232;
    assert_eq!(Number::from_raw_parts(&mantissa, 1, 0), finite(false, &[4, 2, 3, 2], &[]));
    assert_eq!(Number::from_raw_parts(&mantissa, 1, -2), finite(false, &[4, 2], &[3, 2]));
    assert_eq!(
        Number::from_raw_parts(&mantissa, -1, -6),
        finite(true, &[], &[0, 0, 4, 2, 3, 2])
    );
    assert_eq!(
        Number::from_raw_parts(&mantissa, 1, 3),
        finite(false, &[4, 2, 3, 2, 0, 0, 0], &[])
    );
    mantissa[1] = 1;
    assert_eq!(Number::from_raw_parts(&mantissa, 1, 0), finite(false, &[1, 4, 2, 3, 2], &[]));
    mantissa[0] = 4230;
    assert_eq!(Number::from_raw_parts(&mantissa, 1, -1), finite(false, &[1, 4, 2, 3], &[]));
}

#[test]
fn number_from_raw_parts_agrees_with_bigfloat() {
    let mut mantissa = [0i16; 10];
    mantissa[9] = 1234;
    mantissa[8] = 5000;
    let x = BigFloat::from_raw_parts(mantissa, 40, 1, -38);
    assert_eq!(x.to_u128(), Some(12));
    assert_eq!(Number::from_bigfloat(&x), finite(false, &[1, 2], &[3, 4, 5]));
    assert_eq!(Number::from_raw_parts(&mantissa, 1, -38), finite(false, &[1, 2], &[3, 4, 5]));
}

#[test]
fn number_from_raw_parts_refuses_what_is_no_digit() {
    let mut mantissa = [0i16; 10];
    mantissa[3] = 10000;
    assert_eq!(Number::from_raw_parts(&mantissa, 1, 0), Number::NotANumber);
    mantissa[3] = -1;
    assert_eq!(Number::from_raw_parts(&mantissa, 1, 0), Number::NotANumber);
    mantissa[3] = 9999;
    assert_ne!(Number::from_raw_parts(&mantissa, 1, 0), Number::NotANumber);
    assert_eq!(
        Nepali::new().to_cardinal(BigFloat::from_raw_parts([-5, 0, 0, 0, 0, 0, 0, 0, 0, 0], 1, 1, 0)),
        Err(Num2Err::CannotConvert)
    );
}

#[test]
fn number_at_the_exponent_limits() {
    let mut mantissa = [9999i16; 10];
    match Number::from_raw_parts(&mantissa, 1, 127) {
        Number::Finite(d) => {
            assert_eq!(d.integer.len(), 167);
            assert!(d.integer[..40].iter().all(|x| *x == 9));
            assert!(d.integer[40..].iter().all(|x| *x == 0));
            assert!(d.fraction.is_empty());
        }
        other => panic!("{:?}", other),
    }
    mantissa = [0i16; 10];
    mantissa[0] = 1;
    match Number::from_raw_parts(&mantissa, 1, -128) {
        Number::Finite(d) => {
            assert!(d.integer.is_empty());
            assert_eq!(d.fraction.len(), 128);
            assert_eq!(d.fraction[127], 1);
        }
        other => panic!("{:?}", other),
    }
}

#[test]
fn integer_value_of_a_decimal() {
    let d = Decimal { negative: false, integer: vec![4, 2, 3, 2], fraction: vec![5] };
    assert_eq!(d.integer_value(), Some(4232));
    assert_eq!(Decimal::zero().integer_value(), Some(0));
}

#[test]
fn integer_value_at_the_limit_of_u128() {
    // 340282366920938463463374607431768211455
    let digits: Vec<u8> = "340282366920938463463374607431768211455".bytes().map(|b| b - b'0').collect();
    let d = Decimal { negative: false, integer: digits.clone(), fraction: vec![] };
    assert_eq!(d.integer_value(), Some(u128::MAX));
    let mut more = digits.clone();
    more[38] = 6;
    let d = Decimal { negative: false, integer: more, fraction: vec![] };
    assert_eq!(d.integer_value(), None);
    let mut longer = digits;
    longer.push(0);
    let d = Decimal { negative: true, integer: longer, fraction: vec![] };
    assert_eq!(d.integer_value(), None);
}

#[test]
fn join_words_puts_one_separator_between() {
    assert_eq!(join_words(&vec![]), "");
    assert_eq!(join_words(&vec!["एक"]), "एक");
    assert_eq!(join_words(&vec!["एक", "सय"]), "एक सय");
    assert_eq!(join_words(&vec!["-", "एक", "सय"]), "- एक सय");
}

#[test]
fn cardinal_of_a_number() {
    let np = Nepali::new();
    assert_eq!(np.cardinal(&finite(false, &[], &[])), Ok(String::from("शून्य")));
    assert_eq!(np.cardinal(&finite(false, &[1, 0, 0], &[])), Ok(String::from("एक सय")));
    assert_eq!(
        np.cardinal(&finite(true, &[1, 2], &[3, 4])),
        Ok(String::from("- बाह्र दशमलव तीन चार"))
    );
    assert_eq!(np.cardinal(&Number::NotANumber), Err(Num2Err::CannotConvert));
    assert_eq!(np.cardinal(&Number::Infinite { negative: false }), Ok(String::from("अनन्त")));
    assert_eq!(np.cardinal(&Number::Infinite { negative: true }), Ok(String::from("-अनन्त")));
}

#[test]
fn cardinal_of_a_number_out_of_range() {
    let np = Nepali::new();
    let limit = finite(false, &[1, 0, 0, 0, 0, 0, 0, 0, 0, 0, 0, 0, 0, 0], &[]);
    assert_eq!(np.cardinal(&limit), Err(Num2Err::CannotConvert));
    let huge = finite(false, &[9u8; 60], &[1]);
    assert_eq!(np.cardinal(&huge), Err(Num2Err::CannotConvert));
}

#[test]
fn float_to_cardinal_of_a_decimal() {
    let np = Nepali::new();
    let d = Decimal { negative: false, integer: vec![1, 2], fraction: vec![3, 4] };
    assert_eq!(np.float_to_cardinal(&d), Ok(String::from("बाह्र दशमलव तीन चार")));
    assert_eq!(np.float_words(&d), Ok(vec!["बाह्र", "दशमलव", "तीन", "चार"]));
    let whole = Decimal { negative: false, integer: vec![1, 2], fraction: vec![] };
    assert_eq!(np.float_to_cardinal(&whole), Ok(String::from("बाह्र")));
    assert_eq!(np.float_to_cardinal(&Decimal::zero()), Ok(String::new()));
}

#[test]
fn ordinal_and_year_of_a_number() {
    let np = Nepali::new();
    assert_eq!(np.ordinal(&finite(false, &[2, 1], &[])), Ok(String::from("एक्काइसौँ")));
    assert_eq!(np.ordinal(&finite(false, &[2, 1], &[5])), Err(Num2Err::FloatingOrdinal));
    assert_eq!(np.ordinal(&Number::NotANumber), Err(Num2Err::FloatingOrdinal));
    assert_eq!(np.year(&finite(false, &[2, 0, 2, 4], &[])), Ok(String::from("दुई हजार चौबीस साल")));
    assert_eq!(np.year(&finite(false, &[2, 0, 2, 4], &[5])), Err(Num2Err::FloatingYear));
    assert_eq!(np.year_words(false, 7), Ok(vec!["सात", "साल"]));
    assert_eq!(np.cardinal_words(&Decimal { negative: false, integer: vec![7], fraction: vec![] }), Ok(vec!["सात"]));
}

#[test]
fn number_sign_is_the_one_bigfloat_takes_for_negative() {
    let mut mantissa = [0i16; 10];
    mantissa[0] = 7;
    assert_eq!(Number::from_raw_parts(&mantissa, -1, 0), finite(true, &[7], &[]));
    assert_eq!(Number::from_raw_parts(&mantissa, 1, 0), finite(false, &[7], &[]));
    for sign in [-2i8, 0, 5] {
        let x = BigFloat::from_raw_parts(mantissa, 1, sign, 0);
        assert!(!x.is_negative());
        assert_eq!(Number::from_bigfloat(&x), finite(false, &[7], &[]));
    }
    let zero = [0i16; 10];
    assert_eq!(Number::from_raw_parts(&zero, -1, 5), finite(false, &[], &[]));
}

#[test]
fn decoding_agrees_with_the_integer_part_of_bigfloat() {
    let samples = [
        "0", "1", "9", "10", "99", "100", "4232", "123456000", "9999999999999", "12.5", "0.999",
        "1234567890123456789012345678", "99999999999999999999999999999999999999.5",
    ];
    for text in samples {
        let x = BigFloat::parse(text).unwrap();
        if let Number::Finite(d) = Number::from_bigfloat(&x) {
            assert_eq!(d.integer_value(), x.to_u128(), "{}", text);
            assert_eq!(d.fraction.is_empty(), x.frac().is_zero(), "{}", text);
            assert!(d.is_well_formed());
        } else {
            panic!("{}", text);
        }
    }
}

#[test]
fn well_formed_decimals() {
    let ok = Decimal { negative: true, integer: vec![1, 0], fraction: vec![0, 5] };
    assert!(ok.is_well_formed());
    assert!(Decimal::zero().is_well_formed());
    assert!(!Decimal { negative: true, integer: vec![], fraction: vec![] }.is_well_formed());
    assert!(!Decimal { negative: false, integer: vec![0, 1], fraction: vec![] }.is_well_formed());
    assert!(!Decimal { negative: false, integer: vec![1], fraction: vec![5, 0] }.is_well_formed());
    assert!(!Decimal { negative: false, integer: vec![10], fraction: vec![] }.is_well_formed());
    assert!(!Decimal { negative: false, integer: vec![], fraction: vec![12] }.is_well_formed());
    assert!(Number::NotANumber.is_well_formed());
    assert!(Number::Infinite { negative: true }.is_well_formed());
    assert!(!Number::Finite(Decimal { negative: false, integer: vec![0], fraction: vec![] })
        .is_well_formed());
}

#[test]
fn no_word_holds_a_separator() {
    use_tables(|word| assert!(!word.is_empty() && !word.contains(' '), "{:?}", word));
}

fn use_tables(check: fn(&str)) {
    for word in num2words::lang::lexicon::UNITS.iter() {
        check(word);
    }
    for word in num2words::lang::lexicon::NEPALI_ORDINALS.iter() {
        check(word);
    }
    for word in num2words::lang::lexicon::NP_SCALE.iter() {
        check(word);
    }
    for word in ["-", "दशमलव", "अनन्त", "-अनन्त", "साल", "रुपैयाँ", "पैसा"] {
        check(word);
    }
}

fn written(d: &Decimal) -> u128 {
    let mut value: u128 = 0;
    for digit in d.integer.iter().chain(d.fraction.iter()) {
        value = value * 10 + *digit as u128;
    }
    value
}

#[test]
fn expansion_writes_mantissa_times_ten_to_the_exponent() {
    let mut mantissa = [0i16; 10];
    mantissa[0] = 4200;
    mantissa[1] = 305;
    let value: u128 = 3054200;
    for exponent in -12i8..=12 {
        let d = match Number::from_raw_parts(&mantissa, 1, exponent) {
            Number::Finite(d) => d,
            other => panic!("{:?}", other),
        };
        let shift = exponent as i32 + d.fraction.len() as i32;
        if shift >= 0 {
            assert_eq!(written(&d), value * 10u128.pow(shift as u32), "{}", exponent);
        } else {
            assert_eq!(written(&d) * 10u128.pow((-shift) as u32), value, "{}", exponent);
        }
    }
}
