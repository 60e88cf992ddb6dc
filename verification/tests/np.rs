use num2words::lang::lexicon::{NEPALI_ORDINALS, NP_SCALE, UNITS};
use num2words::{Nepali, Num2Err};
use num_bigfloat::BigFloat;

#[test]
fn nepali_test() {
    let a = Nepali::new();
    let res = a.to_ordinal(123456000.into()).unwrap();
    println!("split: {}", res);
    assert_eq!(res, "बाह्र करोड चौंतीस लाख छ्प्पन्न हजारौँ");
    let words = a.to_cardinal(BigFloat::from(4232)).unwrap();
    println!("Final: {}", words);
    assert_eq!(words, "चार हजार दुई सय बत्तीस");
}

#[test]
fn split_of_zero_is_one_group() {
    assert_eq!(Nepali::new().split_np(0), vec![0]);
}

#[test]
fn split_below_hundred_has_empty_hundreds() {
    assert_eq!(Nepali::new().split_np(5), vec![5, 0]);
    assert_eq!(Nepali::new().split_np(99), vec![99, 0]);
}

#[test]
fn split_takes_two_one_then_two_digits() {
    let np = Nepali::new();
    assert_eq!(np.split_np(100), vec![0, 1]);
    assert_eq!(np.split_np(999), vec![99, 9]);
    assert_eq!(np.split_np(1000), vec![0, 0, 1]);
    assert_eq!(np.split_np(1234567), vec![67, 5, 34, 12]);
    assert_eq!(np.split_np(123456000), vec![0, 0, 56, 34, 12]);
    assert_eq!(np.split_np(10_000_000_000_000), vec![0, 0, 0, 0, 0, 0, 0, 1]);
}

#[test]
fn split_of_largest_magnitude() {
    let groups = Nepali::new().split_np(u128::MAX);
    // 340282366920938463463374607431768211455
    assert_eq!(
        groups,
        vec![55, 4, 11, 82, 76, 31, 74, 60, 74, 33, 46, 63, 84, 93, 20, 69, 36, 82, 2, 34]
    );
}

#[test]
fn groups_recompose_the_magnitude() {
    let np = Nepali::new();
    for n in [0u128, 7, 100, 4232, 1234567, 99_99_99_99_99_9_99, u128::MAX] {
        let groups = np.split_np(n);
        let mut total: u128 = 0;
        let mut weight: u128 = 1;
        for (position, group) in groups.iter().enumerate() {
            total += (*group as u128) * weight;
            weight = weight.saturating_mul(if position == 0 { 100 } else if position == 1 { 10 } else { 100 });
        }
        assert_eq!(total, n);
    }
}

#[test]
fn int_to_cardinal_of_zero_is_the_zero_word() {
    let np = Nepali::new();
    assert_eq!(np.int_to_cardinal(false, 0), Ok(String::from("शून्य")));
    assert_eq!(np.int_to_cardinal(true, 0), Ok(String::from("शून्य")));
}

#[test]
fn int_to_cardinal_names_groups_atomically() {
    let np = Nepali::new();
    assert_eq!(np.int_to_cardinal(false, 1), Ok(String::from("एक")));
    assert_eq!(np.int_to_cardinal(false, 10), Ok(String::from("दश")));
    assert_eq!(np.int_to_cardinal(false, 42), Ok(String::from("बयालीस")));
    assert_eq!(np.int_to_cardinal(false, 99), Ok(String::from("उनन्सय")));
}

#[test]
fn int_to_cardinal_skips_zero_groups() {
    let np = Nepali::new();
    assert_eq!(np.int_to_cardinal(false, 100), Ok(String::from("एक सय")));
    assert_eq!(np.int_to_cardinal(false, 1000), Ok(String::from("एक हजार")));
    assert_eq!(np.int_to_cardinal(false, 1005), Ok(String::from("एक हजार पाँच")));
    assert_eq!(np.int_to_cardinal(false, 100000), Ok(String::from("एक लाख")));
    assert_eq!(np.int_to_cardinal(false, 10_000_000), Ok(String::from("एक करोड")));
    assert_eq!(np.int_to_cardinal(false, 1_000_000_000), Ok(String::from("एक अर्ब")));
    assert_eq!(np.int_to_cardinal(false, 100_000_000_000), Ok(String::from("एक खर्ब")));
}

#[test]
fn int_to_cardinal_names_every_populated_group() {
    let np = Nepali::new();
    assert_eq!(
        np.int_to_cardinal(false, 1234567),
        Ok(String::from("बाह्र लाख चौंतीस हजार पाँच सय सर्सठ्ठी"))
    );
    assert_eq!(
        np.int_to_cardinal(false, 9_999_999_999_999),
        Ok(String::from(
            "उनन्सय खर्ब उनन्सय अर्ब उनन्सय करोड उनन्सय लाख उनन्सय हजार नौ सय उनन्सय"
        ))
    );
}

#[test]
fn int_to_cardinal_puts_the_sign_first() {
    let np = Nepali::new();
    assert_eq!(np.int_to_cardinal(true, 42), Ok(String::from("- बयालीस")));
    let plain = np.int_to_cardinal(false, 1234567).unwrap();
    assert_eq!(np.int_to_cardinal(true, 1234567), Ok(format!("- {}", plain)));
}

#[test]
fn int_to_cardinal_refuses_what_has_no_scale_word() {
    let np = Nepali::new();
    assert_eq!(np.int_to_cardinal(false, 10_000_000_000_000), Err(Num2Err::CannotConvert));
    assert_eq!(np.int_to_cardinal(true, 10_000_000_000_000), Err(Num2Err::CannotConvert));
    assert_eq!(np.int_to_cardinal(false, u128::MAX), Err(Num2Err::CannotConvert));
}

#[test]
fn integer_words_are_the_tokens_of_the_phrase() {
    let np = Nepali::new();
    assert_eq!(np.integer_words(false, 4232), Ok(vec!["चार", "हजार", "दुई", "सय", "बत्तीस"]));
    assert_eq!(np.integer_words(true, 100), Ok(vec!["-", "एक", "सय"]));
    assert_eq!(np.integer_words(false, 0), Ok(vec!["शून्य"]));
    assert_eq!(np.integer_words(false, 10_000_000_000_000), Err(Num2Err::CannotConvert));
}

#[test]
fn to_cardinal_of_zero() {
    let np = Nepali::new();
    assert_eq!(np.to_cardinal(BigFloat::from(0)), Ok(String::from("शून्य")));
    assert_eq!(np.to_cardinal(BigFloat::new()), Ok(String::from("शून्य")));
    assert_eq!(np.to_cardinal(BigFloat::parse("-0.0").unwrap()), Ok(String::from("शून्य")));
}

#[test]
fn to_cardinal_of_whole_numbers() {
    let np = Nepali::new();
    assert_eq!(np.to_cardinal(BigFloat::from(7)), Ok(String::from("सात")));
    assert_eq!(np.to_cardinal(BigFloat::from(100)), Ok(String::from("एक सय")));
    assert_eq!(
        np.to_cardinal(BigFloat::from(1234567)),
        Ok(String::from("बाह्र लाख चौंतीस हजार पाँच सय सर्सठ्ठी"))
    );
    assert_eq!(np.to_cardinal(BigFloat::from(-42)), Ok(String::from("- बयालीस")));
}

#[test]
fn to_cardinal_of_a_negative_is_the_sign_and_the_positive() {
    let np = Nepali::new();
    for m in [1i64, 42, 100, 4232, 1234567, 9_999_999_999_999] {
        let positive = np.to_cardinal(BigFloat::from(m)).unwrap();
        assert_eq!(np.to_cardinal(BigFloat::from(-m)), Ok(format!("- {}", positive)));
    }
    let positive = np.to_cardinal(BigFloat::parse("12.34").unwrap()).unwrap();
    assert_eq!(np.to_cardinal(BigFloat::parse("-12.34").unwrap()), Ok(format!("- {}", positive)));
}

#[test]
fn to_cardinal_of_infinities() {
    let np = Nepali::new();
    assert_eq!(np.to_cardinal(num_bigfloat::INF_POS), Ok(String::from("अनन्त")));
    assert_eq!(np.to_cardinal(num_bigfloat::INF_NEG), Ok(String::from("-अनन्त")));
}

#[test]
fn to_cardinal_of_nan_is_refused() {
    assert_eq!(Nepali::new().to_cardinal(num_bigfloat::NAN), Err(Num2Err::CannotConvert));
}

#[test]
fn to_cardinal_reads_fraction_digits_one_by_one() {
    let np = Nepali::new();
    assert_eq!(
        np.to_cardinal(BigFloat::parse("12.34").unwrap()),
        Ok(String::from("बाह्र दशमलव तीन चार"))
    );
    assert_eq!(
        np.to_cardinal(BigFloat::parse("4232.105").unwrap()),
        Ok(String::from("चार हजार दुई सय बत्तीस दशमलव एक शून्य पाँच"))
    );
}

#[test]
fn to_cardinal_below_one_has_no_integer_word() {
    let np = Nepali::new();
    assert_eq!(np.to_cardinal(BigFloat::parse("0.5").unwrap()), Ok(String::from("दशमलव पाँच")));
    assert_eq!(
        np.to_cardinal(BigFloat::parse("0.05").unwrap()),
        Ok(String::from("दशमलव शून्य पाँच"))
    );
    assert_eq!(np.to_cardinal(BigFloat::parse("-0.5").unwrap()), Ok(String::from("- दशमलव पाँच")));
    assert_eq!(
        np.to_cardinal(BigFloat::parse("-3.5").unwrap()),
        Ok(String::from("- तीन दशमलव पाँच"))
    );
}

#[test]
fn to_cardinal_drops_trailing_zeros_of_the_fraction() {
    let np = Nepali::new();
    assert_eq!(np.to_cardinal(BigFloat::parse("2.50").unwrap()), Ok(String::from("दुई दशमलव पाँच")));
    assert_eq!(np.to_cardinal(BigFloat::parse("2.00").unwrap()), Ok(String::from("दुई")));
}

#[test]
fn to_cardinal_of_a_product() {
    let np = Nepali::new();
    let x = BigFloat::parse("1.5").unwrap().mul(&BigFloat::from(100));
    assert_eq!(np.to_cardinal(x), Ok(String::from("एक सय पचास")));
    let y = BigFloat::from(1).div(&BigFloat::from(8));
    assert_eq!(np.to_cardinal(y), Ok(String::from("दशमलव एक दुई पाँच")));
}

#[test]
fn to_cardinal_of_a_positive_exponent() {
    let np = Nepali::new();
    assert_eq!(np.to_cardinal(BigFloat::from_bytes(&[5], 1, 2)), Ok(String::from("पाँच सय")));
    assert_eq!(np.to_cardinal(BigFloat::parse("1e5").unwrap()), Ok(String::from("एक लाख")));
    assert_eq!(
        np.to_cardinal(BigFloat::from_bytes(&[1, 2], -1, 3)),
        Ok(String::from("- बाह्र हजार"))
    );
}

#[test]
fn to_cardinal_at_the_edge_of_the_range() {
    let np = Nepali::new();
    assert_eq!(
        np.to_cardinal(BigFloat::from(9_999_999_999_999u64)),
        Ok(String::from(
            "उनन्सय खर्ब उनन्सय अर्ब उनन्सय करोड उनन्सय लाख उनन्सय हजार नौ सय उनन्सय"
        ))
    );
    assert_eq!(
        np.to_cardinal(BigFloat::from(10_000_000_000_000u64)),
        Err(Num2Err::CannotConvert)
    );
    assert_eq!(
        np.to_cardinal(BigFloat::parse("10000000000000.5").unwrap()),
        Err(Num2Err::CannotConvert)
    );
    assert_eq!(np.to_cardinal(num_bigfloat::MAX), Err(Num2Err::CannotConvert));
    assert_eq!(np.to_cardinal(num_bigfloat::MIN), Err(Num2Err::CannotConvert));
    assert_eq!(np.to_cardinal(BigFloat::parse("1e100").unwrap()), Err(Num2Err::CannotConvert));
}

#[test]
fn to_cardinal_of_the_smallest_positive() {
    let np = Nepali::new();
    let phrase = np.to_cardinal(num_bigfloat::MIN_POSITIVE).unwrap();
    let tokens: Vec<&str> = phrase.split(' ').collect();
    assert_eq!(tokens.len(), 129);
    assert_eq!(tokens[0], "दशमलव");
    assert!(tokens[1..128].iter().all(|t| *t == "शून्य"));
    assert_eq!(tokens[128], "एक");
}

#[test]
fn to_ordinal_of_a_plain_rank() {
    let np = Nepali::new();
    assert_eq!(np.to_ordinal(BigFloat::from(1)), Ok(String::from("पहिलो")));
    assert_eq!(np.to_ordinal(BigFloat::from(5)), Ok(String::from("पाँचौँ")));
    assert_eq!(np.to_ordinal(BigFloat::from(10)), Ok(String::from("दसौँ")));
    assert_eq!(np.to_ordinal(BigFloat::from(99)), Ok(String::from("उनान्सयौँ")));
}

#[test]
fn to_ordinal_replaces_the_last_word() {
    let np = Nepali::new();
    assert_eq!(np.to_ordinal(BigFloat::from(101)), Ok(String::from("एक सय पहिलो")));
    assert_eq!(np.to_ordinal(BigFloat::from(1005)), Ok(String::from("एक हजार पाँचौँ")));
    assert_eq!(np.to_ordinal(BigFloat::from(4232)), Ok(String::from("चार हजार दुई सय बत्तिसौँ")));
    assert_eq!(
        np.to_ordinal(BigFloat::from(1234567)),
        Ok(String::from("बाह्र लाख चौंतीस हजार पाँच सय सतसट्ठिऔँ"))
    );
}

#[test]
fn to_ordinal_of_hundred_is_the_round_ordinal() {
    let np = Nepali::new();
    assert_eq!(np.to_ordinal(BigFloat::from(100)), Ok(String::from("एक सयौँ")));
    assert_eq!(np.to_ordinal(BigFloat::from(200)), Ok(String::from("दुई सयौँ")));
    assert_eq!(np.to_ordinal(BigFloat::from(1100)), Ok(String::from("एक हजार एक सयौँ")));
}

#[test]
fn to_ordinal_of_round_scale_values() {
    let np = Nepali::new();
    assert_eq!(np.to_ordinal(BigFloat::from(1000)), Ok(String::from("एक हजारौँ")));
    assert_eq!(np.to_ordinal(BigFloat::from(100000)), Ok(String::from("एक लाखौँ")));
    assert_eq!(np.to_ordinal(BigFloat::from(10_000_000)), Ok(String::from("एक करोडौँ")));
    assert_eq!(np.to_ordinal(BigFloat::from(50_000_000)), Ok(String::from("पाँच करोडौँ")));
}

#[test]
fn to_ordinal_without_a_round_ordinal_is_refused() {
    let np = Nepali::new();
    assert_eq!(np.to_ordinal(BigFloat::from(1_000_000_000)), Err(Num2Err::CannotConvert));
    assert_eq!(np.to_ordinal(BigFloat::from(100_000_000_000u64)), Err(Num2Err::CannotConvert));
    assert_eq!(
        np.to_ordinal(BigFloat::from(1_000_000_001)),
        Ok(String::from("एक अर्ब पहिलो"))
    );
}

#[test]
fn to_ordinal_of_zero_is_refused() {
    assert_eq!(Nepali::new().to_ordinal(BigFloat::from(0)), Err(Num2Err::CannotConvert));
}

#[test]
fn to_ordinal_out_of_range_is_refused() {
    let np = Nepali::new();
    assert_eq!(np.to_ordinal(BigFloat::from(10_000_000_000_001u64)), Err(Num2Err::CannotConvert));
    assert_eq!(np.to_ordinal(BigFloat::parse("1e50").unwrap()), Err(Num2Err::CannotConvert));
}

#[test]
fn to_ordinal_keeps_the_sign() {
    assert_eq!(Nepali::new().to_ordinal(BigFloat::from(-5)), Ok(String::from("- पाँचौँ")));
}

#[test]
fn to_ordinal_of_a_fraction_fails() {
    let np = Nepali::new();
    assert_eq!(np.to_ordinal(BigFloat::parse("1.5").unwrap()), Err(Num2Err::FloatingOrdinal));
    assert_eq!(np.to_ordinal(BigFloat::parse("-0.001").unwrap()), Err(Num2Err::FloatingOrdinal));
    assert_eq!(
        np.to_ordinal(BigFloat::parse("10000000000000.5").unwrap()),
        Err(Num2Err::FloatingOrdinal)
    );
}

#[test]
fn to_ordinal_of_what_is_not_finite_fails() {
    let np = Nepali::new();
    assert_eq!(np.to_ordinal(num_bigfloat::INF_POS), Err(Num2Err::FloatingOrdinal));
    assert_eq!(np.to_ordinal(num_bigfloat::INF_NEG), Err(Num2Err::FloatingOrdinal));
    assert_eq!(np.to_ordinal(num_bigfloat::NAN), Err(Num2Err::FloatingOrdinal));
}

#[test]
fn ordinal_words_end_in_an_ordinal() {
    let np = Nepali::new();
    assert_eq!(np.ordinal_words(false, 21), Ok(vec!["एक्काइसौँ"]));
    assert_eq!(np.ordinal_words(false, 121), Ok(vec!["एक", "सय", "एक्काइसौँ"]));
    assert_eq!(np.ordinal_words(true, 1000), Ok(vec!["-", "एक", "हजारौँ"]));
    assert_eq!(np.ordinal_words(false, 0), Err(Num2Err::CannotConvert));
}

#[test]
fn to_ordinal_num_is_not_supported() {
    let np = Nepali::new();
    assert_eq!(np.to_ordinal_num(BigFloat::from(1)), Err(Num2Err::CannotConvert));
    assert_eq!(np.to_ordinal_num(BigFloat::parse("2.5").unwrap()), Err(Num2Err::CannotConvert));
    assert_eq!(np.to_ordinal_num(num_bigfloat::INF_POS), Err(Num2Err::CannotConvert));
}

#[test]
fn to_year_ends_with_the_year_word() {
    let np = Nepali::new();
    assert_eq!(np.to_year(BigFloat::from(2024)), Ok(String::from("दुई हजार चौबीस साल")));
    assert_eq!(np.to_year(BigFloat::from(1999)), Ok(String::from("एक हजार नौ सय उनन्सय साल")));
    assert_eq!(np.to_year(BigFloat::from(0)), Ok(String::from("शून्य साल")));
    assert_eq!(np.to_year(BigFloat::from(-1)), Ok(String::from("- एक साल")));
}

#[test]
fn to_year_of_a_fraction_fails() {
    let np = Nepali::new();
    assert_eq!(np.to_year(BigFloat::parse("2024.5").unwrap()), Err(Num2Err::FloatingYear));
    assert_eq!(np.to_year(BigFloat::parse("0.1").unwrap()), Err(Num2Err::FloatingYear));
    assert_eq!(np.to_year(num_bigfloat::INF_POS), Err(Num2Err::FloatingYear));
    assert_eq!(np.to_year(num_bigfloat::NAN), Err(Num2Err::FloatingYear));
}

#[test]
fn to_year_out_of_range_is_refused() {
    assert_eq!(
        Nepali::new().to_year(BigFloat::from(10_000_000_000_000u64)),
        Err(Num2Err::CannotConvert)
    );
}

#[test]
fn scale_words_stand_only_by_populated_groups() {
    let np = Nepali::new();
    for n in [
        1u128, 99, 100, 101, 1000, 1001, 1100, 20_000, 100_000, 1_000_001, 10_050_000,
        1_234_567, 9_000_000_000, 100_000_000_000, 100_010_000_100, 9_999_999_999_999,
    ] {
        let groups = np.split_np(n);
        let tokens = np.integer_words(false, n).unwrap();
        for position in 1..=6usize {
            let populated = position < groups.len() && groups[position] != 0;
            assert_eq!(tokens.contains(&NP_SCALE[position - 1]), populated, "{} {}", n, position);
        }
        let populated_groups = groups.iter().filter(|g| **g != 0).count();
        let expected = 2 * populated_groups - if groups[0] != 0 { 1 } else { 0 };
        assert_eq!(tokens.len(), expected);
    }
}

#[test]
fn ordinals_end_in_the_ordinal_table() {
    let np = Nepali::new();
    for n in 1u128..3000 {
        let tokens = np.ordinal_words(false, n).unwrap();
        let last = tokens[tokens.len() - 1];
        assert!(NEPALI_ORDINALS.contains(&last), "{}", n);
        assert!(!UNITS.contains(&last), "{}", n);
        let cardinal = np.integer_words(false, n).unwrap();
        assert_eq!(tokens[..tokens.len() - 1], cardinal[..cardinal.len() - 1]);
    }
}

#[test]
fn tables_share_no_word() {
    for unit in UNITS.iter() {
        assert!(!NEPALI_ORDINALS.contains(unit));
        assert!(!NP_SCALE.contains(unit));
    }
    for scale in NP_SCALE.iter() {
        assert!(!NEPALI_ORDINALS.contains(scale));
    }
    assert_eq!(NEPALI_ORDINALS[98], "उनान्सयौँ");
    assert_eq!(NEPALI_ORDINALS[99], "सयौँ");
    assert_eq!(NEPALI_ORDINALS[102], "करोडौँ");
}

#[test]
fn years_end_with_the_year_token() {
    let np = Nepali::new();
    for n in [0i64, 1, 99, 100, 1999, 2024, 2081, -50, 9_999_999_999_999] {
        let cardinal = np.to_cardinal(BigFloat::from(n)).unwrap();
        assert_eq!(np.to_year(BigFloat::from(n)), Ok(format!("{} साल", cardinal)));
    }
}
