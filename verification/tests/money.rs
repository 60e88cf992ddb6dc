use num2words::{Currency, Decimal, Nepali, Num2Err, Number};
use num_bigfloat::BigFloat;

#[test]
fn to_currency_of_zero() {
    let np = Nepali::new();
    for currency in [Currency::NPR, Currency::INR, Currency::USD, Currency::EUR, Currency::GBP] {
        assert_eq!(np.to_currency(BigFloat::from(0), currency), Ok(String::from("शून्य रुपैयाँ")));
    }
}

#[test]
fn to_currency_of_whole_amounts() {
    let np = Nepali::new();
    assert_eq!(np.to_currency(BigFloat::from(5), Currency::NPR), Ok(String::from("पाँच रुपैयाँ")));
    assert_eq!(
        np.to_currency(BigFloat::from(4232), Currency::NPR),
        Ok(String::from("चार हजार दुई सय बत्तीस रुपैयाँ"))
    );
    assert_eq!(np.to_currency(BigFloat::from(-5), Currency::NPR), Ok(String::from("- पाँच रुपैयाँ")));
}

#[test]
fn to_currency_with_both_parts() {
    let np = Nepali::new();
    assert_eq!(
        np.to_currency(BigFloat::parse("12.34").unwrap(), Currency::NPR),
        Ok(String::from("बाह्र रुपैयाँ चौंतीस पैसा"))
    );
    assert_eq!(
        np.to_currency(BigFloat::parse("7.05").unwrap(), Currency::NPR),
        Ok(String::from("सात रुपैयाँ पाँच पैसा"))
    );
    assert_eq!(
        np.to_currency(BigFloat::parse("7.5").unwrap(), Currency::USD),
        Ok(String::from("सात रुपैयाँ पचास पैसा"))
    );
}

#[test]
fn to_currency_cuts_the_minor_units_off() {
    let np = Nepali::new();
    assert_eq!(
        np.to_currency(BigFloat::parse("1.999").unwrap(), Currency::NPR),
        Ok(String::from("एक रुपैयाँ उनन्सय पैसा"))
    );
    assert_eq!(
        np.to_currency(BigFloat::parse("12.349").unwrap(), Currency::NPR),
        Ok(String::from("बाह्र रुपैयाँ चौंतीस पैसा"))
    );
}

#[test]
fn to_currency_with_the_minor_part_alone() {
    let np = Nepali::new();
    assert_eq!(
        np.to_currency(BigFloat::parse("0.5").unwrap(), Currency::NPR),
        Ok(String::from("पचास पैसा"))
    );
    assert_eq!(
        np.to_currency(BigFloat::parse("0.01").unwrap(), Currency::NPR),
        Ok(String::from("एक पैसा"))
    );
}

#[test]
fn to_currency_without_minor_units_has_no_minor_phrase() {
    let np = Nepali::new();
    assert_eq!(
        np.to_currency(BigFloat::parse("3.001").unwrap(), Currency::NPR),
        Ok(String::from("तीन रुपैयाँ"))
    );
    assert_eq!(
        np.to_currency(BigFloat::parse("3.00").unwrap(), Currency::NPR),
        Ok(String::from("तीन रुपैयाँ"))
    );
}

#[test]
fn to_currency_below_one_minor_unit() {
    let np = Nepali::new();
    assert_eq!(
        np.to_currency(BigFloat::parse("0.001").unwrap(), Currency::NPR),
        Ok(String::from("शून्य रुपैयाँ"))
    );
    assert_eq!(
        np.to_currency(BigFloat::parse("-0.009").unwrap(), Currency::NPR),
        Ok(String::from("शून्य रुपैयाँ"))
    );
}

#[test]
fn to_currency_of_negative_amounts() {
    let np = Nepali::new();
    assert_eq!(
        np.to_currency(BigFloat::parse("-3.5").unwrap(), Currency::NPR),
        Ok(String::from("- तीन रुपैयाँ - पचास पैसा"))
    );
    assert_eq!(
        np.to_currency(BigFloat::parse("-0.5").unwrap(), Currency::NPR),
        Ok(String::from("- पचास पैसा"))
    );
}

#[test]
fn to_currency_of_infinities_has_no_unit() {
    let np = Nepali::new();
    assert_eq!(np.to_currency(num_bigfloat::INF_POS, Currency::NPR), Ok(String::from("अनन्त")));
    assert_eq!(np.to_currency(num_bigfloat::INF_NEG, Currency::NPR), Ok(String::from("-अनन्त")));
}

#[test]
fn to_currency_refusals() {
    let np = Nepali::new();
    assert_eq!(np.to_currency(num_bigfloat::NAN, Currency::NPR), Err(Num2Err::CannotConvert));
    assert_eq!(
        np.to_currency(BigFloat::from(10_000_000_000_000u64), Currency::NPR),
        Err(Num2Err::CannotConvert)
    );
    assert_eq!(
        np.to_currency(BigFloat::parse("10000000000000.25").unwrap(), Currency::NPR),
        Err(Num2Err::CannotConvert)
    );
}

#[test]
fn currency_words_of_a_decimal() {
    let np = Nepali::new();
    let amount = Decimal { negative: false, integer: vec![1, 2], fraction: vec![3, 4] };
    assert_eq!(
        np.currency_words(&amount),
        Ok(vec!["बाह्र", "रुपैयाँ", "चौंतीस", "पैसा"])
    );
    let cents = Decimal { negative: false, integer: vec![], fraction: vec![0, 7] };
    assert_eq!(np.currency_words(&cents), Ok(vec!["सात", "पैसा"]));
    let whole = Decimal { negative: true, integer: vec![9], fraction: vec![] };
    assert_eq!(np.currency_words(&whole), Ok(vec!["-", "नौ", "रुपैयाँ"]));
}

#[test]
fn currency_of_a_number() {
    let np = Nepali::new();
    let amount =
        Number::Finite(Decimal { negative: false, integer: vec![7], fraction: vec![0, 5] });
    assert_eq!(np.currency(&amount, Currency::NPR), Ok(String::from("सात रुपैयाँ पाँच पैसा")));
    assert_eq!(np.currency(&Number::NotANumber, Currency::NPR), Err(Num2Err::CannotConvert));
    assert_eq!(
        np.currency(&Number::Infinite { negative: true }, Currency::NPR),
        Ok(String::from("-अनन्त"))
    );
}
