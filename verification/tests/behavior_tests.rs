use money::{Money, MoneyError};

#[test]
fn whole_amounts_render_with_two_zero_digits() {
    assert_eq!("0.00", Money::new_from_int(0).unwrap().to_text());
    assert_eq!("-42.00", Money::new_from_int(-42).unwrap().to_text());
    assert_eq!(
        "92233720368547758.00",
        Money::new_from_int(92233720368547758).unwrap().to_text()
    );
    assert_eq!(
        "-92233720368547758.00",
        Money::new_from_int(-92233720368547758).unwrap().to_text()
    );
}

#[test]
fn construction_overflows_just_past_the_bound() {
    assert_eq!(Err(MoneyError::Overflow), Money::new_from_int(92233720368547759));
    assert_eq!(Err(MoneyError::Overflow), Money::new_from_int(-92233720368547759));
    assert_eq!(Err(MoneyError::Overflow), Money::new_from_int(i64::MIN));
}

#[test]
fn small_magnitudes_keep_the_sign_before_the_whole_part() {
    assert_eq!("0.05", Money::from_str("0.05").unwrap().to_text());
    assert_eq!("-0.05", Money::from_str("-0.05").unwrap().to_text());
    assert_eq!("-0.50", Money::from_str("-.5").unwrap().to_text());
}

#[test]
fn short_fractional_parts_are_padded() {
    assert_eq!("12.00", Money::from_str("12.").unwrap().to_text());
    assert_eq!("12.50", Money::from_str("12.5").unwrap().to_text());
    assert_eq!("0.50", Money::from_str(".5").unwrap().to_text());
}

#[test]
fn a_bare_sign_parses_as_zero() {
    assert_eq!("0.00", Money::from_str("+").unwrap().to_text());
    assert_eq!("0.00", Money::from_str("-").unwrap().to_text());
    assert_eq!("5.00", Money::from_str("+5").unwrap().to_text());
}

#[test]
fn empty_input_is_its_own_error() {
    assert_eq!(Err(MoneyError::EmptyInput), Money::from_str(""));
}

#[test]
fn malformed_text_is_rejected() {
    assert_eq!(Err(MoneyError::MalformedInput), Money::from_str("12.345"));
    assert_eq!(Err(MoneyError::MalformedInput), Money::from_str("12..5"));
    assert_eq!(Err(MoneyError::MalformedInput), Money::from_str("1a2"));
    assert_eq!(Err(MoneyError::MalformedInput), Money::from_str("12.3.4"));
    assert_eq!(Err(MoneyError::MalformedInput), Money::from_str(" 12"));
}

#[test]
fn parsing_overflows_are_reported() {
    // Overflows while folding the nineteenth digit in.
    assert_eq!(Err(MoneyError::Overflow), Money::from_str("9223372036854775808"));
    // Fits while scanning, overflows while padding to two fractional digits.
    assert_eq!(Err(MoneyError::Overflow), Money::from_str("92233720368547759"));
    // The most negative amount's own text has a magnitude just out of range.
    assert_eq!(Err(MoneyError::Overflow), Money::from_str("-92233720368547758.08"));
}

#[test]
fn addition_of_parsed_amounts() {
    let a = Money::from_str("55.32").unwrap();
    let b = Money::from_str("12.00").unwrap();
    let c = Money::from_str("32.00").unwrap();
    assert_eq!("67.32", a.add(&b).unwrap().to_text());
    assert_eq!("87.32", a.add(&c).unwrap().to_text());

    let top = Money::from_str("92233720368547758.07").unwrap();
    let cent = Money::from_str("0.01").unwrap();
    assert_eq!(Err(MoneyError::Overflow), top.add(&cent));
}

#[test]
fn adding_raw_scaled_units() {
    let a = Money::from_str("1.00").unwrap();
    assert_eq!("1.50", a.add_scaled(50).unwrap().to_text());
    assert_eq!("0.75", a.add_scaled(-25).unwrap().to_text());

    let top = Money::from_str("92233720368547758.07").unwrap();
    assert_eq!(Err(MoneyError::Overflow), top.add_scaled(1));
}

#[test]
fn subtraction_of_parsed_amounts() {
    let a = Money::from_str("67.32").unwrap();
    let b = Money::from_str("12.00").unwrap();
    assert_eq!("55.32", a.sub(&b).unwrap().to_text());
    assert_eq!("-55.32", b.sub(&a).unwrap().to_text());

    let bottom = Money::from_str("-92233720368547758.07").unwrap();
    let two_cents = Money::from_str("0.02").unwrap();
    assert_eq!(Err(MoneyError::Overflow), bottom.sub(&two_cents));
}

#[test]
fn multiplication_is_over_the_scaled_amounts() {
    let a = Money::from_str("0.05").unwrap();
    let b = Money::from_str("0.03").unwrap();
    // 5 * 3 = 15 minor units: a literal product of the representations.
    assert_eq!("0.15", a.mul(&b).unwrap().to_text());

    let top = Money::from_str("92233720368547758.07").unwrap();
    assert_eq!(Err(MoneyError::Overflow), top.mul(&top));
}

#[test]
fn division_yields_a_ratio_and_rejects_zero() {
    let a = Money::from_str("5").unwrap();
    let zero = Money::from_str("0").unwrap();
    assert_eq!(Err(MoneyError::DivideByZero), a.div(&zero));

    let b = Money::from_str("2.50").unwrap();
    let r = a.div(&b).unwrap();
    assert_eq!(2.0_f64, r.numerator as f64 / r.denominator as f64);
}

#[test]
fn ordering_tracks_the_monetary_value() {
    let small = Money::from_str("1.50").unwrap();
    let big = Money::from_str("2.00").unwrap();
    let negative = Money::from_str("-3.00").unwrap();
    assert!(small < big);
    assert!(negative < small);
    assert!(big > negative);
    assert!(small <= small);
    assert_eq!(Money::from_str("12").unwrap(), Money::from_str("12.00").unwrap());
    assert!(Money::from_str("12").unwrap() != Money::from_str("12.01").unwrap());
}

#[test]
fn rendered_text_reparses_to_the_same_value() {
    let inputs = ["12.", "+5", "0", "-0.05", "92233720368547758.07", "-92233720368547758.07"];
    for s in inputs {
        let m = Money::from_str(s).unwrap();
        let rendered = m.to_text();
        let again = Money::from_str(&rendered).unwrap();
        assert_eq!(m, again);
    }
    // The rendering itself need not equal the original input.
    assert_eq!("12.00", Money::from_str("12.").unwrap().to_text());
    assert_eq!("5.00", Money::from_str("+5").unwrap().to_text());
}
