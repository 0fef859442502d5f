use money::{Money, MoneyError};

#[test]
fn test_create_from_small_int() {
    let money = Money::new_from_int(65).unwrap();
    assert_eq!("65.00", money.to_text())
}

#[test]
fn test_create_from_big_int() {
    let money = Money::new_from_int(9223372036854775800);
    assert_eq!(Err(MoneyError::Overflow), money)
}

#[test]
fn test_create_from_string() {
    let money: Money = Money::from_str("123").unwrap();
    assert_eq!("123.00", money.to_text());

    let money: Money = Money::from_str("123.0").unwrap();
    assert_eq!("123.00", money.to_text());

    let money = Money::from_str("-123.0").unwrap();
    assert_eq!("-123.00", money.to_text());

    let money = Money::from_str("92233720368547758.07").unwrap();
    assert_eq!("92233720368547758.07", money.to_text());

    let money = Money::from_str("+92233720368547758.07").unwrap();
    assert_eq!("92233720368547758.07", money.to_text());

    let money = Money::from_str("-92233720368547758.07").unwrap();
    assert_eq!("-92233720368547758.07", money.to_text());
}

#[test]
fn test_add_operation() {
    let money1 = Money::from_str("55.32").unwrap();
    let money2 = Money::from_str("12.").unwrap();
    let money3 = Money::from_str("32.").unwrap();

    assert_eq!("67.32", money1.add(&money2).unwrap().to_text());
    assert_eq!("87.32", money1.add(&money3).unwrap().to_text());
}

#[test]
fn test_div_operation() {
    let money1 = Money::from_str("20").unwrap();
    let money2 = Money::from_str("10").unwrap();

    let ratio = money1.div(&money2).unwrap();
    assert_eq!(2 as f64, ratio.numerator as f64 / ratio.denominator as f64)
}
