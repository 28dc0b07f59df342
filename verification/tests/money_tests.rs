use casino::money::{Money, ParseError, Ratio};

#[test]
fn from_major_is_exact_cents() {
    assert_eq!(Money::from_major(12).as_minor_units(), 1200);
    assert_eq!(Money::from_major(-3).as_minor_units(), -300);
    assert_eq!(Money::zero().as_minor_units(), 0);
}

#[test]
fn add_then_sub_returns_original() {
    let samples: Vec<i64> = vec![0, 1, 99, 100, 12_345, -12_345, 1_000_000_007];
    for a in samples.iter() {
        for b in samples.iter() {
            let ma = Money::from_minor_units(*a);
            let mb = Money::from_minor_units(*b);
            assert_eq!(ma.add(mb).sub(mb), ma);
        }
    }
}

#[test]
fn mul_by_one_is_identity() {
    let samples: Vec<i64> = vec![0, 1, 250, 12_345, -999];
    for a in samples.iter() {
        let m = Money::from_minor_units(*a);
        assert_eq!(m.mul_int(1), m);
    }
}

#[test]
fn div_rounds_half_up_to_cents() {
    // $10.00 over three: 333.33.. cents rounds down to $3.33
    assert_eq!(Money::from_major(10).div_int(3).as_minor_units(), 333);
    // 5 cents halved: 2.5 cents rounds up to 3
    assert_eq!(Money::from_minor_units(5).div_int(2).as_minor_units(), 3);
    assert_eq!(Money::from_minor_units(4).div_int(2).as_minor_units(), 2);
}

#[test]
fn ratio_multiplication_rounds_once_at_the_end() {
    let three_to_two = Ratio::new(3, 2);
    assert_eq!(
        Money::from_major(10).mul_ratio(three_to_two).as_minor_units(),
        1500
    );
    // 3 cents at 1/2: 1.5 rounds up to 2
    assert_eq!(
        Money::from_minor_units(3).mul_ratio(Ratio::new(1, 2)).as_minor_units(),
        2
    );
    // 35 cents at 2/3: 23.33.. rounds down to 23
    assert_eq!(
        Money::from_minor_units(35).mul_ratio(Ratio::new(2, 3)).as_minor_units(),
        23
    );
}

#[test]
fn checked_ops_reject_overflow() {
    let max = Money::from_minor_units(i64::MAX);
    assert!(max.checked_add(Money::from_minor_units(1)).is_none());
    assert!(max.checked_add(Money::from_minor_units(0)).is_some());
    assert!(max.checked_mul_int(2).is_none());
    assert_eq!(
        max.saturating_add(Money::from_minor_units(5)).as_minor_units(),
        i64::MAX
    );
}

#[test]
fn parse_reads_plain_decimals() {
    assert_eq!(Money::parse("12.50").unwrap().as_minor_units(), 1250);
    assert_eq!(Money::parse("12").unwrap().as_minor_units(), 1200);
    assert_eq!(Money::parse("0.05").unwrap().as_minor_units(), 5);
    assert_eq!(Money::parse("-3.25").unwrap().as_minor_units(), -325);
    assert_eq!(Money::parse("0").unwrap().as_minor_units(), 0);
}

#[test]
fn parse_rounds_half_up_at_two_places() {
    assert_eq!(Money::parse("1.005").unwrap().as_minor_units(), 101);
    assert_eq!(Money::parse("1.0049").unwrap().as_minor_units(), 100);
    assert_eq!(Money::parse("-0.005").unwrap().as_minor_units(), -1);
    assert_eq!(Money::parse("2.999").unwrap().as_minor_units(), 300);
}

#[test]
fn parse_rejects_malformed_text() {
    assert_eq!(Money::parse("abc"), Err(ParseError::Malformed));
    assert_eq!(Money::parse(""), Err(ParseError::Malformed));
    assert_eq!(Money::parse("1.2.3"), Err(ParseError::Malformed));
    assert_eq!(Money::parse("."), Err(ParseError::Malformed));
    assert_eq!(Money::parse("5."), Err(ParseError::Malformed));
    assert_eq!(Money::parse("-"), Err(ParseError::Malformed));
    assert_eq!(Money::parse("12,50"), Err(ParseError::Malformed));
    assert_eq!(Money::parse(" 12"), Err(ParseError::Malformed));
}

#[test]
fn parse_rejects_amounts_out_of_range() {
    assert_eq!(
        Money::parse("99999999999999999999999999"),
        Err(ParseError::OutOfRange)
    );
    // the largest representable amount still parses
    assert_eq!(
        Money::parse("92233720368547758.07").unwrap().as_minor_units(),
        i64::MAX
    );
    assert_eq!(Money::parse("92233720368547758.08"), Err(ParseError::OutOfRange));
}

#[test]
fn display_prints_currency_with_two_places() {
    assert_eq!(Money::from_minor_units(1250).to_display_string(), "$12.50");
    assert_eq!(Money::from_minor_units(5).to_display_string(), "$0.05");
    assert_eq!(Money::zero().to_display_string(), "$0.00");
    assert_eq!(Money::from_minor_units(-1250).to_display_string(), "$-12.50");
    assert_eq!(Money::from_major(1_000).to_display_string(), "$1000.00");
}

#[test]
fn comparisons_follow_the_amounts() {
    let a = Money::from_major(5);
    let b = Money::from_major(7);
    assert!(a < b);
    assert!(b >= a);
    assert!(a == Money::from_minor_units(500));
    assert!(a.is_sign_positive());
    assert!(!Money::from_minor_units(-1).is_sign_positive());
    assert!(Money::zero().is_zero());
}
