use bon_scanner::price::{
    find_digits_end, find_number_end, find_price, range_all_digits, Price, FRACTION_DIGITS,
    PRICE_SCALE, TOLERANCE,
};
use float_cmp::{ApproxEq, F64Margin};

fn as_float(p: Price) -> f64 {
    p.units as f64 / PRICE_SCALE as f64
}

#[test]
fn a_price_counts_ten_thousandths() {
    assert_eq!(PRICE_SCALE, 10_000);
    assert_eq!(FRACTION_DIGITS, 4);
    assert_eq!(TOLERANCE, PRICE_SCALE);
    assert_eq!(Price::new(24_900).units, 24_900);
}

#[test]
fn decimals_parse_exactly() {
    assert_eq!(Price::parse("2,49"), Some(Price { units: 24_900 }));
    assert_eq!(Price::parse("2.49"), Some(Price { units: 24_900 }));
    assert_eq!(Price::parse("3,1"), Some(Price { units: 31_000 }));
    assert_eq!(Price::parse("5"), Some(Price { units: 50_000 }));
    assert_eq!(Price::parse("0"), Some(Price { units: 0 }));
    assert_eq!(Price::parse("007,50"), Some(Price { units: 75_000 }));
    assert_eq!(Price::parse("1,4590"), Some(Price { units: 14_590 }));
    assert_eq!(Price::parse("0,0001"), Some(Price { units: 1 }));
    assert_eq!(Price::parse("-1,50"), Some(Price { units: -15_000 }));
    assert_eq!(Price::parse("-0"), Some(Price { units: 0 }));
    assert_eq!(as_float(Price::parse("2,49").unwrap()), 2.49);
}

#[test]
fn what_is_no_decimal_does_not_parse() {
    for text in [
        "", " ", "-", "abc", "2,", ",5", "2,4,9", "2..5", "1e3", "inf", "+1", " 1", "1 ", "--1",
        "1,-5", "2;49", "1,23456", "0,00001", "٣,٥",
    ] {
        assert_eq!(Price::parse(text), None, "{:?}", text);
    }
}

#[test]
fn the_largest_amounts() {
    assert_eq!(
        Price::parse("922337203685477,5807"),
        Some(Price { units: i64::MAX })
    );
    assert_eq!(Price::parse("922337203685477,5808"), None);
    assert_eq!(Price::parse("922337203685478"), None);
    assert_eq!(Price::parse("922337203685477"), Some(Price { units: 9_223_372_036_854_770_000 }));
    assert_eq!(Price::parse("99999999999999999999999999999999"), None);
    assert_eq!(
        Price::parse("-922337203685477,5807"),
        Some(Price { units: -i64::MAX })
    );
    assert_eq!(Price::parse("-922337203685477,5808"), None);
}

#[test]
fn prices_are_written_without_needless_zeros() {
    assert_eq!(Price { units: 24_900 }.to_string(), "2.49");
    assert_eq!(Price { units: 31_000 }.to_string(), "3.1");
    assert_eq!(Price { units: 50_000 }.to_string(), "5");
    assert_eq!(Price { units: 0 }.to_string(), "0");
    assert_eq!(Price { units: 1 }.to_string(), "0.0001");
    assert_eq!(Price { units: 10 }.to_string(), "0.001");
    assert_eq!(Price { units: 100 }.to_string(), "0.01");
    assert_eq!(Price { units: 1_000 }.to_string(), "0.1");
    assert_eq!(Price { units: 10_203 }.to_string(), "1.0203");
    assert_eq!(Price { units: 10_200 }.to_string(), "1.02");
    assert_eq!(Price { units: 1_200_000 }.to_string(), "120");
    assert_eq!(Price { units: -15_000 }.to_string(), "-1.5");
    assert_eq!(Price { units: -1 }.to_string(), "-0.0001");
    assert_eq!(Price { units: i64::MAX }.to_string(), "922337203685477.5807");
    assert_eq!(Price { units: i64::MIN }.to_string(), "-922337203685477.5808");
}

#[test]
fn what_is_written_parses_back() {
    let mut units: i64 = -25_000;
    while units <= 25_000 {
        let p = Price { units };
        assert_eq!(Price::parse(&p.to_string()), Some(p), "{}", units);
        units += 1;
    }
    for units in [i64::MAX, i64::MAX - 1, -i64::MAX, 9_999, 10_000, 10_001, 123_456_789_012] {
        let p = Price { units };
        assert_eq!(Price::parse(&p.to_string()), Some(p));
    }
    assert_eq!(Price::parse(&Price { units: i64::MIN }.to_string()), None);
}

#[test]
fn totals_reconcile_within_one_whole() {
    let reported = Price { units: 55_900 };
    assert!(reported.reconciles(55_900));
    assert!(reported.reconciles(45_900));
    assert!(reported.reconciles(65_900));
    assert!(!reported.reconciles(45_899));
    assert!(!reported.reconciles(65_901));
    assert!(Price { units: 0 }.reconciles(0));
    assert!(Price { units: 0 }.reconciles(-10_000));
    assert!(!Price { units: 0 }.reconciles(-10_001));
    assert!(!Price { units: i64::MAX }.reconciles(i128::MAX));
    assert!(!Price { units: i64::MIN }.reconciles(i128::MIN));
    assert!(Price { units: i64::MAX }.reconciles(i64::MAX as i128 + 10_000));
}

#[test]
fn reconciliation_agrees_with_the_tolerant_float_comparison() {
    let margin = F64Margin { ulps: 2, epsilon: 1.0 };
    let amounts: [i64; 9] = [0, 1, 4_900, 10_000, 24_900, 31_000, 55_900, 65_900, 1_000_000];
    for a in amounts {
        for b in amounts {
            let reported = Price { units: a };
            assert_eq!(
                reported.reconciles(b as i128),
                as_float(reported).approx_eq(b as f64 / 10_000.0, margin),
                "{} against {}",
                a,
                b
            );
        }
    }
}

#[test]
fn a_run_of_digits_ends_at_the_first_other_character() {
    let v: Vec<char> = "12,345 x".chars().collect();
    assert_eq!(find_digits_end(&v, 0), 2);
    assert_eq!(find_digits_end(&v, 1), 2);
    assert_eq!(find_digits_end(&v, 2), 2);
    assert_eq!(find_digits_end(&v, 3), 6);
    assert_eq!(find_digits_end(&v, 8), 8);
}

#[test]
fn the_first_price_of_a_text() {
    let find = |s: &str| find_price(&s.chars().collect::<Vec<char>>());
    assert_eq!(find("Milch 2,49"), Some(Price { units: 24_900 }));
    assert_eq!(find("12.34.56"), Some(Price { units: 123_400 }));
    assert_eq!(find("1.2.3"), Some(Price { units: 12_000 }));
    assert_eq!(find("3 x 1,20 3,60"), Some(Price { units: 12_000 }));
    assert_eq!(find("7 8 9,5"), Some(Price { units: 95_000 }));
    assert_eq!(find("2, 49"), None);
    assert_eq!(find("2 ,49"), None);
    assert_eq!(find(""), None);
    assert_eq!(find("1,23456 7,5"), None);
}

#[test]
fn a_number_may_be_written_in_any_script_but_is_read_from_0_to_9() {
    let v: Vec<char> = "1٣,٥0 x".chars().collect();
    assert_eq!(find_number_end(&v, 0), 2);
    assert_eq!(find_digits_end(&v, 0), 1);
    assert_eq!(find_number_end(&v, 3), 5);
    assert_eq!(find_number_end(&v, 5), 5);
    assert!(range_all_digits(&v, 0, 1));
    assert!(!range_all_digits(&v, 0, 2));
    assert!(range_all_digits(&v, 2, 2));
    assert!(!range_all_digits(&v, 3, 5));
    assert_eq!(find_price(&v), None);
    let w: Vec<char> = "٣ 2,5".chars().collect();
    assert_eq!(find_price(&w), Some(Price { units: 25_000 }));
}
